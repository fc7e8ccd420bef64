//! Reading the vendor's download page.
//!
//! The page is an HTML document; the logic reads only two things from it:
//! candidate heading elements with their label text, and the hyperlinks of
//! the element that follows each heading. The scraper crate turns the
//! document into those plain values; everything downstream is verified.

use vstd::prelude::*;
use scraper::{ElementRef, Html, Selector};

verus! {

/// One hyperlink: its first text node and its destination, either of
/// which a malformed page may lack.
#[derive(Clone, Debug)]
pub struct Anchor {
    pub text: Option<String>,
    pub href: Option<String>,
}

/// One candidate heading: the texts composing its label, and the
/// hyperlinks of the element that follows it (`None` when no element
/// follows).
#[derive(Clone, Debug)]
pub struct AnchorSection {
    pub labels: Vec<String>,
    pub anchors: Option<Vec<Anchor>>,
}

pub struct AnchorValue {
    pub text: Option<Seq<char>>,
    pub href: Option<Seq<char>>,
}

pub struct SectionValue {
    pub labels: Seq<Seq<char>>,
    pub anchors: Option<Seq<AnchorValue>>,
}

pub open spec fn anchor_value(a: Anchor) -> AnchorValue {
    AnchorValue {
        text: match a.text {
            Some(t) => Some(t@),
            None => None,
        },
        href: match a.href {
            Some(h) => Some(h@),
            None => None,
        },
    }
}

pub open spec fn anchors_value(s: Seq<Anchor>) -> Seq<AnchorValue> {
    Seq::new(s.len(), |i: int| anchor_value(s[i]))
}

pub open spec fn section_value(s: AnchorSection) -> SectionValue {
    SectionValue {
        labels: Seq::new(s.labels@.len(), |i: int| s.labels@[i]@),
        anchors: match s.anchors {
            Some(v) => Some(anchors_value(v@)),
            None => None,
        },
    }
}

pub open spec fn sections_value(s: Seq<AnchorSection>) -> Seq<SectionValue> {
    Seq::new(s.len(), |i: int| section_value(s[i]))
}

/// What the current-downloads scan reads from a page: for each bold
/// centered heading element, its first text node (trimmed) and the
/// hyperlinks of its following sibling.
pub uninterp spec fn download_sections_of(html: Seq<char>) -> Seq<SectionValue>;

/// What the older-versions scan reads from a page: for each flex
/// container element, the trimmed first-grandchild text of each of its
/// children, and the hyperlinks of its following sibling.
pub uninterp spec fn legacy_sections_of(html: Seq<char>) -> Seq<SectionValue>;

/// Relies on scraper's HTML parsing, CSS selection and node navigation:
/// for each element matching the bold centered heading selector, reads
/// its first text node (trimmed by `str::trim`) and, from the element's
/// next sibling, every `a` element's first text and `href` attribute.
#[verifier::external_body]
pub(crate) fn scan_download_sections(html: &str) -> (r: Vec<AnchorSection>)
    ensures
        sections_value(r@) == download_sections_of(html@),
{
    let doc = Html::parse_document(html);
    let h = Selector::parse("div.text-center.mt-20.text-xl.font-bold").unwrap();
    let a = Selector::parse("a").unwrap();
    doc.select(&h).map(|e| AnchorSection {
        labels: e.first_child().and_then(|c| c.value().as_text()).map(|t| vec![t.trim().to_string()]).unwrap_or_default(),
        anchors: e.next_sibling().and_then(ElementRef::wrap).map(|t| t.select(&a).map(|l| Anchor {
            text: l.text().next().map(str::to_string),
            href: l.attr("href").map(str::to_string),
        }).collect()),
    }).collect()
}

/// Relies on scraper's HTML parsing, CSS selection and node navigation:
/// for each element matching the flex container selector, reads the
/// trimmed first-grandchild text of each child (empty when absent) and,
/// from the element's next sibling, every `a` element's first text and
/// `href` attribute.
#[verifier::external_body]
pub(crate) fn scan_legacy_sections(html: &str) -> (r: Vec<AnchorSection>)
    ensures
        sections_value(r@) == legacy_sections_of(html@),
{
    let doc = Html::parse_document(html);
    let h = Selector::parse(
        "div.flex.justify-center.items-center.flex-wrap.lg\\:px-5.relative.z-10.md\\:pt-40.pt-28",
    ).unwrap();
    let a = Selector::parse("a").unwrap();
    doc.select(&h).map(|e| AnchorSection {
        labels: e.children().map(|c| c.first_child().and_then(|g| g.value().as_text()).map(|t| t.trim().to_string()).unwrap_or_default()).collect(),
        anchors: e.next_sibling().and_then(ElementRef::wrap).map(|t| t.select(&a).map(|l| Anchor {
            text: l.text().next().map(str::to_string),
            href: l.attr("href").map(str::to_string),
        }).collect()),
    }).collect()
}

/// The label of a section: its texts concatenated in order.
pub open spec fn concat_labels(ls: Seq<Seq<char>>) -> Seq<char>
    decreases ls.len(),
{
    if ls.len() == 0 {
        Seq::empty()
    } else {
        concat_labels(ls.drop_last()) + ls.last()
    }
}

/// Concatenates a section's label texts.
pub fn section_label(labels: &Vec<String>) -> (r: String)
    ensures
        r@ == concat_labels(section_labels_value(labels@)),
{
    let mut out = String::new();
    let mut i: usize = 0;
    while i < labels.len()
        invariant
            i <= labels@.len(),
            out@ == concat_labels(section_labels_value(labels@).subrange(0, i as int)),
        decreases labels@.len() - i,
    {
        out.append(labels[i].as_str());
        proof {
            let lv = section_labels_value(labels@);
            assert(lv.subrange(0, i + 1 as int).drop_last() =~= lv.subrange(0, i as int));
            assert(lv.subrange(0, i + 1 as int).last() == labels@[i as int]@);
        }
        i += 1;
    }
    proof {
        let lv = section_labels_value(labels@);
        assert(lv.subrange(0, labels@.len() as int) =~= lv);
    }
    out
}

pub open spec fn section_labels_value(ls: Seq<String>) -> Seq<Seq<char>> {
    Seq::new(ls.len(), |i: int| ls[i]@)
}

/// Index of the first section whose label equals `label`, searching from
/// `from`.
pub open spec fn find_labeled_idx(secs: Seq<SectionValue>, label: Seq<char>, from: int) -> Option<
    int,
>
    decreases secs.len() - from when 0 <= from <= secs.len()
{
    if from >= secs.len() {
        None
    } else if concat_labels(secs[from].labels) == label {
        Some(from)
    } else {
        find_labeled_idx(secs, label, from + 1)
    }
}

/// Finds the first section whose concatenated label equals `label`.
pub fn find_labeled(secs: &Vec<AnchorSection>, label: &str) -> (r: Option<usize>)
    ensures
        match r {
            Some(i) => i < secs@.len() && find_labeled_idx(sections_value(secs@), label@, 0)
                == Some(i as int),
            None => find_labeled_idx(sections_value(secs@), label@, 0) is None,
        },
{
    let n = secs.len();
    let mut i: usize = 0;
    while i < n
        invariant
            i <= n,
            n == secs@.len(),
            find_labeled_idx(sections_value(secs@), label@, 0) == find_labeled_idx(
                sections_value(secs@),
                label@,
                i as int,
            ),
        decreases n - i,
    {
        let l = section_label(&secs[i].labels);
        proof {
            assert(sections_value(secs@)[i as int].labels =~= section_labels_value(
                secs@[i as int].labels@,
            ));
        }
        if crate::text::str_eq(l.as_str(), label) {
            return Some(i);
        }
        i += 1;
    }
    None
}

} // verus!
