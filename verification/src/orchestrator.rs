//! The installation orchestrator's state machine and single-flight slot.
//!
//! One installation attempt walks the stages initializing, downloading,
//! outer extraction, listing, installing, configuring, done; failure and
//! cancellation are terminal from any state. Progress events are emitted
//! along the transitions; a terminal state emits nothing further, so a
//! consumer never sees two terminal events. The attempt registry admits
//! at most one attempt at a time.

use vstd::prelude::*;
use crate::catalog::Edition;
use crate::errors::InstallError;

verus! {

/// A caller's installation request.
#[derive(Clone, Debug)]
pub struct InstallParams {
    pub edition: Edition,
    pub version: String,
    pub path: String,
    pub desktop_shortcut: bool,
    pub start_menu_shortcut: bool,
}

/// One progress event on the attempt's channel.
#[derive(Clone, Debug)]
pub enum ProgressEvent {
    Initializing,
    Downloading { progress: u64, total: u64 },
    Extracting { progress: u64, total: u64 },
    Installing { progress: u64, total: u64, current: String },
    Configuring,
    Done,
    Failed { message: String },
    Cancelled,
}

/// The stage an attempt is in.
#[derive(Clone, Copy, Debug, PartialEq, Eq, Structural)]
pub enum Stage {
    Initializing,
    Downloading,
    ExtractingOuter,
    Listing,
    Installing,
    Configuring,
    Done,
    Failed,
    Cancelled,
}

/// Terminal stages emit nothing further.
pub open spec fn is_terminal(s: Stage) -> bool {
    s == Stage::Done || s == Stage::Failed || s == Stage::Cancelled
}

/// What the driver reports to the state machine.
#[derive(Clone, Debug)]
pub enum FlowInput {
    /// The transfer starts; `total` is the server-declared length, zero
    /// when unknown.
    BeginDownload { total: u64 },
    /// A chunk of the body was written to the temporary file.
    Chunk { bytes: u64 },
    /// Outer extraction starts over `total` container entries.
    BeginOuter { total: u64 },
    /// One container entry was extracted.
    OuterEntry,
    /// The inner archive's contents are being listed.
    BeginListing,
    /// The archiver starts extracting `total` entries, `first` being the
    /// first listed name.
    BeginInstall { total: u64, first: String },
    /// The archiver reported one extracted entry.
    InstallEntry { name: String },
    /// Reconciliation and configuration begin.
    BeginConfigure,
    /// The attempt completed.
    Finish,
    /// The attempt failed with a rendered error message.
    Fail { message: String },
    /// The caller cancelled the attempt.
    Cancel,
}

/// Cumulative bytes after which another transfer event is emitted.
pub const DOWNLOAD_EMIT_THRESHOLD: u64 = 8 * 1024 * 1024;

/// One attempt's state: its stage and progress counters.
pub struct InstallFlow {
    pub stage: Stage,
    pub downloaded: u64,
    pub reported: u64,
    pub download_total: u64,
    pub outer_done: u64,
    pub outer_total: u64,
    pub installed: u64,
    pub install_total: u64,
}

pub open spec fn sat_add(a: u64, b: u64) -> u64 {
    if a + b > u64::MAX {
        u64::MAX
    } else {
        (a + b) as u64
    }
}

pub open spec fn initial_flow() -> InstallFlow {
    InstallFlow {
        stage: Stage::Initializing,
        downloaded: 0,
        reported: 0,
        download_total: 0,
        outer_done: 0,
        outer_total: 0,
        installed: 0,
        install_total: 0,
    }
}

/// The transition relation: the next state and the event emitted, if
/// any. Terminal states and stage-mismatched inputs change nothing and
/// emit nothing; a transfer chunk emits only when the bytes written
/// since the last emission exceed the threshold.
pub open spec fn spec_step(f: InstallFlow, inp: FlowInput) -> (InstallFlow, Option<ProgressEvent>) {
    if is_terminal(f.stage) {
        (f, None)
    } else {
        match inp {
            FlowInput::Cancel => (
                InstallFlow { stage: Stage::Cancelled, ..f },
                Some(ProgressEvent::Cancelled),
            ),
            FlowInput::Fail { message } => (
                InstallFlow { stage: Stage::Failed, ..f },
                Some(ProgressEvent::Failed { message }),
            ),
            FlowInput::BeginDownload { total } => if f.stage == Stage::Initializing {
                (
                    InstallFlow {
                        stage: Stage::Downloading,
                        downloaded: 0,
                        reported: 0,
                        download_total: total,
                        ..f
                    },
                    None,
                )
            } else {
                (f, None)
            },
            FlowInput::Chunk { bytes } => if f.stage == Stage::Downloading {
                let nd = sat_add(f.downloaded, bytes);
                if nd > f.reported && nd - f.reported > DOWNLOAD_EMIT_THRESHOLD {
                    (
                        InstallFlow { downloaded: nd, reported: nd, ..f },
                        Some(
                            ProgressEvent::Downloading {
                                progress: nd,
                                total: f.download_total,
                            },
                        ),
                    )
                } else {
                    (InstallFlow { downloaded: nd, ..f }, None)
                }
            } else {
                (f, None)
            },
            FlowInput::BeginOuter { total } => if f.stage == Stage::Downloading {
                (
                    InstallFlow {
                        stage: Stage::ExtractingOuter,
                        outer_done: 0,
                        outer_total: total,
                        ..f
                    },
                    Some(ProgressEvent::Extracting { progress: 0, total }),
                )
            } else {
                (f, None)
            },
            FlowInput::OuterEntry => if f.stage == Stage::ExtractingOuter {
                let nd = sat_add(f.outer_done, 1);
                (
                    InstallFlow { outer_done: nd, ..f },
                    Some(
                        ProgressEvent::Extracting { progress: nd, total: f.outer_total },
                    ),
                )
            } else {
                (f, None)
            },
            FlowInput::BeginListing => if f.stage == Stage::ExtractingOuter {
                (InstallFlow { stage: Stage::Listing, ..f }, None)
            } else {
                (f, None)
            },
            FlowInput::BeginInstall { total, first } => if f.stage == Stage::Listing {
                (
                    InstallFlow {
                        stage: Stage::Installing,
                        installed: 0,
                        install_total: total,
                        ..f
                    },
                    Some(
                        ProgressEvent::Installing { progress: 0, total, current: first },
                    ),
                )
            } else {
                (f, None)
            },
            FlowInput::InstallEntry { name } => if f.stage == Stage::Installing {
                let nd = sat_add(f.installed, 1);
                (
                    InstallFlow { installed: nd, ..f },
                    Some(
                        ProgressEvent::Installing {
                            progress: nd,
                            total: f.install_total,
                            current: name,
                        },
                    ),
                )
            } else {
                (f, None)
            },
            FlowInput::BeginConfigure => if f.stage == Stage::Installing {
                (
                    InstallFlow { stage: Stage::Configuring, ..f },
                    Some(ProgressEvent::Configuring),
                )
            } else {
                (f, None)
            },
            FlowInput::Finish => if f.stage == Stage::Configuring {
                (InstallFlow { stage: Stage::Done, ..f }, Some(ProgressEvent::Done))
            } else {
                (f, None)
            },
        }
    }
}

impl InstallFlow {
    /// Starts an attempt: the flow in its initial stage, and the event
    /// announcing it.
    pub fn begin() -> (r: (InstallFlow, ProgressEvent))
        ensures
            r.0 == initial_flow(),
            r.1 == ProgressEvent::Initializing,
    {
        (
            InstallFlow {
                stage: Stage::Initializing,
                downloaded: 0,
                reported: 0,
                download_total: 0,
                outer_done: 0,
                outer_total: 0,
                installed: 0,
                install_total: 0,
            },
            ProgressEvent::Initializing,
        )
    }

    /// Whether the attempt has ended.
    pub fn is_finished(&self) -> (r: bool)
        ensures
            r == is_terminal(self.stage),
    {
        match self.stage {
            Stage::Done => true,
            Stage::Failed => true,
            Stage::Cancelled => true,
            _ => false,
        }
    }

    /// Advances the state machine by one input, returning the event to
    /// emit, if any.
    pub fn step(&mut self, inp: FlowInput) -> (r: Option<ProgressEvent>)
        ensures
            *final(self) == spec_step(*old(self), inp).0,
            r == spec_step(*old(self), inp).1,
    {
        if self.is_finished() {
            return None;
        }
        match inp {
            FlowInput::Cancel => {
                self.stage = Stage::Cancelled;
                Some(ProgressEvent::Cancelled)
            },
            FlowInput::Fail { message } => {
                self.stage = Stage::Failed;
                Some(ProgressEvent::Failed { message })
            },
            FlowInput::BeginDownload { total } => {
                if self.stage == Stage::Initializing {
                    self.stage = Stage::Downloading;
                    self.downloaded = 0;
                    self.reported = 0;
                    self.download_total = total;
                }
                None
            },
            FlowInput::Chunk { bytes } => {
                if self.stage == Stage::Downloading {
                    let nd = if bytes > u64::MAX - self.downloaded {
                        u64::MAX
                    } else {
                        self.downloaded + bytes
                    };
                    self.downloaded = nd;
                    if nd > self.reported && nd - self.reported > DOWNLOAD_EMIT_THRESHOLD {
                        self.reported = nd;
                        Some(
                            ProgressEvent::Downloading {
                                progress: nd,
                                total: self.download_total,
                            },
                        )
                    } else {
                        None
                    }
                } else {
                    None
                }
            },
            FlowInput::BeginOuter { total } => {
                if self.stage == Stage::Downloading {
                    self.stage = Stage::ExtractingOuter;
                    self.outer_done = 0;
                    self.outer_total = total;
                    Some(ProgressEvent::Extracting { progress: 0, total })
                } else {
                    None
                }
            },
            FlowInput::OuterEntry => {
                if self.stage == Stage::ExtractingOuter {
                    let nd = if self.outer_done == u64::MAX {
                        u64::MAX
                    } else {
                        self.outer_done + 1
                    };
                    self.outer_done = nd;
                    Some(ProgressEvent::Extracting { progress: nd, total: self.outer_total })
                } else {
                    None
                }
            },
            FlowInput::BeginListing => {
                if self.stage == Stage::ExtractingOuter {
                    self.stage = Stage::Listing;
                }
                None
            },
            FlowInput::BeginInstall { total, first } => {
                if self.stage == Stage::Listing {
                    self.stage = Stage::Installing;
                    self.installed = 0;
                    self.install_total = total;
                    Some(ProgressEvent::Installing { progress: 0, total, current: first })
                } else {
                    None
                }
            },
            FlowInput::InstallEntry { name } => {
                if self.stage == Stage::Installing {
                    let nd = if self.installed == u64::MAX {
                        u64::MAX
                    } else {
                        self.installed + 1
                    };
                    self.installed = nd;
                    Some(
                        ProgressEvent::Installing {
                            progress: nd,
                            total: self.install_total,
                            current: name,
                        },
                    )
                } else {
                    None
                }
            },
            FlowInput::BeginConfigure => {
                if self.stage == Stage::Installing {
                    self.stage = Stage::Configuring;
                    Some(ProgressEvent::Configuring)
                } else {
                    None
                }
            },
            FlowInput::Finish => {
                if self.stage == Stage::Configuring {
                    self.stage = Stage::Done;
                    Some(ProgressEvent::Done)
                } else {
                    None
                }
            },
        }
    }
}

/// The state and emitted events after a whole run of inputs.
pub open spec fn run_flow(f: InstallFlow, inputs: Seq<FlowInput>) -> (
    InstallFlow,
    Seq<ProgressEvent>,
)
    decreases inputs.len(),
{
    if inputs.len() == 0 {
        (f, Seq::empty())
    } else {
        let prev = run_flow(f, inputs.drop_last());
        let stepped = spec_step(prev.0, inputs.last());
        (
            stepped.0,
            prev.1 + match stepped.1 {
                Some(e) => seq![e],
                None => Seq::empty(),
            },
        )
    }
}

/// From a terminal state, no input sequence changes the state or emits
/// an event.
pub proof fn lemma_terminal_absorbs(f: InstallFlow, inputs: Seq<FlowInput>)
    requires
        is_terminal(f.stage),
    ensures
        run_flow(f, inputs).0 == f,
        run_flow(f, inputs).1 == Seq::<ProgressEvent>::empty(),
    decreases inputs.len(),
{
    if inputs.len() > 0 {
        lemma_terminal_absorbs(f, inputs.drop_last());
        assert(run_flow(f, inputs).1 =~= Seq::<ProgressEvent>::empty());
    }
}

/// An event that ends the attempt.
pub open spec fn is_terminal_event(e: ProgressEvent) -> bool {
    e is Done || e is Failed || e is Cancelled
}

pub open spec fn count_terminal(evs: Seq<ProgressEvent>) -> int
    decreases evs.len(),
{
    if evs.len() == 0 {
        0
    } else {
        count_terminal(evs.drop_last()) + if is_terminal_event(evs.last()) {
            1int
        } else {
            0int
        }
    }
}

/// From a live state, a run emits no terminal event while it stays live,
/// and at most one ever: a consumer never receives two terminal events.
pub proof fn lemma_at_most_one_terminal(f: InstallFlow, inputs: Seq<FlowInput>)
    requires
        !is_terminal(f.stage),
    ensures
        !is_terminal(run_flow(f, inputs).0.stage) ==> count_terminal(run_flow(f, inputs).1) == 0,
        count_terminal(run_flow(f, inputs).1) <= 1,
    decreases inputs.len(),
{
    if inputs.len() > 0 {
        lemma_at_most_one_terminal(f, inputs.drop_last());
        let prev = run_flow(f, inputs.drop_last());
        let stepped = spec_step(prev.0, inputs.last());
        let evs = run_flow(f, inputs).1;
        if is_terminal(prev.0.stage) {
            assert(evs =~= prev.1);
        } else {
            match stepped.1 {
                Some(e) => {
                    assert(evs.drop_last() =~= prev.1);
                    assert(evs.last() == e);
                    assert(is_terminal_event(e) ==> is_terminal(stepped.0.stage));
                    assert(!is_terminal(stepped.0.stage) ==> !is_terminal_event(e));
                },
                None => {
                    assert(evs =~= prev.1);
                },
            }
        }
    }
}

/// The position of a stage in the attempt's progression; the terminal
/// stages rank last.
pub open spec fn stage_ord(s: Stage) -> int {
    match s {
        Stage::Initializing => 0,
        Stage::Downloading => 1,
        Stage::ExtractingOuter => 2,
        Stage::Listing => 3,
        Stage::Installing => 4,
        Stage::Configuring => 5,
        Stage::Done => 6,
        Stage::Failed => 6,
        Stage::Cancelled => 6,
    }
}

/// One step never moves the attempt to an earlier stage.
pub proof fn lemma_step_stage_monotonic(f: InstallFlow, inp: FlowInput)
    ensures
        stage_ord(spec_step(f, inp).0.stage) >= stage_ord(f.stage),
{
}

/// Along any run, the stage only advances: progress events arrive in
/// stage order, never out of sequence.
pub proof fn lemma_run_stage_monotonic(f: InstallFlow, inputs: Seq<FlowInput>)
    ensures
        stage_ord(run_flow(f, inputs).0.stage) >= stage_ord(f.stage),
    decreases inputs.len(),
{
    if inputs.len() > 0 {
        lemma_run_stage_monotonic(f, inputs.drop_last());
        lemma_step_stage_monotonic(run_flow(f, inputs.drop_last()).0, inputs.last());
    }
}

/// Cancelling a live download yields exactly one terminal event, the
/// cancellation itself, and no event of any kind afterwards: no
/// extraction or installation event can follow a cancellation.
pub proof fn lemma_cancel_mid_download(f: InstallFlow, later: Seq<FlowInput>)
    requires
        f.stage == Stage::Downloading,
    ensures
        spec_step(f, FlowInput::Cancel).1 == Some(ProgressEvent::Cancelled),
        spec_step(f, FlowInput::Cancel).0.stage == Stage::Cancelled,
        run_flow(spec_step(f, FlowInput::Cancel).0, later).1 == Seq::<ProgressEvent>::empty(),
{
    lemma_terminal_absorbs(spec_step(f, FlowInput::Cancel).0, later);
}

/// The single-flight slot: at most one attempt is outstanding.
pub struct AttemptRegistry {
    active: bool,
}

impl AttemptRegistry {
    /// Whether an attempt is outstanding.
    pub closed spec fn is_active(&self) -> bool {
        self.active
    }

    /// A fresh registry with no attempt outstanding.
    pub fn new() -> (r: AttemptRegistry)
        ensures
            !r.is_active(),
    {
        AttemptRegistry { active: false }
    }

    /// Claims the slot. While an attempt is active a new request is
    /// refused at once, before any transfer or file is begun.
    pub fn begin(&mut self) -> (r: Result<(), InstallError>)
        ensures
            old(self).is_active() ==> (r matches Err(e) && e == InstallError::AlreadyInProgress
                && final(self).is_active()),
            !old(self).is_active() ==> r is Ok && final(self).is_active(),
    {
        if self.active {
            Err(InstallError::AlreadyInProgress)
        } else {
            self.active = true;
            Ok(())
        }
    }

    /// Clears the slot after an attempt ends, however it ended.
    pub fn finish(&mut self)
        ensures
            !final(self).is_active(),
    {
        self.active = false;
    }

    /// Reports whether the slot is taken.
    pub fn in_progress(&self) -> (r: bool)
        ensures
            r == self.is_active(),
    {
        self.active
    }
}

/// The root of the same-volume temporary directory for a destination
/// path: its drive letter, or nothing for an empty path.
pub fn temp_root_for(install_dir: &str) -> (r: Option<String>)
    ensures
        install_dir@.len() == 0 ==> r is None,
        install_dir@.len() > 0 ==> (r matches Some(s) && s@ == install_dir@.subrange(0, 1)
            + ":\\"@),
{
    let n = install_dir.unicode_len();
    if n == 0 {
        None
    } else {
        let drive = install_dir.substring_char(0, 1);
        Some(String::from_str(drive).concat(":\\"))
    }
}

} // verus!
