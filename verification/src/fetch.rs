//! The fetch of one target, as a state machine.
//!
//! A fetch alternates between decisions, taken here, and outside work, done
//! by the caller: the caller asks for the pending [`Instruction`], carries
//! it out, and reports the result as a [`FetchEvent`].  The machine moves
//! through four working stages in a fixed order and ends in `Saved` or in
//! `Failed`; it never goes back and never retries.

use crate::status::{
    classify, is_error_status, status_failure, FetchError, IoStep, StatusClass, NOT_FOUND,
};
use crate::target::{DownloadTarget, TargetView};
use vstd::prelude::*;

verus! {

/// Where a fetch stands.  Each working stage names the outside work that is
/// pending.
#[derive(Clone, Copy, Debug, PartialEq, Eq, Structural)]
pub enum Stage {
    /// The GET has not been answered yet.
    Requesting,
    /// The response was accepted; the destination directory is to be made.
    CreatingDirectory,
    /// The directory exists; the destination file is to be created.
    CreatingFile,
    /// The file is open and empty; the body is to be copied into it.
    Copying,
    /// The whole body was copied: `bytes` is the count the copy reported.
    Saved { bytes: u64 },
    /// The fetch was given up.
    Failed { error: FetchError },
}

/// What the caller observed when it carried out an instruction.
#[derive(Clone, Copy, Debug, PartialEq, Eq, Structural)]
pub enum FetchEvent {
    /// The server answered with this status code.
    Responded { status: u16 },
    /// The request produced no response.
    TransportFailed,
    /// The destination directory exists now, newly made or not.
    DirectoryReady,
    /// The destination file was created, or truncated if it existed.
    FileCreated,
    /// The whole body was written; `bytes` is its length.
    Copied { bytes: u64 },
    /// The pending directory, file or copy operation failed.
    IoFailed,
}

/// The result of a finished fetch: the bytes saved, or the failure.
pub type Outcome = Result<u64, FetchError>;

/// Outside work for the caller to carry out.
#[derive(Clone, Debug, PartialEq, Eq)]
pub enum Instruction {
    /// Send a blocking GET to `address`.
    Get { address: String },
    /// Make `path` and its missing parents; an existing directory is fine.
    CreateDirectory { path: String },
    /// Create the file `path`, truncating it if it exists.
    CreateFile { path: String },
    /// Stream the response body into the file `path`, to its end.
    CopyBody { path: String },
    /// The fetch is over; there is nothing left to do.
    Stop,
}

/// An instruction with its address or path as a character sequence.
pub enum InstructionView {
    Get { address: Seq<char> },
    CreateDirectory { path: Seq<char> },
    CreateFile { path: Seq<char> },
    CopyBody { path: Seq<char> },
    Stop,
}

impl View for Instruction {
    type V = InstructionView;

    open spec fn view(&self) -> InstructionView {
        match self {
            Instruction::Get { address } => InstructionView::Get { address: address@ },
            Instruction::CreateDirectory { path } => InstructionView::CreateDirectory {
                path: path@,
            },
            Instruction::CreateFile { path } => InstructionView::CreateFile { path: path@ },
            Instruction::CopyBody { path } => InstructionView::CopyBody { path: path@ },
            Instruction::Stop => InstructionView::Stop,
        }
    }
}

impl Stage {
    /// `Saved` and `Failed` are final.
    pub open spec fn is_terminal(self) -> bool {
        self is Saved || self is Failed
    }

    /// The stage that follows when `event` is reported.
    ///
    /// An event that does not answer the pending instruction changes
    /// nothing, so a final stage stays what it is.
    pub open spec fn next(self, event: FetchEvent) -> Stage {
        match (self, event) {
            (Stage::Requesting, FetchEvent::Responded { status }) => match status_failure(status) {
                Some(error) => Stage::Failed { error },
                None => Stage::CreatingDirectory,
            },
            (Stage::Requesting, FetchEvent::TransportFailed) => Stage::Failed {
                error: FetchError::Transport,
            },
            (Stage::CreatingDirectory, FetchEvent::DirectoryReady) => Stage::CreatingFile,
            (Stage::CreatingDirectory, FetchEvent::IoFailed) => Stage::Failed {
                error: FetchError::LocalIo { step: IoStep::CreateDirectory },
            },
            (Stage::CreatingFile, FetchEvent::FileCreated) => Stage::Copying,
            (Stage::CreatingFile, FetchEvent::IoFailed) => Stage::Failed {
                error: FetchError::LocalIo { step: IoStep::CreateFile },
            },
            (Stage::Copying, FetchEvent::Copied { bytes }) => Stage::Saved { bytes },
            (Stage::Copying, FetchEvent::IoFailed) => Stage::Failed {
                error: FetchError::LocalIo { step: IoStep::CopyBody },
            },
            _ => self,
        }
    }

    /// The stage reached from `self` when `events` are reported in order.
    pub open spec fn run(self, events: Seq<FetchEvent>) -> Stage
        decreases events.len(),
    {
        if events.len() == 0 {
            self
        } else {
            self.run(events.drop_last()).next(events.last())
        }
    }

    /// The result of the fetch, once it is over.
    pub open spec fn outcome(self) -> Option<Outcome> {
        match self {
            Stage::Saved { bytes } => Some(Ok(bytes)),
            Stage::Failed { error } => Some(Err(error)),
            _ => None,
        }
    }

    /// The instruction that is pending for `target` at this stage.
    pub open spec fn instruction(self, target: TargetView) -> InstructionView {
        match self {
            Stage::Requesting => InstructionView::Get { address: target.remote_address() },
            Stage::CreatingDirectory => InstructionView::CreateDirectory {
                path: target.local_directory(),
            },
            Stage::CreatingFile => InstructionView::CreateFile { path: target.local_path() },
            Stage::Copying => InstructionView::CopyBody { path: target.local_path() },
            Stage::Saved { .. } | Stage::Failed { .. } => InstructionView::Stop,
        }
    }

    /// Whether the pending instruction creates or fills the destination file.
    pub open spec fn writes_file(self) -> bool {
        self is CreatingFile || self is Copying
    }
}

/// Decides the next stage from the current one and the reported event.
pub fn step(stage: Stage, event: FetchEvent) -> (next: Stage)
    ensures
        next == stage.next(event),
{
    match stage {
        Stage::Requesting => match event {
            FetchEvent::Responded { status } => match classify(status) {
                StatusClass::Accepted => Stage::CreatingDirectory,
                StatusClass::NotFound => Stage::Failed { error: FetchError::NotFound },
                StatusClass::Rejected => Stage::Failed { error: FetchError::HttpStatus { status } },
            },
            FetchEvent::TransportFailed => Stage::Failed { error: FetchError::Transport },
            _ => stage,
        },
        Stage::CreatingDirectory => match event {
            FetchEvent::DirectoryReady => Stage::CreatingFile,
            FetchEvent::IoFailed => Stage::Failed {
                error: FetchError::LocalIo { step: IoStep::CreateDirectory },
            },
            _ => stage,
        },
        Stage::CreatingFile => match event {
            FetchEvent::FileCreated => Stage::Copying,
            FetchEvent::IoFailed => Stage::Failed {
                error: FetchError::LocalIo { step: IoStep::CreateFile },
            },
            _ => stage,
        },
        Stage::Copying => match event {
            FetchEvent::Copied { bytes } => Stage::Saved { bytes },
            FetchEvent::IoFailed => Stage::Failed {
                error: FetchError::LocalIo { step: IoStep::CopyBody },
            },
            _ => stage,
        },
        Stage::Saved { .. } | Stage::Failed { .. } => stage,
    }
}

/// A fetch in progress: its target and the stage it has reached.
#[derive(Clone, Debug, PartialEq, Eq)]
pub struct Fetch {
    pub target: DownloadTarget,
    pub stage: Stage,
}

/// A fetch with its target as character sequences.
pub struct FetchView {
    pub target: TargetView,
    pub stage: Stage,
}

impl View for Fetch {
    type V = FetchView;

    open spec fn view(&self) -> FetchView {
        FetchView { target: self.target@, stage: self.stage }
    }
}

impl Fetch {
    /// A fetch of `target` that has yet to send its request.
    pub fn start(target: DownloadTarget) -> (fetch: Fetch)
        ensures
            fetch.target == target,
            fetch.stage == Stage::Requesting,
    {
        Fetch { target, stage: Stage::Requesting }
    }

    /// The outside work that is pending, with the address or path it
    /// applies to.
    pub fn instruction(&self) -> (instruction: Instruction)
        ensures
            instruction@ == self.stage.instruction(self.target@),
    {
        match self.stage {
            Stage::Requesting => Instruction::Get { address: self.target.remote_address() },
            Stage::CreatingDirectory => Instruction::CreateDirectory {
                path: self.target.local_directory(),
            },
            Stage::CreatingFile => Instruction::CreateFile { path: self.target.local_path() },
            Stage::Copying => Instruction::CopyBody { path: self.target.local_path() },
            Stage::Saved { .. } | Stage::Failed { .. } => Instruction::Stop,
        }
    }

    /// Takes in the result of the pending instruction and returns the
    /// instruction that is pending afterwards.
    pub fn advance(&mut self, event: FetchEvent) -> (instruction: Instruction)
        ensures
            final(self).target == old(self).target,
            final(self).stage == old(self).stage.next(event),
            instruction@ == final(self).stage.instruction(final(self).target@),
    {
        self.stage = step(self.stage, event);
        self.instruction()
    }

    /// The result of the fetch: `None` while work is pending.
    pub fn outcome(&self) -> (outcome: Option<Outcome>)
        ensures
            outcome == self.stage.outcome(),
    {
        match self.stage {
            Stage::Saved { bytes } => Some(Ok(bytes)),
            Stage::Failed { error } => Some(Err(error)),
            _ => None,
        }
    }
}

/// Reporting `first` and then `rest` is reporting them all in one go.
pub proof fn run_in_two_parts(stage: Stage, first: Seq<FetchEvent>, rest: Seq<FetchEvent>)
    ensures
        stage.run(first + rest) == stage.run(first).run(rest),
    decreases rest.len(),
{
    if rest.len() == 0 {
        assert(first + rest =~= first);
    } else {
        run_in_two_parts(stage, first, rest.drop_last());
        assert((first + rest).drop_last() =~= first + rest.drop_last());
    }
}

/// A final stage never changes, whatever is reported afterwards.
pub proof fn terminal_stage_is_final(stage: Stage, events: Seq<FetchEvent>)
    requires
        stage.is_terminal(),
    ensures
        stage.run(events) == stage,
    decreases events.len(),
{
    if events.len() > 0 {
        terminal_stage_is_final(stage, events.drop_last());
    }
}

/// The stages are passed in order.  A stage is left only on an event that
/// answers its instruction: for the next working stage when the event
/// reports success, for `Failed` otherwise, and every failure is well
/// formed.
pub proof fn stages_advance_in_order(stage: Stage, event: FetchEvent)
    ensures
        stage.next(event) != stage ==> match stage.next(event) {
            Stage::Requesting => false,
            Stage::CreatingDirectory => {
                &&& stage is Requesting
                &&& event matches FetchEvent::Responded { status } && !is_error_status(status)
            },
            Stage::CreatingFile => stage is CreatingDirectory && event is DirectoryReady,
            Stage::Copying => stage is CreatingFile && event is FileCreated,
            Stage::Saved { bytes } => stage is Copying && event == (FetchEvent::Copied { bytes }),
            Stage::Failed { error } => error.well_formed() && match error {
                FetchError::Transport => stage is Requesting && event is TransportFailed,
                FetchError::NotFound => {
                    &&& stage is Requesting
                    &&& event == (FetchEvent::Responded { status: NOT_FOUND })
                },
                FetchError::HttpStatus { status } => {
                    &&& stage is Requesting
                    &&& event == (FetchEvent::Responded { status })
                },
                FetchError::LocalIo { step } => event is IoFailed && match step {
                    IoStep::CreateDirectory => stage is CreatingDirectory,
                    IoStep::CreateFile => stage is CreatingFile,
                    IoStep::CopyBody => stage is Copying,
                },
            },
        },
{
}

/// A response with an error status ends the fetch at once: with `NotFound`
/// for 404, with `HttpStatus` for any other.  From then on no instruction
/// is pending, so nothing is written for this target, whatever follows.
pub proof fn error_status_ends_fetch(target: TargetView, status: u16, later: Seq<FetchEvent>)
    requires
        is_error_status(status),
    ensures
        ({
            let end = Stage::Requesting.run(seq![FetchEvent::Responded { status }] + later);
            &&& end == Stage::Failed { error: status_failure(status)->0 }
            &&& status == NOT_FOUND <==> end == Stage::Failed { error: FetchError::NotFound }
            &&& end.instruction(target) == InstructionView::Stop
            &&& !end.writes_file()
        }),
{
    let first = seq![FetchEvent::Responded { status }];
    run_in_two_parts(Stage::Requesting, first, later);
    assert(first.drop_last() =~= Seq::<FetchEvent>::empty());
    assert(Stage::Requesting.run(first) == Stage::Requesting.run(first.drop_last()).next(
        first.last(),
    ));
    terminal_stage_is_final(Stage::Requesting.run(first), later);
}

/// A request that gets no response ends the fetch at once with
/// `Transport`.  From then on no instruction is pending, so nothing is
/// written for this target, whatever follows.
pub proof fn transport_failure_ends_fetch(target: TargetView, later: Seq<FetchEvent>)
    ensures
        ({
            let end = Stage::Requesting.run(seq![FetchEvent::TransportFailed] + later);
            &&& end == Stage::Failed { error: FetchError::Transport }
            &&& end.instruction(target) == InstructionView::Stop
            &&& !end.writes_file()
        }),
{
    let first = seq![FetchEvent::TransportFailed];
    run_in_two_parts(Stage::Requesting, first, later);
    assert(first.drop_last() =~= Seq::<FetchEvent>::empty());
    assert(Stage::Requesting.run(first) == Stage::Requesting.run(first.drop_last()).next(
        first.last(),
    ));
    terminal_stage_is_final(Stage::Requesting.run(first), later);
}

/// A fetch gets past its request, and so to the destination file, only
/// after a response with a status that is no error was reported while the
/// request was pending.
pub proof fn file_written_only_after_accepted_response(events: Seq<FetchEvent>) -> (at: int)
    requires
        ({
            let reached = Stage::Requesting.run(events);
            reached is CreatingDirectory || reached.writes_file() || reached is Saved
        }),
    ensures
        0 <= at < events.len(),
        Stage::Requesting.run(events.take(at)) is Requesting,
        events[at] matches FetchEvent::Responded { status } && !is_error_status(status),
    decreases events.len(),
{
    let before = Stage::Requesting.run(events.drop_last());
    stages_advance_in_order(before, events.last());
    if before is Requesting {
        assert(events.take(events.len() - 1) =~= events.drop_last());
        events.len() - 1
    } else {
        let at = file_written_only_after_accepted_response(events.drop_last());
        assert(events.take(at) =~= events.drop_last().take(at));
        at
    }
}

/// A fetch ends in `Saved` only after all four instructions succeeded in
/// order, and the byte count it holds is the one that the copy reported.
pub proof fn saved_only_after_full_copy(events: Seq<FetchEvent>, bytes: u64) -> (at: int)
    requires
        Stage::Requesting.run(events) == (Stage::Saved { bytes }),
    ensures
        0 <= at < events.len(),
        Stage::Requesting.run(events.take(at)) is Copying,
        events[at] == (FetchEvent::Copied { bytes }),
    decreases events.len(),
{
    let before = Stage::Requesting.run(events.drop_last());
    stages_advance_in_order(before, events.last());
    if before is Copying {
        assert(events.take(events.len() - 1) =~= events.drop_last());
        events.len() - 1
    } else {
        let at = saved_only_after_full_copy(events.drop_last(), bytes);
        assert(events.take(at) =~= events.drop_last().take(at));
        at
    }
}

/// When every instruction succeeds, four events take the fetch from the
/// request to `Saved`, with the byte count of the copy.
pub proof fn four_successes_save(status: u16, bytes: u64)
    requires
        !is_error_status(status),
    ensures
        Stage::Requesting.run(
            seq![
                FetchEvent::Responded { status },
                FetchEvent::DirectoryReady,
                FetchEvent::FileCreated,
                FetchEvent::Copied { bytes },
            ],
        ) == (Stage::Saved { bytes }),
{
    let events = seq![
        FetchEvent::Responded { status },
        FetchEvent::DirectoryReady,
        FetchEvent::FileCreated,
        FetchEvent::Copied { bytes },
    ];
    reveal_with_fuel(Stage::run, 5);
    assert(events.drop_last() =~= seq![
        FetchEvent::Responded { status },
        FetchEvent::DirectoryReady,
        FetchEvent::FileCreated,
    ]);
    assert(events.drop_last().drop_last() =~= seq![
        FetchEvent::Responded { status },
        FetchEvent::DirectoryReady,
    ]);
    assert(events.drop_last().drop_last().drop_last() =~= seq![FetchEvent::Responded { status }]);
    assert(events.drop_last().drop_last().drop_last().drop_last() =~= Seq::<FetchEvent>::empty());
}

} // verus!
