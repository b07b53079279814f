//! A model of what a fetch acts on: the server it reads from and the disk
//! it writes to.
//!
//! The library itself never reaches either one.  This module says what it
//! means for a caller to carry out an instruction, and proves what every
//! fetch and every batch then does to the disk, whichever way the outside
//! work turns out.  Nothing here is executable.

use crate::batch::{BatchStatus, BatchView};
use crate::fetch::{FetchEvent, InstructionView, Outcome, Stage};
use crate::status::{is_error_status, FetchError, IoStep, NOT_FOUND};
use crate::target::{local_path_names_one_identifier, TargetView};
use vstd::prelude::*;

verus! {

/// What the server holds at one address.
pub struct Resource {
    pub status: u16,
    pub body: Seq<u8>,
}

/// The server: the resource at every address that answers.  An address
/// that is not in the map cannot be reached.
pub type Remote = Map<Seq<char>, Resource>;

/// The disk: the content of every file, by path.
pub type Disk = Map<Seq<char>, Seq<u8>>;

/// One instruction carried out: the event reported for it, and the disk as
/// it was afterwards.
pub struct Step {
    pub event: FetchEvent,
    pub disk: Disk,
}

/// Whether carrying out `instruction` for `target` on the disk `before` may
/// be reported as `event` and leave the disk as `after`.
///
/// A request is answered exactly by the addresses the server holds.  Each
/// local operation may succeed or fail.  A file that is created is empty; a
/// copy appends the body of the response to it, and a copy that fails may
/// have appended any part of it.
pub open spec fn performs(
    remote: Remote,
    target: TargetView,
    before: Disk,
    instruction: InstructionView,
    event: FetchEvent,
    after: Disk,
) -> bool {
    match instruction {
        InstructionView::Get { address } => {
            &&& after == before
            &&& if remote.contains_key(address) {
                event == (FetchEvent::Responded { status: remote[address].status })
            } else {
                event is TransportFailed
            }
        },
        InstructionView::CreateDirectory { path } => {
            &&& after == before
            &&& event is DirectoryReady || event is IoFailed
        },
        InstructionView::CreateFile { path } => {
            ||| event is FileCreated && after == before.insert(path, Seq::empty())
            ||| event is IoFailed && after == before
        },
        InstructionView::CopyBody { path } => {
            let body = remote[target.remote_address()].body;
            ||| event == (FetchEvent::Copied { bytes: body.len() as u64 }) && body.len()
                <= u64::MAX && after == before.insert(path, before[path] + body)
            ||| event is IoFailed && exists|part: int|
                0 <= part <= body.len() && after == before.insert(
                    path,
                    before[path] + #[trigger] body.take(part),
                )
        },
        InstructionView::Stop => false,
    }
}

/// The events of `steps`, in order.
pub open spec fn events_of(steps: Seq<Step>) -> Seq<FetchEvent> {
    steps.map_values(|step: Step| step.event)
}

/// The stage a fetch has reached after `steps`.
pub open spec fn stage_after(steps: Seq<Step>) -> Stage {
    Stage::Requesting.run(events_of(steps))
}

/// The disk after `steps`, which began on the disk `start`.
pub open spec fn disk_after(start: Disk, steps: Seq<Step>) -> Disk {
    if steps.len() == 0 {
        start
    } else {
        steps.last().disk
    }
}

/// Whether `steps` is a fetch of `target` as it may unfold from the disk
/// `start`: each step carries out the instruction that the library had
/// pending at that point, and reports it truthfully.
pub open spec fn unfolds(remote: Remote, target: TargetView, start: Disk, steps: Seq<Step>) -> bool
    decreases steps.len(),
{
    steps.len() > 0 ==> {
        let earlier = steps.drop_last();
        &&& unfolds(remote, target, start, earlier)
        &&& performs(
            remote,
            target,
            disk_after(start, earlier),
            stage_after(earlier).instruction(target),
            steps.last().event,
            steps.last().disk,
        )
    }
}

/// What is true of the disk at each stage of a fetch of `target` that began
/// on the disk `start`.
///
/// Up to the creation of the file the disk is untouched.  While the body is
/// copied the file is empty; once the fetch is saved the file holds the
/// whole body and nothing else, and the byte count is the length of the
/// body.  A fetch that failed before the file was created left the disk as
/// it was; one that failed during the copy left a part of the body.
pub open spec fn disk_at_stage(
    remote: Remote,
    target: TargetView,
    start: Disk,
    stage: Stage,
    disk: Disk,
) -> bool {
    let address = target.remote_address();
    let path = target.local_path();
    let accepted = remote.contains_key(address) && !is_error_status(remote[address].status);
    match stage {
        Stage::Requesting => disk == start,
        Stage::CreatingDirectory | Stage::CreatingFile => accepted && disk == start,
        Stage::Copying => accepted && disk == start.insert(path, Seq::empty()),
        Stage::Saved { bytes } => {
            &&& accepted
            &&& disk == start.insert(path, remote[address].body)
            &&& bytes == remote[address].body.len()
        },
        Stage::Failed { error } => match error {
            FetchError::Transport => !remote.contains_key(address) && disk == start,
            FetchError::NotFound => {
                &&& remote.contains_key(address)
                &&& remote[address].status == NOT_FOUND
                &&& disk == start
            },
            FetchError::HttpStatus { status } => {
                &&& remote.contains_key(address)
                &&& remote[address].status == status
                &&& is_error_status(status)
                &&& status != NOT_FOUND
                &&& disk == start
            },
            FetchError::LocalIo { step: IoStep::CreateDirectory } => accepted && disk == start,
            FetchError::LocalIo { step: IoStep::CreateFile } => accepted && disk == start,
            FetchError::LocalIo { step: IoStep::CopyBody } => {
                &&& accepted
                &&& exists|part: int|
                    0 <= part <= remote[address].body.len() && disk == start.insert(
                        path,
                        #[trigger] remote[address].body.take(part),
                    )
            },
        },
    }
}

/// Dropping the last step drops the last event.
pub proof fn events_of_earlier_steps(steps: Seq<Step>)
    requires
        steps.len() > 0,
    ensures
        events_of(steps.drop_last()) == events_of(steps).drop_last(),
        events_of(steps).last() == steps.last().event,
        stage_after(steps) == stage_after(steps.drop_last()).next(steps.last().event),
{
    assert(events_of(steps.drop_last()) =~= events_of(steps).drop_last());
}

/// One step keeps `disk_at_stage` true.
pub proof fn step_keeps_disk_at_stage(
    remote: Remote,
    target: TargetView,
    start: Disk,
    stage: Stage,
    before: Disk,
    event: FetchEvent,
    after: Disk,
)
    requires
        disk_at_stage(remote, target, start, stage, before),
        performs(remote, target, before, stage.instruction(target), event, after),
    ensures
        disk_at_stage(remote, target, start, stage.next(event), after),
{
    let address = target.remote_address();
    let path = target.local_path();
    let body = remote[address].body;
    match stage {
        Stage::CreatingFile => {},
        Stage::Copying => {
            let empty = Seq::<u8>::empty();
            assert(before[path] == empty);
            if event is IoFailed {
                let part = choose|part: int|
                    0 <= part <= body.len() && after == before.insert(
                        path,
                        before[path] + #[trigger] body.take(part),
                    );
                assert(empty + body.take(part) =~= body.take(part));
                assert(after =~= start.insert(path, body.take(part)));
            } else {
                assert(empty + body =~= body);
                assert(after =~= start.insert(path, body));
            }
        },
        _ => {},
    }
}

/// At every point of a fetch, `disk_at_stage` holds of the stage reached
/// and the disk.
pub proof fn fetch_keeps_disk_at_stage(
    remote: Remote,
    target: TargetView,
    start: Disk,
    steps: Seq<Step>,
)
    requires
        unfolds(remote, target, start, steps),
    ensures
        disk_at_stage(remote, target, start, stage_after(steps), disk_after(start, steps)),
    decreases steps.len(),
{
    if steps.len() > 0 {
        let earlier = steps.drop_last();
        fetch_keeps_disk_at_stage(remote, target, start, earlier);
        events_of_earlier_steps(steps);
        step_keeps_disk_at_stage(
            remote,
            target,
            start,
            stage_after(earlier),
            disk_after(start, earlier),
            steps.last().event,
            steps.last().disk,
        );
    }
}

/// For every target that was fetched successfully, the file at its local
/// path exists and holds exactly the body of the remote resource, so its
/// length is the length of that body, which is also the byte count
/// reported.  No other file changed.
pub proof fn saved_file_holds_the_body(
    remote: Remote,
    target: TargetView,
    start: Disk,
    steps: Seq<Step>,
    bytes: u64,
)
    requires
        unfolds(remote, target, start, steps),
        stage_after(steps) == (Stage::Saved { bytes }),
    ensures
        ({
            let disk = disk_after(start, steps);
            let resource = remote[target.remote_address()];
            &&& remote.contains_key(target.remote_address())
            &&& !is_error_status(resource.status)
            &&& disk.contains_key(target.local_path())
            &&& disk[target.local_path()] == resource.body
            &&& disk[target.local_path()].len() == resource.body.len() == bytes
            &&& disk.remove(target.local_path()) == start.remove(target.local_path())
        }),
{
    fetch_keeps_disk_at_stage(remote, target, start, steps);
    let disk = disk_after(start, steps);
    assert(disk.remove(target.local_path()) =~= start.remove(target.local_path()));
}

/// A fetch whose request got no response or an error status never touches
/// the disk: at every point of it the disk is as it was at the start.
pub proof fn refused_fetch_writes_nothing(
    remote: Remote,
    target: TargetView,
    start: Disk,
    steps: Seq<Step>,
    upto: int,
)
    requires
        unfolds(remote, target, start, steps),
        !remote.contains_key(target.remote_address()) || is_error_status(
            remote[target.remote_address()].status,
        ),
        0 <= upto <= steps.len(),
    ensures
        disk_after(start, steps.take(upto)) == start,
        !stage_after(steps.take(upto)).writes_file(),
{
    prefix_unfolds(remote, target, start, steps, upto);
    fetch_keeps_disk_at_stage(remote, target, start, steps.take(upto));
}

/// Every beginning of a fetch is a fetch.
pub proof fn prefix_unfolds(
    remote: Remote,
    target: TargetView,
    start: Disk,
    steps: Seq<Step>,
    upto: int,
)
    requires
        unfolds(remote, target, start, steps),
        0 <= upto <= steps.len(),
    ensures
        unfolds(remote, target, start, steps.take(upto)),
    decreases steps.len(),
{
    if upto == steps.len() {
        assert(steps.take(upto) =~= steps);
    } else {
        prefix_unfolds(remote, target, start, steps.drop_last(), upto);
        assert(steps.drop_last().take(upto) =~= steps.take(upto));
    }
}

/// Whether the server answers the request for `target` with a status that
/// is no error.
pub open spec fn accepted(remote: Remote, target: TargetView) -> bool {
    &&& remote.contains_key(target.remote_address())
    &&& !is_error_status(remote[target.remote_address()].status)
}

/// The target that `identifiers[index]` makes under `base_location`.
pub open spec fn target_at(
    base_location: Seq<char>,
    identifiers: Seq<Seq<char>>,
    index: int,
) -> TargetView {
    TargetView { base_location, identifier: identifiers[index] }
}

/// The disk `start` after each of `identifiers` was saved in order: every
/// file holds the body of its resource, a later one replacing an earlier
/// one of the same path.
pub open spec fn saved_disk(
    remote: Remote,
    base_location: Seq<char>,
    identifiers: Seq<Seq<char>>,
    start: Disk,
) -> Disk
    decreases identifiers.len(),
{
    if identifiers.len() == 0 {
        start
    } else {
        let target = TargetView { base_location, identifier: identifiers.last() };
        saved_disk(remote, base_location, identifiers.drop_last(), start).insert(
            target.local_path(),
            remote[target.remote_address()].body,
        )
    }
}

/// The results of `rounds`, each of them a fetch carried to its end.
pub open spec fn outcomes_of(rounds: Seq<Seq<Step>>) -> Seq<Outcome> {
    rounds.map_values(|steps: Seq<Step>| stage_after(steps).outcome()->0)
}

/// The batch after `rounds` were fetched and recorded.
pub open spec fn batch_after(
    base_location: Seq<char>,
    identifiers: Seq<Seq<char>>,
    rounds: Seq<Seq<Step>>,
) -> BatchView {
    BatchView::start(base_location, identifiers).run(outcomes_of(rounds))
}

/// The disk after `rounds`, which began on the disk `start`.
pub open spec fn disk_after_rounds(start: Disk, rounds: Seq<Seq<Step>>) -> Disk
    decreases rounds.len(),
{
    if rounds.len() == 0 {
        start
    } else {
        disk_after(disk_after_rounds(start, rounds.drop_last()), rounds.last())
    }
}

/// Whether `rounds` is a batch as it may unfold from the disk `start`: each
/// round is a fetch of the target that the batch handed out at that point,
/// carried to its end on the disk that the round before left.
pub open spec fn batch_unfolds(
    remote: Remote,
    base_location: Seq<char>,
    identifiers: Seq<Seq<char>>,
    start: Disk,
    rounds: Seq<Seq<Step>>,
) -> bool
    decreases rounds.len(),
{
    rounds.len() > 0 ==> {
        let earlier = rounds.drop_last();
        let batch = batch_after(base_location, identifiers, earlier);
        &&& batch_unfolds(remote, base_location, identifiers, start, earlier)
        &&& batch.next_target() is Some
        &&& unfolds(
            remote,
            batch.next_target()->0,
            disk_after_rounds(start, earlier),
            rounds.last(),
        )
        &&& stage_after(rounds.last()).is_terminal()
    }
}

/// What is true of the disk while a batch is under way.
///
/// Every identifier counted as saved was answered without error, and the
/// disk is the one that saving them in order gives.  If the batch was
/// aborted, the disk is what the failed fetch made of that.
pub open spec fn disk_at_batch(
    remote: Remote,
    base_location: Seq<char>,
    identifiers: Seq<Seq<char>>,
    start: Disk,
    batch: BatchView,
    disk: Disk,
) -> bool {
    let kept = saved_disk(
        remote,
        base_location,
        identifiers.take(batch.completed as int),
        start,
    );
    &&& batch.well_formed()
    &&& batch.base_location == base_location
    &&& batch.identifiers == identifiers
    &&& forall|i: int|
        0 <= i < batch.completed ==> accepted(
            remote,
            #[trigger] target_at(base_location, identifiers, i),
        )
    &&& match batch.failure {
        None => disk == kept,
        Some(error) => disk_at_stage(
            remote,
            target_at(base_location, identifiers, batch.completed as int),
            kept,
            Stage::Failed { error },
            disk,
        ),
    }
}

/// Dropping the last round drops the last outcome.
pub proof fn outcomes_of_earlier_rounds(
    base_location: Seq<char>,
    identifiers: Seq<Seq<char>>,
    rounds: Seq<Seq<Step>>,
)
    requires
        rounds.len() > 0,
    ensures
        batch_after(base_location, identifiers, rounds) == batch_after(
            base_location,
            identifiers,
            rounds.drop_last(),
        ).record(stage_after(rounds.last()).outcome()->0),
{
    assert(outcomes_of(rounds.drop_last()) =~= outcomes_of(rounds).drop_last());
}

/// At every point of a batch, `disk_at_batch` holds of the batch and the
/// disk.
pub proof fn batch_keeps_disk_at_batch(
    remote: Remote,
    base_location: Seq<char>,
    identifiers: Seq<Seq<char>>,
    start: Disk,
    rounds: Seq<Seq<Step>>,
)
    requires
        batch_unfolds(remote, base_location, identifiers, start, rounds),
    ensures
        disk_at_batch(
            remote,
            base_location,
            identifiers,
            start,
            batch_after(base_location, identifiers, rounds),
            disk_after_rounds(start, rounds),
        ),
    decreases rounds.len(),
{
    if rounds.len() == 0 {
        assert(identifiers.take(0) =~= Seq::<Seq<char>>::empty());
    } else {
        let earlier = rounds.drop_last();
        let before = batch_after(base_location, identifiers, earlier);
        let after = batch_after(base_location, identifiers, rounds);
        let kept = disk_after_rounds(start, earlier);
        let target = target_at(base_location, identifiers, before.completed as int);
        batch_keeps_disk_at_batch(remote, base_location, identifiers, start, earlier);
        outcomes_of_earlier_rounds(base_location, identifiers, rounds);
        fetch_keeps_disk_at_stage(remote, target, kept, rounds.last());
        match stage_after(rounds.last()) {
            Stage::Saved { bytes } => {
                let done = identifiers.take(after.completed as int);
                assert(done.drop_last() =~= identifiers.take(before.completed as int));
                assert(done.last() == identifiers[before.completed as int]);
                assert forall|i: int| 0 <= i < after.completed implies accepted(
                    remote,
                    #[trigger] target_at(base_location, identifiers, i),
                ) by {
                    if i < before.completed {
                        assert(accepted(remote, target_at(base_location, identifiers, i)));
                    }
                }
            },
            _ => {},
        }
    }
}

/// Whether `identifiers[index]` is saved to `path`.
pub open spec fn saves_to(
    base_location: Seq<char>,
    identifiers: Seq<Seq<char>>,
    index: int,
    path: Seq<char>,
) -> bool {
    0 <= index < identifiers.len() && target_at(base_location, identifiers, index).local_path()
        == path
}

/// Whether one of `identifiers` is saved to `path`.
pub open spec fn written(
    base_location: Seq<char>,
    identifiers: Seq<Seq<char>>,
    path: Seq<char>,
) -> bool {
    exists|i: int| saves_to(base_location, identifiers, i, path)
}

/// What `saved_disk` holds at `path`: the body of the identifier that is
/// saved there, if there is one, and what `start` held otherwise.
pub proof fn saved_disk_contents(
    remote: Remote,
    base_location: Seq<char>,
    identifiers: Seq<Seq<char>>,
    start: Disk,
    path: Seq<char>,
)
    ensures
        ({
            let disk = saved_disk(remote, base_location, identifiers, start);
            &&& disk.contains_key(path) <==> written(base_location, identifiers, path)
                || start.contains_key(path)
            &&& !written(base_location, identifiers, path) ==> disk[path] == start[path]
            &&& forall|i: int| #[trigger]
                saves_to(base_location, identifiers, i, path) ==> disk[path]
                    == remote[target_at(base_location, identifiers, i).remote_address()].body
        }),
    decreases identifiers.len(),
{
    if identifiers.len() > 0 {
        let shorter = identifiers.drop_last();
        let last = identifiers.len() - 1;
        let disk = saved_disk(remote, base_location, identifiers, start);
        saved_disk_contents(remote, base_location, shorter, start, path);
        assert forall|i: int| 0 <= i < shorter.len() implies target_at(
            base_location,
            shorter,
            i,
        ) == target_at(base_location, identifiers, i) by {}
        assert forall|i: int| #[trigger]
            saves_to(base_location, identifiers, i, path) implies disk[path]
            == remote[target_at(base_location, identifiers, i).remote_address()].body by {
            if saves_to(base_location, identifiers, last, path) {
                local_path_names_one_identifier(
                    target_at(base_location, identifiers, i),
                    target_at(base_location, identifiers, last),
                );
            } else {
                assert(saves_to(base_location, shorter, i, path));
            }
        }
        if written(base_location, identifiers, path) {
            let i = choose|i: int| saves_to(base_location, identifiers, i, path);
            if i < last {
                assert(saves_to(base_location, shorter, i, path));
            }
        }
        if written(base_location, shorter, path) {
            let i = choose|i: int| saves_to(base_location, shorter, i, path);
            assert(saves_to(base_location, identifiers, i, path));
        }
        if saves_to(base_location, identifiers, last, path) {
        } else {
            assert(!written(base_location, shorter, path) ==> !written(
                base_location,
                identifiers,
                path,
            )) by {
                if written(base_location, identifiers, path) {
                    let i = choose|i: int| saves_to(base_location, identifiers, i, path);
                    assert(saves_to(base_location, shorter, i, path));
                }
            }
        }
    }
}

/// Every round but the one that failed saved a file: the rounds of a batch
/// are the identifiers it counts as saved, and one more if it was aborted.
pub proof fn rounds_are_counted(
    remote: Remote,
    base_location: Seq<char>,
    identifiers: Seq<Seq<char>>,
    start: Disk,
    rounds: Seq<Seq<Step>>,
)
    requires
        batch_unfolds(remote, base_location, identifiers, start, rounds),
    ensures
        ({
            let end = batch_after(base_location, identifiers, rounds);
            rounds.len() == end.completed + if end.failure is Some {
                1nat
            } else {
                0nat
            }
        }),
    decreases rounds.len(),
{
    if rounds.len() > 0 {
        rounds_are_counted(remote, base_location, identifiers, start, rounds.drop_last());
        outcomes_of_earlier_rounds(base_location, identifiers, rounds);
    }
}

/// While a batch is under way, every identifier it counts as saved has its
/// file, and the file holds exactly the body of its resource.  The one
/// exception is a file that a later fetch of the same path was copying into
/// when it failed.
pub proof fn saved_files_hold_their_bodies(
    remote: Remote,
    base_location: Seq<char>,
    identifiers: Seq<Seq<char>>,
    start: Disk,
    rounds: Seq<Seq<Step>>,
    index: int,
)
    requires
        batch_unfolds(remote, base_location, identifiers, start, rounds),
        0 <= index < batch_after(base_location, identifiers, rounds).completed,
        ({
            let end = batch_after(base_location, identifiers, rounds);
            end.failure == Some(FetchError::LocalIo { step: IoStep::CopyBody }) ==> target_at(
                base_location,
                identifiers,
                index,
            ).local_path() != target_at(
                base_location,
                identifiers,
                end.completed as int,
            ).local_path()
        }),
    ensures
        ({
            let disk = disk_after_rounds(start, rounds);
            let target = target_at(base_location, identifiers, index);
            &&& accepted(remote, target)
            &&& disk.contains_key(target.local_path())
            &&& disk[target.local_path()] == remote[target.remote_address()].body
            &&& disk[target.local_path()].len() == remote[target.remote_address()].body.len()
        }),
{
    let end = batch_after(base_location, identifiers, rounds);
    let done = identifiers.take(end.completed as int);
    let target = target_at(base_location, identifiers, index);
    batch_keeps_disk_at_batch(remote, base_location, identifiers, start, rounds);
    assert(accepted(remote, target_at(base_location, identifiers, index)));
    saved_disk_contents(remote, base_location, done, start, target.local_path());
    assert(target_at(base_location, done, index) == target);
    assert(saves_to(base_location, done, index, target.local_path()));
}

/// When every resource of a batch exists and can be reached and no local
/// operation fails, the batch that has run to its end reports success after
/// N fetches, one for each of its N identifiers.  Exactly their N files
/// were written: each holds the body of its resource, and every other path
/// is as it was.
pub proof fn reachable_batch_saves_every_file(
    remote: Remote,
    base_location: Seq<char>,
    identifiers: Seq<Seq<char>>,
    start: Disk,
    rounds: Seq<Seq<Step>>,
)
    requires
        batch_unfolds(remote, base_location, identifiers, start, rounds),
        forall|i: int|
            0 <= i < identifiers.len() ==> accepted(
                remote,
                #[trigger] target_at(base_location, identifiers, i),
            ),
        !(batch_after(base_location, identifiers, rounds).status() is Running),
        !(batch_after(base_location, identifiers, rounds).failure matches Some(
            FetchError::LocalIo { .. },
        )),
    ensures
        ({
            let end = batch_after(base_location, identifiers, rounds);
            let disk = disk_after_rounds(start, rounds);
            &&& end.status() == BatchStatus::Done
            &&& end.completed == identifiers.len() == rounds.len()
            &&& disk == saved_disk(remote, base_location, identifiers, start)
            &&& forall|i: int|
                0 <= i < identifiers.len() ==> {
                    let target = #[trigger] target_at(base_location, identifiers, i);
                    &&& disk.contains_key(target.local_path())
                    &&& disk[target.local_path()] == remote[target.remote_address()].body
                }
            &&& forall|path: Seq<char>|
                !#[trigger] written(base_location, identifiers, path) ==> {
                    &&& disk.contains_key(path) == start.contains_key(path)
                    &&& disk[path] == start[path]
                }
        }),
{
    let end = batch_after(base_location, identifiers, rounds);
    let disk = disk_after_rounds(start, rounds);
    batch_keeps_disk_at_batch(remote, base_location, identifiers, start, rounds);
    rounds_are_counted(remote, base_location, identifiers, start, rounds);
    if end.failure is Some {
        assert(accepted(remote, target_at(base_location, identifiers, end.completed as int)));
    }
    assert(identifiers.take(end.completed as int) =~= identifiers);
    assert forall|i: int| 0 <= i < identifiers.len() implies {
        let target = #[trigger] target_at(base_location, identifiers, i);
        &&& disk.contains_key(target.local_path())
        &&& disk[target.local_path()] == remote[target.remote_address()].body
    } by {
        let target = target_at(base_location, identifiers, i);
        saved_disk_contents(remote, base_location, identifiers, start, target.local_path());
        assert(saves_to(base_location, identifiers, i, target.local_path()));
    }
    assert forall|path: Seq<char>| !#[trigger] written(base_location, identifiers, path) implies {
        &&& disk.contains_key(path) == start.contains_key(path)
        &&& disk[path] == start[path]
    } by {
        saved_disk_contents(remote, base_location, identifiers, start, path);
    }
}

/// When the resource of one identifier answers 404, no batch gets past that
/// identifier, and its file is never written: the path is as it was at the
/// start.  A batch that reached the identifier is aborted with `NotFound`,
/// and the disk is the one that saving the identifiers before it gave: they
/// keep their files.
pub proof fn not_found_aborts_before_writing(
    remote: Remote,
    base_location: Seq<char>,
    identifiers: Seq<Seq<char>>,
    start: Disk,
    rounds: Seq<Seq<Step>>,
    missing: int,
)
    requires
        batch_unfolds(remote, base_location, identifiers, start, rounds),
        0 <= missing < identifiers.len(),
        remote.contains_key(target_at(base_location, identifiers, missing).remote_address()),
        remote[target_at(base_location, identifiers, missing).remote_address()].status
            == NOT_FOUND,
    ensures
        ({
            let end = batch_after(base_location, identifiers, rounds);
            let disk = disk_after_rounds(start, rounds);
            let path = target_at(base_location, identifiers, missing).local_path();
            &&& end.completed <= missing
            &&& disk.contains_key(path) == start.contains_key(path)
            &&& disk[path] == start[path]
            &&& end.completed == missing && !(end.status() is Running) ==> {
                &&& end.status() == BatchStatus::Aborted { error: FetchError::NotFound }
                &&& end.next_target() is None
                &&& disk == saved_disk(
                    remote,
                    base_location,
                    identifiers.take(missing),
                    start,
                )
            }
        }),
{
    let end = batch_after(base_location, identifiers, rounds);
    let disk = disk_after_rounds(start, rounds);
    let lost = target_at(base_location, identifiers, missing);
    let path = lost.local_path();
    let done = identifiers.take(end.completed as int);
    batch_keeps_disk_at_batch(remote, base_location, identifiers, start, rounds);
    if end.completed > missing {
        assert(accepted(remote, target_at(base_location, identifiers, missing)));
    }
    saved_disk_contents(remote, base_location, done, start, path);
    if written(base_location, done, path) {
        let i = choose|i: int| saves_to(base_location, done, i, path);
        assert(target_at(base_location, done, i) == target_at(base_location, identifiers, i));
        local_path_names_one_identifier(target_at(base_location, identifiers, i), lost);
        assert(accepted(remote, target_at(base_location, identifiers, i)));
    }
    if end.failure is Some {
        let failed = target_at(base_location, identifiers, end.completed as int);
        if failed.local_path() == path {
            local_path_names_one_identifier(failed, lost);
        }
    }
}

/// When no address under the base location can be reached, the first fetch
/// aborts the batch with `Transport`, and no file is written: the disk is
/// as it was at the start.
pub proof fn unreachable_base_writes_nothing(
    remote: Remote,
    base_location: Seq<char>,
    identifiers: Seq<Seq<char>>,
    start: Disk,
    rounds: Seq<Seq<Step>>,
)
    requires
        batch_unfolds(remote, base_location, identifiers, start, rounds),
        forall|i: int|
            0 <= i < identifiers.len() ==> !remote.contains_key(
                (#[trigger] target_at(base_location, identifiers, i)).remote_address(),
            ),
    ensures
        ({
            let end = batch_after(base_location, identifiers, rounds);
            &&& end.completed == 0
            &&& disk_after_rounds(start, rounds) == start
            &&& rounds.len() <= 1
            &&& rounds.len() == 1 ==> end.status() == BatchStatus::Aborted {
                error: FetchError::Transport,
            }
        }),
{
    let end = batch_after(base_location, identifiers, rounds);
    batch_keeps_disk_at_batch(remote, base_location, identifiers, start, rounds);
    rounds_are_counted(remote, base_location, identifiers, start, rounds);
    if end.completed > 0 {
        assert(accepted(remote, target_at(base_location, identifiers, 0)));
    }
    assert(identifiers.take(0) =~= Seq::<Seq<char>>::empty());
    if end.failure is Some {
        assert(!remote.contains_key(target_at(base_location, identifiers, 0).remote_address()));
    }
}

/// Running a batch again after it succeeded overwrites its files: after the
/// second success each file holds exactly the body fetched in the second
/// run, whatever it held before, no file is added, and every other path is
/// untouched.  If the bodies are the same as in the first run, the disk is
/// the same as after the first run.
pub proof fn second_run_overwrites(
    first_remote: Remote,
    second_remote: Remote,
    base_location: Seq<char>,
    identifiers: Seq<Seq<char>>,
    start: Disk,
    first: Seq<Seq<Step>>,
    second: Seq<Seq<Step>>,
)
    requires
        batch_unfolds(first_remote, base_location, identifiers, start, first),
        batch_after(base_location, identifiers, first).status() is Done,
        batch_unfolds(
            second_remote,
            base_location,
            identifiers,
            disk_after_rounds(start, first),
            second,
        ),
        batch_after(base_location, identifiers, second).status() is Done,
    ensures
        ({
            let between = disk_after_rounds(start, first);
            let disk = disk_after_rounds(between, second);
            &&& forall|i: int|
                0 <= i < identifiers.len() ==> {
                    let target = #[trigger] target_at(base_location, identifiers, i);
                    &&& disk.contains_key(target.local_path())
                    &&& disk[target.local_path()] == second_remote[target.remote_address()].body
                }
            &&& disk.dom() == between.dom()
            &&& forall|path: Seq<char>|
                !#[trigger] written(base_location, identifiers, path) ==> disk[path]
                    == between[path]
            &&& (forall|i: int|
                0 <= i < identifiers.len() ==> {
                    let target = #[trigger] target_at(base_location, identifiers, i);
                    second_remote[target.remote_address()].body
                        == first_remote[target.remote_address()].body
                }) ==> disk == between
        }),
{
    let between = disk_after_rounds(start, first);
    let disk = disk_after_rounds(between, second);
    batch_keeps_disk_at_batch(first_remote, base_location, identifiers, start, first);
    batch_keeps_disk_at_batch(second_remote, base_location, identifiers, between, second);
    assert(identifiers.take(identifiers.len() as int) =~= identifiers);
    assert forall|i: int| 0 <= i < identifiers.len() implies {
        let target = #[trigger] target_at(base_location, identifiers, i);
        &&& disk.contains_key(target.local_path())
        &&& disk[target.local_path()] == second_remote[target.remote_address()].body
    } by {
        let path = target_at(base_location, identifiers, i).local_path();
        saved_disk_contents(second_remote, base_location, identifiers, between, path);
        assert(saves_to(base_location, identifiers, i, path));
    }
    assert forall|path: Seq<char>| disk.contains_key(path) == between.contains_key(path) by {
        saved_disk_contents(first_remote, base_location, identifiers, start, path);
        saved_disk_contents(second_remote, base_location, identifiers, between, path);
    }
    assert(disk.dom() =~= between.dom());
    assert forall|path: Seq<char>| !#[trigger] written(
        base_location,
        identifiers,
        path,
    ) implies disk[path] == between[path] by {
        saved_disk_contents(second_remote, base_location, identifiers, between, path);
    }
    if forall|i: int|
        0 <= i < identifiers.len() ==> {
            let target = #[trigger] target_at(base_location, identifiers, i);
            second_remote[target.remote_address()].body
                == first_remote[target.remote_address()].body
        } {
        assert forall|path: Seq<char>| disk.contains_key(path) implies disk[path]
            == between[path] by {
            saved_disk_contents(first_remote, base_location, identifiers, start, path);
            saved_disk_contents(second_remote, base_location, identifiers, between, path);
            if written(base_location, identifiers, path) {
                let i = choose|i: int| saves_to(base_location, identifiers, i, path);
                assert(saves_to(base_location, identifiers, i, path));
                let target = target_at(base_location, identifiers, i);
                assert(second_remote[target.remote_address()].body
                    == first_remote[target.remote_address()].body);
            }
        }
        assert(disk =~= between);
    }
}

/// The steps of a fetch on which every operation succeeds.
pub open spec fn smooth_fetch(remote: Remote, target: TargetView, start: Disk) -> Seq<Step> {
    let resource = remote[target.remote_address()];
    let path = target.local_path();
    let created = start.insert(path, Seq::empty());
    seq![
        Step { event: FetchEvent::Responded { status: resource.status }, disk: start },
        Step { event: FetchEvent::DirectoryReady, disk: start },
        Step { event: FetchEvent::FileCreated, disk: created },
        Step {
            event: FetchEvent::Copied { bytes: resource.body.len() as u64 },
            disk: created.insert(path, created[path] + resource.body),
        },
    ]
}

/// The rounds of a batch on which every operation succeeds, for the first
/// `count` identifiers.
pub open spec fn smooth_batch(
    remote: Remote,
    base_location: Seq<char>,
    identifiers: Seq<Seq<char>>,
    start: Disk,
    count: nat,
) -> Seq<Seq<Step>>
    decreases count,
{
    if count == 0 {
        Seq::empty()
    } else {
        let earlier = (count - 1) as nat;
        smooth_batch(remote, base_location, identifiers, start, earlier).push(
            smooth_fetch(
                remote,
                target_at(base_location, identifiers, earlier as int),
                saved_disk(remote, base_location, identifiers.take(earlier as int), start),
            ),
        )
    }
}

/// A resource that exists and can be reached can be fetched: where no
/// local operation fails, the fetch unfolds in four steps and is saved.
pub proof fn reachable_target_can_be_saved(remote: Remote, target: TargetView, start: Disk)
    requires
        accepted(remote, target),
        remote[target.remote_address()].body.len() <= u64::MAX,
    ensures
        ({
            let steps = smooth_fetch(remote, target, start);
            let body = remote[target.remote_address()].body;
            &&& unfolds(remote, target, start, steps)
            &&& stage_after(steps) == Stage::Saved { bytes: body.len() as u64 }
            &&& disk_after(start, steps) == start.insert(target.local_path(), body)
        }),
{
    let four = smooth_fetch(remote, target, start);
    let three = four.drop_last();
    let two = three.drop_last();
    let one = two.drop_last();
    let none = one.drop_last();
    assert(none =~= Seq::<Step>::empty());
    assert(events_of(none) =~= Seq::<FetchEvent>::empty());
    assert(stage_after(none) == Stage::Requesting);
    assert(unfolds(remote, target, start, none));
    events_of_earlier_steps(one);
    assert(unfolds(remote, target, start, one));
    events_of_earlier_steps(two);
    assert(unfolds(remote, target, start, two));
    events_of_earlier_steps(three);
    assert(unfolds(remote, target, start, three));
    events_of_earlier_steps(four);
    assert(unfolds(remote, target, start, four));
    fetch_keeps_disk_at_stage(remote, target, start, four);
}

/// The smooth rounds for the first `count` identifiers are a batch as it may
/// unfold, and they save those identifiers.
pub proof fn smooth_batch_unfolds(
    remote: Remote,
    base_location: Seq<char>,
    identifiers: Seq<Seq<char>>,
    start: Disk,
    count: nat,
)
    requires
        count <= identifiers.len(),
        forall|i: int|
            0 <= i < identifiers.len() ==> {
                let target = #[trigger] target_at(base_location, identifiers, i);
                accepted(remote, target) && remote[target.remote_address()].body.len() <= u64::MAX
            },
    ensures
        ({
            let rounds = smooth_batch(remote, base_location, identifiers, start, count);
            &&& batch_unfolds(remote, base_location, identifiers, start, rounds)
            &&& batch_after(base_location, identifiers, rounds) == (BatchView {
                completed: count,
                ..BatchView::start(base_location, identifiers)
            })
            &&& disk_after_rounds(start, rounds) == saved_disk(
                remote,
                base_location,
                identifiers.take(count as int),
                start,
            )
        }),
    decreases count,
{
    if count == 0 {
        assert(outcomes_of(Seq::<Seq<Step>>::empty()) =~= Seq::<Outcome>::empty());
        assert(identifiers.take(0) =~= Seq::<Seq<char>>::empty());
    } else {
        let earlier = (count - 1) as nat;
        let rounds = smooth_batch(remote, base_location, identifiers, start, count);
        let before = smooth_batch(remote, base_location, identifiers, start, earlier);
        let target = target_at(base_location, identifiers, earlier as int);
        let kept = saved_disk(remote, base_location, identifiers.take(earlier as int), start);
        smooth_batch_unfolds(remote, base_location, identifiers, start, earlier);
        reachable_target_can_be_saved(remote, target, kept);
        assert(rounds.drop_last() =~= before);
        outcomes_of_earlier_rounds(base_location, identifiers, rounds);
        let done = identifiers.take(count as int);
        assert(done.drop_last() =~= identifiers.take(earlier as int));
        assert(done.last() == identifiers[earlier as int]);
    }
}

/// When every resource of a batch exists and can be reached, the batch can
/// run to success: where no local operation fails it unfolds in N rounds
/// and is done.
pub proof fn reachable_batch_can_succeed(
    remote: Remote,
    base_location: Seq<char>,
    identifiers: Seq<Seq<char>>,
    start: Disk,
) -> (rounds: Seq<Seq<Step>>)
    requires
        forall|i: int|
            0 <= i < identifiers.len() ==> {
                let target = #[trigger] target_at(base_location, identifiers, i);
                accepted(remote, target) && remote[target.remote_address()].body.len() <= u64::MAX
            },
    ensures
        batch_unfolds(remote, base_location, identifiers, start, rounds),
        batch_after(base_location, identifiers, rounds).status() == BatchStatus::Done,
        rounds.len() == identifiers.len(),
{
    smooth_batch_unfolds(remote, base_location, identifiers, start, identifiers.len());
    let rounds = smooth_batch(remote, base_location, identifiers, start, identifiers.len());
    rounds_are_counted(remote, base_location, identifiers, start, rounds);
    rounds
}

} // verus!
