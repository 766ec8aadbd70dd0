//! What holds of every run of an upload task, proved from its transition function.

use crate::upload::{
    chunk_len, ActionModel, EventModel, Known, OutputModel, Phase, StepInput, TaskModel, TaskStatus,
    UploadRunState,
};
use vstd::prelude::*;

verus! {

/// The task after the inputs were handled in turn.
pub open spec fn run_task(task: TaskModel, inputs: Seq<StepInput>) -> TaskModel
    decreases inputs.len(),
{
    if inputs.len() == 0 {
        task
    } else {
        run_task(task.step(inputs[0]).0, inputs.drop_first())
    }
}

/// What the task handed back for each input, in turn.
pub open spec fn run_outputs(task: TaskModel, inputs: Seq<StepInput>) -> Seq<OutputModel>
    decreases inputs.len(),
{
    if inputs.len() == 0 {
        Seq::empty()
    } else {
        seq![task.step(inputs[0]).1] + run_outputs(task.step(inputs[0]).0, inputs.drop_first())
    }
}

/// The number of bytes that an output reports as sent, if it reports progress.
pub open spec fn progress(out: OutputModel) -> Option<u64> {
    match out.event {
        Some(e) => if e.status == TaskStatus::Uploading || e.status == TaskStatus::Done {
            e.bytes_sent
        } else {
            None
        },
        None => None,
    }
}

/// The progress reported over a run, in the order of the events.
pub open spec fn progress_seq(task: TaskModel, inputs: Seq<StepInput>) -> Seq<u64>
    decreases inputs.len(),
{
    if inputs.len() == 0 {
        Seq::empty()
    } else {
        let (next, out) = task.step(inputs[0]);
        (match progress(out) {
            Some(b) => seq![b],
            None => Seq::empty(),
        }) + progress_seq(next, inputs.drop_first())
    }
}

/// The last progress reported once `out` was handed back, `mark` before it.
pub open spec fn advance(mark: u64, out: OutputModel) -> u64 {
    match progress(out) {
        Some(b) => b,
        None => mark,
    }
}

/// The backend never reports fewer bytes than the task was told it holds:
/// each offset it reports is at least the progress reported last (`mark` at
/// the start of the run).
pub open spec fn backend_keeps_bytes(task: TaskModel, mark: u64, inputs: Seq<StepInput>) -> bool
    decreases inputs.len(),
{
    if inputs.len() == 0 {
        true
    } else {
        let (next, out) = task.step(inputs[0]);
        &&& match inputs[0] {
            StepInput::Offset(Ok(offset)) => offset >= mark,
            _ => true,
        }
        &&& backend_keeps_bytes(next, advance(mark, out), inputs.drop_first())
    }
}

/// `mark` can be the progress reported last by a task in this state.
pub open spec fn mark_fits(task: TaskModel, mark: u64) -> bool {
    match task.phase {
        Phase::Created | Phase::Stat => mark == 0,
        Phase::Completing { offset } => mark <= task.total && mark <= offset,
        Phase::Reading { offset, len } => mark <= task.total && mark <= offset,
        Phase::Sending { offset, len } => mark <= task.total && mark <= offset,
        _ => mark <= task.total,
    }
}

/// No value of the sequence is smaller than one before it.
pub open spec fn nondecreasing(s: Seq<u64>) -> bool {
    forall|i: int, j: int| 0 <= i <= j < s.len() ==> s[i] <= s[j]
}

/// One step keeps a task well formed.
pub proof fn lemma_step_wf(task: TaskModel, input: StepInput)
    requires
        task.wf(),
    ensures
        task.step(input).0.wf(),
{
}

/// An `uploading` event reports more bytes than the offset the chunk was
/// sent at and no more than the file holds; a `done` event reports the
/// whole file. Both carry the size of the file.
pub proof fn lemma_progress_within_total(task: TaskModel, input: StepInput)
    requires
        task.wf(),
    ensures
        match task.step(input).1.event {
            Some(e) => {
                &&& e.status == TaskStatus::Uploading ==> {
                    &&& task.phase is Sending
                    &&& e.total_bytes == Some(task.total)
                    &&& e.bytes_sent == Some((task.phase->Sending_offset + task.phase->Sending_len) as u64)
                    &&& task.phase->Sending_offset < e.bytes_sent->0 <= task.total
                }
                &&& e.status == TaskStatus::Done ==> {
                    &&& task.phase is Completing
                    &&& e.total_bytes == Some(task.total)
                    &&& e.bytes_sent == Some(task.total)
                    &&& task.step(input).0.phase == Phase::Finished
                }
            },
            None => true,
        },
{
}

proof fn lemma_step_mark(task: TaskModel, mark: u64, input: StepInput)
    requires
        task.wf(),
        mark_fits(task, mark),
        match input {
            StepInput::Offset(Ok(offset)) => offset >= mark,
            _ => true,
        },
    ensures
        mark <= advance(mark, task.step(input).1),
        mark_fits(task.step(input).0, advance(mark, task.step(input).1)),
{
}

/// Over any run against a backend that keeps the bytes it was sent, the
/// progress that the task reports never decreases, and never falls below the
/// progress reported before the run.
pub proof fn lemma_progress_monotone(task: TaskModel, mark: u64, inputs: Seq<StepInput>)
    requires
        task.wf(),
        mark_fits(task, mark),
        backend_keeps_bytes(task, mark, inputs),
    ensures
        nondecreasing(progress_seq(task, inputs)),
        forall|i: int| 0 <= i < progress_seq(task, inputs).len() ==> mark <= progress_seq(task, inputs)[i],
    decreases inputs.len(),
{
    if inputs.len() > 0 {
        let (next, out) = task.step(inputs[0]);
        let rest = inputs.drop_first();
        let mark1 = advance(mark, out);
        lemma_step_mark(task, mark, inputs[0]);
        lemma_progress_monotone(next, mark1, rest);
        let tail = progress_seq(next, rest);
        let all = progress_seq(task, inputs);
        match progress(out) {
            Some(b) => {
                assert(all =~= seq![b] + tail);
                assert forall|i: int, j: int| 0 <= i <= j < all.len() implies all[i] <= all[j] by {
                    if i > 0 {
                        assert(all[i] == tail[i - 1]);
                        assert(all[j] == tail[j - 1]);
                    } else if j > 0 {
                        assert(all[j] == tail[j - 1]);
                    }
                }
            },
            None => {
                assert(all =~= tail);
            },
        }
    }
}

/// A task started on a file reports progress that never decreases, whatever
/// the inputs, as long as the backend keeps the bytes it was sent.
pub proof fn lemma_fresh_task_progress(task: TaskModel, inputs: Seq<StepInput>)
    requires
        task.wf(),
        task.phase == Phase::Created,
        backend_keeps_bytes(task, 0, inputs),
    ensures
        nondecreasing(progress_seq(task, inputs)),
{
    lemma_progress_monotone(task, 0, inputs);
}

/// A task that has ended stays ended: it emits nothing more and asks for
/// nothing but its removal.
pub proof fn lemma_finished_is_final(task: TaskModel, inputs: Seq<StepInput>)
    requires
        task.phase == Phase::Finished,
    ensures
        run_task(task, inputs) == task,
        run_outputs(task, inputs).len() == inputs.len(),
        forall|k: int|
            0 <= k < inputs.len() ==> {
                &&& (#[trigger] run_outputs(task, inputs)[k]).event is None
                &&& run_outputs(task, inputs)[k].action == ActionModel::Finish
                &&& !run_outputs(task, inputs)[k].pause_self
            },
    decreases inputs.len(),
{
    if inputs.len() > 0 {
        let rest = inputs.drop_first();
        assert(task.step(inputs[0]).0 == task);
        lemma_finished_is_final(task, rest);
        assert forall|k: int| 0 <= k < inputs.len() implies {
            &&& (#[trigger] run_outputs(task, inputs)[k]).event is None
            &&& run_outputs(task, inputs)[k].action == ActionModel::Finish
            &&& !run_outputs(task, inputs)[k].pause_self
        } by {
            if k > 0 {
                assert(run_outputs(task, inputs)[k] == run_outputs(task, rest)[k - 1]);
            }
        }
    }
}

/// Whether an output asks for a transfer step: a status query, a read, a
/// chunk send or the completion of the session.
pub open spec fn asks_transfer(out: OutputModel) -> bool {
    ||| out.action == ActionModel::QueryStatus
    ||| out.action == ActionModel::Complete
    ||| out.action is ReadChunk
    ||| out.action is SendChunk
}

/// No input of the run finds the control cell at `Running`.
pub open spec fn never_running(inputs: Seq<StepInput>) -> bool {
    forall|i: int|
        0 <= i < inputs.len() ==> !(#[trigger] inputs[i] matches StepInput::Control(
            UploadRunState::Running,
        ))
}

/// The event that reports a pause of `task`.
pub open spec fn paused_event(task: TaskModel) -> EventModel {
    task.event(TaskStatus::Paused, Known::Session, None, None, None)
}

/// The event that reports the cancellation of `task`.
pub open spec fn canceled_event(task: TaskModel) -> EventModel {
    task.event(TaskStatus::Canceled, Known::Session, Some(0), None, None)
}

/// A task between two chunks that finds its control cell at `Paused` emits
/// `paused` next and waits for the cell to change.
pub proof fn lemma_pause_is_reported(task: TaskModel)
    requires
        task.phase == Phase::Idle,
    ensures
        task.step(StepInput::Control(UploadRunState::Paused)) == (
            task.at(Phase::Waiting),
            OutputModel {
                event: Some(paused_event(task)),
                pause_self: false,
                action: ActionModel::AwaitChange,
            },
        ),
{
}

/// From the top of the loop or from the paused wait, the task asks for no
/// transfer step as long as it does not find its control cell at `Running`.
pub proof fn lemma_no_transfer_until_resumed(task: TaskModel, inputs: Seq<StepInput>)
    requires
        task.phase == Phase::Idle || task.phase == Phase::Waiting || task.phase is Aborting
            || task.phase == Phase::Finished,
        never_running(inputs),
    ensures
        run_outputs(task, inputs).len() == inputs.len(),
        forall|k: int|
            0 <= k < inputs.len() ==> !asks_transfer(#[trigger] run_outputs(task, inputs)[k]),
    decreases inputs.len(),
{
    if inputs.len() > 0 {
        let rest = inputs.drop_first();
        let (next, out) = task.step(inputs[0]);
        assert(!(inputs[0] matches StepInput::Control(UploadRunState::Running)));
        assert(never_running(rest)) by {
            assert forall|i: int| 0 <= i < rest.len() implies !(#[trigger] rest[i] matches StepInput::Control(
                UploadRunState::Running,
            )) by {
                assert(rest[i] == inputs[i + 1]);
            }
        }
        lemma_no_transfer_until_resumed(next, rest);
        assert forall|k: int| 0 <= k < inputs.len() implies !asks_transfer(
            #[trigger] run_outputs(task, inputs)[k],
        ) by {
            if k > 0 {
                assert(run_outputs(task, inputs)[k] == run_outputs(next, rest)[k - 1]);
            }
        }
    }
}

/// A task that finds its control cell at `Canceled` asks for one attempt to
/// abort the session, then emits `canceled` and ends: whatever comes after,
/// it asks for no second attempt and emits nothing more.
pub proof fn lemma_cancel_aborts_once(task: TaskModel, rest: Seq<StepInput>)
    requires
        task.phase == Phase::Idle,
    ensures
        ({
            let inputs = seq![StepInput::Control(UploadRunState::Canceled), StepInput::Aborted]
                + rest;
            let outs = run_outputs(task, inputs);
            &&& outs.len() == rest.len() + 2
            &&& outs[0] == (OutputModel {
                event: None,
                pause_self: false,
                action: ActionModel::Abort,
            })
            &&& outs[1] == (OutputModel {
                event: Some(canceled_event(task)),
                pause_self: false,
                action: ActionModel::Finish,
            })
            &&& forall|k: int|
                2 <= k < outs.len() ==> (#[trigger] outs[k]).event is None && outs[k].action
                    == ActionModel::Finish
            &&& run_task(task, inputs).phase == Phase::Finished
        }),
{
    let inputs = seq![StepInput::Control(UploadRunState::Canceled), StepInput::Aborted] + rest;
    let t1 = task.step(inputs[0]).0;
    let in1 = inputs.drop_first();
    let t2 = t1.step(in1[0]).0;
    let in2 = in1.drop_first();
    assert(in2 =~= rest);
    assert(t1 == task.at(Phase::Aborting { canceled: true }));
    assert(t2 == task.at(Phase::Finished));
    lemma_finished_is_final(t2, rest);
    let outs = run_outputs(task, inputs);
    assert(inputs.len() > 0 && in1.len() > 0);
    assert(in2 == rest);
    assert(outs == seq![task.step(inputs[0]).1] + run_outputs(t1, in1));
    assert(run_outputs(t1, in1) == seq![t1.step(in1[0]).1] + run_outputs(t2, in2));
    assert(run_task(task, inputs) == run_task(t1, in1));
    assert(run_task(t1, in1) == run_task(t2, in2));
    assert(outs =~= seq![task.step(inputs[0]).1] + (seq![t1.step(in1[0]).1] + run_outputs(
        t2,
        rest,
    )));
    assert forall|k: int| 2 <= k < outs.len() implies (#[trigger] outs[k]).event is None
        && outs[k].action == ActionModel::Finish by {
        assert(outs[k] == run_outputs(t2, rest)[k - 2]);
    }
    assert(run_task(task, inputs) == run_task(t2, rest));
}

/// Whether `input` reports that the status query or the chunk send failed.
pub open spec fn transfer_failed(task: TaskModel, input: StepInput) -> bool {
    ||| task.phase == Phase::Status && input matches StepInput::Offset(Err(_))
    ||| task.phase is Sending && input matches StepInput::ChunkSent(Err(_))
}

/// When the status query or the chunk send fails, the task emits `failed`,
/// sets its own control cell to `Paused` and is back at the top of its loop,
/// in the state that a pause leaves it in: nothing of the offset it worked
/// at is kept.
pub proof fn lemma_failure_pauses(task: TaskModel, input: StepInput)
    requires
        transfer_failed(task, input),
    ensures
        task.step(input).0 == task.at(Phase::Idle),
        task.step(input).0 == run_task(
            task.at(Phase::Idle),
            seq![StepInput::Control(UploadRunState::Paused), StepInput::Woken(true)],
        ),
        task.step(input).1.pause_self,
        task.step(input).1.action == ActionModel::ReadControl,
        task.step(input).1.event is Some,
        task.step(input).1.event->0.status == TaskStatus::Failed,
{
    let idle = task.at(Phase::Idle);
    let inputs = seq![StepInput::Control(UploadRunState::Paused), StepInput::Woken(true)];
    let t1 = idle.step(inputs[0]).0;
    let in1 = inputs.drop_first();
    let t2 = t1.step(in1[0]).0;
    assert(in1.drop_first().len() == 0);
    assert(run_task(idle, inputs) == run_task(t1, in1));
    assert(run_task(t1, in1) == run_task(t2, in1.drop_first()));
    assert(t2 == idle);
}

/// After a failure, or a pause, the next resume makes the task ask the
/// backend for its offset again and go on from the offset it reports.
pub proof fn lemma_resume_requeries(task: TaskModel, offset: u64)
    requires
        task.phase == Phase::Idle,
    ensures
        ({
            let (asked, first) = task.step(StepInput::Control(UploadRunState::Running));
            let (next, second) = asked.step(StepInput::Offset(Ok(offset)));
            &&& first.action == ActionModel::QueryStatus
            &&& first.event is None
            &&& second.event is None
            &&& offset < task.total ==> second.action == ActionModel::ReadChunk {
                offset,
                len: chunk_len(task.total, offset, task.chunk_size),
            }
            &&& offset >= task.total ==> second.action == ActionModel::Complete
        }),
{
}

/// A paused task whose control cell changed is back at the top of its
/// loop, where it reads the cell before anything else.
pub proof fn lemma_wake_returns_to_loop(task: TaskModel)
    requires
        task.phase == Phase::Waiting,
    ensures
        task.step(StepInput::Woken(true)) == (
            task.at(Phase::Idle),
            OutputModel { event: None, pause_self: false, action: ActionModel::ReadControl },
        ),
{
}

/// Whether the task is at the top of its loop, where it reads its control
/// cell, or has ended.
pub open spec fn at_boundary(task: TaskModel) -> bool {
    task.phase == Phase::Idle || task.phase == Phase::Finished
}

/// A task in the middle of a transfer is back at the top of its loop, or
/// has ended, after at most three more outcomes: a command is never
/// overlooked for longer than the round trip of one chunk.
pub proof fn lemma_boundary_within_three_steps(
    task: TaskModel,
    first: StepInput,
    second: StepInput,
    third: StepInput,
)
    requires
        task.phase == Phase::Status || task.phase is Completing || task.phase is Reading
            || task.phase is Sending,
    ensures
        ({
            let one = task.step(first).0;
            let two = one.step(second).0;
            let three = two.step(third).0;
            at_boundary(one) || at_boundary(two) || at_boundary(three)
        }),
{
}

/// The progress that a task reports until it is done, when `received` of
/// `total` bytes have arrived and each chunk of up to `chunk` bytes
/// arrives whole: the byte counts after each chunk, and the total once more
/// for the completion.
pub open spec fn expected_progress(received: int, total: int, chunk: int) -> Seq<int>
    decreases total - received,
{
    if received >= total || chunk < 1 {
        seq![total]
    } else {
        let next = if total - received < chunk {
            total
        } else {
            received + chunk
        };
        seq![next] + expected_progress(next, total, chunk)
    }
}

/// The progress that is still to come from a task in its loop, the
/// backend holding `received` bytes.
pub open spec fn pending_progress(task: TaskModel, received: int) -> Seq<int> {
    match task.phase {
        Phase::Reading { offset, len } => seq![offset + len] + expected_progress(
            offset + len,
            task.total as int,
            task.chunk_size as int,
        ),
        Phase::Sending { offset, len } => seq![offset + len] + expected_progress(
            offset + len,
            task.total as int,
            task.chunk_size as int,
        ),
        Phase::Completing { offset } => seq![task.total as int],
        Phase::Finished => Seq::empty(),
        _ => expected_progress(received, task.total as int, task.chunk_size as int),
    }
}

/// Whether `input` is what a task in its loop gets when nothing goes
/// wrong and nobody interferes: its control cell is at `Running`, the
/// backend reports the `received` bytes it holds, the file yields every
/// chunk whole, and the backend accepts each chunk and the completion.
pub open spec fn undisturbed(task: TaskModel, received: int, input: StepInput) -> bool {
    match task.phase {
        Phase::Idle => input matches StepInput::Control(UploadRunState::Running),
        Phase::Status => input matches StepInput::Offset(Ok(offset)) && offset == received,
        Phase::Reading { offset, len } => offset == received && (input matches StepInput::Chunk(
            crate::upload::ReadOutcome::Data(bytes),
        ) && bytes@.len() == len),
        Phase::Sending { offset, len } => offset == received && (input matches StepInput::ChunkSent(
            Ok(_),
        )),
        Phase::Completing { offset } => input matches StepInput::Completed(Ok(_)),
        Phase::Finished => true,
        _ => false,
    }
}

/// The bytes that the backend holds once the task has handled `input`.
pub open spec fn received_after(task: TaskModel, received: int, input: StepInput) -> int {
    match (task.phase, input) {
        (Phase::Sending { offset, len }, StepInput::ChunkSent(Ok(_))) => offset + len,
        _ => received,
    }
}

/// Whether every input of a run is undisturbed.
pub open spec fn undisturbed_run(task: TaskModel, received: int, inputs: Seq<StepInput>) -> bool
    decreases inputs.len(),
{
    if inputs.len() == 0 {
        true
    } else {
        &&& undisturbed(task, received, inputs[0])
        &&& undisturbed_run(
            task.step(inputs[0]).0,
            received_after(task, received, inputs[0]),
            inputs.drop_first(),
        )
    }
}

/// Whether `short` is the beginning of `long`.
pub open spec fn begins(short: Seq<u64>, long: Seq<int>) -> bool {
    &&& short.len() <= long.len()
    &&& forall|i: int| 0 <= i < short.len() ==> short[i] as int == long[i]
}

/// Whether the state of a task in its loop fits a backend that holds
/// `received` bytes.
pub open spec fn in_loop(task: TaskModel, received: int) -> bool {
    &&& task.wf()
    &&& 0 <= received
    &&& match task.phase {
        Phase::Idle => true,
        Phase::Status => true,
        Phase::Reading { offset, len } => offset == received,
        Phase::Sending { offset, len } => offset == received && len == chunk_len(
            task.total,
            offset,
            task.chunk_size,
        ),
        Phase::Completing { offset } => true,
        Phase::Finished => true,
        _ => false,
    }
}

proof fn lemma_undisturbed_step(task: TaskModel, received: int, input: StepInput)
    requires
        in_loop(task, received),
        undisturbed(task, received, input),
    ensures
        in_loop(task.step(input).0, received_after(task, received, input)),
        pending_progress(task, received) == (match progress(task.step(input).1) {
            Some(b) => seq![b as int],
            None => Seq::<int>::empty(),
        }) + pending_progress(task.step(input).0, received_after(task, received, input)),
{
    let next = task.step(input).0;
    let total = task.total as int;
    let chunk = task.chunk_size as int;
    match task.phase {
        Phase::Idle => {
            assert(Seq::<int>::empty() + pending_progress(next, received) =~= pending_progress(
                task,
                received,
            ));
        },
        Phase::Status => {
            assert(Seq::<int>::empty() + pending_progress(next, received) =~= pending_progress(
                next,
                received,
            ));
        },
        Phase::Reading { offset, len } => {
            assert(Seq::<int>::empty() + pending_progress(next, received) =~= pending_progress(
                next,
                received,
            ));
        },
        Phase::Sending { offset, len } => {},
        Phase::Completing { offset } => {
            assert(seq![total] + Seq::<int>::empty() =~= seq![total]);
        },
        _ => {
            assert(Seq::<int>::empty() + Seq::<int>::empty() =~= Seq::<int>::empty());
        },
    }
}

/// As long as nothing goes wrong and nobody interferes, a task in its loop
/// reports exactly the progress of a transfer chunk by chunk: the byte
/// count after each chunk, up to the size of the file, and then, with
/// `done`, the size of the file.
pub proof fn lemma_undisturbed_progress(task: TaskModel, received: int, inputs: Seq<StepInput>)
    requires
        in_loop(task, received),
        undisturbed_run(task, received, inputs),
    ensures
        begins(progress_seq(task, inputs), pending_progress(task, received)),
        run_task(task, inputs).phase == Phase::Finished ==> progress_seq(task, inputs).len()
            == pending_progress(task, received).len(),
    decreases inputs.len(),
{
    if inputs.len() > 0 {
        let (next, out) = task.step(inputs[0]);
        let after = received_after(task, received, inputs[0]);
        let rest = inputs.drop_first();
        lemma_undisturbed_step(task, received, inputs[0]);
        lemma_undisturbed_progress(next, after, rest);
        let tail = progress_seq(next, rest);
        let all = progress_seq(task, inputs);
        match progress(out) {
            Some(b) => {
                assert(all =~= seq![b] + tail);
                assert forall|i: int| 0 <= i < all.len() implies all[i] as int
                    == pending_progress(task, received)[i] by {
                    if i > 0 {
                        assert(all[i] == tail[i - 1]);
                    }
                }
            },
            None => {
                assert(all =~= tail);
                assert(Seq::<int>::empty() + pending_progress(next, after) =~= pending_progress(
                    next,
                    after,
                ));
            },
        }
    }
}

/// Three chunks of one mebibyte each, and then the completion: what an
/// undisturbed upload of three mebibytes reports.
pub proof fn lemma_three_chunks()
    ensures
        expected_progress(0, 3145728, 1048576) == seq![
            1048576int,
            2097152int,
            3145728int,
            3145728int,
        ],
{
    reveal_with_fuel(expected_progress, 5);
    assert(expected_progress(0, 3145728, 1048576) =~= seq![
        1048576int,
        2097152int,
        3145728int,
        3145728int,
    ]);
}

/// An empty file is completed at once.
pub proof fn lemma_empty_file(chunk: int)
    ensures
        expected_progress(0, 0, chunk) == seq![0int],
{
}

} // verus!
