//! What holds of every run of the call stack.

use vstd::prelude::*;
use crate::cached_state::StateView;
use crate::execution::call_stack::{
    begin_spec, exhausted, handed_spec, react_spec, run_spec, runs_through, spent, step_spec,
    FrameView, OutputView, StepView,
};
use crate::execution::contract_class::{
    is_only_match, lemma_resolve_absent, lemma_resolve_row, selectors_distinct, ClassView,
};
use crate::execution::entry_point::{CallInfoView, CallView};
use crate::execution::errors::ExecutionError;
use crate::execution::syscalls::{ActionView, EventView};
use crate::felt::{ClassHash, ContractAddress, EntryPointSelector, Felt, StorageKey};

verus! {

/// The frame that an invocation has when it has just begun.
pub open spec fn new_frame(call: CallView) -> FrameView {
    FrameView { call, inner_calls: Seq::empty() }
}

/// The budget: a step is the reaction to its event, one step of the budget
/// spent, unless the invocation would go on with no step left. Then the
/// whole call chain ends with `ResourceExhausted`, in the state that the
/// reaction left.
pub proof fn law_budget(
    frames: Seq<FrameView>,
    state: StateView,
    steps_left: nat,
    event: EventView,
)
    requires
        frames.len() > 0,
    ensures
        ({
            let reaction = react_spec(frames, state, event, spent(steps_left));
            let step = step_spec(frames, state, steps_left, event);
            &&& steps_left > 1 ==> step == reaction
            &&& !reaction.running() ==> step == reaction
            &&& steps_left <= 1 && reaction.running() ==> step == exhausted(reaction.state)
            &&& step.running() ==> step == reaction && step.steps_left > 0 && step.steps_left
                == steps_left - 1
            &&& step.state == reaction.state
        }),
{
}

/// Resolution correctness: an invocation begins at the offset of the row
/// that has its selector, in the table of its kind, where that row is the
/// only one with the selector, as every row is in a table without repeated
/// selectors. Where no row has the selector, the invocation fails with
/// `EntryPointNotFound` carrying the selector, and nothing runs.
pub proof fn law_resolution(
    state: StateView,
    call: CallView,
    class: ClassView,
    row: int,
    max_steps: nat,
)
    requires
        state.class_of(call.class_hash) == Some(class),
    ensures
        ({
            let table = class.table(call.entry_point_type);
            let found = 0 <= row < table.len() && table[row].selector == call.entry_point_selector;
            let begun = begin_spec(state, call, max_steps);
            &&& found && selectors_distinct(table) ==> is_only_match(
                table,
                call.entry_point_selector,
                row,
            )
            &&& is_only_match(table, call.entry_point_selector, row) && max_steps > 0 ==> {
                &&& begun.frames == seq![new_frame(call)]
                &&& begun.output == OutputView::Next(
                    ActionView::Run {
                        class_hash: call.class_hash,
                        location: table[row].offset,
                        calldata: call.calldata,
                        storage_address: call.storage_address,
                        steps_left: max_steps,
                    },
                )
            }
            &&& is_only_match(table, call.entry_point_selector, row) && max_steps == 0 ==> begun
                == exhausted(state.read_class(call.class_hash))
            &&& (forall|i: int|
                0 <= i < table.len() ==> (#[trigger] table[i]).selector
                    != call.entry_point_selector) ==> {
                &&& !begun.running()
                &&& begun.output == OutputView::Finished(
                    Err(ExecutionError::EntryPointNotFound(call.entry_point_selector)),
                )
            }
        }),
{
    let table = class.table(call.entry_point_type);
    if 0 <= row < table.len() && table[row].selector == call.entry_point_selector
        && selectors_distinct(table) {
        lemma_resolve_row(table, row);
    }
    if is_only_match(table, call.entry_point_selector, row) {
        let chosen = choose|i: int| is_only_match(table, call.entry_point_selector, i);
        assert(chosen == row);
        assert(Seq::<FrameView>::empty().push(new_frame(call)) =~= seq![new_frame(call)]);
    }
    if forall|i: int|
        0 <= i < table.len() ==> (#[trigger] table[i]).selector != call.entry_point_selector {
        lemma_resolve_absent(table, call.entry_point_selector);
    }
}

/// The first thing that the interpreter is given in the run of an
/// invocation is the start of the program at the location that the selector
/// resolves to, with the whole budget.
pub proof fn law_first_action_is_the_resolved_location(
    state: StateView,
    call: CallView,
    class: ClassView,
    row: int,
    max_steps: nat,
    events: Seq<EventView>,
)
    requires
        state.class_of(call.class_hash) == Some(class),
        is_only_match(class.table(call.entry_point_type), call.entry_point_selector, row),
        events.len() > 0,
        runs_through(begin_spec(state, call, max_steps), events),
    ensures
        max_steps > 0,
        handed_spec(begin_spec(state, call, max_steps), events)[0] == (ActionView::Run {
            class_hash: call.class_hash,
            location: class.table(call.entry_point_type)[row].offset,
            calldata: call.calldata,
            storage_address: call.storage_address,
            steps_left: max_steps,
        }),
{
    let start = begin_spec(state, call, max_steps);
    assert(events.take(0) =~= Seq::<EventView>::empty());
    assert(run_spec(start, events.take(0)) == start);
    law_resolution(state, call, class, row, max_steps);
}

/// Library-call storage inheritance: a library call that begins runs the
/// code of the class that it names, and its frame has the storage address
/// of the frame that issued it. Every storage read and write of that frame
/// goes to that address, whatever address the class is deployed at.
pub proof fn law_library_call_inherits_storage(
    frames: Seq<FrameView>,
    state: StateView,
    steps_left: nat,
    class_hash: ClassHash,
    selector: EntryPointSelector,
    calldata: Seq<Felt>,
    later: StateView,
    later_left: nat,
    key: StorageKey,
    value: Felt,
)
    requires
        frames.len() > 0,
        step_spec(
            frames,
            state,
            steps_left,
            EventView::LibraryCall { class_hash, selector, calldata },
        ).frames.len() > frames.len(),
    ensures
        ({
            let caller = frames.last().call;
            let begun = step_spec(
                frames,
                state,
                steps_left,
                EventView::LibraryCall { class_hash, selector, calldata },
            );
            let callee = begun.frames.last().call;
            &&& begun.frames.drop_last() == frames
            &&& callee.class_hash == class_hash
            &&& callee.storage_address == caller.storage_address
            &&& begun.output matches OutputView::Next(
                ActionView::Run { class_hash: code, storage_address, .. },
            ) && code == class_hash && storage_address == caller.storage_address
            &&& react_spec(begun.frames, later, EventView::StorageRead { key }, later_left).output
                == OutputView::Next(
                ActionView::Resume { values: seq![later.storage_at(caller.storage_address, key)] },
            )
            &&& step_spec(begun.frames, later, later_left, EventView::StorageRead { key }).state
                == later.read_storage(caller.storage_address, key)
            &&& step_spec(
                begun.frames,
                later,
                later_left,
                EventView::StorageWrite { key, value },
            ).state == later.write_storage(caller.storage_address, key, value)
        }),
{
    let begun = step_spec(
        frames,
        state,
        steps_left,
        EventView::LibraryCall { class_hash, selector, calldata },
    );
    assert(begun.frames.drop_last() =~= frames);
}

/// A contract call that begins runs the class deployed at the called
/// address against the storage of that address.
pub proof fn law_contract_call_runs_callee_as_itself(
    frames: Seq<FrameView>,
    state: StateView,
    steps_left: nat,
    address: ContractAddress,
    selector: EntryPointSelector,
    calldata: Seq<Felt>,
)
    requires
        frames.len() > 0,
        step_spec(
            frames,
            state,
            steps_left,
            EventView::CallContract { address, selector, calldata },
        ).frames.len() > frames.len(),
    ensures
        ({
            let begun = step_spec(
                frames,
                state,
                steps_left,
                EventView::CallContract { address, selector, calldata },
            );
            let callee = begun.frames.last().call;
            &&& begun.frames.drop_last() == frames
            &&& Some(callee.class_hash) == state.class_hash_at(address)
            &&& callee.storage_address == address
        }),
{
    let begun = step_spec(
        frames,
        state,
        steps_left,
        EventView::CallContract { address, selector, calldata },
    );
    assert(begun.frames.drop_last() =~= frames);
}

/// What holds of every step: the snapshot below the state is not changed,
/// a cache that follows the snapshot goes on following it, the lowest frame
/// stays the invocation that it was, and the step hands out a result
/// exactly when it leaves no frame.
pub proof fn lemma_step_keeps(
    frames: Seq<FrameView>,
    state: StateView,
    steps_left: nat,
    event: EventView,
)
    requires
        frames.len() > 0,
    ensures
        ({
            let after = step_spec(frames, state, steps_left, event);
            &&& after.state.base == state.base
            &&& state.consistent() ==> after.state.consistent()
            &&& after.running() ==> after.frames[0].call == frames[0].call
            &&& after.running() <==> after.output is Next
            &&& after.running() ==> after.steps_left > 0 && after.steps_left == steps_left - 1
            &&& after.output matches OutputView::Finished(Ok(info)) ==> frames.len() == 1
                && info.call == frames[0].call
        }),
{
}

/// Storage reads and writes leave no record: they change neither the stack
/// nor the records of any frame, and go to the storage address of the frame
/// on top.
pub proof fn law_storage_events_leave_no_record(
    frames: Seq<FrameView>,
    state: StateView,
    steps_left: nat,
    key: StorageKey,
    value: Felt,
)
    requires
        frames.len() > 0,
    ensures
        ({
            let address = frames.last().call.storage_address;
            let read = react_spec(frames, state, EventView::StorageRead { key }, steps_left);
            let written = react_spec(
                frames,
                state,
                EventView::StorageWrite { key, value },
                steps_left,
            );
            &&& read.frames == frames
            &&& read.state == state.read_storage(address, key)
            &&& read.output == OutputView::Next(
                ActionView::Resume { values: seq![state.storage_at(address, key)] },
            )
            &&& written.frames == frames
            &&& written.state == state.write_storage(address, key, value)
            &&& written.output == OutputView::Next(ActionView::Resume { values: Seq::empty() })
        }),
{
}

/// No rollback: when a frame fails, the state stays as the frame left it,
/// with all that the frame wrote.
pub proof fn law_failure_keeps_writes(
    frames: Seq<FrameView>,
    state: StateView,
    steps_left: nat,
    error: ExecutionError,
)
    requires
        frames.len() > 0,
    ensures
        ({
            let reaction = react_spec(frames, state, EventView::Fail { error }, steps_left);
            &&& step_spec(frames, state, steps_left, EventView::Fail { error }).state == state
            &&& reaction.state == state
            &&& reaction.frames == frames.drop_last()
            &&& frames.len() > 1 ==> reaction.output == OutputView::Next(
                ActionView::Raise { error },
            )
            &&& frames.len() == 1 ==> reaction.output == OutputView::Finished(Err(error))
        }),
{
}

/// What holds at every point of the run of an invocation: while it is under
/// way its lowest frame is the invocation itself and a step of the budget is
/// left, and the record that it ends with is the record of its own request.
/// The snapshot below the state is the one that the run began with, and a
/// cache that follows the snapshot goes on following it. A run in which the
/// invocation is under way before each event has no more events than the
/// budget allows.
pub proof fn law_run_of_an_invocation(
    state: StateView,
    call: CallView,
    max_steps: nat,
    events: Seq<EventView>,
)
    ensures
        ({
            let start = begin_spec(state, call, max_steps);
            let end = run_spec(start, events);
            &&& end.running() ==> end.frames[0].call == call
            &&& end.running() ==> end.steps_left > 0
            &&& end.running() <==> end.output is Next
            &&& end.output matches OutputView::Finished(Ok(info)) ==> info.call == call
            &&& end.state.base == state.base
            &&& state.consistent() ==> end.state.consistent()
            &&& runs_through(start, events) && end.running() ==> end.steps_left + events.len()
                == max_steps
            &&& runs_through(start, events) ==> events.len() <= max_steps
        }),
    decreases events.len(),
{
    let start = begin_spec(state, call, max_steps);
    if events.len() > 0 {
        let shorter = events.drop_last();
        law_run_of_an_invocation(state, call, max_steps, shorter);
        let before = run_spec(start, shorter);
        if before.running() {
            lemma_step_keeps(before.frames, before.state, before.steps_left, events.last());
        }
        if runs_through(start, events) {
            assert forall|n: int| 0 <= n < shorter.len() implies (#[trigger] run_spec(
                start,
                shorter.take(n),
            )).running() by {
                assert(shorter.take(n) =~= events.take(n));
            }
            assert(events.take(events.len() - 1) =~= shorter);
            assert(before.running());
        }
    }
}

/// The record that a return makes of a frame.
pub open spec fn record_of(frame: FrameView, retdata: Seq<Felt>) -> CallInfoView {
    CallInfoView { call: frame.call, retdata, inner_calls: frame.inner_calls }
}

/// A frame with one more record of a nested invocation.
pub open spec fn with_record(frame: FrameView, info: CallInfoView) -> FrameView {
    FrameView { call: frame.call, inner_calls: frame.inner_calls.push(info) }
}

/// The things that a step can do to the stack: leave it, push a frame
/// without records, pop the frame on top, pop it and add its record to the
/// frame below, or end the whole call chain.
pub open spec fn step_shape(frames: Seq<FrameView>, after: Seq<FrameView>) -> bool {
    ||| after == frames
    ||| after.len() == frames.len() + 1 && after.drop_last() == frames && after.last().inner_calls
        == Seq::<CallInfoView>::empty()
    ||| after == frames.drop_last()
    ||| after.len() == 0
    ||| frames.len() >= 2 && exists|retdata: Seq<Felt>|
        after == frames.drop_last().drop_last().push(
            with_record(frames[frames.len() - 2], #[trigger] record_of(frames.last(), retdata)),
        )
}

/// Every step has one of these shapes.
pub proof fn lemma_step_shape(
    frames: Seq<FrameView>,
    state: StateView,
    steps_left: nat,
    event: EventView,
)
    requires
        frames.len() > 0,
    ensures
        step_shape(frames, step_spec(frames, state, steps_left, event).frames),
{
    let after = step_spec(frames, state, steps_left, event).frames;
    if after.len() > 0 {
        match event {
            EventView::Return { retdata } => {
                if frames.len() >= 2 {
                    assert(after == frames.drop_last().drop_last().push(
                        with_record(frames[frames.len() - 2], record_of(frames.last(), retdata)),
                    ));
                }
            },
            EventView::CallContract { .. } => {
                if after.len() == frames.len() + 1 {
                    assert(after.drop_last() =~= frames);
                }
            },
            EventView::LibraryCall { .. } => {
                if after.len() == frames.len() + 1 {
                    assert(after.drop_last() =~= frames);
                }
            },
            _ => {},
        }
    }
}

/// After each of the events, the stack is more than `depth` frames high.
pub open spec fn stays_above(start: StepView, events: Seq<EventView>, depth: int) -> bool {
    forall|n: int|
        0 < n <= events.len() ==> (#[trigger] run_spec(start, events.take(n))).frames.len() > depth
}

/// A run of two runs of events is the second run from where the first ended.
pub proof fn lemma_run_concat(start: StepView, first: Seq<EventView>, second: Seq<EventView>)
    ensures
        run_spec(start, first + second) == run_spec(run_spec(start, first), second),
    decreases second.len(),
{
    if second.len() == 0 {
        assert(first + second =~= first);
    } else {
        lemma_run_concat(start, first, second.drop_last());
        assert((first + second).drop_last() =~= first + second.drop_last());
    }
}

/// A run of one event is one step.
pub proof fn lemma_run_one(start: StepView, event: EventView)
    requires
        start.running(),
    ensures
        run_spec(start, seq![event]) == step_spec(
            start.frames,
            start.state,
            start.steps_left,
            event,
        ),
{
    assert(seq![event].drop_last() =~= Seq::<EventView>::empty());
    assert(run_spec(start, seq![event].drop_last()) == start);
}

/// While a frame stays on the stack, nothing below it changes, its request
/// stays the same, and its records are only added to: none is changed,
/// removed or moved.
pub proof fn lemma_frames_are_kept(start: StepView, events: Seq<EventView>, index: int)
    requires
        0 <= index <= start.frames.len(),
        stays_above(start, events, index),
    ensures
        run_spec(start, events).frames.len() >= index,
        events.len() > 0 ==> run_spec(start, events).frames.len() > index,
        run_spec(start, events).frames.take(index) == start.frames.take(index),
        index < start.frames.len() ==> {
            &&& run_spec(start, events).frames.len() > index
            &&& run_spec(start, events).frames[index].call == start.frames[index].call
            &&& start.frames[index].inner_calls.is_prefix_of(
                run_spec(start, events).frames[index].inner_calls,
            )
        },
    decreases events.len(),
{
    if events.len() > 0 {
        let shorter = events.drop_last();
        assert forall|n: int| 0 < n <= shorter.len() implies (#[trigger] run_spec(
            start,
            shorter.take(n),
        )).frames.len() > index by {
            assert(shorter.take(n) =~= events.take(n));
        }
        lemma_frames_are_kept(start, shorter, index);
        let before = run_spec(start, shorter);
        let after = run_spec(start, events);
        assert(events.take(events.len() as int) =~= events);
        assert(after.frames.len() > index);
        if !before.running() {
            assert(after == before);
        } else {
            assert(after == step_spec(before.frames, before.state, before.steps_left, events.last()));
            lemma_step_shape(before.frames, before.state, before.steps_left, events.last());
            let old_frames = before.frames;
            let new_frames = after.frames;
            assert(new_frames.take(index) =~= old_frames.take(index));
            if index < start.frames.len() {
                assert(old_frames.len() > index);
                if new_frames == old_frames {
                } else if new_frames.len() == old_frames.len() + 1 && new_frames.drop_last()
                    == old_frames {
                    assert(new_frames[index] == new_frames.drop_last()[index]);
                } else if new_frames == old_frames.drop_last() {
                } else {
                    let retdata = choose|retdata: Seq<Felt>|
                        new_frames == old_frames.drop_last().drop_last().push(
                            with_record(
                                old_frames[old_frames.len() - 2],
                                #[trigger] record_of(old_frames.last(), retdata),
                            ),
                        );
                    if index == old_frames.len() - 2 {
                        assert(new_frames[index] == with_record(
                            old_frames[index],
                            record_of(old_frames.last(), retdata),
                        ));
                        assert(old_frames[index].inner_calls.is_prefix_of(
                            new_frames[index].inner_calls,
                        ));
                    } else {
                        assert(new_frames[index] == old_frames[index]);
                    }
                }
            }
        }
    } else {
        assert(start.frames.take(index) =~= start.frames.take(index));
    }
}

/// `events` is one whole nested invocation of the frame on top: the frame
/// makes a call, the run stays inside that call up to the last event, and
/// the last event is the return that adds `info` to the frame's records.
pub open spec fn completes_call(start: StepView, events: Seq<EventView>, info: CallInfoView) -> bool {
    &&& start.running()
    &&& events.len() > 0
    &&& stays_above(start, events.drop_last(), start.frames.len() as int)
    &&& run_spec(start, events).frames == start.frames.drop_last().push(
        with_record(start.frames.last(), info),
    )
}

/// The record that a nested invocation leaves is the record of that
/// invocation: its request is the request of the frame that the first
/// event pushed.
pub proof fn law_record_is_of_its_call(
    start: StepView,
    events: Seq<EventView>,
    info: CallInfoView,
)
    requires
        completes_call(start, events, info),
    ensures
        events.len() >= 2,
        step_spec(start.frames, start.state, start.steps_left, events[0]).frames
            == start.frames.push(new_frame(info.call)),
{
    let height = start.frames.len() as int;
    let end = run_spec(start, events);
    let inner = events.drop_last();
    let middle = run_spec(start, inner);
    let top = start.frames.last();
    assert(end.frames.last() == with_record(top, info));
    assert(end.frames.len() == height);
    // No single step adds a record and keeps the height of the stack.
    if events.len() == 1 {
        assert(inner =~= Seq::<EventView>::empty());
        assert(middle == start);
        lemma_step_shape(start.frames, start.state, start.steps_left, events.last());
        assert(false);
    }
    // The first event pushes a frame.
    let first = events[0];
    let rest = inner.subrange(1, inner.len() as int);
    assert(inner =~= seq![first] + rest);
    lemma_run_one(start, first);
    let begun = run_spec(start, seq![first]);
    assert(inner.take(1) =~= seq![first]);
    assert(begun.frames.len() > height);
    lemma_step_shape(start.frames, start.state, start.steps_left, first);
    assert(begun.frames.drop_last() == start.frames);
    assert(begun.frames =~= start.frames.push(new_frame(begun.frames.last().call)));
    // Up to the last event the run stays above the caller, so the frames of
    // the caller are as they were and the pushed frame keeps its request.
    assert forall|n: int| 0 < n <= rest.len() implies (#[trigger] run_spec(
        begun,
        rest.take(n),
    )).frames.len() > height by {
        lemma_run_concat(start, seq![first], rest.take(n));
        assert(seq![first] + rest.take(n) =~= inner.take(n + 1));
    }
    lemma_frames_are_kept(begun, rest, height);
    lemma_run_concat(start, seq![first], rest);
    assert(middle == run_spec(begun, rest));
    assert(middle.frames.take(height) == begun.frames.take(height));
    assert(begun.frames.take(height) =~= start.frames);
    assert(middle.frames[height].call == begun.frames[height].call);
    // The last event brings the stack down to the height of the caller with
    // one record more: of the shapes of a step only the return fits.
    assert(middle.running());
    assert(end == step_spec(middle.frames, middle.state, middle.steps_left, events.last()));
    lemma_step_shape(middle.frames, middle.state, middle.steps_left, events.last());
    let before = middle.frames;
    assert(before.take(height)[height - 1] == before[height - 1]);
    if end.frames == before {
        assert(false);
    } else if end.frames.len() == before.len() + 1 {
        assert(false);
    } else if end.frames == before.drop_last() {
        assert(before.len() == height + 1);
        assert(end.frames.last() == before[height - 1]);
        assert(before[height - 1] == top);
        assert(top.inner_calls.push(info).len() == top.inner_calls.len() + 1);
        assert(false);
    } else {
        let retdata = choose|retdata: Seq<Felt>|
            end.frames == before.drop_last().drop_last().push(
                with_record(before[before.len() - 2], #[trigger] record_of(before.last(), retdata)),
            );
        assert(before.len() == height + 1);
        assert(before[height - 1] == top);
        let made = record_of(before.last(), retdata);
        assert(end.frames.last() == with_record(top, made));
        assert(top.inner_calls.push(made).last() == made);
        assert(top.inner_calls.push(info).last() == info);
        assert(made == info);
    }
}

/// Every event is a storage read or a storage write.
pub open spec fn only_storage(events: Seq<EventView>) -> bool {
    forall|i: int|
        0 <= i < events.len() ==> (#[trigger] events[i]) is StorageRead || events[i] is StorageWrite
}

/// `events` are storage reads and writes of the frame on top, and the
/// budget lets the invocation go on after them.
pub open spec fn storage_run(start: StepView, events: Seq<EventView>) -> bool {
    &&& start.running()
    &&& only_storage(events)
    &&& run_spec(start, events).running()
}

/// Storage reads and writes, however many, leave the stack and every record
/// as they are.
pub proof fn lemma_storage_run_keeps_frames(start: StepView, events: Seq<EventView>)
    requires
        storage_run(start, events),
    ensures
        run_spec(start, events).frames == start.frames,
    decreases events.len(),
{
    if events.len() > 0 {
        let shorter = events.drop_last();
        let before = run_spec(start, shorter);
        assert(before.running());
        assert(only_storage(shorter)) by {
            assert forall|i: int| 0 <= i < shorter.len() implies (#[trigger] shorter[i])
                is StorageRead || shorter[i] is StorageWrite by {
                assert(shorter[i] == events[i]);
            }
        }
        lemma_storage_run_keeps_frames(start, shorter);
        assert(events.last() == events[events.len() - 1]);
    }
}

/// The events of a run in which the frame on top makes `count` nested
/// invocations: the storage events `quiet[0]`, then for each invocation its
/// events `calls[i]` and the storage events `quiet[i + 1]` that follow it.
pub open spec fn joined(
    quiet: Seq<Seq<EventView>>,
    calls: Seq<Seq<EventView>>,
    count: nat,
) -> Seq<EventView>
    decreases count,
{
    if count == 0 {
        quiet[0]
    } else {
        joined(quiet, calls, (count - 1) as nat) + calls[count - 1] + quiet[count as int]
    }
}

/// The frame on top makes `count` nested invocations one after the other,
/// with storage reads and writes of its own before, between and after them:
/// each `calls[i]` is one whole nested invocation that leaves the record
/// `infos[i]`, and each `quiet[i]` is a run of storage events.
pub open spec fn makes_calls(
    start: StepView,
    quiet: Seq<Seq<EventView>>,
    calls: Seq<Seq<EventView>>,
    infos: Seq<CallInfoView>,
    count: nat,
) -> bool
    decreases count,
{
    if count == 0 {
        storage_run(start, quiet[0])
    } else {
        let earlier = joined(quiet, calls, (count - 1) as nat);
        &&& makes_calls(start, quiet, calls, infos, (count - 1) as nat)
        &&& completes_call(run_spec(start, earlier), calls[count - 1], infos[count - 1])
        &&& storage_run(run_spec(start, earlier + calls[count - 1]), quiet[count as int])
    }
}

/// Call-tree ordering: when the frame on top makes nested invocations one
/// after the other, however many, with any storage reads and writes of its
/// own before, between and after them, its records grow by the records of
/// those invocations in the order in which it made them, nothing else of
/// the stack changes, and the record that its own return makes lists them
/// so. Each part of the run begins in the state that the part before it left
/// behind.
pub proof fn law_call_tree_order(
    start: StepView,
    quiet: Seq<Seq<EventView>>,
    calls: Seq<Seq<EventView>>,
    infos: Seq<CallInfoView>,
    count: nat,
    retdata: Seq<Felt>,
)
    requires
        count <= calls.len(),
        calls.len() == infos.len(),
        quiet.len() == calls.len() + 1,
        makes_calls(start, quiet, calls, infos, count),
    ensures
        ({
            let end = run_spec(start, joined(quiet, calls, count));
            let top = start.frames.last();
            let record = CallInfoView {
                call: top.call,
                retdata,
                inner_calls: top.inner_calls + infos.take(count as int),
            };
            let returned = react_spec(
                end.frames,
                end.state,
                EventView::Return { retdata },
                spent(end.steps_left),
            );
            &&& end.running()
            &&& end.frames == start.frames.drop_last().push(
                FrameView {
                    call: top.call,
                    inner_calls: top.inner_calls + infos.take(count as int),
                },
            )
            &&& end.frames.len() == 1 ==> step_spec(
                end.frames,
                end.state,
                end.steps_left,
                EventView::Return { retdata },
            ).output == OutputView::Finished(Ok(record))
            &&& end.frames.len() > 1 ==> returned.frames.last().inner_calls.last() == record
        }),
    decreases count,
{
    let top = start.frames.last();
    let below = start.frames.drop_last();
    if count == 0 {
        lemma_storage_run_keeps_frames(start, quiet[0]);
        assert(top.inner_calls + infos.take(0) =~= top.inner_calls);
        assert(start.frames =~= below.push(top));
    } else {
        let fewer = (count - 1) as nat;
        let earlier = joined(quiet, calls, fewer);
        let call = calls[count - 1];
        let info = infos[count - 1];
        law_call_tree_order(start, quiet, calls, infos, fewer, retdata);
        let before = run_spec(start, earlier);
        let called = run_spec(start, earlier + call);
        lemma_run_concat(start, earlier, call);
        lemma_run_concat(start, earlier + call, quiet[count as int]);
        lemma_storage_run_keeps_frames(called, quiet[count as int]);
        assert(before.frames.drop_last() =~= below);
        assert(infos.take(count as int) =~= infos.take(fewer as int).push(info));
        assert(top.inner_calls + infos.take(count as int) =~= (top.inner_calls + infos.take(
            fewer as int,
        )).push(info));
    }
}

/// Whether the event is a write to the storage cell `key` of `address` by
/// the frame on top.
pub open spec fn writes_cell(
    frames: Seq<FrameView>,
    event: EventView,
    address: ContractAddress,
    key: StorageKey,
) -> bool {
    event matches EventView::StorageWrite { key: written, .. } && written == key
        && frames.last().call.storage_address == address
}

/// None of the events is a write to the storage cell `key` of `address`.
pub open spec fn leaves_cell(
    start: StepView,
    events: Seq<EventView>,
    address: ContractAddress,
    key: StorageKey,
) -> bool {
    forall|n: int|
        0 <= n < events.len() ==> !writes_cell(
            (#[trigger] run_spec(start, events.take(n))).frames,
            events[n],
            address,
            key,
        )
}

/// A step that is no write to a storage cell leaves what the cell reads as.
pub proof fn lemma_step_leaves_cell(
    frames: Seq<FrameView>,
    state: StateView,
    steps_left: nat,
    event: EventView,
    address: ContractAddress,
    key: StorageKey,
)
    requires
        frames.len() > 0,
        !writes_cell(frames, event, address, key),
    ensures
        step_spec(frames, state, steps_left, event).state.storage_at(address, key)
            == state.storage_at(address, key),
{
}

/// Writes are seen across the call tree: what a storage cell reads as stays
/// the same through every run that does not write the cell, however many
/// invocations begin and end in it. So a value that one nested invocation
/// wrote is the value that the next one reads.
pub proof fn law_writes_stay_visible(
    start: StepView,
    events: Seq<EventView>,
    address: ContractAddress,
    key: StorageKey,
)
    requires
        leaves_cell(start, events, address, key),
    ensures
        run_spec(start, events).state.storage_at(address, key) == start.state.storage_at(
            address,
            key,
        ),
    decreases events.len(),
{
    if events.len() > 0 {
        let shorter = events.drop_last();
        assert forall|n: int| 0 <= n < shorter.len() implies !writes_cell(
            (#[trigger] run_spec(start, shorter.take(n))).frames,
            shorter[n],
            address,
            key,
        ) by {
            assert(shorter.take(n) =~= events.take(n));
        }
        law_writes_stay_visible(start, shorter, address, key);
        let before = run_spec(start, shorter);
        if before.running() {
            assert(events.take(events.len() - 1) =~= shorter);
            lemma_step_leaves_cell(
                before.frames,
                before.state,
                before.steps_left,
                events.last(),
                address,
                key,
            );
        }
    }
}

/// A write by a frame is what a later read of the same cell returns to any
/// frame with the same storage address, when no event in between writes the
/// cell.
pub proof fn law_write_then_read(
    frames: Seq<FrameView>,
    state: StateView,
    steps_left: nat,
    key: StorageKey,
    value: Felt,
    between: Seq<EventView>,
)
    requires
        frames.len() > 0,
        leaves_cell(
            step_spec(frames, state, steps_left, EventView::StorageWrite { key, value }),
            between,
            frames.last().call.storage_address,
            key,
        ),
        run_spec(
            step_spec(frames, state, steps_left, EventView::StorageWrite { key, value }),
            between,
        ).running(),
        run_spec(
            step_spec(frames, state, steps_left, EventView::StorageWrite { key, value }),
            between,
        ).frames.last().call.storage_address == frames.last().call.storage_address,
    ensures
        ({
            let written = step_spec(
                frames,
                state,
                steps_left,
                EventView::StorageWrite { key, value },
            );
            let later = run_spec(written, between);
            react_spec(
                later.frames,
                later.state,
                EventView::StorageRead { key },
                spent(later.steps_left),
            ).output == OutputView::Next(ActionView::Resume { values: seq![value] })
        }),
{
    let written = step_spec(frames, state, steps_left, EventView::StorageWrite { key, value });
    law_writes_stay_visible(written, between, frames.last().call.storage_address, key);
}

} // verus!
