//! Invocation requests and the records of what they did.

use vstd::prelude::*;
use crate::block_context::{BlockContext, ExecutionMode};
use crate::cached_state::{CachedState, StateView};
use crate::execution::call_stack::{
    begin_spec, handed_spec, lemma_run_push, result_view, run_spec, runs_through,
    ExecutionEngine, OutputView, Progress,
};
use crate::execution::contract_class::EntryPointType;
use crate::execution::errors::ExecutionError;
use crate::execution::laws::law_run_of_an_invocation;
use crate::execution::syscalls::{EventView, Interpreter};
use crate::felt::{ClassHash, ContractAddress, EntryPointSelector, Felt};
use crate::state_reader::StateReader;

verus! {

/// The arguments of an invocation.
#[derive(Clone, Debug, PartialEq, Eq)]
pub struct CallData(pub Vec<Felt>);

/// A request to run one entry point: the class whose code runs, the kind and
/// selector of the entry point, the arguments, and the address whose storage
/// the code sees. That address need not be one where the class is deployed.
#[derive(Clone, Debug, PartialEq, Eq)]
pub struct CallEntryPoint {
    pub class_hash: ClassHash,
    pub entry_point_type: EntryPointType,
    pub entry_point_selector: EntryPointSelector,
    pub calldata: CallData,
    pub storage_address: ContractAddress,
}

/// What an invocation returned.
#[derive(Clone, Debug, PartialEq, Eq)]
pub struct CallExecution {
    pub retdata: Vec<Felt>,
}

/// The record of one invocation: the request, what it returned, and the
/// records of the invocations nested in it, in the order in which they ran.
#[derive(Debug, PartialEq, Eq)]
pub struct CallInfo {
    pub call: CallEntryPoint,
    pub execution: CallExecution,
    pub inner_calls: Vec<CallInfo>,
}

/// A [`CallEntryPoint`] with its arguments as a sequence.
pub ghost struct CallView {
    pub class_hash: ClassHash,
    pub entry_point_type: EntryPointType,
    pub entry_point_selector: EntryPointSelector,
    pub calldata: Seq<Felt>,
    pub storage_address: ContractAddress,
}

/// A [`CallInfo`] as a tree of sequences.
pub ghost struct CallInfoView {
    pub call: CallView,
    pub retdata: Seq<Felt>,
    pub inner_calls: Seq<CallInfoView>,
}

impl CallData {
    pub open spec fn view(&self) -> Seq<Felt> {
        self.0@
    }
}

impl CallEntryPoint {
    pub open spec fn view(&self) -> CallView {
        CallView {
            class_hash: self.class_hash,
            entry_point_type: self.entry_point_type,
            entry_point_selector: self.entry_point_selector,
            calldata: self.calldata@,
            storage_address: self.storage_address,
        }
    }
}

impl CallInfo {
    pub open spec fn view(&self) -> CallInfoView
        decreases self,
    {
        CallInfoView {
            call: self.call@,
            retdata: self.execution.retdata@,
            inner_calls: Seq::new(
                self.inner_calls.len() as nat,
                |i: int|
                    if 0 <= i < self.inner_calls.len() {
                        self.inner_calls[i].view()
                    } else {
                        arbitrary()
                    },
            ),
        }
    }
}

/// The views of a sequence of records.
pub open spec fn info_views(infos: Seq<CallInfo>) -> Seq<CallInfoView> {
    Seq::new(infos.len(), |i: int| infos[i]@)
}

/// The nested records of a record are the views of its `inner_calls`.
pub proof fn lemma_inner_views(info: CallInfo)
    ensures
        info@.inner_calls == info_views(info.inner_calls@),
{
    assert(info@.inner_calls =~= info_views(info.inner_calls@));
}

/// Whether `result` and `state` are what the run of the invocation `call`
/// comes to, from the state `before` and under a budget of `max_steps`
/// events, when the programs report `events`.
///
/// The invocation is under way before each of the events and has ended
/// after the last: with the result of its outermost frame, or with
/// `ResourceExhausted` where the budget ended it. The state is the one that
/// the events left behind.
pub open spec fn is_outcome(
    before: StateView,
    call: CallView,
    max_steps: nat,
    events: Seq<EventView>,
    result: Result<CallInfoView, ExecutionError>,
    state: StateView,
) -> bool {
    let start = begin_spec(before, call, max_steps);
    &&& runs_through(start, events)
    &&& run_spec(start, events).output == OutputView::Finished(result)
    &&& run_spec(start, events).state == state
}

impl CallEntryPoint {
    /// Runs this invocation to its end against `state`, with `interpreter`
    /// running the programs, under the step ceiling that `block_context`
    /// sets for the phase `mode`, and returns its record.
    ///
    /// The interpreter is given exactly the actions that the call stack
    /// hands out, the first of them the start of the program at the
    /// location that the selector resolves to, and every event that it
    /// reports is one step of the call stack. The result is the outcome of
    /// those events: the record of this request, the error that ended it,
    /// or `ResourceExhausted` where the invocation was still under way when
    /// the ceiling was reached. Where the class cannot be loaded or the
    /// selector cannot be resolved, the interpreter is not called. The
    /// snapshot below the state is not changed.
    pub fn execute<R: StateReader, I: Interpreter>(
        self,
        state: &mut CachedState<R>,
        interpreter: &mut I,
        block_context: &BlockContext,
        mode: ExecutionMode,
    ) -> (r: Result<CallInfo, ExecutionError>)
        ensures
            old(interpreter).reported().is_prefix_of(final(interpreter).reported()),
            is_outcome(
                old(state)@,
                self@,
                block_context.ceiling(mode) as nat,
                final(interpreter).reported().skip(old(interpreter).reported().len() as int),
                result_view(r),
                final(state)@,
            ),
            final(interpreter).received() == old(interpreter).received() + handed_spec(
                begin_spec(old(state)@, self@, block_context.ceiling(mode) as nat),
                final(interpreter).reported().skip(old(interpreter).reported().len() as int),
            ),
            r matches Ok(info) ==> info@.call == self@,
            final(state)@.base == old(state)@.base,
            final(state)@.consistent(),
    {
        let max_steps = block_context.max_steps(mode);
        let ghost start = begin_spec(state@, self@, max_steps as nat);
        let ghost mut events: Seq<EventView> = Seq::empty();
        let mut progress = ExecutionEngine::start(self, state, max_steps);
        proof {
            assert(interpreter.reported() + events =~= interpreter.reported());
            assert(interpreter.received() + handed_spec(start, events) =~= interpreter.received());
        }
        loop
            invariant
                start == begin_spec(old(state)@, self@, block_context.ceiling(mode) as nat),
                progress.is_step(state@, run_spec(start, events)),
                state@.consistent(),
                runs_through(start, events),
                interpreter.reported() == old(interpreter).reported() + events,
                interpreter.received() == old(interpreter).received() + handed_spec(
                    start,
                    events,
                ),
            decreases progress.steps_left(),
        {
            match progress {
                Progress::Finished { result } => {
                    proof {
                        law_run_of_an_invocation(
                            old(state)@,
                            self@,
                            block_context.ceiling(mode) as nat,
                            events,
                        );
                        assert(interpreter.reported().skip(
                            old(interpreter).reported().len() as int,
                        ) =~= events);
                    }
                    return result;
                },
                Progress::Running { engine, action } => {
                    let ghost handed = action@;
                    let event = interpreter.advance(action);
                    proof {
                        lemma_run_push(start, events, event@);
                        let longer = events.push(event@);
                        assert forall|n: int| 0 <= n < longer.len() implies (#[trigger] run_spec(
                            start,
                            longer.take(n),
                        )).running() by {
                            if n < events.len() {
                                assert(longer.take(n) =~= events.take(n));
                            } else {
                                assert(longer.take(n) =~= events);
                            }
                        }
                        assert(handed_spec(start, longer) =~= handed_spec(start, events).push(
                            handed,
                        )) by {
                            assert forall|i: int| 0 <= i < longer.len() implies handed_spec(
                                start,
                                longer,
                            )[i] == handed_spec(start, events).push(handed)[i] by {
                                if i < events.len() {
                                    assert(longer.take(i) =~= events.take(i));
                                } else {
                                    assert(longer.take(i) =~= events);
                                }
                            }
                        }
                        assert(old(interpreter).reported() + longer =~= (old(
                            interpreter,
                        ).reported() + events).push(event@));
                        assert(old(interpreter).received() + handed_spec(start, longer) =~= (old(
                            interpreter,
                        ).received() + handed_spec(start, events)).push(handed));
                        events = longer;
                    }
                    progress = engine.step(state, event);
                },
            }
        }
    }
}

} // verus!
