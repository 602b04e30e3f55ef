//! The call stack as a state machine: one step for each event of the
//! running program.

use vstd::prelude::*;
use crate::cached_state::{CachedState, StateView};
use crate::execution::contract_class::{copy_of, EntryPointType};
use crate::execution::entry_point::{
    info_views, lemma_inner_views, CallEntryPoint, CallExecution, CallInfo, CallInfoView, CallView,
};
use crate::execution::errors::ExecutionError;
use crate::execution::syscalls::{Action, ActionView, Event, EventView};
use crate::felt::Felt;
use crate::state_reader::StateReader;

verus! {

/// An invocation that has begun and not yet ended: its request, and the
/// records of the nested invocations that it has completed so far.
pub ghost struct FrameView {
    pub call: CallView,
    pub inner_calls: Seq<CallInfoView>,
}

/// What a step hands out: the next thing for the interpreter to do, or the
/// result of the outermost invocation.
pub ghost enum OutputView {
    Next(ActionView),
    Finished(Result<CallInfoView, ExecutionError>),
}

/// The machine after a step: the call stack, innermost frame last, the
/// state, what the step handed out, and the number of events that may still
/// be taken.
pub ghost struct StepView {
    pub frames: Seq<FrameView>,
    pub state: StateView,
    pub output: OutputView,
    pub steps_left: nat,
}

impl StepView {
    /// Whether an invocation is still under way.
    pub open spec fn running(self) -> bool {
        self.frames.len() > 0
    }
}

/// How an error reaches whoever issued the call: it is raised in the frame
/// on top, and is the result where there is no frame.
pub open spec fn deliver(frames: Seq<FrameView>, error: ExecutionError) -> OutputView {
    if frames.len() == 0 {
        OutputView::Finished(Err(error))
    } else {
        OutputView::Next(ActionView::Raise { error })
    }
}

/// The machine of an invocation that the budget has ended: no frame is
/// left, the state is as it was, and the result is `ResourceExhausted`.
pub open spec fn exhausted(state: StateView) -> StepView {
    StepView {
        frames: Seq::empty(),
        state,
        output: OutputView::Finished(Err(ExecutionError::ResourceExhausted)),
        steps_left: 0,
    }
}

/// The budget applied to a step: an invocation that is under way with no
/// step left ends there, the whole call chain with it.
pub open spec fn limited(step: StepView) -> StepView {
    if step.running() && step.steps_left == 0 {
        exhausted(step.state)
    } else {
        step
    }
}

/// The budget after one event was taken.
pub open spec fn spent(steps_left: nat) -> nat {
    if steps_left > 0 {
        (steps_left - 1) as nat
    } else {
        0
    }
}

/// Beginning an invocation on top of `frames`, with `steps_left` events
/// still to be taken.
///
/// The class is loaded through the state and the selector resolved within
/// the requested kind. Where both succeed, a frame is pushed and the
/// interpreter is sent to the location found, with the budget that is left.
/// Where one fails, the stack stays as it is and the error is delivered.
pub open spec fn enter_spec(
    frames: Seq<FrameView>,
    state: StateView,
    call: CallView,
    steps_left: nat,
) -> StepView {
    let loaded = state.read_class(call.class_hash);
    match state.class_of(call.class_hash) {
        None => StepView {
            frames,
            state: loaded,
            output: deliver(frames, ExecutionError::UninitializedClassHash),
            steps_left,
        },
        Some(class) => match class.resolve(call.entry_point_type, call.entry_point_selector) {
            None => StepView {
                frames,
                state: loaded,
                output: deliver(
                    frames,
                    ExecutionError::EntryPointNotFound(call.entry_point_selector),
                ),
                steps_left,
            },
            Some(location) => StepView {
                frames: frames.push(FrameView { call, inner_calls: Seq::empty() }),
                state: loaded,
                output: OutputView::Next(
                    ActionView::Run {
                        class_hash: call.class_hash,
                        location,
                        calldata: call.calldata,
                        storage_address: call.storage_address,
                        steps_left,
                    },
                ),
                steps_left,
            },
        },
    }
}

/// What becomes of the stack and of the state when the program on top
/// reports `event`, before the budget is applied. `frames` is not empty, and
/// `steps_left` is the budget after the event.
pub open spec fn react_spec(
    frames: Seq<FrameView>,
    state: StateView,
    event: EventView,
    steps_left: nat,
) -> StepView {
    let top = frames.last();
    let below = frames.drop_last();
    match event {
        EventView::StorageRead { key } => StepView {
            frames,
            state: state.read_storage(top.call.storage_address, key),
            output: OutputView::Next(
                ActionView::Resume {
                    values: seq![state.storage_at(top.call.storage_address, key)],
                },
            ),
            steps_left,
        },
        EventView::StorageWrite { key, value } => StepView {
            frames,
            state: state.write_storage(top.call.storage_address, key, value),
            output: OutputView::Next(ActionView::Resume { values: Seq::empty() }),
            steps_left,
        },
        EventView::CallContract { address, selector, calldata } => match state.class_hash_at(
            address,
        ) {
            None => StepView {
                frames,
                state: state.read_class_hash(address),
                output: OutputView::Next(
                    ActionView::Raise { error: ExecutionError::UninitializedClassHash },
                ),
                steps_left,
            },
            Some(class_hash) => enter_spec(
                frames,
                state.read_class_hash(address),
                CallView {
                    class_hash,
                    entry_point_type: EntryPointType::External,
                    entry_point_selector: selector,
                    calldata,
                    storage_address: address,
                },
                steps_left,
            ),
        },
        EventView::LibraryCall { class_hash, selector, calldata } => enter_spec(
            frames,
            state,
            CallView {
                class_hash,
                entry_point_type: EntryPointType::External,
                entry_point_selector: selector,
                calldata,
                storage_address: top.call.storage_address,
            },
            steps_left,
        ),
        EventView::Return { retdata } => {
            let info = CallInfoView { call: top.call, retdata, inner_calls: top.inner_calls };
            if below.len() == 0 {
                StepView {
                    frames: below,
                    state,
                    output: OutputView::Finished(Ok(info)),
                    steps_left,
                }
            } else {
                let parent = below.last();
                StepView {
                    frames: below.drop_last().push(
                        FrameView { call: parent.call, inner_calls: parent.inner_calls.push(info) },
                    ),
                    state,
                    output: OutputView::Next(ActionView::Resume { values: retdata }),
                    steps_left,
                }
            }
        },
        EventView::Fail { error } => StepView {
            frames: below,
            state,
            output: deliver(below, error),
            steps_left,
        },
    }
}

/// One step of the machine: the event costs one step of the budget, the
/// machine reacts to it, and the budget is applied to what comes of it.
/// `frames` is not empty and `steps_left` is not zero.
pub open spec fn step_spec(
    frames: Seq<FrameView>,
    state: StateView,
    steps_left: nat,
    event: EventView,
) -> StepView {
    limited(react_spec(frames, state, event, spent(steps_left)))
}

/// The machine when the outermost invocation `call` has just begun under a
/// budget of `max_steps` events, or has failed to begin.
pub open spec fn begin_spec(state: StateView, call: CallView, max_steps: nat) -> StepView {
    limited(enter_spec(Seq::empty(), state, call, max_steps))
}

/// The machine after the program events of a whole run, from the machine
/// that `start` describes. Events after the outermost invocation has ended
/// change nothing.
pub open spec fn run_spec(start: StepView, events: Seq<EventView>) -> StepView
    decreases events.len(),
{
    if events.len() == 0 {
        start
    } else {
        let before = run_spec(start, events.drop_last());
        if before.running() {
            step_spec(before.frames, before.state, before.steps_left, events.last())
        } else {
            before
        }
    }
}

/// Once the outermost invocation has ended, further events change nothing.
pub proof fn lemma_run_ended(start: StepView, events: Seq<EventView>)
    requires
        !start.running(),
    ensures
        run_spec(start, events) == start,
    decreases events.len(),
{
    if events.len() > 0 {
        lemma_run_ended(start, events.drop_last());
    }
}

/// A run of one more event is one more step, while the invocation is under
/// way.
pub proof fn lemma_run_push(start: StepView, events: Seq<EventView>, event: EventView)
    ensures
        run_spec(start, events.push(event)) == if run_spec(start, events).running() {
            step_spec(
                run_spec(start, events).frames,
                run_spec(start, events).state,
                run_spec(start, events).steps_left,
                event,
            )
        } else {
            run_spec(start, events)
        },
{
    assert(events.push(event).drop_last() =~= events);
}

/// The action that an output hands to the interpreter.
pub open spec fn action_of(output: OutputView) -> ActionView {
    match output {
        OutputView::Next(action) => action,
        OutputView::Finished(_) => ActionView::Resume { values: Seq::empty() },
    }
}

/// The actions that a run hands to the interpreter: before each event, what
/// the machine handed out last.
pub open spec fn handed_spec(start: StepView, events: Seq<EventView>) -> Seq<ActionView> {
    Seq::new(events.len(), |i: int| action_of(run_spec(start, events.take(i)).output))
}

/// The invocation is under way before each of the events.
pub open spec fn runs_through(start: StepView, events: Seq<EventView>) -> bool {
    forall|n: int|
        0 <= n < events.len() ==> (#[trigger] run_spec(start, events.take(n))).running()
}

/// A frame of the call stack.
pub struct Frame {
    pub call: CallEntryPoint,
    pub inner_calls: Vec<CallInfo>,
}

impl Frame {
    pub open spec fn view(&self) -> FrameView {
        FrameView { call: self.call@, inner_calls: info_views(self.inner_calls@) }
    }
}

/// The views of a stack of frames.
pub open spec fn frame_views(frames: Seq<Frame>) -> Seq<FrameView> {
    Seq::new(frames.len(), |i: int| frames[i]@)
}

/// The view of a result.
pub open spec fn result_view(result: Result<CallInfo, ExecutionError>) -> Result<
    CallInfoView,
    ExecutionError,
> {
    match result {
        Ok(info) => Ok(info@),
        Err(error) => Err(error),
    }
}

/// The call stack of an invocation that is under way. It is never empty:
/// when the outermost frame ends, the engine is gone and the result is there
/// in its place.
pub struct ExecutionEngine {
    frames: Vec<Frame>,
    steps_left: u32,
}

/// Where an invocation stands after a step.
pub enum Progress {
    /// It is under way, and the interpreter is to carry out `action`.
    Running { engine: ExecutionEngine, action: Action },
    /// The outermost invocation has ended with `result`.
    Finished { result: Result<CallInfo, ExecutionError> },
}

impl Progress {
    /// The call stack; empty when the invocation has ended.
    pub open spec fn frames(self) -> Seq<FrameView> {
        match self {
            Progress::Running { engine, .. } => engine@,
            Progress::Finished { .. } => Seq::empty(),
        }
    }

    /// What the step handed out.
    pub open spec fn output(self) -> OutputView {
        match self {
            Progress::Running { action, .. } => OutputView::Next(action@),
            Progress::Finished { result } => OutputView::Finished(result_view(result)),
        }
    }

    /// The number of events that may still be taken; zero when the
    /// invocation has ended.
    pub open spec fn steps_left(self) -> nat {
        match self {
            Progress::Running { engine, .. } => engine.spec_steps_left(),
            Progress::Finished { .. } => 0,
        }
    }

    /// Whether this progress, with the state beside it, is the machine that
    /// `step` describes.
    pub open spec fn is_step(self, state: StateView, step: StepView) -> bool {
        &&& self is Running <==> step.running()
        &&& self.frames() == step.frames
        &&& self.output() == step.output
        &&& state == step.state
        &&& self is Running ==> self.steps_left() == step.steps_left && step.steps_left > 0
    }
}

/// The progress of a machine that is under way, with the budget applied.
fn proceed(frames: Vec<Frame>, action: Action, steps_left: u32) -> (progress: Progress)
    requires
        frames.len() > 0,
    ensures
        progress is Running <==> steps_left > 0,
        progress is Running ==> progress.frames() == frame_views(frames@) && progress.output()
            == OutputView::Next(action@) && progress.steps_left() == steps_left,
        progress is Finished ==> progress.output() == OutputView::Finished(
            Err(ExecutionError::ResourceExhausted),
        ),
{
    if steps_left == 0 {
        Progress::Finished { result: Err(ExecutionError::ResourceExhausted) }
    } else {
        Progress::Running { engine: ExecutionEngine { frames, steps_left }, action }
    }
}

/// Begins the invocation `call` on top of `frames`.
fn enter<R: StateReader>(
    mut frames: Vec<Frame>,
    state: &mut CachedState<R>,
    call: CallEntryPoint,
    steps_left: u32,
) -> (progress: Progress)
    ensures
        progress.is_step(
            final(state)@,
            limited(enter_spec(frame_views(frames@), old(state)@, call@, steps_left as nat)),
        ),
        final(state)@.consistent(),
{
    let resolved = match state.load_contract_class(call.class_hash) {
        Err(error) => Err(error),
        Ok(()) => match state.loaded_contract_class(call.class_hash) {
            None => Err(ExecutionError::UninitializedClassHash),
            Some(class) => class.resolve(call.entry_point_type, call.entry_point_selector),
        },
    };
    match resolved {
        Err(error) => {
            if frames.len() == 0 {
                assert(frame_views(frames@) =~= Seq::<FrameView>::empty());
                Progress::Finished { result: Err(error) }
            } else {
                proceed(frames, Action::Raise { error }, steps_left)
            }
        },
        Ok(location) => {
            let action = Action::Run {
                class_hash: call.class_hash,
                location,
                calldata: copy_of(&call.calldata.0),
                storage_address: call.storage_address,
                steps_left,
            };
            let ghost before = frames@;
            let ghost pushed = FrameView { call: call@, inner_calls: Seq::empty() };
            frames.push(Frame { call, inner_calls: Vec::new() });
            proof {
                assert(info_views(Seq::<CallInfo>::empty()) =~= Seq::<CallInfoView>::empty());
                assert(frame_views(frames@) =~= frame_views(before).push(pushed));
            }
            proceed(frames, action, steps_left)
        },
    }
}

impl ExecutionEngine {
    #[verifier::type_invariant]
    spec fn active(self) -> bool {
        self.frames.len() > 0 && self.steps_left > 0
    }

    /// The number of events that may still be taken.
    pub closed spec fn spec_steps_left(&self) -> nat {
        self.steps_left as nat
    }

    /// The number of events that may still be taken, which is never zero.
    pub fn steps_left(&self) -> (r: u32)
        ensures
            r == self.spec_steps_left(),
            r > 0,
    {
        proof {
            use_type_invariant(self);
        }
        self.steps_left
    }

    /// The call stack, innermost frame last.
    pub closed spec fn view(&self) -> Seq<FrameView> {
        frame_views(self.frames@)
    }

    /// The number of invocations under way, which is never zero.
    pub fn depth(&self) -> (r: usize)
        ensures
            r == self@.len(),
            r > 0,
    {
        proof {
            use_type_invariant(self);
        }
        self.frames.len()
    }

    /// The frame on top: the invocation whose program is running.
    pub fn top(&self) -> (r: &Frame)
        ensures
            r@ == self@.last(),
    {
        proof {
            use_type_invariant(self);
        }
        &self.frames[self.frames.len() - 1]
    }

    /// Begins the outermost invocation under a budget of `max_steps` events.
    ///
    /// Loads the class of `entry_point` through `state` and resolves its
    /// selector. It has ended with `UninitializedClassHash` where the class
    /// cannot be loaded, with `EntryPointNotFound` carrying the selector
    /// where it cannot be resolved, and with `ResourceExhausted` where both
    /// succeed and the budget is zero. Otherwise the invocation is under
    /// way, with the interpreter sent to the location found.
    pub fn start<R: StateReader>(
        entry_point: CallEntryPoint,
        state: &mut CachedState<R>,
        max_steps: u32,
    ) -> (progress: Progress)
        ensures
            progress.is_step(
                final(state)@,
                begin_spec(old(state)@, entry_point@, max_steps as nat),
            ),
            final(state)@.consistent(),
    {
        let frames: Vec<Frame> = Vec::new();
        assert(frame_views(frames@) =~= Seq::<FrameView>::empty());
        enter(frames, state, entry_point, max_steps)
    }

    /// Takes one step for `event`, which the program on top has reported.
    ///
    /// The event costs one step of the budget. A storage read or write goes
    /// to the state at the storage address of the frame on top. A contract
    /// call runs the class deployed at the called address against that
    /// address; a library call runs the named class against the storage
    /// address of the frame on top. A return pops the frame and appends its
    /// record to those of the frame below, or ends the invocation with the
    /// record; a failure pops the frame and raises the error in the frame
    /// below, or ends the invocation with the error. Where the invocation
    /// would go on with no step left, it ends with `ResourceExhausted`.
    /// Writes of a frame that failed stay in the state.
    pub fn step<R: StateReader>(self, state: &mut CachedState<R>, event: Event) -> (progress:
        Progress)
        ensures
            progress.is_step(
                final(state)@,
                step_spec(self@, old(state)@, self.spec_steps_left(), event@),
            ),
            final(state)@.consistent(),
    {
        proof {
            use_type_invariant(&self);
            use_type_invariant(&*state);
        }
        let ghost before = self.frames@;
        let left = self.steps_left - 1;
        let mut frames = self.frames;
        let top_index = frames.len() - 1;
        assert(frame_views(before).last() == before[top_index as int]@);
        match event {
            Event::StorageRead { key } => {
                let address = frames[top_index].call.storage_address;
                let value = state.get_storage_at(address, key);
                let mut values: Vec<Felt> = Vec::new();
                values.push(value);
                assert(values@ =~= seq![value]);
                proceed(frames, Action::Resume { values }, left)
            },
            Event::StorageWrite { key, value } => {
                let address = frames[top_index].call.storage_address;
                state.set_storage_at(address, key, value);
                proceed(frames, Action::Resume { values: Vec::new() }, left)
            },
            Event::CallContract { address, selector, calldata } => {
                match state.get_class_hash_at(address) {
                    Err(error) => proceed(frames, Action::Raise { error }, left),
                    Ok(class_hash) => enter(
                        frames,
                        state,
                        CallEntryPoint {
                            class_hash,
                            entry_point_type: EntryPointType::External,
                            entry_point_selector: selector,
                            calldata,
                            storage_address: address,
                        },
                        left,
                    ),
                }
            },
            Event::LibraryCall { class_hash, selector, calldata } => {
                let storage_address = frames[top_index].call.storage_address;
                enter(
                    frames,
                    state,
                    CallEntryPoint {
                        class_hash,
                        entry_point_type: EntryPointType::External,
                        entry_point_selector: selector,
                        calldata,
                        storage_address,
                    },
                    left,
                )
            },
            Event::Return { retdata } => {
                let top = frames.pop().unwrap();
                assert(frame_views(frames@) =~= frame_views(before).drop_last());
                let values = copy_of(&retdata);
                let info = CallInfo {
                    call: top.call,
                    execution: CallExecution { retdata },
                    inner_calls: top.inner_calls,
                };
                proof {
                    lemma_inner_views(info);
                }
                if frames.len() == 0 {
                    assert(frame_views(frames@) =~= Seq::<FrameView>::empty());
                    Progress::Finished { result: Ok(info) }
                } else {
                    let ghost below = frames@;
                    let mut parent = frames.pop().unwrap();
                    let ghost earlier = parent.inner_calls@;
                    parent.inner_calls.push(info);
                    frames.push(parent);
                    proof {
                        assert(info_views(parent.inner_calls@) =~= info_views(earlier).push(info@));
                        assert(frame_views(frames@) =~= frame_views(below).drop_last().push(
                            parent@,
                        ));
                    }
                    proceed(frames, Action::Resume { values }, left)
                }
            },
            Event::Fail { error } => {
                let _ = frames.pop();
                assert(frame_views(frames@) =~= frame_views(before).drop_last());
                if frames.len() == 0 {
                    assert(frame_views(frames@) =~= Seq::<FrameView>::empty());
                    Progress::Finished { result: Err(error) }
                } else {
                    proceed(frames, Action::Raise { error }, left)
                }
            },
        }
    }
}

} // verus!
