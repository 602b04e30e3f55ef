//! The boundary with the interpreter: what a running program asks of the
//! engine, and what the engine tells the interpreter to do next.

use vstd::prelude::*;
use crate::execution::entry_point::CallData;
use crate::execution::errors::ExecutionError;
use crate::felt::{ClassHash, ContractAddress, EntryPointSelector, Felt, StorageKey};

verus! {

/// What the program on top of the call stack does next.
#[derive(Clone, Debug, PartialEq, Eq)]
pub enum Event {
    /// It reads a cell of the storage that it runs against.
    StorageRead { key: StorageKey },
    /// It writes a cell of the storage that it runs against.
    StorageWrite { key: StorageKey, value: Felt },
    /// It calls the contract at `address`, as itself: the class deployed
    /// there runs against the storage of `address`.
    CallContract { address: ContractAddress, selector: EntryPointSelector, calldata: CallData },
    /// It runs the code of `class_hash` against its own storage.
    LibraryCall { class_hash: ClassHash, selector: EntryPointSelector, calldata: CallData },
    /// It completes and returns `retdata`.
    Return { retdata: Vec<Felt> },
    /// It gives up with `error`: because its own budget ran out, or because
    /// it does not recover from an error that was raised in it.
    Fail { error: ExecutionError },
}

/// What the interpreter is to do next.
#[derive(Clone, Debug, PartialEq, Eq)]
pub enum Action {
    /// Start a program on top of the one that is running, if any: the code
    /// of `class_hash` at `location`, with `calldata` as its arguments.
    /// `storage_address` is the storage that its reads and writes go to, and
    /// `steps_left` the number of events that the whole invocation may
    /// still report.
    Run {
        class_hash: ClassHash,
        location: usize,
        calldata: Vec<Felt>,
        storage_address: ContractAddress,
        steps_left: u32,
    },
    /// Go on with the program on top, with `values` as the answer to what it
    /// asked: the value read, nothing for a write, and for a nested call what
    /// that call returned.
    Resume { values: Vec<Felt> },
    /// Go on with the program on top, whose nested call failed with `error`.
    Raise { error: ExecutionError },
}

/// An [`Event`] with sequences for vectors.
pub ghost enum EventView {
    StorageRead { key: StorageKey },
    StorageWrite { key: StorageKey, value: Felt },
    CallContract { address: ContractAddress, selector: EntryPointSelector, calldata: Seq<Felt> },
    LibraryCall { class_hash: ClassHash, selector: EntryPointSelector, calldata: Seq<Felt> },
    Return { retdata: Seq<Felt> },
    Fail { error: ExecutionError },
}

/// An [`Action`] with sequences for vectors.
pub ghost enum ActionView {
    Run {
        class_hash: ClassHash,
        location: usize,
        calldata: Seq<Felt>,
        storage_address: ContractAddress,
        steps_left: nat,
    },
    Resume { values: Seq<Felt> },
    Raise { error: ExecutionError },
}

impl Event {
    pub open spec fn view(&self) -> EventView {
        match *self {
            Event::StorageRead { key } => EventView::StorageRead { key },
            Event::StorageWrite { key, value } => EventView::StorageWrite { key, value },
            Event::CallContract { address, selector, calldata } => EventView::CallContract {
                address,
                selector,
                calldata: calldata@,
            },
            Event::LibraryCall { class_hash, selector, calldata } => EventView::LibraryCall {
                class_hash,
                selector,
                calldata: calldata@,
            },
            Event::Return { retdata } => EventView::Return { retdata: retdata@ },
            Event::Fail { error } => EventView::Fail { error },
        }
    }
}

impl Action {
    pub open spec fn view(&self) -> ActionView {
        match *self {
            Action::Run {
                class_hash,
                location,
                calldata,
                storage_address,
                steps_left,
            } => ActionView::Run {
                class_hash,
                location,
                calldata: calldata@,
                storage_address,
                steps_left: steps_left as nat,
            },
            Action::Resume { values } => ActionView::Resume { values: values@ },
            Action::Raise { error } => ActionView::Raise { error },
        }
    }
}

/// The bytecode interpreter, as the engine sees it.
///
/// It keeps one program for each frame of the call stack and runs the one on
/// top. Nothing is assumed of which events it reports. What is asked of it
/// is a faithful account: the actions that it was given and the events that
/// it reported, each in order, are those that passed through `advance`.
/// Of [`ScriptedInterpreter`] that is proved; of an interpreter written
/// elsewhere it is taken on trust.
pub trait Interpreter {
    /// The actions that the interpreter was given so far.
    spec fn received(&self) -> Seq<ActionView>;

    /// The events that the interpreter reported so far.
    spec fn reported(&self) -> Seq<EventView>;

    /// Carries out `action`, runs the program on top until it needs the
    /// engine again, and says why it stopped.
    fn advance(&mut self, action: Action) -> (event: Event)
        ensures
            final(self).received() == old(self).received().push(action@),
            final(self).reported() == old(self).reported().push(event@),
    ;
}

/// The views of a sequence of events.
pub open spec fn event_views(events: Seq<Event>) -> Seq<EventView> {
    Seq::new(events.len(), |i: int| events[i]@)
}

/// An interpreter that reports the events of a script, one after the other,
/// whatever it is told to do, and gives up with `ResourceExhausted` when the
/// script has run out.
pub struct ScriptedInterpreter {
    script: Vec<Event>,
    received: Ghost<Seq<ActionView>>,
    reported: Ghost<Seq<EventView>>,
}

impl ScriptedInterpreter {
    /// The events that are still to be reported.
    pub closed spec fn pending(&self) -> Seq<EventView> {
        event_views(self.script@)
    }

    /// An interpreter that will report `script` and that has neither been
    /// given an action nor reported an event.
    pub fn new(script: Vec<Event>) -> (r: ScriptedInterpreter)
        ensures
            r.pending() == event_views(script@),
            r.received() == Seq::<ActionView>::empty(),
            r.reported() == Seq::<EventView>::empty(),
    {
        ScriptedInterpreter {
            script,
            received: Ghost(Seq::empty()),
            reported: Ghost(Seq::empty()),
        }
    }

    /// The number of events that are still to be reported.
    pub fn remaining(&self) -> (r: usize)
        ensures
            r == self.pending().len(),
    {
        self.script.len()
    }
}

/// What a scripted interpreter reports next: the first pending event, or
/// the failure that stands for a script that has run out.
pub open spec fn next_scripted(pending: Seq<EventView>) -> EventView {
    if pending.len() > 0 {
        pending[0]
    } else {
        EventView::Fail { error: ExecutionError::ResourceExhausted }
    }
}

/// What is pending after a scripted interpreter has reported an event.
pub open spec fn rest_scripted(pending: Seq<EventView>) -> Seq<EventView> {
    if pending.len() > 0 {
        pending.skip(1)
    } else {
        pending
    }
}

impl Interpreter for ScriptedInterpreter {
    closed spec fn received(&self) -> Seq<ActionView> {
        self.received@
    }

    closed spec fn reported(&self) -> Seq<EventView> {
        self.reported@
    }

    fn advance(&mut self, action: Action) -> (event: Event)
        ensures
            event@ == next_scripted(old(self).pending()),
            final(self).pending() == rest_scripted(old(self).pending()),
    {
        let event = if self.script.len() > 0 {
            self.script.remove(0)
        } else {
            Event::Fail { error: ExecutionError::ResourceExhausted }
        };
        proof {
            self.received@ = self.received@.push(action@);
            self.reported@ = self.reported@.push(event@);
            if old(self).script.len() > 0 {
                assert(self.script@ =~= old(self).script@.skip(1));
                assert(event_views(self.script@) =~= event_views(old(self).script@).skip(1));
            }
        }
        event
    }
}

} // verus!
