use blockifier::cached_state::{CachedState, DictStateReader};
use blockifier::execution::call_stack::{ExecutionEngine, Progress};
use blockifier::execution::contract_class::{ContractClass, EntryPoint, EntryPointType};
use blockifier::execution::entry_point::{CallData, CallEntryPoint, CallExecution, CallInfo};
use blockifier::execution::errors::ExecutionError;
use blockifier::execution::syscalls::{Action, Event, Interpreter};
use blockifier::felt::{ClassHash, ContractAddress, EntryPointSelector, Felt, StorageKey};
use blockifier::test_utils::{library_call_from_calldata, TestVm};

const BUDGET: u32 = 100;

fn felt(value: u128) -> Felt {
    Felt::from_u128(value)
}

fn selector(value: u128) -> EntryPointSelector {
    EntryPointSelector(felt(value))
}

fn address(value: u128) -> ContractAddress {
    ContractAddress(felt(value))
}

/// Class 1 has external selectors 10 and 11 at offsets 100 and 101; class 2
/// has external selector 20 at offset 200. Class 1 is deployed at address
/// 0x51, class 2 at address 0x52.
fn state() -> CachedState<DictStateReader> {
    let mut reader = DictStateReader::new();
    reader.set_contract_class(
        ClassHash(felt(1)),
        ContractClass {
            constructor: vec![],
            external: vec![
                EntryPoint { selector: selector(10), offset: 100 },
                EntryPoint { selector: selector(11), offset: 101 },
            ],
            l1_handler: vec![],
            program: vec![],
        },
    );
    reader.set_contract_class(
        ClassHash(felt(2)),
        ContractClass {
            constructor: vec![],
            external: vec![EntryPoint { selector: selector(20), offset: 200 }],
            l1_handler: vec![],
            program: vec![],
        },
    );
    reader.set_class_hash_at(address(0x51), ClassHash(felt(1)));
    reader.set_class_hash_at(address(0x52), ClassHash(felt(2)));
    CachedState::new(reader)
}

fn root() -> CallEntryPoint {
    CallEntryPoint {
        class_hash: ClassHash(felt(1)),
        entry_point_type: EntryPointType::External,
        entry_point_selector: selector(10),
        calldata: CallData(vec![felt(5)]),
        storage_address: address(0x51),
    }
}

fn running(progress: Progress) -> (ExecutionEngine, Action) {
    match progress {
        Progress::Running { engine, action } => (engine, action),
        Progress::Finished { result } => panic!("ended with {:?}", result),
    }
}

fn finished(progress: Progress) -> Result<CallInfo, ExecutionError> {
    match progress {
        Progress::Running { action, .. } => panic!("under way with {:?}", action),
        Progress::Finished { result } => result,
    }
}

fn library_call(class_hash: u128, name: u128, calldata: Vec<Felt>) -> Event {
    Event::LibraryCall {
        class_hash: ClassHash(felt(class_hash)),
        selector: selector(name),
        calldata: CallData(calldata),
    }
}

fn call_contract(to: u128, name: u128, calldata: Vec<Felt>) -> Event {
    Event::CallContract { address: address(to), selector: selector(name), calldata: CallData(calldata) }
}

#[test]
fn test_start_runs_the_location_of_the_selector() {
    let mut state = state();
    let (engine, action) = running(ExecutionEngine::start(root(), &mut state, BUDGET));
    assert_eq!(engine.depth(), 1);
    assert_eq!(
        action,
        Action::Run {
            class_hash: ClassHash(felt(1)),
            location: 100,
            calldata: vec![felt(5)],
            storage_address: address(0x51),
            steps_left: BUDGET,
        }
    );
    let other = CallEntryPoint { entry_point_selector: selector(11), ..root() };
    let (_, action) = running(ExecutionEngine::start(other, &mut state, BUDGET));
    assert_eq!(
        action,
        Action::Run {
            class_hash: ClassHash(felt(1)),
            location: 101,
            calldata: vec![felt(5)],
            storage_address: address(0x51),
            steps_left: BUDGET,
        }
    );
}

#[test]
fn test_start_fails_without_class_or_selector() {
    let mut state = state();
    let missing = CallEntryPoint { entry_point_selector: selector(20), ..root() };
    assert_eq!(
        finished(ExecutionEngine::start(missing, &mut state, BUDGET)),
        Err(ExecutionError::EntryPointNotFound(selector(20)))
    );
    let undeclared = CallEntryPoint { class_hash: ClassHash(felt(3)), ..root() };
    assert_eq!(
        finished(ExecutionEngine::start(undeclared, &mut state, BUDGET)),
        Err(ExecutionError::UninitializedClassHash)
    );
    let other_kind = CallEntryPoint { entry_point_type: EntryPointType::Constructor, ..root() };
    assert_eq!(
        finished(ExecutionEngine::start(other_kind, &mut state, BUDGET)),
        Err(ExecutionError::EntryPointNotFound(selector(10)))
    );
}

#[test]
fn test_return_of_the_outermost_frame_ends_the_invocation() {
    let mut state = state();
    let (engine, _) = running(ExecutionEngine::start(root(), &mut state, BUDGET));
    let result = finished(engine.step(&mut state, Event::Return { retdata: vec![felt(1), felt(2)] }));
    assert_eq!(
        result,
        Ok(CallInfo {
            call: root(),
            execution: CallExecution { retdata: vec![felt(1), felt(2)] },
            inner_calls: vec![],
        })
    );
}

#[test]
fn test_inner_calls_are_in_the_order_of_the_calls() {
    let mut state = state();
    let (engine, _) = running(ExecutionEngine::start(root(), &mut state, BUDGET));
    // The first nested call writes a cell.
    let (engine, action) = running(engine.step(&mut state, library_call(2, 20, vec![felt(1)])));
    assert_eq!(engine.depth(), 2);
    assert_eq!(
        action,
        Action::Run {
            class_hash: ClassHash(felt(2)),
            location: 200,
            calldata: vec![felt(1)],
            storage_address: address(0x51),
            steps_left: BUDGET - 1,
        }
    );
    let write = Event::StorageWrite { key: StorageKey(felt(7)), value: felt(70) };
    let (engine, action) = running(engine.step(&mut state, write));
    assert_eq!(action, Action::Resume { values: vec![] });
    let (engine, action) = running(engine.step(&mut state, Event::Return { retdata: vec![felt(11)] }));
    assert_eq!(engine.depth(), 1);
    assert_eq!(action, Action::Resume { values: vec![felt(11)] });
    // The second nested call, to another selector, reads the cell and calls further down.
    let (engine, _) = running(engine.step(&mut state, library_call(1, 11, vec![felt(2)])));
    let read = Event::StorageRead { key: StorageKey(felt(7)) };
    let (engine, action) = running(engine.step(&mut state, read));
    assert_eq!(action, Action::Resume { values: vec![felt(70)] });
    let (engine, _) = running(engine.step(&mut state, library_call(2, 20, vec![felt(21)])));
    assert_eq!(engine.depth(), 3);
    let (engine, action) = running(engine.step(&mut state, Event::Return { retdata: vec![] }));
    assert_eq!(engine.depth(), 2);
    assert_eq!(action, Action::Resume { values: vec![] });
    let (engine, _) = running(engine.step(&mut state, Event::Return { retdata: vec![felt(12)] }));
    // The third.
    let (engine, _) = running(engine.step(&mut state, library_call(2, 20, vec![felt(3)])));
    let (engine, _) = running(engine.step(&mut state, Event::Return { retdata: vec![felt(13)] }));
    let result = finished(engine.step(&mut state, Event::Return { retdata: vec![felt(14)] }));

    let nested = |class_hash: u128, name: u128, argument: u128, retdata: Vec<Felt>, inner_calls: Vec<CallInfo>| CallInfo {
        call: CallEntryPoint {
            class_hash: ClassHash(felt(class_hash)),
            entry_point_type: EntryPointType::External,
            entry_point_selector: selector(name),
            calldata: CallData(vec![felt(argument)]),
            storage_address: address(0x51),
        },
        execution: CallExecution { retdata },
        inner_calls,
    };
    assert_eq!(
        result,
        Ok(CallInfo {
            call: root(),
            execution: CallExecution { retdata: vec![felt(14)] },
            inner_calls: vec![
                nested(2, 20, 1, vec![felt(11)], vec![]),
                nested(1, 11, 2, vec![felt(12)], vec![nested(2, 20, 21, vec![], vec![])]),
                nested(2, 20, 3, vec![felt(13)], vec![]),
            ],
        })
    );
}

#[test]
fn test_storage_events_leave_no_record() {
    let mut state = state();
    let (engine, _) = running(ExecutionEngine::start(root(), &mut state, BUDGET));
    let (engine, action) = running(engine.step(&mut state, Event::StorageRead { key: StorageKey(felt(1)) }));
    assert_eq!(action, Action::Resume { values: vec![felt(0)] });
    let write = Event::StorageWrite { key: StorageKey(felt(1)), value: felt(2) };
    let (engine, _) = running(engine.step(&mut state, write));
    let (engine, action) = running(engine.step(&mut state, Event::StorageRead { key: StorageKey(felt(1)) }));
    assert_eq!(action, Action::Resume { values: vec![felt(2)] });
    let result = finished(engine.step(&mut state, Event::Return { retdata: vec![] }));
    assert_eq!(result.unwrap().inner_calls, vec![]);
}

#[test]
fn test_library_call_uses_the_storage_of_the_caller() {
    let mut state = state();
    state.set_storage_at(address(0x51), StorageKey(felt(1)), felt(510));
    state.set_storage_at(address(0x52), StorageKey(felt(1)), felt(520));
    let (engine, _) = running(ExecutionEngine::start(root(), &mut state, BUDGET));
    // Class 2 is deployed at 0x52, and runs here against 0x51.
    let (engine, action) = running(engine.step(&mut state, library_call(2, 20, vec![])));
    assert_eq!(
        action,
        Action::Run {
            class_hash: ClassHash(felt(2)),
            location: 200,
            calldata: vec![],
            storage_address: address(0x51),
            steps_left: BUDGET - 1,
        }
    );
    let (engine, action) = running(engine.step(&mut state, Event::StorageRead { key: StorageKey(felt(1)) }));
    assert_eq!(action, Action::Resume { values: vec![felt(510)] });
    let write = Event::StorageWrite { key: StorageKey(felt(1)), value: felt(511) };
    let (engine, _) = running(engine.step(&mut state, write));
    // A library call made by the nested frame inherits the same address again.
    let (engine, action) = running(engine.step(&mut state, library_call(1, 11, vec![])));
    assert_eq!(
        action,
        Action::Run {
            class_hash: ClassHash(felt(1)),
            location: 101,
            calldata: vec![],
            storage_address: address(0x51),
            steps_left: BUDGET - 4,
        }
    );
    let (engine, action) = running(engine.step(&mut state, Event::StorageRead { key: StorageKey(felt(1)) }));
    assert_eq!(action, Action::Resume { values: vec![felt(511)] });
    drop(engine);
    assert_eq!(state.get_storage_at(address(0x51), StorageKey(felt(1))), felt(511));
    assert_eq!(state.get_storage_at(address(0x52), StorageKey(felt(1))), felt(520));
}

#[test]
fn test_contract_call_uses_the_class_and_storage_of_the_callee() {
    let mut state = state();
    state.set_storage_at(address(0x51), StorageKey(felt(1)), felt(510));
    state.set_storage_at(address(0x52), StorageKey(felt(1)), felt(520));
    let (engine, _) = running(ExecutionEngine::start(root(), &mut state, BUDGET));
    let (engine, action) = running(engine.step(&mut state, call_contract(0x52, 20, vec![felt(9)])));
    assert_eq!(
        action,
        Action::Run {
            class_hash: ClassHash(felt(2)),
            location: 200,
            calldata: vec![felt(9)],
            storage_address: address(0x52),
            steps_left: BUDGET - 1,
        }
    );
    let (engine, action) = running(engine.step(&mut state, Event::StorageRead { key: StorageKey(felt(1)) }));
    assert_eq!(action, Action::Resume { values: vec![felt(520)] });
    let (engine, _) = running(engine.step(&mut state, Event::Return { retdata: vec![felt(3)] }));
    // Back in the caller, reads go to the caller's storage.
    let (engine, action) = running(engine.step(&mut state, Event::StorageRead { key: StorageKey(felt(1)) }));
    assert_eq!(action, Action::Resume { values: vec![felt(510)] });
    let result = finished(engine.step(&mut state, Event::Return { retdata: vec![] })).unwrap();
    assert_eq!(result.inner_calls.len(), 1);
    assert_eq!(
        result.inner_calls[0].call,
        CallEntryPoint {
            class_hash: ClassHash(felt(2)),
            entry_point_type: EntryPointType::External,
            entry_point_selector: selector(20),
            calldata: CallData(vec![felt(9)]),
            storage_address: address(0x52),
        }
    );
}

#[test]
fn test_failed_calls_raise_in_the_caller_and_leave_no_record() {
    let mut state = state();
    let (engine, _) = running(ExecutionEngine::start(root(), &mut state, BUDGET));
    // No class is deployed at the address.
    let (engine, action) = running(engine.step(&mut state, call_contract(0x53, 20, vec![])));
    assert_eq!(action, Action::Raise { error: ExecutionError::UninitializedClassHash });
    assert_eq!(engine.depth(), 1);
    // The class deployed there has no such selector.
    let (engine, action) = running(engine.step(&mut state, call_contract(0x52, 10, vec![])));
    assert_eq!(action, Action::Raise { error: ExecutionError::EntryPointNotFound(selector(10)) });
    // No such class.
    let (engine, action) = running(engine.step(&mut state, library_call(3, 10, vec![])));
    assert_eq!(action, Action::Raise { error: ExecutionError::UninitializedClassHash });
    // No such selector.
    let (engine, action) = running(engine.step(&mut state, library_call(2, 10, vec![])));
    assert_eq!(action, Action::Raise { error: ExecutionError::EntryPointNotFound(selector(10)) });
    assert_eq!(engine.depth(), 1);
    // A nested call that begins, writes and then fails.
    let (engine, _) = running(engine.step(&mut state, library_call(2, 20, vec![])));
    let write = Event::StorageWrite { key: StorageKey(felt(1)), value: felt(2) };
    let (engine, _) = running(engine.step(&mut state, write));
    let (engine, action) =
        running(engine.step(&mut state, Event::Fail { error: ExecutionError::ResourceExhausted }));
    assert_eq!(action, Action::Raise { error: ExecutionError::ResourceExhausted });
    assert_eq!(engine.depth(), 1);
    // The caller recovers, and sees what the failed call wrote.
    let (engine, action) = running(engine.step(&mut state, Event::StorageRead { key: StorageKey(felt(1)) }));
    assert_eq!(action, Action::Resume { values: vec![felt(2)] });
    let result = finished(engine.step(&mut state, Event::Return { retdata: vec![felt(1)] }));
    assert_eq!(
        result,
        Ok(CallInfo {
            call: root(),
            execution: CallExecution { retdata: vec![felt(1)] },
            inner_calls: vec![],
        })
    );
}

#[test]
fn test_failure_of_the_outermost_frame_ends_the_invocation() {
    let mut state = state();
    let (engine, _) = running(ExecutionEngine::start(root(), &mut state, BUDGET));
    let write = Event::StorageWrite { key: StorageKey(felt(1)), value: felt(2) };
    let (engine, _) = running(engine.step(&mut state, write));
    let error = ExecutionError::EntryPointNotFound(selector(1));
    assert_eq!(finished(engine.step(&mut state, Event::Fail { error })), Err(error));
    assert_eq!(state.get_storage_at(address(0x51), StorageKey(felt(1))), felt(2));
}

#[test]
fn test_library_call_encoding() {
    let calldata = vec![felt(1), felt(2), felt(2), felt(91), felt(92)];
    assert_eq!(
        library_call_from_calldata(&calldata),
        Some(library_call(1, 2, vec![felt(91), felt(92)]))
    );
    assert_eq!(
        library_call_from_calldata(&vec![felt(1), felt(2), felt(0)]),
        Some(library_call(1, 2, vec![]))
    );
    assert_eq!(library_call_from_calldata(&vec![felt(1), felt(2)]), None);
    assert_eq!(library_call_from_calldata(&vec![]), None);
    assert_eq!(library_call_from_calldata(&vec![felt(1), felt(2), felt(1)]), None);
    assert_eq!(library_call_from_calldata(&vec![felt(1), felt(2), felt(0), felt(3)]), None);
    assert_eq!(
        library_call_from_calldata(&vec![felt(1), felt(2), Felt { hi: 1, lo: 1 }, felt(3)]),
        None
    );
}

#[test]
fn test_budget_ends_the_whole_call_chain() {
    let mut state = state();
    assert_eq!(
        finished(ExecutionEngine::start(root(), &mut state, 0)),
        Err(ExecutionError::ResourceExhausted)
    );
    // A request that cannot begin fails with its own error, whatever the budget.
    let missing = CallEntryPoint { entry_point_selector: selector(20), ..root() };
    assert_eq!(
        finished(ExecutionEngine::start(missing, &mut state, 0)),
        Err(ExecutionError::EntryPointNotFound(selector(20)))
    );
    let (engine, _) = running(ExecutionEngine::start(root(), &mut state, 3));
    assert_eq!(engine.steps_left(), 3);
    let (engine, action) = running(engine.step(&mut state, library_call(2, 20, vec![])));
    assert_eq!(engine.steps_left(), 2);
    assert_eq!(engine.depth(), 2);
    assert_eq!(
        action,
        Action::Run {
            class_hash: ClassHash(felt(2)),
            location: 200,
            calldata: vec![],
            storage_address: address(0x51),
            steps_left: 2,
        }
    );
    let write = Event::StorageWrite { key: StorageKey(felt(1)), value: felt(2) };
    let (engine, _) = running(engine.step(&mut state, write));
    assert_eq!(engine.steps_left(), 1);
    // The last step of the budget: the nested frame returns, and the caller cannot go on.
    let result = finished(engine.step(&mut state, Event::Return { retdata: vec![] }));
    assert_eq!(result, Err(ExecutionError::ResourceExhausted));
    assert_eq!(state.get_storage_at(address(0x51), StorageKey(felt(1))), felt(2));
    // With the last step the outermost frame may still return.
    let (engine, _) = running(ExecutionEngine::start(root(), &mut state, 1));
    let result = finished(engine.step(&mut state, Event::Return { retdata: vec![felt(4)] }));
    assert_eq!(result.unwrap().execution, CallExecution { retdata: vec![felt(4)] });
}

#[test]
fn test_top_is_the_frame_that_runs() {
    let mut state = state();
    let (engine, _) = running(ExecutionEngine::start(root(), &mut state, BUDGET));
    assert_eq!(engine.top().call, root());
    let (engine, _) = running(engine.step(&mut state, library_call(2, 20, vec![felt(1)])));
    assert_eq!(engine.top().call.class_hash, ClassHash(felt(2)));
    assert_eq!(engine.top().call.storage_address, address(0x51));
    assert!(engine.top().inner_calls.is_empty());
    let (engine, _) = running(engine.step(&mut state, Event::Return { retdata: vec![] }));
    assert_eq!(engine.top().call, root());
    assert_eq!(engine.top().inner_calls.len(), 1);
}

#[test]
fn test_interpreter_of_the_test_class() {
    let run = |location: usize, calldata: Vec<Felt>| Action::Run {
        class_hash: ClassHash(felt(1)),
        location,
        calldata,
        storage_address: address(0x51),
        steps_left: BUDGET,
    };
    let mut vm = TestVm::new();
    assert_eq!(vm.advance(run(0, vec![felt(1)])), Event::Return { retdata: vec![] });
    assert_eq!(vm.advance(run(4, vec![felt(23)])), Event::Return { retdata: vec![felt(23)] });
    assert_eq!(
        vm.advance(run(5, vec![felt(9)])),
        Event::StorageWrite { key: StorageKey(felt(9)), value: felt(18) }
    );
    assert_eq!(
        vm.advance(Action::Resume { values: vec![] }),
        Event::StorageRead { key: StorageKey(felt(9)) }
    );
    assert_eq!(
        vm.advance(Action::Resume { values: vec![felt(30)] }),
        Event::Return { retdata: vec![felt(30)] }
    );
    assert_eq!(
        vm.advance(run(6, vec![felt(1), felt(2), felt(1), felt(91)])),
        library_call(1, 2, vec![felt(91)])
    );
    assert_eq!(vm.advance(run(4, vec![felt(91)])), Event::Return { retdata: vec![felt(91)] });
    assert_eq!(
        vm.advance(Action::Resume { values: vec![felt(91)] }),
        Event::Return { retdata: vec![felt(91)] }
    );
    // A library call that fails is not recovered from.
    assert_eq!(
        vm.advance(run(6, vec![felt(1), felt(2), felt(0)])),
        library_call(1, 2, vec![])
    );
    let error = ExecutionError::EntryPointNotFound(selector(2));
    assert_eq!(vm.advance(Action::Raise { error }), Event::Fail { error });
    // What cannot go on gives up.
    let gives_up = Event::Fail { error: ExecutionError::ResourceExhausted };
    assert_eq!(vm.advance(run(7, vec![])), gives_up);
    assert_eq!(vm.advance(run(6, vec![felt(1)])), gives_up);
    assert_eq!(vm.advance(run(5, vec![])), gives_up);
    assert_eq!(vm.advance(Action::Resume { values: vec![] }), gives_up);
}
