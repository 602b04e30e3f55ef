use blockifier::block_context::{
    BlockContext, BlockNumber, BlockTimestamp, ChainId, ExecutionMode,
};
use blockifier::cached_state::{CachedState, DictStateReader};
use blockifier::execution::entry_point::{CallData, CallEntryPoint, CallExecution, CallInfo};
use blockifier::execution::errors::ExecutionError;
use blockifier::execution::syscalls::{Event, ScriptedInterpreter};
use blockifier::felt::{ClassHash, ContractAddress, EntryPointSelector, Felt, StorageKey};
use blockifier::test_utils::{
    create_test_contract_class, create_test_state, trivial_external_entrypoint, TestVm,
};

const WITHOUT_ARG_SELECTOR: &str =
    "0x382a967a31be13f23e23a5345f7a89b0362cc157d6fbe7564e6396a83cf4b4f";
const WITH_ARG_SELECTOR: &str = "0xe7def693d16806ca2a2f398d8de5951344663ba77f340ed7a958da731872fc";
const BITWISE_AND_SELECTOR: &str =
    "0xad451bd0dba3d8d97104e1bfc474f88605ccc7acbe1c846839a120fdf30d95";
const SQRT_SELECTOR: &str = "0x137a07fa9c479e27114b8ae1fbf252f2065cf91a0d8615272e060a7ccf37309";
const RETURN_RESULT_SELECTOR: &str =
    "0x39a1491f76903a16feed0a6433bec78de4c73194944e1118e226820ad479701";
const GET_VALUE_SELECTOR: &str =
    "0x26813d396fdb198e9ead934e4f7a592a8b88a059e45ab0eb6ee53494e8d45b0";
const TEST_LIBRARY_CALL_SELECTOR: &str =
    "0x3604cea1cdb094a73a31144f14a3e5861613c008e1e879939ebc4827d10cd50";
const TEST_CLASS_HASH: &str = "0x1";
const TEST_CONTRACT_ADDRESS: &str = "0x100";

const MAX_STEPS: u32 = 1_000_000;

fn shash(text: &str) -> Felt {
    Felt::from_hex(text).unwrap()
}

fn felt(value: u128) -> Felt {
    Felt::from_u128(value)
}

/// A block whose two step ceilings are `invoke` and `validate`.
fn block_context(invoke: u32, validate: u32) -> BlockContext {
    BlockContext {
        chain_id: ChainId("SN_GOERLI".to_string()),
        block_number: BlockNumber(0),
        block_timestamp: BlockTimestamp(0),
        sequencer_address: ContractAddress(felt(1)),
        fee_token_address: ContractAddress(felt(2)),
        gas_price: 1,
        invoke_tx_max_n_steps: invoke,
        validate_max_n_steps: validate,
    }
}

fn execute_within(
    entry_point: CallEntryPoint,
    state: &mut CachedState<DictStateReader>,
    max_steps: u32,
) -> Result<CallInfo, ExecutionError> {
    entry_point.execute(
        state,
        &mut TestVm::new(),
        &block_context(max_steps, 0),
        ExecutionMode::Execute,
    )
}

fn execute(
    entry_point: CallEntryPoint,
    mut state: CachedState<DictStateReader>,
) -> Result<CallInfo, ExecutionError> {
    execute_within(entry_point, &mut state, MAX_STEPS)
}

#[test]
fn test_call_info() {
    let state = create_test_state();
    let entry_point = CallEntryPoint {
        entry_point_selector: EntryPointSelector(shash(WITHOUT_ARG_SELECTOR)),
        ..trivial_external_entrypoint()
    };
    let expected_call_info = CallInfo {
        call: entry_point.clone(),
        execution: CallExecution { retdata: vec![] },
        inner_calls: vec![],
    };
    assert_eq!(execute(entry_point, state).unwrap(), expected_call_info);
}

#[test]
fn test_entry_point_without_arg() {
    let state = create_test_state();
    let entry_point = CallEntryPoint {
        entry_point_selector: EntryPointSelector(shash(WITHOUT_ARG_SELECTOR)),
        ..trivial_external_entrypoint()
    };
    assert_eq!(execute(entry_point, state).unwrap().execution, CallExecution { retdata: vec![] });
}

#[test]
fn test_entry_point_with_arg() {
    let state = create_test_state();
    let calldata = CallData(vec![felt(25)]);
    let entry_point = CallEntryPoint {
        calldata,
        entry_point_selector: EntryPointSelector(shash(WITH_ARG_SELECTOR)),
        ..trivial_external_entrypoint()
    };
    assert_eq!(execute(entry_point, state).unwrap().execution, CallExecution { retdata: vec![] });
}

#[test]
fn test_entry_point_with_builtin() {
    let state = create_test_state();
    let calldata = CallData(vec![felt(47), felt(31)]);
    let entry_point = CallEntryPoint {
        calldata,
        entry_point_selector: EntryPointSelector(shash(BITWISE_AND_SELECTOR)),
        ..trivial_external_entrypoint()
    };
    assert_eq!(execute(entry_point, state).unwrap().execution, CallExecution { retdata: vec![] });
}

#[test]
fn test_entry_point_with_hint() {
    let state = create_test_state();
    let calldata = CallData(vec![felt(81)]);
    let entry_point = CallEntryPoint {
        calldata,
        entry_point_selector: EntryPointSelector(shash(SQRT_SELECTOR)),
        ..trivial_external_entrypoint()
    };
    assert_eq!(execute(entry_point, state).unwrap().execution, CallExecution { retdata: vec![] });
}

#[test]
fn test_entry_point_with_return_value() {
    let state = create_test_state();
    let calldata = CallData(vec![felt(23)]);
    let entry_point = CallEntryPoint {
        calldata,
        entry_point_selector: EntryPointSelector(shash(RETURN_RESULT_SELECTOR)),
        ..trivial_external_entrypoint()
    };
    assert_eq!(
        execute(entry_point, state).unwrap().execution,
        CallExecution { retdata: vec![felt(23)] }
    );
}

#[test]
fn test_entry_point_not_found_in_contract() {
    let state = create_test_state();
    let entry_point = CallEntryPoint {
        entry_point_selector: EntryPointSelector(felt(2)),
        ..trivial_external_entrypoint()
    };
    let selector = starknet_api::core::EntryPointSelector(starknet_api::hash::StarkFelt::from(2_u8));
    assert_eq!(
        format!("Entry point {:#?} not found in contract.", selector),
        execute(entry_point, state).unwrap_err().message()
    );
}

#[test]
fn test_entry_point_with_syscall() {
    let state = create_test_state();
    let calldata = CallData(vec![felt(1234)]);
    let entry_point = CallEntryPoint {
        calldata,
        entry_point_selector: EntryPointSelector(shash(GET_VALUE_SELECTOR)),
        ..trivial_external_entrypoint()
    };
    assert_eq!(
        execute(entry_point, state).unwrap().execution,
        CallExecution { retdata: vec![felt(18)] }
    );
}

#[test]
fn test_entry_point_with_library_call() {
    let state = create_test_state();
    let calldata = CallData(vec![
        shash(TEST_CLASS_HASH),        // Class hash.
        shash(RETURN_RESULT_SELECTOR), // Function selector.
        felt(1),                       // Calldata length.
        felt(91),                      // Calldata.
    ]);
    let entry_point = CallEntryPoint {
        entry_point_selector: EntryPointSelector(shash(TEST_LIBRARY_CALL_SELECTOR)),
        calldata,
        ..trivial_external_entrypoint()
    };
    assert_eq!(execute(entry_point, state).unwrap().execution.retdata, vec![felt(91)]);
}

#[test]
fn test_trivial_entry_point_is_the_one_of_the_constants() {
    let entry_point = trivial_external_entrypoint();
    let address = ContractAddress::try_from_felt(shash(TEST_CONTRACT_ADDRESS)).unwrap();
    assert_eq!(entry_point.storage_address, address);
    assert_eq!(address, ContractAddress(Felt { hi: 0, lo: 0x100 }));
    assert_eq!(entry_point.class_hash, ClassHash(shash(TEST_CLASS_HASH)));
    assert_eq!(entry_point.entry_point_selector, EntryPointSelector(felt(0)));
    assert_eq!(entry_point.calldata, CallData(vec![]));
}

#[test]
fn test_library_call_keeps_the_storage_address_of_the_outer_frame() {
    let state = create_test_state();
    let calldata = CallData(vec![
        shash(TEST_CLASS_HASH),
        shash(RETURN_RESULT_SELECTOR),
        felt(1),
        felt(91),
    ]);
    let entry_point = CallEntryPoint {
        entry_point_selector: EntryPointSelector(shash(TEST_LIBRARY_CALL_SELECTOR)),
        calldata,
        ..trivial_external_entrypoint()
    };
    let outer = entry_point.clone();
    let info = execute(entry_point, state).unwrap();
    assert_eq!(info.call, outer);
    assert_eq!(info.execution.retdata, vec![felt(91)]);
    assert_eq!(info.inner_calls.len(), 1);
    let inner = &info.inner_calls[0];
    assert_eq!(inner.call.class_hash, ClassHash(felt(1)));
    assert_eq!(inner.call.entry_point_selector, EntryPointSelector(shash(RETURN_RESULT_SELECTOR)));
    assert_eq!(inner.call.calldata, CallData(vec![felt(91)]));
    assert_eq!(inner.call.storage_address, outer.storage_address);
    assert_eq!(inner.execution.retdata, vec![felt(91)]);
    assert!(inner.inner_calls.is_empty());
}

#[test]
fn test_library_call_to_a_missing_selector_fails_the_outer_call() {
    let state = create_test_state();
    let calldata = CallData(vec![shash(TEST_CLASS_HASH), felt(7), felt(0)]);
    let entry_point = CallEntryPoint {
        entry_point_selector: EntryPointSelector(shash(TEST_LIBRARY_CALL_SELECTOR)),
        calldata,
        ..trivial_external_entrypoint()
    };
    assert_eq!(
        execute(entry_point, state),
        Err(ExecutionError::EntryPointNotFound(EntryPointSelector(felt(7))))
    );
}

#[test]
fn test_library_call_to_an_undeclared_class_fails_the_outer_call() {
    let state = create_test_state();
    let calldata = CallData(vec![felt(2), shash(RETURN_RESULT_SELECTOR), felt(1), felt(91)]);
    let entry_point = CallEntryPoint {
        entry_point_selector: EntryPointSelector(shash(TEST_LIBRARY_CALL_SELECTOR)),
        calldata,
        ..trivial_external_entrypoint()
    };
    assert_eq!(execute(entry_point, state), Err(ExecutionError::UninitializedClassHash));
}

#[test]
fn test_undeclared_class_hash() {
    let state = create_test_state();
    let entry_point = CallEntryPoint {
        class_hash: ClassHash(felt(2)),
        entry_point_selector: EntryPointSelector(shash(WITHOUT_ARG_SELECTOR)),
        ..trivial_external_entrypoint()
    };
    let error = execute(entry_point, state).unwrap_err();
    assert_eq!(error, ExecutionError::UninitializedClassHash);
    assert_eq!(error.message(), "Class hash is not initialized.");
}

#[test]
fn test_selector_of_another_kind_is_not_found() {
    let state = create_test_state();
    let selector = EntryPointSelector(shash(WITHOUT_ARG_SELECTOR));
    let entry_point = CallEntryPoint {
        entry_point_type: blockifier::execution::contract_class::EntryPointType::L1Handler,
        entry_point_selector: selector,
        ..trivial_external_entrypoint()
    };
    assert_eq!(execute(entry_point, state), Err(ExecutionError::EntryPointNotFound(selector)));
}

#[test]
fn test_step_budget() {
    let calldata = CallData(vec![felt(1234)]);
    let entry_point = CallEntryPoint {
        calldata,
        entry_point_selector: EntryPointSelector(shash(GET_VALUE_SELECTOR)),
        ..trivial_external_entrypoint()
    };
    // The program reports a write, a read and its return: three events.
    let mut state = create_test_state();
    let result = execute_within(entry_point.clone(), &mut state, 3);
    assert_eq!(result.unwrap().execution, CallExecution { retdata: vec![felt(18)] });
    let mut state = create_test_state();
    let error = execute_within(entry_point.clone(), &mut state, 2).unwrap_err();
    assert_eq!(error, ExecutionError::ResourceExhausted);
    assert_eq!(error.message(), "Step budget exhausted.");
    // The write that was made before the budget ran out stays in the state.
    let address = entry_point.storage_address;
    assert_eq!(state.get_storage_at(address, StorageKey(felt(1234))), felt(18));
    let mut state = create_test_state();
    let error = execute_within(entry_point.clone(), &mut state, 1).unwrap_err();
    assert_eq!(error, ExecutionError::ResourceExhausted);
    assert_eq!(state.get_storage_at(address, StorageKey(felt(1234))), felt(18));
    let mut state = create_test_state();
    let result = execute_within(entry_point, &mut state, 0);
    assert_eq!(result, Err(ExecutionError::ResourceExhausted));
    assert_eq!(state.get_storage_at(address, StorageKey(felt(1234))), felt(0));
}

#[test]
fn test_step_ceiling_is_the_one_of_the_phase() {
    let entry_point = CallEntryPoint {
        calldata: CallData(vec![felt(1234)]),
        entry_point_selector: EntryPointSelector(shash(GET_VALUE_SELECTOR)),
        ..trivial_external_entrypoint()
    };
    let context = block_context(3, 2);
    let mut state = create_test_state();
    let result =
        entry_point.clone().execute(&mut state, &mut TestVm::new(), &context, ExecutionMode::Execute);
    assert_eq!(result.unwrap().execution, CallExecution { retdata: vec![felt(18)] });
    let mut state = create_test_state();
    let result =
        entry_point.execute(&mut state, &mut TestVm::new(), &context, ExecutionMode::Validate);
    assert_eq!(result, Err(ExecutionError::ResourceExhausted));
}

#[test]
fn test_error_message_spells_the_selector() {
    let error = ExecutionError::EntryPointNotFound(EntryPointSelector(felt(2)));
    assert_eq!(
        error.message(),
        "Entry point EntryPointSelector(\n    StarkFelt(\n        \"0x0000000000000000000000000000000000000000000000000000000000000002\",\n    ),\n) not found in contract."
    );
}

#[test]
fn test_execute_takes_the_events_that_the_interpreter_reports() {
    let entry_point = CallEntryPoint {
        entry_point_selector: EntryPointSelector(shash(WITHOUT_ARG_SELECTOR)),
        ..trivial_external_entrypoint()
    };
    let address = entry_point.storage_address;
    let script = vec![
        Event::StorageWrite { key: StorageKey(felt(5)), value: felt(50) },
        Event::StorageRead { key: StorageKey(felt(5)) },
        Event::Return { retdata: vec![felt(7)] },
        Event::StorageWrite { key: StorageKey(felt(5)), value: felt(51) },
    ];
    let mut interpreter = ScriptedInterpreter::new(script);
    let mut state = create_test_state();
    let context = block_context(10, 0);
    let result =
        entry_point.clone().execute(&mut state, &mut interpreter, &context, ExecutionMode::Execute);
    assert_eq!(
        result,
        Ok(CallInfo {
            call: entry_point.clone(),
            execution: CallExecution { retdata: vec![felt(7)] },
            inner_calls: vec![],
        })
    );
    // The event after the return was not asked for.
    assert_eq!(interpreter.remaining(), 1);
    assert_eq!(state.get_storage_at(address, StorageKey(felt(5))), felt(50));

    // A script that runs out gives up, and so ends the invocation.
    let mut interpreter = ScriptedInterpreter::new(vec![Event::StorageRead { key: StorageKey(felt(5)) }]);
    let result = entry_point.clone().execute(&mut state, &mut interpreter, &context, ExecutionMode::Execute);
    assert_eq!(result, Err(ExecutionError::ResourceExhausted));
    assert_eq!(interpreter.remaining(), 0);

    // An invocation that does not begin asks the interpreter for nothing.
    let missing = CallEntryPoint { entry_point_selector: EntryPointSelector(felt(2)), ..entry_point };
    let mut interpreter = ScriptedInterpreter::new(vec![Event::Return { retdata: vec![] }]);
    let result = missing.execute(&mut state, &mut interpreter, &context, ExecutionMode::Execute);
    assert_eq!(result, Err(ExecutionError::EntryPointNotFound(EntryPointSelector(felt(2)))));
    assert_eq!(interpreter.remaining(), 1);
}

#[test]
fn test_syscall_writes_through_to_the_state() {
    let mut state = create_test_state();
    let entry_point = CallEntryPoint {
        calldata: CallData(vec![felt(1234)]),
        entry_point_selector: EntryPointSelector(shash(GET_VALUE_SELECTOR)),
        ..trivial_external_entrypoint()
    };
    let address = entry_point.storage_address;
    assert_eq!(state.get_storage_at(address, StorageKey(felt(1234))), felt(0));
    execute_within(entry_point, &mut state, MAX_STEPS).unwrap();
    assert_eq!(state.get_storage_at(address, StorageKey(felt(1234))), felt(18));
    assert_eq!(state.get_storage_at(address, StorageKey(felt(1235))), felt(0));
}

#[test]
fn test_selectors_of_the_test_class_are_those_of_the_constants() {
    let class = create_test_contract_class();
    let names = [
        WITHOUT_ARG_SELECTOR,
        WITH_ARG_SELECTOR,
        BITWISE_AND_SELECTOR,
        SQRT_SELECTOR,
        RETURN_RESULT_SELECTOR,
        GET_VALUE_SELECTOR,
        TEST_LIBRARY_CALL_SELECTOR,
    ];
    assert_eq!(class.external.len(), names.len());
    for (offset, name) in names.iter().enumerate() {
        assert_eq!(class.external[offset].selector, EntryPointSelector(shash(name)));
        assert_eq!(class.external[offset].offset, offset);
    }
    assert!(class.constructor.is_empty());
    assert!(class.l1_handler.is_empty());
    assert!(class.is_well_formed());
}
