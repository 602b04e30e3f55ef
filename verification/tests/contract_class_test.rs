use blockifier::block_context::{
    BlockContext, BlockNumber, BlockTimestamp, ChainId, ExecutionMode,
};
use blockifier::execution::contract_class::{
    has_distinct_selectors, ContractClass, EntryPoint, EntryPointType,
};
use blockifier::execution::errors::ExecutionError;
use blockifier::felt::{ContractAddress, EntryPointSelector, Felt};

fn selector(value: u128) -> EntryPointSelector {
    EntryPointSelector(Felt::from_u128(value))
}

fn row(value: u128, offset: usize) -> EntryPoint {
    EntryPoint { selector: selector(value), offset }
}

fn class() -> ContractClass {
    ContractClass {
        constructor: vec![row(1, 40)],
        external: vec![row(1, 10), row(2, 20), row(3, 30)],
        l1_handler: vec![row(4, 50), row(5, 60), row(4, 70)],
        program: vec![],
    }
}

#[test]
fn test_resolve_finds_the_offset_within_the_kind() {
    let class = class();
    assert_eq!(class.resolve(EntryPointType::External, selector(1)), Ok(10));
    assert_eq!(class.resolve(EntryPointType::External, selector(2)), Ok(20));
    assert_eq!(class.resolve(EntryPointType::External, selector(3)), Ok(30));
    assert_eq!(class.resolve(EntryPointType::Constructor, selector(1)), Ok(40));
    assert_eq!(class.resolve(EntryPointType::L1Handler, selector(5)), Ok(60));
}

#[test]
fn test_resolve_fails_for_a_selector_of_no_row() {
    let class = class();
    assert_eq!(
        class.resolve(EntryPointType::External, selector(4)),
        Err(ExecutionError::EntryPointNotFound(selector(4)))
    );
    assert_eq!(
        class.resolve(EntryPointType::Constructor, selector(2)),
        Err(ExecutionError::EntryPointNotFound(selector(2)))
    );
    assert_eq!(
        class.resolve(EntryPointType::L1Handler, selector(1)),
        Err(ExecutionError::EntryPointNotFound(selector(1)))
    );
}

#[test]
fn test_resolve_fails_for_a_selector_of_two_rows() {
    let class = class();
    assert_eq!(
        class.resolve(EntryPointType::L1Handler, selector(4)),
        Err(ExecutionError::EntryPointNotFound(selector(4)))
    );
    assert!(!class.is_well_formed());
    assert!(!has_distinct_selectors(&class.l1_handler));
    assert!(has_distinct_selectors(&class.external));
    assert!(has_distinct_selectors(&vec![]));
}

#[test]
fn test_duplicate_has_the_same_tables() {
    let class = class();
    let copy = class.duplicate();
    assert_eq!(copy, class);
    assert_eq!(copy.table(EntryPointType::External), &class.external);
    assert_eq!(copy.table(EntryPointType::Constructor), &class.constructor);
    assert_eq!(copy.table(EntryPointType::L1Handler), &class.l1_handler);
}

#[test]
fn test_step_ceilings() {
    let context = BlockContext {
        chain_id: ChainId("SN_GOERLI".to_string()),
        block_number: BlockNumber(7),
        block_timestamp: BlockTimestamp(8),
        sequencer_address: ContractAddress(Felt::from_u128(1)),
        fee_token_address: ContractAddress(Felt::from_u128(2)),
        gas_price: 100,
        invoke_tx_max_n_steps: 1_000_000,
        validate_max_n_steps: 2_000,
    };
    assert_eq!(context.max_steps(ExecutionMode::Execute), 1_000_000);
    assert_eq!(context.max_steps(ExecutionMode::Validate), 2_000);
}
