//! A small class, a state that declares it and a request against it, for
//! trying the engine out.

use vstd::prelude::*;
use crate::cached_state::{CachedState, StateView};
use crate::execution::contract_class::{ClassView, ContractClass, EntryPoint, EntryPointType};
use crate::execution::entry_point::{CallData, CallEntryPoint, CallView};
use crate::execution::errors::ExecutionError;
use crate::execution::syscalls::{Action, ActionView, Event, EventView, Interpreter};
use crate::felt::{ClassHash, ContractAddress, EntryPointSelector, Felt, StorageKey};
use crate::state_layer::Layer;
use crate::state_reader::DictStateReader;

verus! {

pub const WITHOUT_ARG_HI: u128 = 0x0382a967_a31be13f_23e23a53_45f7a89b;

pub const WITHOUT_ARG_LO: u128 = 0x0362cc15_7d6fbe75_64e6396a_83cf4b4f;

pub const WITH_ARG_HI: u128 = 0x00e7def6_93d16806_ca2a2f39_8d8de595;

pub const WITH_ARG_LO: u128 = 0x1344663b_a77f340e_d7a958da_731872fc;

pub const BITWISE_AND_HI: u128 = 0x00ad451b_d0dba3d8_d97104e1_bfc474f8;

pub const BITWISE_AND_LO: u128 = 0x8605ccc7_acbe1c84_6839a120_fdf30d95;

pub const SQRT_HI: u128 = 0x0137a07f_a9c479e2_7114b8ae_1fbf252f;

pub const SQRT_LO: u128 = 0x2065cf91_a0d86152_72e060a7_ccf37309;

pub const RETURN_RESULT_HI: u128 = 0x039a1491_f76903a1_6feed0a6_433bec78;

pub const RETURN_RESULT_LO: u128 = 0xde4c7319_4944e111_8e226820_ad479701;

pub const GET_VALUE_HI: u128 = 0x026813d3_96fdb198_e9ead934_e4f7a592;

pub const GET_VALUE_LO: u128 = 0xa8b88a05_9e45ab0e_b6ee5349_4e8d45b0;

pub const TEST_LIBRARY_CALL_HI: u128 = 0x03604cea_1cdb094a_73a31144_f14a3e58;

pub const TEST_LIBRARY_CALL_LO: u128 = 0x61613c00_8e1e8799_39ebc482_7d10cd50;

/// The hash under which the test class is declared.
pub const TEST_CLASS_HASH: u128 = 0x1;

/// The address whose storage the test request runs against.
pub const TEST_CONTRACT_ADDRESS: u128 = 0x100;

/// The row of an entry-point table with the selector of halves `hi` and
/// `lo`.
pub open spec fn spec_row(hi: u128, lo: u128, offset: usize) -> EntryPoint {
    EntryPoint { selector: EntryPointSelector(Felt { hi, lo }), offset }
}

#[verifier::when_used_as_spec(spec_row)]
pub fn row(hi: u128, lo: u128, offset: usize) -> (r: EntryPoint)
    ensures
        r == spec_row(hi, lo, offset),
{
    EntryPoint { selector: EntryPointSelector(Felt { hi, lo }), offset }
}

/// The external entry points of the test class. The offset of a row is the
/// position of its one-word program in the body.
pub open spec fn test_entry_points() -> Seq<EntryPoint> {
    seq![
        row(WITHOUT_ARG_HI, WITHOUT_ARG_LO, 0),
        row(WITH_ARG_HI, WITH_ARG_LO, 1),
        row(BITWISE_AND_HI, BITWISE_AND_LO, 2),
        row(SQRT_HI, SQRT_LO, 3),
        row(RETURN_RESULT_HI, RETURN_RESULT_LO, 4),
        row(GET_VALUE_HI, GET_VALUE_LO, 5),
        row(TEST_LIBRARY_CALL_HI, TEST_LIBRARY_CALL_LO, 6),
    ]
}

/// The body of the test class: one word for each entry point, which says
/// what its program does.
pub open spec fn test_program() -> Seq<Felt> {
    Seq::new(7, |i: int| Felt { hi: 0, lo: i as u128 })
}

/// The test class: seven external entry points and no others.
pub open spec fn test_class() -> ClassView {
    ClassView {
        constructor: Seq::empty(),
        external: test_entry_points(),
        l1_handler: Seq::empty(),
        program: test_program(),
    }
}

/// The request that the tests vary: an external call to the test class with
/// selector zero and no arguments, against the test address.
pub open spec fn trivial_call() -> CallView {
    CallView {
        class_hash: ClassHash(Felt { hi: 0, lo: TEST_CLASS_HASH }),
        entry_point_type: EntryPointType::External,
        entry_point_selector: EntryPointSelector(Felt { hi: 0, lo: 0 }),
        calldata: Seq::empty(),
        storage_address: ContractAddress(Felt { hi: 0, lo: TEST_CONTRACT_ADDRESS }),
    }
}

/// Builds the test class. Its tables are well formed, so each of its seven
/// selectors resolves to the offset of its row.
pub fn create_test_contract_class() -> (class: ContractClass)
    ensures
        class@ == test_class(),
        class@.well_formed(),
{
    let external = vec![
        row(WITHOUT_ARG_HI, WITHOUT_ARG_LO, 0),
        row(WITH_ARG_HI, WITH_ARG_LO, 1),
        row(BITWISE_AND_HI, BITWISE_AND_LO, 2),
        row(SQRT_HI, SQRT_LO, 3),
        row(RETURN_RESULT_HI, RETURN_RESULT_LO, 4),
        row(GET_VALUE_HI, GET_VALUE_LO, 5),
        row(TEST_LIBRARY_CALL_HI, TEST_LIBRARY_CALL_LO, 6),
    ];
    let mut program: Vec<Felt> = Vec::new();
    let mut word: u128 = 0;
    while word < 7
        invariant
            word <= 7,
            program@ == Seq::new(word as nat, |i: int| Felt { hi: 0, lo: i as u128 }),
        decreases 7 - word,
    {
        program.push(Felt::from_u128(word));
        word += 1;
        assert(program@ =~= Seq::new(word as nat, |i: int| Felt { hi: 0, lo: i as u128 }));
    }
    let class = ContractClass {
        constructor: Vec::new(),
        external,
        l1_handler: Vec::new(),
        program,
    };
    assert(class@.external =~= test_entry_points());
    assert(class@.constructor =~= Seq::<EntryPoint>::empty());
    assert(class@.l1_handler =~= Seq::<EntryPoint>::empty());
    class
}

/// Builds a state over a snapshot that declares the test class under the
/// test class hash and holds nothing else.
pub fn create_test_state() -> (state: CachedState<DictStateReader>)
    ensures
        state@ == StateView::fresh(
            Layer {
                classes: Map::<ClassHash, ClassView>::empty().insert(
                    ClassHash(Felt { hi: 0, lo: TEST_CLASS_HASH }),
                    test_class(),
                ),
                ..Layer::empty()
            },
        ),
{
    let mut reader = DictStateReader::new();
    reader.set_contract_class(ClassHash(Felt::from_u128(TEST_CLASS_HASH)), create_test_contract_class());
    CachedState::new(reader)
}

/// Builds the request that the tests vary.
pub fn trivial_external_entrypoint() -> (call: CallEntryPoint)
    ensures
        call@ == trivial_call(),
{
    let storage_address = match ContractAddress::try_from_felt(Felt::from_u128(TEST_CONTRACT_ADDRESS)) {
        Some(address) => address,
        None => ContractAddress(Felt::zero()),
    };
    CallEntryPoint {
        class_hash: ClassHash(Felt::from_u128(TEST_CLASS_HASH)),
        entry_point_type: EntryPointType::External,
        entry_point_selector: EntryPointSelector(Felt::from_u128(0)),
        calldata: CallData(Vec::new()),
        storage_address,
    }
}

/// The library call that the arguments of the last entry point of the test
/// class describe: a class hash, a selector, the number of arguments that
/// follow, and those arguments. `None` where the arguments have another
/// form.
pub open spec fn encoded_library_call(calldata: Seq<Felt>) -> Option<EventView> {
    if calldata.len() >= 3 && calldata[2].hi == 0 && calldata[2].lo == calldata.len() - 3 {
        Some(
            EventView::LibraryCall {
                class_hash: ClassHash(calldata[0]),
                selector: EntryPointSelector(calldata[1]),
                calldata: calldata.subrange(3, calldata.len() as int),
            },
        )
    } else {
        None
    }
}

/// Decodes the library call that `calldata` describes.
pub fn library_call_from_calldata(calldata: &Vec<Felt>) -> (r: Option<Event>)
    ensures
        match r {
            Some(event) => encoded_library_call(calldata@) == Some(event@),
            None => encoded_library_call(calldata@) is None,
        },
{
    if calldata.len() < 3 {
        return None;
    }
    let count = calldata[2];
    if count.hi != 0 || count.lo != (calldata.len() - 3) as u128 {
        return None;
    }
    let mut arguments: Vec<Felt> = Vec::new();
    let mut i: usize = 3;
    while i < calldata.len()
        invariant
            3 <= i <= calldata.len(),
            arguments@ == calldata@.subrange(3, i as int),
        decreases calldata.len() - i,
    {
        arguments.push(calldata[i]);
        assert(arguments@ =~= calldata@.subrange(3, i + 1));
        i += 1;
    }
    Some(
        Event::LibraryCall {
            class_hash: ClassHash(calldata[0]),
            selector: EntryPointSelector(calldata[1]),
            calldata: CallData(arguments),
        },
    )
}

/// One program of the test class under way: the word of the body that it
/// began at, its arguments, and how many events it has reported.
pub struct TestProgram {
    pub word: u128,
    pub calldata: Vec<Felt>,
    pub stage: u8,
}

/// A [`TestProgram`] with its arguments as a sequence.
pub ghost struct ProgramView {
    pub word: u128,
    pub calldata: Seq<Felt>,
    pub stage: u8,
}

impl TestProgram {
    pub open spec fn view(&self) -> ProgramView {
        ProgramView { word: self.word, calldata: self.calldata@, stage: self.stage }
    }
}

/// The views of a stack of programs.
pub open spec fn program_views(programs: Seq<TestProgram>) -> Seq<ProgramView> {
    Seq::new(programs.len(), |i: int| programs[i]@)
}

/// The event with which a program gives up.
pub open spec fn gives_up() -> EventView {
    EventView::Fail { error: ExecutionError::ResourceExhausted }
}

/// What the program on top does next, with `answer` as the answer to what
/// it asked last, and the programs that are under way after it.
///
/// Words 0 to 3 return nothing. Word 4 returns its arguments. Word 5 writes
/// 18 to the storage cell that its first argument names, reads the cell and
/// returns what it read. Word 6 makes the library call that its arguments
/// describe and returns what the call returned. A program that cannot go on
/// gives up.
pub open spec fn run_top(programs: Seq<ProgramView>, answer: Seq<Felt>) -> (
    Seq<ProgramView>,
    EventView,
) {
    if programs.len() == 0 {
        (programs, gives_up())
    } else {
        let top = programs.last();
        let below = programs.drop_last();
        let later = below.push(
            ProgramView { word: top.word, calldata: top.calldata, stage: (top.stage + 1) as u8 },
        );
        if top.word <= 3 {
            (below, EventView::Return { retdata: Seq::empty() })
        } else if top.word == 4 {
            (below, EventView::Return { retdata: top.calldata })
        } else if top.word == 5 && top.stage >= 2 {
            (below, EventView::Return { retdata: answer })
        } else if top.word == 5 && top.calldata.len() > 0 {
            if top.stage == 0 {
                (
                    later,
                    EventView::StorageWrite {
                        key: StorageKey(top.calldata[0]),
                        value: Felt { hi: 0, lo: 18 },
                    },
                )
            } else {
                (later, EventView::StorageRead { key: StorageKey(top.calldata[0]) })
            }
        } else if top.word == 6 && top.stage >= 1 {
            (below, EventView::Return { retdata: answer })
        } else if top.word == 6 {
            match encoded_library_call(top.calldata) {
                Some(event) => (later, event),
                None => (below, gives_up()),
            }
        } else {
            (below, gives_up())
        }
    }
}

/// What the interpreter of the test class makes of an action: the programs
/// that are under way after it, and the event that it reports. A program
/// starts at the word of `body` at its location. No program recovers from
/// the failure of a call that it made.
pub open spec fn vm_react(body: Seq<Felt>, programs: Seq<ProgramView>, action: ActionView) -> (
    Seq<ProgramView>,
    EventView,
) {
    match action {
        ActionView::Run { location, calldata, .. } => run_top(
            programs.push(
                ProgramView {
                    word: if location < body.len() {
                        body[location as int].lo
                    } else {
                        u128::MAX
                    },
                    calldata,
                    stage: 0,
                },
            ),
            Seq::empty(),
        ),
        ActionView::Resume { values } => run_top(programs, values),
        ActionView::Raise { error } => (
            if programs.len() > 0 {
                programs.drop_last()
            } else {
                programs
            },
            EventView::Fail { error },
        ),
    }
}

/// An interpreter for the one-word programs of the test class.
pub struct TestVm {
    class: ContractClass,
    programs: Vec<TestProgram>,
    received: Ghost<Seq<ActionView>>,
    reported: Ghost<Seq<EventView>>,
}

impl TestVm {
    /// The body of the class whose programs the interpreter runs.
    pub closed spec fn body(&self) -> Seq<Felt> {
        self.class@.program
    }

    /// The programs under way, innermost last.
    pub closed spec fn programs(&self) -> Seq<ProgramView> {
        program_views(self.programs@)
    }

    /// An interpreter of the test class that runs no program yet.
    pub fn new() -> (r: TestVm)
        ensures
            r.body() == test_program(),
            r.programs() == Seq::<ProgramView>::empty(),
            r.received() == Seq::<ActionView>::empty(),
            r.reported() == Seq::<EventView>::empty(),
    {
        let r = TestVm {
            class: create_test_contract_class(),
            programs: Vec::new(),
            received: Ghost(Seq::empty()),
            reported: Ghost(Seq::empty()),
        };
        assert(r.programs() =~= Seq::<ProgramView>::empty());
        r
    }

    /// Goes on with the program on top, with `answer` as the answer to what
    /// it asked last.
    fn run(&mut self, answer: Vec<Felt>) -> (event: Event)
        ensures
            (final(self).programs(), event@) == run_top(old(self).programs(), answer@),
            final(self).class == old(self).class,
            final(self).received == old(self).received,
            final(self).reported == old(self).reported,
    {
        let ghost before = self.programs@;
        let program = match self.programs.pop() {
            Some(program) => program,
            None => {
                return Event::Fail { error: ExecutionError::ResourceExhausted };
            },
        };
        assert(program_views(before).last() == program@);
        assert(program_views(self.programs@) =~= program_views(before).drop_last());
        let ghost below = self.programs@;
        let TestProgram { word, calldata, stage } = program;
        if word <= 3 {
            Event::Return { retdata: Vec::new() }
        } else if word == 4 {
            Event::Return { retdata: calldata }
        } else if word == 5 && stage >= 2 {
            Event::Return { retdata: answer }
        } else if word == 5 && calldata.len() > 0 {
            let key = StorageKey(calldata[0]);
            let later = TestProgram { word, calldata, stage: stage + 1 };
            self.programs.push(later);
            assert(program_views(self.programs@) =~= program_views(below).push(later@));
            if stage == 0 {
                Event::StorageWrite { key, value: Felt::from_u128(18) }
            } else {
                Event::StorageRead { key }
            }
        } else if word == 6 && stage >= 1 {
            Event::Return { retdata: answer }
        } else if word == 6 {
            match library_call_from_calldata(&calldata) {
                Some(event) => {
                    let later = TestProgram { word, calldata, stage: 1 };
                    self.programs.push(later);
                    assert(program_views(self.programs@) =~= program_views(below).push(later@));
                    event
                },
                None => Event::Fail { error: ExecutionError::ResourceExhausted },
            }
        } else {
            Event::Fail { error: ExecutionError::ResourceExhausted }
        }
    }

    /// Carries out `action` and says what the program on top does next.
    fn react(&mut self, action: Action) -> (event: Event)
        ensures
            (final(self).programs(), event@) == vm_react(
                old(self).body(),
                old(self).programs(),
                action@,
            ),
            final(self).class == old(self).class,
            final(self).received == old(self).received,
            final(self).reported == old(self).reported,
    {
        let ghost before = self.programs@;
        match action {
            Action::Run { location, calldata, .. } => {
                let word = if location < self.class.program.len() {
                    self.class.program[location].lo
                } else {
                    u128::MAX
                };
                let program = TestProgram { word, calldata, stage: 0 };
                self.programs.push(program);
                assert(program_views(self.programs@) =~= program_views(before).push(program@));
                self.run(Vec::new())
            },
            Action::Resume { values } => self.run(values),
            Action::Raise { error } => {
                let _ = self.programs.pop();
                proof {
                    if before.len() > 0 {
                        assert(program_views(self.programs@) =~= program_views(
                            before,
                        ).drop_last());
                    }
                }
                Event::Fail { error }
            },
        }
    }
}

impl Interpreter for TestVm {
    closed spec fn received(&self) -> Seq<ActionView> {
        self.received@
    }

    closed spec fn reported(&self) -> Seq<EventView> {
        self.reported@
    }

    fn advance(&mut self, action: Action) -> (event: Event)
        ensures
            (final(self).programs(), event@) == vm_react(
                old(self).body(),
                old(self).programs(),
                action@,
            ),
            final(self).body() == old(self).body(),
    {
        let ghost handed = action@;
        let event = self.react(action);
        proof {
            self.received@ = self.received@.push(handed);
            self.reported@ = self.reported@.push(event@);
        }
        event
    }
}

} // verus!
