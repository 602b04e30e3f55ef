//! Compiled programs and their entry-point tables.

use vstd::prelude::*;
use crate::execution::errors::ExecutionError;
use crate::felt::{EntryPointSelector, Felt};

verus! {

/// The kinds of entry point. A selector means something only within one kind.
#[derive(Clone, Copy, Debug, PartialEq, Eq, Hash, Structural)]
pub enum EntryPointType {
    Constructor,
    External,
    L1Handler,
}

/// One row of an entry-point table: a selector and where its code starts.
#[derive(Clone, Copy, Debug, PartialEq, Eq, Hash, Structural)]
pub struct EntryPoint {
    pub selector: EntryPointSelector,
    pub offset: usize,
}

/// A loaded program: one entry-point table for each kind, and the body.
///
/// The body is carried, never read: only an interpreter gives it meaning.
#[derive(Clone, Debug, PartialEq, Eq)]
pub struct ContractClass {
    pub constructor: Vec<EntryPoint>,
    pub external: Vec<EntryPoint>,
    pub l1_handler: Vec<EntryPoint>,
    pub program: Vec<Felt>,
}

/// What a [`ContractClass`] holds, as sequences.
pub ghost struct ClassView {
    pub constructor: Seq<EntryPoint>,
    pub external: Seq<EntryPoint>,
    pub l1_handler: Seq<EntryPoint>,
    pub program: Seq<Felt>,
}

/// Row `i` is the one and only row of `table` with this selector.
pub open spec fn is_only_match(table: Seq<EntryPoint>, selector: EntryPointSelector, i: int) -> bool {
    &&& 0 <= i < table.len()
    &&& table[i].selector == selector
    &&& forall|j: int| 0 <= j < table.len() && #[trigger] table[j].selector == selector ==> j == i
}

/// The offset of the only row with this selector; `None` where no row or
/// more than one row has it.
pub open spec fn resolve_in(table: Seq<EntryPoint>, selector: EntryPointSelector) -> Option<usize> {
    if exists|i: int| is_only_match(table, selector, i) {
        Some(table[choose|i: int| is_only_match(table, selector, i)].offset)
    } else {
        None
    }
}

/// No selector occurs in two rows.
pub open spec fn selectors_distinct(table: Seq<EntryPoint>) -> bool {
    forall|i: int, j: int|
        0 <= i < table.len() && 0 <= j < table.len() && (#[trigger] table[i]).selector == (
        #[trigger] table[j]).selector ==> i == j
}

impl ClassView {
    /// The table of one kind.
    pub open spec fn table(self, kind: EntryPointType) -> Seq<EntryPoint> {
        match kind {
            EntryPointType::Constructor => self.constructor,
            EntryPointType::External => self.external,
            EntryPointType::L1Handler => self.l1_handler,
        }
    }

    /// The program location that a selector of a kind stands for.
    pub open spec fn resolve(self, kind: EntryPointType, selector: EntryPointSelector) -> Option<
        usize,
    > {
        resolve_in(self.table(kind), selector)
    }

    /// Within each kind every selector names one row at most.
    pub open spec fn well_formed(self) -> bool {
        &&& selectors_distinct(self.constructor)
        &&& selectors_distinct(self.external)
        &&& selectors_distinct(self.l1_handler)
    }
}

/// What resolution returns: the location, or the error that carries the
/// selector.
pub open spec fn resolution(found: Option<usize>, selector: EntryPointSelector) -> Result<
    usize,
    ExecutionError,
> {
    match found {
        Some(offset) => Ok(offset),
        None => Err(ExecutionError::EntryPointNotFound(selector)),
    }
}

/// In a table without repeated selectors, a row's selector resolves to that
/// row's offset.
pub proof fn lemma_resolve_row(table: Seq<EntryPoint>, i: int)
    requires
        selectors_distinct(table),
        0 <= i < table.len(),
    ensures
        is_only_match(table, table[i].selector, i),
        resolve_in(table, table[i].selector) == Some(table[i].offset),
{
    assert(is_only_match(table, table[i].selector, i));
}

/// A selector that no row has resolves to nothing.
pub proof fn lemma_resolve_absent(table: Seq<EntryPoint>, selector: EntryPointSelector)
    requires
        forall|i: int| 0 <= i < table.len() ==> (#[trigger] table[i]).selector != selector,
    ensures
        resolve_in(table, selector) is None,
{
}

/// A vector with the same elements.
pub fn copy_of<T: Copy>(items: &Vec<T>) -> (r: Vec<T>)
    ensures
        r@ == items@,
{
    let mut r: Vec<T> = Vec::new();
    let mut i: usize = 0;
    while i < items.len()
        invariant
            i <= items.len(),
            r@ == items@.subrange(0, i as int),
        decreases items.len() - i,
    {
        r.push(items[i]);
        assert(r@ == items@.subrange(0, i + 1));
        i += 1;
    }
    assert(r@ == items@);
    r
}

/// Whether no selector occurs in two rows of the table.
pub fn has_distinct_selectors(table: &Vec<EntryPoint>) -> (r: bool)
    ensures
        r == selectors_distinct(table@),
{
    let mut i: usize = 0;
    while i < table.len()
        invariant
            i <= table.len(),
            forall|a: int, b: int|
                0 <= a < i && 0 <= b < table.len() && (#[trigger] table@[a]).selector == (
                #[trigger] table@[b]).selector ==> a == b,
        decreases table.len() - i,
    {
        let mut j: usize = i + 1;
        while j < table.len()
            invariant
                i < j <= table.len(),
                forall|b: int|
                    i < b < j ==> (#[trigger] table@[b]).selector != table@[i as int].selector,
            decreases table.len() - j,
        {
            if table[i].selector == table[j].selector {
                return false;
            }
            j += 1;
        }
        i += 1;
    }
    true
}

impl ContractClass {
    pub open spec fn view(&self) -> ClassView {
        ClassView {
            constructor: self.constructor@,
            external: self.external@,
            l1_handler: self.l1_handler@,
            program: self.program@,
        }
    }

    /// A class with the same tables and the same body.
    pub fn duplicate(&self) -> (r: ContractClass)
        ensures
            r@ == self@,
    {
        ContractClass {
            constructor: copy_of(&self.constructor),
            external: copy_of(&self.external),
            l1_handler: copy_of(&self.l1_handler),
            program: copy_of(&self.program),
        }
    }

    /// Whether no selector occurs twice within a kind, so that every
    /// selector of the class can be resolved.
    pub fn is_well_formed(&self) -> (r: bool)
        ensures
            r == self@.well_formed(),
    {
        has_distinct_selectors(&self.constructor) && has_distinct_selectors(&self.external)
            && has_distinct_selectors(&self.l1_handler)
    }

    /// The table of one kind.
    pub fn table(&self, kind: EntryPointType) -> (r: &Vec<EntryPoint>)
        ensures
            r@ == self@.table(kind),
    {
        match kind {
            EntryPointType::Constructor => &self.constructor,
            EntryPointType::External => &self.external,
            EntryPointType::L1Handler => &self.l1_handler,
        }
    }

    /// Finds the program location of the entry point of `kind` that
    /// `selector` names.
    ///
    /// Succeeds exactly when one row of that kind's table has the selector
    /// and returns that row's offset. With no such row, or with several,
    /// fails with `EntryPointNotFound` carrying the selector.
    pub fn resolve(&self, kind: EntryPointType, selector: EntryPointSelector) -> (r: Result<
        usize,
        ExecutionError,
    >)
        ensures
            r == resolution(self@.resolve(kind, selector), selector),
    {
        let table = self.table(kind);
        let mut first: Option<usize> = None;
        let mut repeated = false;
        let mut i: usize = 0;
        while i < table.len()
            invariant
                i <= table.len(),
                first is None ==> !repeated && forall|j: int|
                    0 <= j < i ==> (#[trigger] table@[j]).selector != selector,
                first matches Some(k) ==> k < i && table@[k as int].selector == selector,
                first matches Some(k) ==> !repeated ==> forall|j: int|
                    0 <= j < i && (#[trigger] table@[j]).selector == selector ==> j == k,
                repeated ==> exists|a: int, b: int|
                    0 <= a < b < i && (#[trigger] table@[a]).selector == selector && (
                    #[trigger] table@[b]).selector == selector,
            decreases table.len() - i,
        {
            if table[i].selector == selector {
                match first {
                    None => {
                        first = Some(i);
                    },
                    Some(k) => {
                        assert(table@[k as int].selector == selector && table@[i as int].selector
                            == selector);
                        repeated = true;
                    },
                }
            }
            i += 1;
        }
        match first {
            Some(k) if !repeated => {
                proof {
                    assert(is_only_match(table@, selector, k as int));
                }
                Ok(table[k].offset)
            },
            _ => {
                proof {
                    if exists|c: int| is_only_match(table@, selector, c) {
                        let c = choose|c: int| is_only_match(table@, selector, c);
                        if repeated {
                            let (a, b) = choose|a: int, b: int|
                                0 <= a < b < i && (#[trigger] table@[a]).selector == selector && (
                                #[trigger] table@[b]).selector == selector;
                            assert(a == c && b == c);
                        }
                    }
                }
                Err(ExecutionError::EntryPointNotFound(selector))
            },
        }
    }
}

} // verus!
