//! The hash map that backs every layer of state.

use vstd::prelude::*;

verus! {

/// A tagged key: the category of the cell, then the halves of the one or two
/// field elements that identify it.
pub type CellKey = (u8, u128, u128, u128, u128);

/// The halves of the field element that a cell holds.
pub type CellValue = (u128, u128);

/// A `hashbrown::HashMap` from tagged keys to cell values.
///
/// Verus does not look inside: what the map holds is named by
/// [`cell_map_contents`], and the three methods below are the only way in.
#[verifier::external_body]
pub struct CellMap {
    inner: hashbrown::HashMap<(u8, u128, u128, u128, u128), (u128, u128)>,
}

/// The key-value pairs that a map holds.
pub uninterp spec fn cell_map_contents(cells: CellMap) -> Map<
    (u8, u128, u128, u128, u128),
    (u128, u128),
>;

/// The contents of a map without entries.
pub open spec fn empty_cells() -> Map<CellKey, CellValue> {
    Map::empty()
}

impl CellMap {
    pub open spec fn view(&self) -> Map<CellKey, CellValue> {
        cell_map_contents(*self)
    }

    /// Calls `hashbrown::HashMap::new`, which makes a map without entries.
    #[verifier::external_body]
    pub(crate) fn new() -> (r: CellMap)
        ensures
            cell_map_contents(r) == empty_cells(),
    {
        CellMap { inner: hashbrown::HashMap::new() }
    }

    /// Calls `hashbrown::HashMap::get`, which finds the value stored under a
    /// key that equals `key`, and copies what it finds.
    #[verifier::external_body]
    pub(crate) fn get(&self, key: &CellKey) -> (r: Option<CellValue>)
        ensures
            r == if cell_map_contents(*self).dom().contains(*key) {
                Some(cell_map_contents(*self)[*key])
            } else {
                None
            },
    {
        self.inner.get(key).copied()
    }

    /// Calls `hashbrown::HashMap::insert`, which stores `value` under `key`
    /// in place of any value that was there, and keeps every other entry.
    #[verifier::external_body]
    pub(crate) fn insert(&mut self, key: CellKey, value: CellValue)
        ensures
            cell_map_contents(*final(self)) == cell_map_contents(*old(self)).insert(key, value),
    {
        self.inner.insert(key, value);
    }
}

} // verus!
