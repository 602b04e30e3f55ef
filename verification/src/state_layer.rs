//! One layer of state: what it holds for each category of data.

use vstd::prelude::*;
use crate::cell_map::{CellKey, CellMap, CellValue};
use crate::execution::contract_class::{ClassView, ContractClass};
use crate::felt::{ClassHash, ContractAddress, Felt, Nonce, StorageKey};

verus! {

/// What a layer holds: for each category, the keys that have a value in it.
pub ghost struct Layer {
    pub storage: Map<(ContractAddress, StorageKey), Felt>,
    pub nonces: Map<ContractAddress, Nonce>,
    pub class_hashes: Map<ContractAddress, ClassHash>,
    pub classes: Map<ClassHash, ClassView>,
}

/// The value under `key`, if the map has one.
pub open spec fn lookup<K, V>(entries: Map<K, V>, key: K) -> Option<V> {
    if entries.dom().contains(key) {
        Some(entries[key])
    } else {
        None
    }
}

impl Layer {
    /// The layer that holds nothing.
    pub open spec fn empty() -> Layer {
        Layer {
            storage: Map::empty(),
            nonces: Map::empty(),
            class_hashes: Map::empty(),
            classes: Map::empty(),
        }
    }

    /// The value of a storage cell; zero where the layer has none.
    pub open spec fn storage_at(self, address: ContractAddress, key: StorageKey) -> Felt {
        match lookup(self.storage, (address, key)) {
            Some(value) => value,
            None => Felt::spec_zero(),
        }
    }

    /// The nonce of an address; zero where the layer has none.
    pub open spec fn nonce_at(self, address: ContractAddress) -> Nonce {
        match lookup(self.nonces, address) {
            Some(nonce) => nonce,
            None => Nonce(Felt::spec_zero()),
        }
    }

    /// The class deployed at an address, if any.
    pub open spec fn class_hash_at(self, address: ContractAddress) -> Option<ClassHash> {
        lookup(self.class_hashes, address)
    }

    /// The class declared under a hash, if any.
    pub open spec fn class_of(self, class_hash: ClassHash) -> Option<ClassView> {
        lookup(self.classes, class_hash)
    }
}

/// The tags of the four categories of cell.
pub const STORAGE_TAG: u8 = 0;

pub const NONCE_TAG: u8 = 1;

pub const CLASS_HASH_TAG: u8 = 2;

pub const CLASS_TAG: u8 = 3;

/// The key of the cell that holds a storage value.
pub open spec fn storage_cell(address: ContractAddress, key: StorageKey) -> CellKey {
    (STORAGE_TAG, address.0.hi, address.0.lo, key.0.hi, key.0.lo)
}

/// The key of the cell that holds the nonce of an address.
pub open spec fn nonce_cell(address: ContractAddress) -> CellKey {
    (NONCE_TAG, address.0.hi, address.0.lo, 0u128, 0u128)
}

/// The key of the cell that holds the hash of the class deployed at an
/// address.
pub open spec fn class_hash_cell(address: ContractAddress) -> CellKey {
    (CLASS_HASH_TAG, address.0.hi, address.0.lo, 0u128, 0u128)
}

/// The key of the cell that holds the position of a class.
pub open spec fn class_cell(class_hash: ClassHash) -> CellKey {
    (CLASS_TAG, class_hash.0.hi, class_hash.0.lo, 0u128, 0u128)
}

/// The key of one field element under a tag.
fn cell_of(tag: u8, felt: Felt) -> (r: CellKey)
    ensures
        r == (tag, felt.hi, felt.lo, 0u128, 0u128),
{
    (tag, felt.hi, felt.lo, 0, 0)
}

/// The field element that a cell value stands for.
pub open spec fn felt_of(value: CellValue) -> Felt {
    Felt { hi: value.0, lo: value.1 }
}

/// A class together with the hash that it was put under.
pub struct Declared {
    pub class_hash: ClassHash,
    pub class: ContractClass,
}

/// Whether the class cell of a hash points at a class put under that hash.
pub open spec fn declares(
    cells: Map<CellKey, CellValue>,
    classes: Seq<Declared>,
    class_hash: ClassHash,
) -> bool {
    &&& cells.dom().contains(class_cell(class_hash))
    &&& cells[class_cell(class_hash)].1 < classes.len()
    &&& classes[cells[class_cell(class_hash)].1 as int].class_hash == class_hash
}

/// The layer that a cell map and the classes beside it stand for. A class
/// cell holds, in its low half, the position of the class.
pub open spec fn layer_of(cells: Map<CellKey, CellValue>, classes: Seq<Declared>) -> Layer {
    Layer {
        storage: Map::new(
            |at: (ContractAddress, StorageKey)| cells.dom().contains(storage_cell(at.0, at.1)),
            |at: (ContractAddress, StorageKey)| felt_of(cells[storage_cell(at.0, at.1)]),
        ),
        nonces: Map::new(
            |address: ContractAddress| cells.dom().contains(nonce_cell(address)),
            |address: ContractAddress| Nonce(felt_of(cells[nonce_cell(address)])),
        ),
        class_hashes: Map::new(
            |address: ContractAddress| cells.dom().contains(class_hash_cell(address)),
            |address: ContractAddress| ClassHash(felt_of(cells[class_hash_cell(address)])),
        ),
        classes: Map::new(
            |class_hash: ClassHash| declares(cells, classes, class_hash),
            |class_hash: ClassHash| classes[cells[class_cell(class_hash)].1 as int].class@,
        ),
    }
}

/// A layer in memory: the cells of every category in one hash map, and the
/// classes in a vector that the class cells point into.
pub struct Store {
    cells: CellMap,
    classes: Vec<Declared>,
}

impl Store {
    pub closed spec fn view(&self) -> Layer {
        layer_of(self.cells@, self.classes@)
    }

    /// A layer that holds nothing.
    pub fn new() -> (r: Store)
        ensures
            r@ == Layer::empty(),
    {
        let r = Store { cells: CellMap::new(), classes: Vec::new() };
        assert(r@.storage =~= Layer::empty().storage);
        assert(r@.nonces =~= Layer::empty().nonces);
        assert(r@.class_hashes =~= Layer::empty().class_hashes);
        assert(r@.classes =~= Layer::empty().classes);
        r
    }

    /// The value that the layer has for a storage cell, if any.
    pub fn storage(&self, address: ContractAddress, key: StorageKey) -> (r: Option<Felt>)
        ensures
            r == lookup(self@.storage, (address, key)),
    {
        match self.cells.get(&(STORAGE_TAG, address.0.hi, address.0.lo, key.0.hi, key.0.lo)) {
            Some((hi, lo)) => Some(Felt { hi, lo }),
            None => None,
        }
    }

    /// Gives a storage cell a value in this layer.
    pub fn set_storage(&mut self, address: ContractAddress, key: StorageKey, value: Felt)
        ensures
            final(self)@ == (Layer {
                storage: old(self)@.storage.insert((address, key), value),
                ..old(self)@
            }),
    {
        self.cells.insert(
            (STORAGE_TAG, address.0.hi, address.0.lo, key.0.hi, key.0.lo),
            (value.hi, value.lo),
        );
        proof {
            let before = old(self)@;
            let after = self@;
            assert(after.storage =~= before.storage.insert((address, key), value));
            assert(after.nonces =~= before.nonces);
            assert(after.class_hashes =~= before.class_hashes);
            assert(after.classes =~= before.classes);
        }
    }

    /// The nonce that the layer has for an address, if any.
    pub fn nonce(&self, address: ContractAddress) -> (r: Option<Nonce>)
        ensures
            r == lookup(self@.nonces, address),
    {
        match self.cells.get(&cell_of(NONCE_TAG, address.0)) {
            Some((hi, lo)) => Some(Nonce(Felt { hi, lo })),
            None => None,
        }
    }

    /// Gives an address a nonce in this layer.
    pub fn set_nonce(&mut self, address: ContractAddress, nonce: Nonce)
        ensures
            final(self)@ == (Layer {
                nonces: old(self)@.nonces.insert(address, nonce),
                ..old(self)@
            }),
    {
        self.cells.insert(cell_of(NONCE_TAG, address.0), (nonce.0.hi, nonce.0.lo));
        proof {
            let before = old(self)@;
            let after = self@;
            assert(after.storage =~= before.storage);
            assert(after.nonces =~= before.nonces.insert(address, nonce));
            assert(after.class_hashes =~= before.class_hashes);
            assert(after.classes =~= before.classes);
        }
    }

    /// The class that the layer has deployed at an address, if any.
    pub fn class_hash(&self, address: ContractAddress) -> (r: Option<ClassHash>)
        ensures
            r == lookup(self@.class_hashes, address),
    {
        match self.cells.get(&cell_of(CLASS_HASH_TAG, address.0)) {
            Some((hi, lo)) => Some(ClassHash(Felt { hi, lo })),
            None => None,
        }
    }

    /// Deploys a class at an address in this layer.
    pub fn set_class_hash(&mut self, address: ContractAddress, class_hash: ClassHash)
        ensures
            final(self)@ == (Layer {
                class_hashes: old(self)@.class_hashes.insert(address, class_hash),
                ..old(self)@
            }),
    {
        self.cells.insert(
            cell_of(CLASS_HASH_TAG, address.0),
            (class_hash.0.hi, class_hash.0.lo),
        );
        proof {
            let before = old(self)@;
            let after = self@;
            assert(after.storage =~= before.storage);
            assert(after.nonces =~= before.nonces);
            assert(after.class_hashes =~= before.class_hashes.insert(address, class_hash));
            assert(after.classes =~= before.classes);
        }
    }

    /// The class that the layer has under a hash, if any.
    pub fn class(&self, class_hash: ClassHash) -> (r: Option<&ContractClass>)
        ensures
            match r {
                Some(class) => lookup(self@.classes, class_hash) == Some(class@),
                None => lookup(self@.classes, class_hash) is None,
            },
    {
        match self.cells.get(&cell_of(CLASS_TAG, class_hash.0)) {
            Some((_, slot)) => {
                if slot < self.classes.len() as u128 {
                    let declared = &self.classes[slot as usize];
                    if declared.class_hash == class_hash {
                        Some(&declared.class)
                    } else {
                        None
                    }
                } else {
                    None
                }
            },
            None => None,
        }
    }

    /// Puts a class under a hash in this layer.
    pub fn set_class(&mut self, class_hash: ClassHash, class: ContractClass)
        ensures
            final(self)@ == (Layer {
                classes: old(self)@.classes.insert(class_hash, class@),
                ..old(self)@
            }),
    {
        let slot: usize = self.classes.len();
        self.classes.push(Declared { class_hash, class });
        self.cells.insert(cell_of(CLASS_TAG, class_hash.0), (0u128, slot as u128));
        proof {
            let before = old(self)@;
            let after = self@;
            assert(after.storage =~= before.storage);
            assert(after.nonces =~= before.nonces);
            assert(after.class_hashes =~= before.class_hashes);
            assert forall|other: ClassHash|
                after.classes.dom().contains(other) <==> before.classes.insert(
                    class_hash,
                    class@,
                ).dom().contains(other) by {
                if other != class_hash {
                    assert(class_cell(other) != class_cell(class_hash));
                }
            }
            assert(after.classes =~= before.classes.insert(class_hash, class@));
        }
    }
}

} // verus!
