//! The read-only ledger that a cached state is laid over.

use vstd::prelude::*;
use crate::execution::contract_class::ContractClass;
use crate::felt::{ClassHash, ContractAddress, Felt, Nonce, StorageKey};
use crate::state_layer::{Layer, Store};

verus! {

/// A snapshot of the ledger. Its answers depend on the question alone: the
/// snapshot does not change while it is read.
///
/// What is proved of a state laid over a reader rests on the reader
/// answering as the contracts below say. Of [`DictStateReader`] that is
/// proved; of a reader written elsewhere it is taken on trust.
pub trait StateReader {
    /// What the snapshot holds.
    spec fn view(&self) -> Layer;

    /// The value of a storage cell; zero where the cell was never set.
    fn get_storage_at(&self, address: ContractAddress, key: StorageKey) -> (r: Felt)
        ensures
            r == self@.storage_at(address, key),
    ;

    /// The nonce of an address; zero where it was never set.
    fn get_nonce_at(&self, address: ContractAddress) -> (r: Nonce)
        ensures
            r == self@.nonce_at(address),
    ;

    /// The class deployed at an address; `None` where there is none.
    fn get_class_hash_at(&self, address: ContractAddress) -> (r: Option<ClassHash>)
        ensures
            r == self@.class_hash_at(address),
    ;

    /// The class declared under a hash; `None` where there is none.
    fn get_compiled_class(&self, class_hash: ClassHash) -> (r: Option<ContractClass>)
        ensures
            match r {
                Some(class) => self@.class_of(class_hash) == Some(class@),
                None => self@.class_of(class_hash) is None,
            },
    ;
}

/// A ledger snapshot held in memory.
pub struct DictStateReader {
    store: Store,
}

impl DictStateReader {
    /// A snapshot in which nothing was ever set.
    pub fn new() -> (r: DictStateReader)
        ensures
            r@ == Layer::empty(),
    {
        DictStateReader { store: Store::new() }
    }

    /// Sets the value of a storage cell.
    pub fn set_storage_at(&mut self, address: ContractAddress, key: StorageKey, value: Felt)
        ensures
            final(self)@ == (Layer {
                storage: old(self)@.storage.insert((address, key), value),
                ..old(self)@
            }),
    {
        self.store.set_storage(address, key, value);
    }

    /// Sets the nonce of an address.
    pub fn set_nonce_at(&mut self, address: ContractAddress, nonce: Nonce)
        ensures
            final(self)@ == (Layer {
                nonces: old(self)@.nonces.insert(address, nonce),
                ..old(self)@
            }),
    {
        self.store.set_nonce(address, nonce);
    }

    /// Deploys a class at an address.
    pub fn set_class_hash_at(&mut self, address: ContractAddress, class_hash: ClassHash)
        ensures
            final(self)@ == (Layer {
                class_hashes: old(self)@.class_hashes.insert(address, class_hash),
                ..old(self)@
            }),
    {
        self.store.set_class_hash(address, class_hash);
    }

    /// Declares a class under a hash.
    pub fn set_contract_class(&mut self, class_hash: ClassHash, class: ContractClass)
        ensures
            final(self)@ == (Layer {
                classes: old(self)@.classes.insert(class_hash, class@),
                ..old(self)@
            }),
    {
        self.store.set_class(class_hash, class);
    }
}

impl Default for DictStateReader {
    fn default() -> (r: DictStateReader)
        ensures
            r@ == Layer::empty(),
    {
        DictStateReader::new()
    }
}

impl StateReader for DictStateReader {
    closed spec fn view(&self) -> Layer {
        self.store@
    }

    fn get_storage_at(&self, address: ContractAddress, key: StorageKey) -> (r: Felt) {
        match self.store.storage(address, key) {
            Some(value) => value,
            None => Felt::zero(),
        }
    }

    fn get_nonce_at(&self, address: ContractAddress) -> (r: Nonce) {
        match self.store.nonce(address) {
            Some(nonce) => nonce,
            None => Nonce(Felt::zero()),
        }
    }

    fn get_class_hash_at(&self, address: ContractAddress) -> (r: Option<ClassHash>) {
        self.store.class_hash(address)
    }

    fn get_compiled_class(&self, class_hash: ClassHash) -> (r: Option<ContractClass>) {
        match self.store.class(class_hash) {
            Some(class) => Some(class.duplicate()),
            None => None,
        }
    }
}

} // verus!
