//! A write-buffering, read-through overlay over a ledger snapshot.

use vstd::prelude::*;
use crate::execution::contract_class::{ClassView, ContractClass};
use crate::execution::errors::ExecutionError;
use crate::felt::{ClassHash, ContractAddress, Felt, Nonce, StorageKey};
use crate::state_layer::{lookup, Layer, Store};
use crate::state_reader::StateReader;

pub use crate::state_reader::DictStateReader;

verus! {

/// The three layers of a cached state: the snapshot below, the values
/// fetched from it so far, and the pending writes on top.
pub ghost struct StateView {
    pub base: Layer,
    pub cache: Layer,
    pub writes: Layer,
}

/// The first of three values that is there.
pub open spec fn first_of<V>(top: Option<V>, middle: Option<V>, bottom: Option<V>) -> Option<V> {
    if top is Some {
        top
    } else if middle is Some {
        middle
    } else {
        bottom
    }
}

impl StateView {
    /// The state over a snapshot before anything was read or written.
    pub open spec fn fresh(base: Layer) -> StateView {
        StateView { base, cache: Layer::empty(), writes: Layer::empty() }
    }

    /// Every cached value is the value that the snapshot has.
    pub open spec fn consistent(self) -> bool {
        &&& forall|at: (ContractAddress, StorageKey)| #[trigger]
            self.cache.storage.dom().contains(at) ==> self.cache.storage[at]
                == self.base.storage_at(at.0, at.1)
        &&& forall|address: ContractAddress| #[trigger]
            self.cache.nonces.dom().contains(address) ==> self.cache.nonces[address]
                == self.base.nonce_at(address)
        &&& forall|address: ContractAddress| #[trigger]
            self.cache.class_hashes.dom().contains(address) ==> Some(
                self.cache.class_hashes[address],
            ) == self.base.class_hash_at(address)
        &&& forall|class_hash: ClassHash| #[trigger]
            self.cache.classes.dom().contains(class_hash) ==> Some(self.cache.classes[class_hash])
                == self.base.class_of(class_hash)
    }

    /// The value that a read of a storage cell returns.
    pub open spec fn storage_at(self, address: ContractAddress, key: StorageKey) -> Felt {
        first_of(
            lookup(self.writes.storage, (address, key)),
            lookup(self.cache.storage, (address, key)),
            Some(self.base.storage_at(address, key)),
        ).unwrap()
    }

    /// The nonce that a read returns.
    pub open spec fn nonce_at(self, address: ContractAddress) -> Nonce {
        first_of(
            lookup(self.writes.nonces, address),
            lookup(self.cache.nonces, address),
            Some(self.base.nonce_at(address)),
        ).unwrap()
    }

    /// The class that a read finds deployed at an address, if any.
    pub open spec fn class_hash_at(self, address: ContractAddress) -> Option<ClassHash> {
        first_of(
            lookup(self.writes.class_hashes, address),
            lookup(self.cache.class_hashes, address),
            self.base.class_hash_at(address),
        )
    }

    /// The class that a load finds under a hash, if any.
    pub open spec fn class_of(self, class_hash: ClassHash) -> Option<ClassView> {
        first_of(
            lookup(self.writes.classes, class_hash),
            lookup(self.cache.classes, class_hash),
            self.base.class_of(class_hash),
        )
    }

    /// The class that the overlay itself holds under a hash, if any.
    pub open spec fn loaded_class(self, class_hash: ClassHash) -> Option<ClassView> {
        first_of(
            lookup(self.writes.classes, class_hash),
            lookup(self.cache.classes, class_hash),
            None,
        )
    }

    /// The state after a read of a storage cell: a value fetched from the
    /// snapshot is kept in the cache.
    pub open spec fn read_storage(self, address: ContractAddress, key: StorageKey) -> StateView {
        if self.writes.storage.dom().contains((address, key)) || self.cache.storage.dom().contains(
            (address, key),
        ) {
            self
        } else {
            StateView {
                cache: Layer {
                    storage: self.cache.storage.insert(
                        (address, key),
                        self.base.storage_at(address, key),
                    ),
                    ..self.cache
                },
                ..self
            }
        }
    }

    /// The state after a read of a nonce.
    pub open spec fn read_nonce(self, address: ContractAddress) -> StateView {
        if self.writes.nonces.dom().contains(address) || self.cache.nonces.dom().contains(address) {
            self
        } else {
            StateView {
                cache: Layer {
                    nonces: self.cache.nonces.insert(address, self.base.nonce_at(address)),
                    ..self.cache
                },
                ..self
            }
        }
    }

    /// The state after a read of the class deployed at an address.
    pub open spec fn read_class_hash(self, address: ContractAddress) -> StateView {
        if self.writes.class_hashes.dom().contains(address)
            || self.cache.class_hashes.dom().contains(address) {
            self
        } else {
            match self.base.class_hash_at(address) {
                Some(class_hash) => StateView {
                    cache: Layer {
                        class_hashes: self.cache.class_hashes.insert(address, class_hash),
                        ..self.cache
                    },
                    ..self
                },
                None => self,
            }
        }
    }

    /// The state after a load of a class.
    pub open spec fn read_class(self, class_hash: ClassHash) -> StateView {
        if self.writes.classes.dom().contains(class_hash) || self.cache.classes.dom().contains(
            class_hash,
        ) {
            self
        } else {
            match self.base.class_of(class_hash) {
                Some(class) => StateView {
                    cache: Layer {
                        classes: self.cache.classes.insert(class_hash, class),
                        ..self.cache
                    },
                    ..self
                },
                None => self,
            }
        }
    }

    /// The state after a write to a storage cell.
    pub open spec fn write_storage(
        self,
        address: ContractAddress,
        key: StorageKey,
        value: Felt,
    ) -> StateView {
        StateView {
            writes: Layer {
                storage: self.writes.storage.insert((address, key), value),
                ..self.writes
            },
            ..self
        }
    }

    /// The state after a write of a nonce.
    pub open spec fn write_nonce(self, address: ContractAddress, nonce: Nonce) -> StateView {
        StateView {
            writes: Layer { nonces: self.writes.nonces.insert(address, nonce), ..self.writes },
            ..self
        }
    }

    /// The state after a class was deployed at an address.
    pub open spec fn write_class_hash(
        self,
        address: ContractAddress,
        class_hash: ClassHash,
    ) -> StateView {
        StateView {
            writes: Layer {
                class_hashes: self.writes.class_hashes.insert(address, class_hash),
                ..self.writes
            },
            ..self
        }
    }

    /// The state after a class was declared under a hash.
    pub open spec fn write_class(self, class_hash: ClassHash, class: ClassView) -> StateView {
        StateView {
            writes: Layer { classes: self.writes.classes.insert(class_hash, class), ..self.writes },
            ..self
        }
    }
}

/// What a lookup of a class or of a deployment returns for what was found.
pub open spec fn found_or_uninitialized<V>(found: Option<V>) -> Result<V, ExecutionError> {
    match found {
        Some(value) => Ok(value),
        None => Err(ExecutionError::UninitializedClassHash),
    }
}

/// The overlay through which all reads and writes of an execution pass.
///
/// A read consults the pending writes, then the values already fetched, then
/// the snapshot, and keeps what it fetched. A write touches the pending
/// writes alone. The snapshot is never changed.
pub struct CachedState<R: StateReader> {
    state_reader: R,
    cache: Store,
    writes: Store,
}

impl<R: StateReader> CachedState<R> {
    /// The cache holds nothing but values of the snapshot.
    #[verifier::type_invariant]
    pub open spec fn cache_follows_snapshot(self) -> bool {
        self@.consistent()
    }

    pub closed spec fn view(&self) -> StateView {
        StateView { base: self.state_reader@, cache: self.cache@, writes: self.writes@ }
    }

    /// An overlay over `state_reader` with nothing read or written yet.
    pub fn new(state_reader: R) -> (r: CachedState<R>)
        ensures
            r@ == StateView::fresh(state_reader@),
            r@.consistent(),
    {
        CachedState { state_reader, cache: Store::new(), writes: Store::new() }
    }

    /// The snapshot below the overlay.
    pub fn state_reader(&self) -> (r: &R)
        ensures
            r@ == self@.base,
    {
        &self.state_reader
    }

    /// Takes the cache out and leaves an empty one in its place.
    fn take_cache(&mut self) -> (cache: Store)
        ensures
            cache@ == old(self)@.cache,
            final(self)@ == (StateView { cache: Layer::empty(), ..old(self)@ }),
    {
        let mut cache = Store::new();
        core::mem::swap(&mut self.cache, &mut cache);
        cache
    }

    /// Puts a cache in the place of the empty one.
    fn put_cache(&mut self, cache: Store)
        requires
            (StateView { cache: cache@, ..old(self)@ }).consistent(),
        ensures
            final(self)@ == (StateView { cache: cache@, ..old(self)@ }),
    {
        let mut cache = cache;
        core::mem::swap(&mut self.cache, &mut cache);
    }

    /// Takes the pending writes out and leaves none in their place.
    fn take_writes(&mut self) -> (writes: Store)
        ensures
            writes@ == old(self)@.writes,
            final(self)@ == (StateView { writes: Layer::empty(), ..old(self)@ }),
    {
        proof {
            use_type_invariant(&*self);
        }
        let mut writes = Store::new();
        core::mem::swap(&mut self.writes, &mut writes);
        writes
    }

    /// Puts pending writes in the place of none.
    fn put_writes(&mut self, writes: Store)
        ensures
            final(self)@ == (StateView { writes: writes@, ..old(self)@ }),
    {
        proof {
            use_type_invariant(&*self);
        }
        let mut writes = writes;
        core::mem::swap(&mut self.writes, &mut writes);
    }

    /// Reads a storage cell: the pending write if there is one, else the
    /// snapshot's value, which is zero for a cell never set.
    pub fn get_storage_at(&mut self, address: ContractAddress, key: StorageKey) -> (r: Felt)
        ensures
            r == old(self)@.storage_at(address, key),
            final(self)@ == old(self)@.read_storage(address, key),
            final(self)@.consistent(),
            !old(self)@.writes.storage.dom().contains((address, key))
                && !old(self)@.base.storage.dom().contains((address, key)) ==> r
                == Felt::spec_zero(),
    {
        proof {
            use_type_invariant(&*self);
        }
        if let Some(value) = self.writes.storage(address, key) {
            return value;
        }
        if let Some(value) = self.cache.storage(address, key) {
            assert(self@.cache.storage.dom().contains((address, key)));
            return value;
        }
        let value = self.state_reader.get_storage_at(address, key);
        let mut cache = self.take_cache();
        cache.set_storage(address, key, value);
        self.put_cache(cache);
        value
    }

    /// Writes a storage cell. The value is what every later read of the cell
    /// returns, until the next write to it.
    pub fn set_storage_at(&mut self, address: ContractAddress, key: StorageKey, value: Felt)
        ensures
            final(self)@ == old(self)@.write_storage(address, key, value),
            final(self)@.consistent(),
    {
        proof {
            use_type_invariant(&*self);
        }
        let mut writes = self.take_writes();
        writes.set_storage(address, key, value);
        self.put_writes(writes);
    }

    /// Reads the nonce of an address; zero where it was never set.
    pub fn get_nonce_at(&mut self, address: ContractAddress) -> (r: Nonce)
        ensures
            r == old(self)@.nonce_at(address),
            final(self)@ == old(self)@.read_nonce(address),
            final(self)@.consistent(),
            !old(self)@.writes.nonces.dom().contains(address)
                && !old(self)@.base.nonces.dom().contains(address) ==> r == Nonce(
                Felt::spec_zero(),
            ),
    {
        proof {
            use_type_invariant(&*self);
        }
        if let Some(nonce) = self.writes.nonce(address) {
            return nonce;
        }
        if let Some(nonce) = self.cache.nonce(address) {
            assert(self@.cache.nonces.dom().contains(address));
            return nonce;
        }
        let nonce = self.state_reader.get_nonce_at(address);
        let mut cache = self.take_cache();
        cache.set_nonce(address, nonce);
        self.put_cache(cache);
        nonce
    }

    /// Writes the nonce of an address.
    pub fn set_nonce_at(&mut self, address: ContractAddress, nonce: Nonce)
        ensures
            final(self)@ == old(self)@.write_nonce(address, nonce),
            final(self)@.consistent(),
    {
        proof {
            use_type_invariant(&*self);
        }
        let mut writes = self.take_writes();
        writes.set_nonce(address, nonce);
        self.put_writes(writes);
    }

    /// Reads the class deployed at an address. Fails with
    /// `UninitializedClassHash` exactly when no class is deployed there.
    pub fn get_class_hash_at(&mut self, address: ContractAddress) -> (r: Result<
        ClassHash,
        ExecutionError,
    >)
        ensures
            r == found_or_uninitialized(old(self)@.class_hash_at(address)),
            final(self)@ == old(self)@.read_class_hash(address),
            final(self)@.consistent(),
    {
        proof {
            use_type_invariant(&*self);
        }
        if let Some(class_hash) = self.writes.class_hash(address) {
            return Ok(class_hash);
        }
        if let Some(class_hash) = self.cache.class_hash(address) {
            return Ok(class_hash);
        }
        match self.state_reader.get_class_hash_at(address) {
            Some(class_hash) => {
                let mut cache = self.take_cache();
                cache.set_class_hash(address, class_hash);
                self.put_cache(cache);
                Ok(class_hash)
            },
            None => Err(ExecutionError::UninitializedClassHash),
        }
    }

    /// Deploys a class at an address.
    pub fn set_class_hash_at(&mut self, address: ContractAddress, class_hash: ClassHash)
        ensures
            final(self)@ == old(self)@.write_class_hash(address, class_hash),
            final(self)@.consistent(),
    {
        proof {
            use_type_invariant(&*self);
        }
        let mut writes = self.take_writes();
        writes.set_class_hash(address, class_hash);
        self.put_writes(writes);
    }

    /// Brings the class under a hash into the overlay, unless it is there.
    /// Fails with `UninitializedClassHash` exactly when neither the overlay
    /// nor the snapshot has a class under the hash.
    pub fn load_contract_class(&mut self, class_hash: ClassHash) -> (r: Result<(), ExecutionError>)
        ensures
            r is Ok <==> old(self)@.class_of(class_hash) is Some,
            r is Err ==> r == Err::<(), ExecutionError>(ExecutionError::UninitializedClassHash),
            final(self)@ == old(self)@.read_class(class_hash),
            final(self)@.loaded_class(class_hash) == old(self)@.class_of(class_hash),
            final(self)@.consistent(),
    {
        proof {
            use_type_invariant(&*self);
        }
        if self.writes.class(class_hash).is_some() {
            return Ok(());
        }
        if self.cache.class(class_hash).is_some() {
            return Ok(());
        }
        match self.state_reader.get_compiled_class(class_hash) {
            Some(class) => {
                let mut cache = self.take_cache();
                cache.set_class(class_hash, class);
                self.put_cache(cache);
                Ok(())
            },
            None => Err(ExecutionError::UninitializedClassHash),
        }
    }

    /// The class that the overlay holds under a hash, without asking the
    /// snapshot.
    pub fn loaded_contract_class(&self, class_hash: ClassHash) -> (r: Option<&ContractClass>)
        ensures
            match r {
                Some(class) => self@.loaded_class(class_hash) == Some(class@),
                None => self@.loaded_class(class_hash) is None,
            },
    {
        match self.writes.class(class_hash) {
            Some(class) => Some(class),
            None => self.cache.class(class_hash),
        }
    }

    /// Loads the class under a hash and returns a copy of it. Fails with
    /// `UninitializedClassHash` exactly when there is no such class.
    pub fn get_contract_class(&mut self, class_hash: ClassHash) -> (r: Result<
        ContractClass,
        ExecutionError,
    >)
        ensures
            match r {
                Ok(class) => old(self)@.class_of(class_hash) == Some(class@),
                Err(error) => old(self)@.class_of(class_hash) is None && error
                    == ExecutionError::UninitializedClassHash,
            },
            final(self)@ == old(self)@.read_class(class_hash),
            final(self)@.consistent(),
    {
        match self.load_contract_class(class_hash) {
            Ok(()) => {
                match self.loaded_contract_class(class_hash) {
                    Some(class) => Ok(class.duplicate()),
                    None => Err(ExecutionError::UninitializedClassHash),
                }
            },
            Err(error) => Err(error),
        }
    }

    /// Declares a class under a hash.
    pub fn set_contract_class(&mut self, class_hash: ClassHash, class: ContractClass)
        ensures
            final(self)@ == old(self)@.write_class(class_hash, class@),
            final(self)@.consistent(),
    {
        proof {
            use_type_invariant(&*self);
        }
        let mut writes = self.take_writes();
        writes.set_class(class_hash, class);
        self.put_writes(writes);
    }
}

/// Read-your-writes: a write is what the next read of the same key returns,
/// whatever the snapshot and the cache hold for that key.
pub proof fn law_read_your_writes(
    state: StateView,
    address: ContractAddress,
    key: StorageKey,
    value: Felt,
    nonce: Nonce,
    class_hash: ClassHash,
    class: ClassView,
)
    ensures
        state.write_storage(address, key, value).storage_at(address, key) == value,
        state.write_nonce(address, nonce).nonce_at(address) == nonce,
        state.write_class_hash(address, class_hash).class_hash_at(address) == Some(class_hash),
        state.write_class(class_hash, class).class_of(class_hash) == Some(class),
{
}

/// A write changes what is read under its own key and under no other: two
/// different pairs of address and storage key never alias.
pub proof fn law_writes_do_not_alias(
    state: StateView,
    address: ContractAddress,
    key: StorageKey,
    value: Felt,
    other_address: ContractAddress,
    other_key: StorageKey,
)
    requires
        (address, key) != (other_address, other_key),
    ensures
        state.write_storage(address, key, value).storage_at(other_address, other_key)
            == state.storage_at(other_address, other_key),
        state.write_storage(address, key, value).nonce_at(other_address) == state.nonce_at(
            other_address,
        ),
        state.write_storage(address, key, value).class_hash_at(other_address)
            == state.class_hash_at(other_address),
{
}

/// Neither a read nor a write changes the snapshot.
pub proof fn law_snapshot_is_never_changed(
    state: StateView,
    address: ContractAddress,
    key: StorageKey,
    value: Felt,
    nonce: Nonce,
    class_hash: ClassHash,
    class: ClassView,
)
    ensures
        state.read_storage(address, key).base == state.base,
        state.read_nonce(address).base == state.base,
        state.read_class_hash(address).base == state.base,
        state.read_class(class_hash).base == state.base,
        state.write_storage(address, key, value).base == state.base,
        state.write_nonce(address, nonce).base == state.base,
        state.write_class_hash(address, class_hash).base == state.base,
        state.write_class(class_hash, class).base == state.base,
{
}

/// A read changes nothing that a read can see: after a read of one storage
/// cell every lookup returns what it returned before.
pub proof fn law_reads_are_unseen(
    state: StateView,
    address: ContractAddress,
    key: StorageKey,
    other_address: ContractAddress,
    other_key: StorageKey,
    class_hash: ClassHash,
)
    ensures
        state.read_storage(address, key).storage_at(other_address, other_key) == state.storage_at(
            other_address,
            other_key,
        ),
        state.read_nonce(address).nonce_at(other_address) == state.nonce_at(other_address),
        state.read_class_hash(address).class_hash_at(other_address) == state.class_hash_at(
            other_address,
        ),
        state.read_class(class_hash).storage_at(other_address, other_key) == state.storage_at(
            other_address,
            other_key,
        ),
        state.read_class_hash(address).storage_at(other_address, other_key) == state.storage_at(
            other_address,
            other_key,
        ),
{
}

/// The cache holds nothing but values of the snapshot: this is so before
/// anything was read, and no read or write undoes it.
pub proof fn law_cache_follows_snapshot(
    state: StateView,
    address: ContractAddress,
    key: StorageKey,
    value: Felt,
    nonce: Nonce,
    class_hash: ClassHash,
    class: ClassView,
)
    requires
        state.consistent(),
    ensures
        StateView::fresh(state.base).consistent(),
        state.read_storage(address, key).consistent(),
        state.read_nonce(address).consistent(),
        state.read_class_hash(address).consistent(),
        state.read_class(class_hash).consistent(),
        state.write_storage(address, key, value).consistent(),
        state.write_nonce(address, nonce).consistent(),
        state.write_class_hash(address, class_hash).consistent(),
        state.write_class(class_hash, class).consistent(),
{
}

/// Default-zero storage: a storage cell that was never written and that the
/// snapshot does not hold reads as zero, and so does a nonce.
pub proof fn law_default_zero(state: StateView, address: ContractAddress, key: StorageKey)
    requires
        state.consistent(),
    ensures
        !state.writes.storage.dom().contains((address, key)) && !state.base.storage.dom().contains(
            (address, key),
        ) ==> state.storage_at(address, key) == Felt::spec_zero(),
        !state.writes.nonces.dom().contains(address) && !state.base.nonces.dom().contains(address)
            ==> state.nonce_at(address) == Nonce(Felt::spec_zero()),
{
}

/// Idempotent class loading: a second load of a class finds the class that
/// the first load found, and leaves the state as the first load left it.
pub proof fn law_class_loading_is_idempotent(state: StateView, class_hash: ClassHash)
    ensures
        state.read_class(class_hash).class_of(class_hash) == state.class_of(class_hash),
        state.read_class(class_hash).read_class(class_hash) == state.read_class(class_hash),
        state.class_of(class_hash) is Some ==> state.read_class(class_hash).loaded_class(class_hash)
            == state.class_of(class_hash),
{
}

} // verus!
