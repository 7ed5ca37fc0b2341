//! What holds of the key manager over any sequence of operations.

use vstd::prelude::*;

use crate::crypto::stream::Algorithm;
use crate::error::Error;
use crate::keys::hashing::HashingAlgorithm;
use crate::keys::laws::importing_only_adds_keys;
use crate::keys::model::{KeyManagerView, KeyMaterialView, RewrapView, StoredKeyView};
use crate::keys::sealing::KeyDetails;

verus! {

/// An operation that may change a key manager, with its inputs and the random values that it draws.
/// A backup that cannot be opened is imported to no effect, and so is none.
pub enum Operation {
    Populate { keys: Seq<StoredKeyView> },
    Remove { id: u128 },
    ChangePassword {
        password: Seq<u8>,
        secret: Option<Seq<u8>>,
        algorithm: Algorithm,
        hashing_algorithm: HashingAlgorithm,
        material: KeyMaterialView,
    },
    Import { keys: Seq<StoredKeyView>, backup_root_key: Seq<u8>, rewraps: Seq<RewrapView> },
    Unlock { password: Seq<u8>, secret: Option<Seq<u8>> },
    Lock,
    Mount { id: u128 },
    Unmount { id: u128 },
    UnmountAll,
    Dequeue { id: u128 },
    Add { details: KeyDetails, material: KeyMaterialView, key: Seq<u8> },
    SetDefault { id: u128 },
    SetAutomount { id: u128, status: bool },
    Sync { id: u128 },
}

impl KeyManagerView {
    /// The state after an operation, whether or not it succeeded.
    pub open spec fn after(self, operation: Operation) -> Self {
        match operation {
            Operation::Populate { keys } => self.populated(keys),
            Operation::Remove { id } => self.removed(id),
            Operation::ChangePassword {
                password,
                secret,
                algorithm,
                hashing_algorithm,
                material,
            } => self.rekeyed(password, secret, algorithm, hashing_algorithm, material).0,
            Operation::Import { keys, backup_root_key, rewraps } => self.imported(
                keys,
                backup_root_key,
                rewraps,
            ).0,
            Operation::Unlock { password, secret } => self.unlocked(password, secret).0,
            Operation::Lock => self.locked(),
            Operation::Mount { id } => self.mounting(id).0,
            Operation::Unmount { id } => self.unmounted(id).0,
            Operation::UnmountAll => self.all_unmounted(),
            Operation::Dequeue { id } => self.dequeue(id).0,
            Operation::Add { details, material, key } => self.added(details, material, key).0,
            Operation::SetDefault { id } => self.with_default(id).0,
            Operation::SetAutomount { id, status } => self.with_automount(id, status).0,
            Operation::Sync { id } => self.synced(id).0,
        }
    }

    /// The state after some operations, one after the other.
    pub open spec fn after_all(self, operations: Seq<Operation>) -> Self
        decreases operations.len(),
    {
        if operations.len() == 0 {
            self
        } else {
            self.after_all(operations.drop_last()).after(operations.last())
        }
    }

    /// Whether the operation at `index` succeeds in making some key the default.
    pub open spec fn sets_default(self, operations: Seq<Operation>, index: int) -> bool {
        &&& operations[index] is SetDefault
        &&& self.after_all(operations.take(index)).with_default(operations[index]->SetDefault_id).1
            is Ok
    }

    /// Whether the operation at `index` made `id` the default, and nothing undid that since: no key
    /// was made the default later, and the key was not removed.
    pub open spec fn default_stems_from(
        self,
        operations: Seq<Operation>,
        id: u128,
        index: int,
    ) -> bool {
        &&& 0 <= index < operations.len()
        &&& operations[index] == (Operation::SetDefault { id })
        &&& self.sets_default(operations, index)
        &&& forall|later: int|
            index < later < operations.len() ==> {
                &&& !self.sets_default(operations, later)
                &&& #[trigger] operations[later] != (Operation::Remove { id })
            }
    }
}

/// Loading stored keys leaves the default alone, and takes no key out of the keystore.
proof fn lemma_loading_keeps_default(state: KeyManagerView, keys: Seq<StoredKeyView>)
    ensures
        state.populated(keys).default == state.default,
        forall|id: u128|
            state.keystore.contains_key(id) ==> #[trigger] state.populated(
                keys,
            ).keystore.contains_key(id),
    decreases keys.len(),
{
    if keys.len() > 0 {
        let shorter = keys.drop_last();
        lemma_loading_keeps_default(state, shorter);
    }
}

/// No operation but making a key the default and removing a key changes the default. Neither
/// unmounting nor locking does.
pub proof fn other_operations_keep_the_default(state: KeyManagerView, operation: Operation)
    requires
        !(operation is SetDefault),
        !(operation is Remove),
    ensures
        state.after(operation).default == state.default,
{
    if let Operation::Populate { keys } = operation {
        lemma_loading_keeps_default(state, keys);
    } else if let Operation::Import { keys, backup_root_key, rewraps } = operation {
        importing_only_adds_keys(state, keys, backup_root_key, rewraps);
    }
}

/// No operation but removing a key takes one out of the keystore.
pub proof fn other_operations_keep_stored_keys(
    state: KeyManagerView,
    operation: Operation,
    id: u128,
)
    requires
        operation != (Operation::Remove { id }),
        state.keystore.contains_key(id),
    ensures
        state.after(operation).keystore.contains_key(id),
{
    if let Operation::Populate { keys } = operation {
        lemma_loading_keeps_default(state, keys);
    } else if let Operation::Import { keys, backup_root_key, rewraps } = operation {
        importing_only_adds_keys(state, keys, backup_root_key, rewraps);
        assert(state.after(operation).stored(id) == state.stored(id));
    }
}

/// Whatever operations come, the default stays a key of the keystore.
pub proof fn default_is_always_stored(state: KeyManagerView, operations: Seq<Operation>)
    requires
        state.default matches Some(id) ==> state.keystore.contains_key(id),
    ensures
        state.after_all(operations).default matches Some(id) ==> state.after_all(
            operations,
        ).keystore.contains_key(id),
    decreases operations.len(),
{
    if operations.len() > 0 {
        let operation = operations.last();
        let before = state.after_all(operations.drop_last());
        default_is_always_stored(state, operations.drop_last());
        if !(operation is SetDefault) && !(operation is Remove) {
            other_operations_keep_the_default(before, operation);
            if before.default is Some {
                other_operations_keep_stored_keys(before, operation, before.default->0);
            }
        }
    }
}

/// Starting without a default, the default is at any time the key that was last made the default,
/// unless it was removed since; where there is no such key, there is no default.
pub proof fn default_is_the_last_one_set(
    state: KeyManagerView,
    operations: Seq<Operation>,
    id: u128,
)
    requires
        state.default is None,
    ensures
        state.after_all(operations).default_key() == Ok::<u128, Error>(id) <==> exists|index: int|
            #[trigger] state.default_stems_from(operations, id, index),
        state.after_all(operations).default_key() is Err ==> state.after_all(
            operations,
        ).default_key() == Err::<u128, Error>(Error::NoDefaultKeySet),
    decreases operations.len(),
{
    if operations.len() > 0 {
        let shorter = operations.drop_last();
        let operation = operations.last();
        let last = operations.len() - 1;
        let before = state.after_all(shorter);
        default_is_the_last_one_set(state, shorter, id);
        default_is_always_stored(state, shorter);
        assert forall|index: int| 0 <= index < last implies #[trigger] operations.take(index)
            == shorter.take(index) by {
        }
        if !(operation is SetDefault) && !(operation is Remove) {
            other_operations_keep_the_default(before, operation);
        }
        if state.after_all(operations).default == Some(id) {
            if state.sets_default(operations, last) {
                assert(state.default_stems_from(operations, id, last));
            } else {
                let index = choose|index: int| #[trigger]
                    state.default_stems_from(shorter, id, index);
                assert forall|later: int| index < later < operations.len() implies {
                    &&& !state.sets_default(operations, later)
                    &&& #[trigger] operations[later] != (Operation::Remove { id })
                } by {
                    if later < last {
                        assert(shorter[later] == operations[later]);
                    }
                }
                assert(state.default_stems_from(operations, id, index));
            }
        }
        if exists|index: int| #[trigger] state.default_stems_from(operations, id, index) {
            let index = choose|index: int| #[trigger] state.default_stems_from(operations, id, index);
            if index < last {
                assert(state.default_stems_from(shorter, id, index));
            }
        }
    }
}

/// A new key manager has no default.
pub proof fn new_key_managers_have_no_default(keys: Seq<StoredKeyView>)
    ensures
        KeyManagerView::empty().populated(keys).default is None,
{
    lemma_loading_keeps_default(KeyManagerView::empty(), keys);
}

} // verus!
