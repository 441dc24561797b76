//! The mathematical model of the store and of the effect each command has on
//! it. Every executable contract in the crate is stated over these functions.

use vstd::prelude::*;

use crate::request::{RequestModel, RequestType};

verus! {

/// The model of the store: a finite map from keys to values, both character
/// sequences.
pub type StoreModel = Map<Seq<char>, Seq<char>>;

/// Removes the listed keys from the map, in order; keys that are absent leave
/// the map unchanged.
pub open spec fn remove_keys(m: StoreModel, keys: Seq<Seq<char>>) -> StoreModel
    decreases keys.len(),
{
    if keys.len() == 0 {
        m
    } else {
        remove_keys(m.remove(keys.first()), keys.drop_first())
    }
}

/// How many of the listed keys are present at the moment each is removed:
/// the count a delete reports. A key listed twice is counted once.
pub open spec fn removed_count(m: StoreModel, keys: Seq<Seq<char>>) -> nat
    decreases keys.len(),
{
    if keys.len() == 0 {
        0nat
    } else {
        (if m.contains_key(keys.first()) {
            1nat
        } else {
            0nat
        }) + removed_count(m.remove(keys.first()), keys.drop_first())
    }
}

/// The effect of one command on the store. `Set` overwrites its key, `Del`
/// removes its keys; every other command, and any mutating command whose
/// fields are missing, leaves the store unchanged.
pub open spec fn apply_request(m: StoreModel, r: RequestModel) -> StoreModel {
    match r.request_type {
        RequestType::SetCmd => if r.arity_ok() {
            m.insert(r.key0(), r.val())
        } else {
            m
        },
        RequestType::Del => if r.key is Some {
            remove_keys(m, r.keys())
        } else {
            m
        },
        _ => m,
    }
}

/// The effect of a whole command sequence, applied first to last.
pub open spec fn apply_ops(m: StoreModel, ops: Seq<RequestModel>) -> StoreModel
    decreases ops.len(),
{
    if ops.len() == 0 {
        m
    } else {
        apply_request(apply_ops(m, ops.drop_last()), ops.last())
    }
}

/// What a key holds after the listed keys were removed: a listed key is gone,
/// every other key is untouched.
pub proof fn lemma_remove_keys(m: StoreModel, keys: Seq<Seq<char>>, k: Seq<char>)
    ensures
        keys.contains(k) ==> !remove_keys(m, keys).contains_key(k),
        !keys.contains(k) ==> remove_keys(m, keys).contains_key(k) == m.contains_key(k),
        !keys.contains(k) && m.contains_key(k) ==> remove_keys(m, keys)[k] == m[k],
    decreases keys.len(),
{
    if keys.len() > 0 {
        lemma_remove_keys(m.remove(keys.first()), keys.drop_first(), k);
        assert(keys.contains(k) <==> (keys.first() == k || keys.drop_first().contains(k))) by {
            if keys.contains(k) {
                let i = choose|i: int| 0 <= i < keys.len() && keys[i] == k;
                if i > 0 {
                    assert(keys.drop_first()[i - 1] == k);
                }
            }
            if keys.drop_first().contains(k) {
                let i = choose|i: int| 0 <= i < keys.drop_first().len() && keys.drop_first()[i] == k;
                assert(keys[i + 1] == k);
            }
        }
    }
}

} // verus!
