//! The insertion-ordered map that holds the transactions.

use linked_hash_map::LinkedHashMap;
use vstd::prelude::*;

use crate::tx::{MempoolTx, TxKeyHash, TxRecord};

verus! {

/// `linked_hash_map::LinkedHashMap`, a hash map that keeps its entries in insertion order. What
/// a value of it holds is called [`entries`].
#[verifier::external_type_specification]
#[verifier::external_body]
#[verifier::reject_recursive_types(K)]
#[verifier::reject_recursive_types(V)]
#[verifier::reject_recursive_types(S)]
pub struct ExLinkedHashMap<K, V, S>(LinkedHashMap<K, V, S>);

/// One entry of the map: a key and the transaction under it.
#[verifier::ext_equal]
pub struct Entry {
    pub key: Seq<u8>,
    pub tx: TxRecord,
}

/// The entries that `m` holds, the oldest first.
pub uninterp spec fn entries(m: LinkedHashMap<TxKeyHash, MempoolTx>) -> Seq<Entry>;

/// Whether some entry has the key `key`.
pub open spec fn has_key(s: Seq<Entry>, key: Seq<u8>) -> bool {
    exists|i: int| 0 <= i < s.len() && (#[trigger] s[i]).key == key
}

/// The transaction under `key`, where there is one.
pub open spec fn tx_under(s: Seq<Entry>, key: Seq<u8>) -> TxRecord
    recommends
        has_key(s, key),
{
    s[choose|i: int| 0 <= i < s.len() && (#[trigger] s[i]).key == key].tx
}

/// The entries whose key is not `key`, in their order.
pub open spec fn without_key(s: Seq<Entry>, key: Seq<u8>) -> Seq<Entry> {
    s.filter(|e: Entry| e.key != key)
}

/// No two entries share a key.
pub open spec fn distinct_keys(s: Seq<Entry>) -> bool {
    forall|i: int, j: int| 0 <= i < j < s.len() ==> (#[trigger] s[i]).key != (#[trigger] s[j]).key
}

/// No two entries have the key `key`.
pub open spec fn key_once(s: Seq<Entry>, key: Seq<u8>) -> bool {
    forall|i: int, j: int|
        0 <= i < j < s.len() ==> (#[trigger] s[i]).key != key || (#[trigger] s[j]).key != key
}

/// Where no entry has the key, leaving it out changes nothing.
pub proof fn lemma_without_absent_key(s: Seq<Entry>, key: Seq<u8>)
    requires
        !has_key(s, key),
    ensures
        without_key(s, key) == s,
    decreases s.len(),
{
    reveal(Seq::filter);
    if s.len() > 0 {
        assert(s.last() == s[s.len() - 1]);
        assert(!has_key(s.drop_last(), key)) by {
            assert forall|i: int| 0 <= i < s.drop_last().len() implies (
            #[trigger] s.drop_last()[i]).key != key by {
                assert(s[i].key != key);
            }
        }
        lemma_without_absent_key(s.drop_last(), key);
    }
}

/// What is appended adds its key.
pub(crate) proof fn lemma_has_key_of_push(s: Seq<Entry>, e: Entry, key: Seq<u8>)
    ensures
        has_key(s.push(e), key) <==> has_key(s, key) || e.key == key,
{
    let t = s.push(e);
    if has_key(s, key) {
        let i = choose|i: int| 0 <= i < s.len() && (#[trigger] s[i]).key == key;
        assert(t[i].key == key);
    }
    if e.key == key {
        assert(t[s.len() as int].key == key);
    }
    if has_key(t, key) {
        let i = choose|i: int| 0 <= i < t.len() && (#[trigger] t[i]).key == key;
        if i < s.len() {
            assert(s[i].key == key);
        }
    }
}

proof fn lemma_len_without_key(s: Seq<Entry>, key: Seq<u8>)
    requires
        key_once(s, key),
        has_key(s, key),
    ensures
        without_key(s, key).len() == s.len() - 1,
    decreases s.len(),
{
    reveal(Seq::filter);
    let t = s.drop_last();
    assert(t.push(s.last()) == s);
    lemma_has_key_of_push(t, s.last(), key);
    assert(key_once(t, key)) by {
        assert forall|i: int, j: int| 0 <= i < j < t.len() implies (#[trigger] t[i]).key != key || (
        #[trigger] t[j]).key != key by {
            assert(s[i].key != key || s[j].key != key);
        }
    }
    if s.last().key == key {
        assert(!has_key(t, key)) by {
            if has_key(t, key) {
                let i = choose|i: int| 0 <= i < t.len() && (#[trigger] t[i]).key == key;
                assert(s[i].key != key || s[s.len() - 1].key != key);
            }
        }
        lemma_without_absent_key(t, key);
    } else {
        lemma_len_without_key(t, key);
    }
}

/// The key that is left out is gone; that takes one entry, where there is one with the key.
pub proof fn lemma_without_key(s: Seq<Entry>, key: Seq<u8>)
    ensures
        !has_key(without_key(s, key), key),
        !has_key(s, key) ==> without_key(s, key) == s,
        has_key(s, key) && key_once(s, key) ==> without_key(s, key).len() == s.len() - 1,
{
    lemma_left_out_is_gone(s, key);
    if !has_key(s, key) {
        lemma_without_absent_key(s, key);
    } else if key_once(s, key) {
        lemma_len_without_key(s, key);
    }
}

proof fn lemma_left_out_is_gone(s: Seq<Entry>, key: Seq<u8>)
    ensures
        !has_key(without_key(s, key), key),
    decreases s.len(),
{
    reveal(Seq::filter);
    if s.len() > 0 {
        lemma_left_out_is_gone(s.drop_last(), key);
        if s.last().key != key {
            lemma_has_key_of_push(without_key(s.drop_last(), key), s.last(), key);
        }
    }
}

/// `LinkedHashMap::new`: a map without entries.
#[verifier::external_body]
pub(crate) fn map_new() -> (m: LinkedHashMap<TxKeyHash, MempoolTx>)
    ensures
        entries(m) == Seq::<Entry>::empty(),
{
    LinkedHashMap::new()
}

/// `LinkedHashMap::len`: the number of entries.
#[verifier::external_body]
pub(crate) fn map_len(m: &LinkedHashMap<TxKeyHash, MempoolTx>) -> (len: usize)
    ensures
        len == entries(*m).len(),
{
    m.len()
}

/// `LinkedHashMap::is_empty`: whether there are no entries.
#[verifier::external_body]
pub(crate) fn map_is_empty(m: &LinkedHashMap<TxKeyHash, MempoolTx>) -> (empty: bool)
    ensures
        empty == (entries(*m).len() == 0),
{
    m.is_empty()
}

/// `LinkedHashMap::contains_key`, with the key as a slice of any length: whether an entry has
/// exactly these bytes as its key. The keys are arrays of 32 bytes, so no other length is found.
#[verifier::external_body]
pub(crate) fn map_contains_key(m: &LinkedHashMap<TxKeyHash, MempoolTx>, key: &[u8]) -> (found: bool)
    ensures
        found == has_key(entries(*m), key@),
        key@.len() != 32 ==> !found,
{
    m.contains_key(key)
}

/// `LinkedHashMap::get`, with the key as a slice of any length: the transaction under the key,
/// or `None` where no entry has it. No two entries of the map share a key, so it is the only one
/// under the key. The keys are arrays of 32 bytes, so no other length is found.
#[verifier::external_body]
pub(crate) fn map_get<'a>(m: &'a LinkedHashMap<TxKeyHash, MempoolTx>, key: &[u8]) -> (found: Option<
    &'a MempoolTx,
>)
    ensures
        match found {
            Some(tx) => {
                &&& has_key(entries(*m), key@)
                &&& key_once(entries(*m), key@)
                &&& tx@ == tx_under(entries(*m), key@)
            },
            None => !has_key(entries(*m), key@),
        },
        key@.len() != 32 ==> found is None,
{
    m.get(key)
}

/// `LinkedHashMap::insert`, its result dropped: the new entry is the last one. An entry that had
/// the key before is gone from its place; the others stay as they were.
#[verifier::external_body]
pub(crate) fn map_insert(m: &mut LinkedHashMap<TxKeyHash, MempoolTx>, key: TxKeyHash, tx: MempoolTx)
    ensures
        entries(*final(m)) == without_key(entries(*old(m)), key@).push(
            Entry { key: key@, tx: tx@ },
        ),
{
    m.insert(key, tx);
}

/// `LinkedHashMap::remove`, its result dropped: the entry with the key is gone, where there was
/// one; the others keep their order.
#[verifier::external_body]
pub(crate) fn map_remove(m: &mut LinkedHashMap<TxKeyHash, MempoolTx>, key: &TxKeyHash)
    ensures
        entries(*final(m)) == without_key(entries(*old(m)), key@),
{
    m.remove(key);
}

/// `LinkedHashMap::clear`: no entry is left.
#[verifier::external_body]
pub(crate) fn map_clear(m: &mut LinkedHashMap<TxKeyHash, MempoolTx>)
    ensures
        entries(*final(m)) == Seq::<Entry>::empty(),
{
    m.clear();
}

/// `LinkedHashMap::front`: the oldest entry, or `None` where there is no entry.
#[verifier::external_body]
pub(crate) fn map_front<'a>(m: &'a LinkedHashMap<TxKeyHash, MempoolTx>) -> (front: Option<
    (&'a TxKeyHash, &'a MempoolTx),
>)
    ensures
        match front {
            Some((key, tx)) => {
                &&& entries(*m).len() > 0
                &&& key@ == entries(*m)[0].key
                &&& tx@ == entries(*m)[0].tx
            },
            None => entries(*m).len() == 0,
        },
{
    m.front()
}

/// `LinkedHashMap::iter`, collected: every entry, in the order of insertion.
#[verifier::external_body]
pub(crate) fn map_iter<'a>(m: &'a LinkedHashMap<TxKeyHash, MempoolTx>) -> (items: Vec<
    (&'a TxKeyHash, &'a MempoolTx),
>)
    ensures
        items@.len() == entries(*m).len(),
        forall|i: int|
            0 <= i < items@.len() ==> {
                &&& (#[trigger] items@[i]).0@ == entries(*m)[i].key
                &&& items@[i].1@ == entries(*m)[i].tx
            },
{
    m.iter().collect()
}

} // verus!
