use vstd::prelude::*;
use indexmap::IndexMap;
use crate::items::{Item, ItemView};
use crate::receipts::{Receipt, ReceiptView};
use crate::time::Timestamp;
use crate::screens::transactions::item::{Item as Line, LineView};

verus! {

#[verifier::external_type_specification]
#[verifier::external_body]
#[verifier::reject_recursive_types(K)]
#[verifier::reject_recursive_types(V)]
#[verifier::reject_recursive_types(S)]
pub struct ExIndexMap<K, V, S>(IndexMap<K, V, S>);

/// Some pair of `s` has the key `k`.
pub open spec fn has_key<K, V>(s: Seq<(K, V)>, k: K) -> bool {
    exists|i: int| 0 <= i < s.len() && #[trigger] s[i].0 == k
}

/// No key occurs twice in `s`.
pub open spec fn keys_distinct<K, V>(s: Seq<(K, V)>) -> bool {
    forall|i: int, j: int| 0 <= i < s.len() && 0 <= j < s.len() && #[trigger] s[i].0 == #[trigger] s[j].0 ==> i == j
}

/// The position of the key `k` in `s`, where it occurs.
pub open spec fn key_index<K, V>(s: Seq<(K, V)>, k: K) -> int {
    choose|i: int| 0 <= i < s.len() && #[trigger] s[i].0 == k
}

/// What an ordered map holds after `k` is given the value `v`: the pair keeps
/// its place where the key is present, and is appended otherwise.
pub open spec fn map_put<K, V>(s: Seq<(K, V)>, k: K, v: V) -> Seq<(K, V)> {
    if has_key(s, k) {
        s.update(key_index(s, k), (k, v))
    } else {
        s.push((k, v))
    }
}

/// Giving a key a value keeps the keys distinct.
pub proof fn lemma_map_put_keys_distinct<K, V>(s: Seq<(K, V)>, k: K, v: V)
    requires
        keys_distinct(s),
    ensures
        keys_distinct(map_put(s, k, v)),
{
    let r = map_put(s, k, v);
    if has_key(s, k) {
        let i = key_index(s, k);
        assert forall|a: int, b: int| 0 <= a < r.len() && 0 <= b < r.len() && #[trigger] r[a].0 == #[trigger] r[b].0 implies a == b by {
            assert(r[a].0 == s[a].0);
            assert(r[b].0 == s[b].0);
        }
    } else {
        assert forall|a: int, b: int| 0 <= a < r.len() && 0 <= b < r.len() && #[trigger] r[a].0 == #[trigger] r[b].0 implies a == b by {
            if a < s.len() && b < s.len() {
                assert(r[a].0 == s[a].0);
                assert(r[b].0 == s[b].0);
            } else if a < s.len() {
                assert(r[a] == s[a]);
            } else if b < s.len() {
                assert(r[b] == s[b]);
            }
        }
    }
}

/// Looking a key up after giving a key a value: the key given is present
/// with the new value; every other key keeps its presence and value.
pub proof fn lemma_map_put_lookup<K, V>(s: Seq<(K, V)>, k: K, v: V, k2: K)
    requires
        keys_distinct(s),
    ensures
        has_key(map_put(s, k, v), k2) == (k2 == k || has_key(s, k2)),
        has_key(map_put(s, k, v), k2) ==> map_put(s, k, v)[key_index(map_put(s, k, v), k2)].1 == (if k2 == k {
            v
        } else {
            s[key_index(s, k2)].1
        }),
{
    let r = map_put(s, k, v);
    lemma_map_put_keys_distinct(s, k, v);
    if has_key(s, k) {
        let i = key_index(s, k);
        assert(s[i].0 == k);
        assert(r[i] == (k, v));
        assert(r[i].0 == k);
        if has_key(s, k2) {
            let j = key_index(s, k2);
            assert(s[j].0 == k2);
            assert(r[j].0 == k2);
        }
        if has_key(r, k2) {
            let j = key_index(r, k2);
            assert(r[j].0 == k2);
            if j == i {
                assert(k2 == k);
            } else {
                assert(r[j] == s[j]);
                assert(s[j].0 == k2);
                let j2 = key_index(s, k2);
                assert(s[j2].0 == k2);
                assert(s[j2].0 == s[j].0);
                if k2 == k {
                    assert(s[j].0 == s[i].0);
                }
            }
        }
    } else {
        let n = s.len() as int;
        assert(r[n] == (k, v));
        assert(r[n].0 == k);
        if has_key(s, k2) {
            let j = key_index(s, k2);
            assert(s[j].0 == k2);
            assert(r[j] == s[j]);
        }
        if has_key(r, k2) {
            let j = key_index(r, k2);
            assert(r[j].0 == k2);
            if j == n {
                assert(k2 == k);
            } else {
                assert(r[j] == s[j]);
                assert(s[j].0 == k2);
                assert(k2 != k);
                let j2 = key_index(s, k2);
                assert(s[j2].0 == k2);
                assert(s[j2].0 == s[j].0);
            }
        }
    }
}

/// The pairs a receipt's map holds, in the map's order.
pub uninterp spec fn receipt_entries(m: IndexMap<Item, i32>) -> Seq<(ItemView, i32)>;

/// `IndexMap::new`: an empty map.
#[verifier::external_body]
pub(crate) fn lines_new() -> (m: IndexMap<Item, i32>)
    ensures
        receipt_entries(m) == Seq::<(ItemView, i32)>::empty(),
{
    IndexMap::new()
}

/// `IndexMap::len`: the number of pairs in the map.
#[verifier::external_body]
pub(crate) fn lines_len(m: &IndexMap<Item, i32>) -> (n: usize)
    ensures
        n == receipt_entries(*m).len(),
{
    m.len()
}

/// `IndexMap::get`: the value of the key equal to `k` (keys compare with
/// the item's derived equality, field by field), if there is one.
#[verifier::external_body]
pub(crate) fn lines_get(m: &IndexMap<Item, i32>, k: &Item) -> (r: Option<i32>)
    ensures
        r is Some <==> has_key(receipt_entries(*m), k@),
        r matches Some(v) ==> receipt_entries(*m).contains((k@, v)),
{
    m.get(k).copied()
}

/// `IndexMap::insert`: an equal key keeps its place and takes the new value;
/// a new key is appended last.
#[verifier::external_body]
pub(crate) fn lines_insert(m: &mut IndexMap<Item, i32>, k: Item, v: i32)
    ensures
        has_key(receipt_entries(*old(m)), k@) ==> exists|i: int|
            0 <= i < receipt_entries(*old(m)).len() && receipt_entries(*old(m))[i].0 == k@
                && receipt_entries(*final(m)) == receipt_entries(*old(m)).update(i, (k@, v)),
        !has_key(receipt_entries(*old(m)), k@) ==> receipt_entries(*final(m))
            == receipt_entries(*old(m)).push((k@, v)),
{
    m.insert(k, v);
}

/// `IndexMap::get_index`: the pair at position `i`.
#[verifier::external_body]
pub(crate) fn lines_at(m: &IndexMap<Item, i32>, i: usize) -> (pair: (&Item, i32))
    requires
        i < receipt_entries(*m).len(),
    ensures
        (pair.0@, pair.1) == receipt_entries(*m)[i as int],
{
    let (k, v) = m.get_index(i).unwrap();
    (k, *v)
}

/// The receipts a map of recent receipts holds, keyed by time, in the map's
/// order.
pub uninterp spec fn recents_entries(m: IndexMap<Timestamp, Receipt>) -> Seq<(Timestamp, ReceiptView)>;

/// `IndexMap::new`: an empty map.
#[verifier::external_body]
pub(crate) fn recents_new() -> (m: IndexMap<Timestamp, Receipt>)
    ensures
        recents_entries(m) == Seq::<(Timestamp, ReceiptView)>::empty(),
{
    IndexMap::new()
}

/// `IndexMap::len`: the number of receipts in the map.
#[verifier::external_body]
pub(crate) fn recents_len(m: &IndexMap<Timestamp, Receipt>) -> (n: usize)
    ensures
        n == recents_entries(*m).len(),
{
    m.len()
}

/// `IndexMap::insert`: an equal key (equal seconds and nanoseconds) keeps
/// its place and takes the new receipt; a new key is appended last.
#[verifier::external_body]
pub(crate) fn recents_insert(m: &mut IndexMap<Timestamp, Receipt>, k: Timestamp, v: Receipt)
    ensures
        has_key(recents_entries(*old(m)), k) ==> exists|i: int|
            0 <= i < recents_entries(*old(m)).len() && recents_entries(*old(m))[i].0 == k
                && recents_entries(*final(m)) == recents_entries(*old(m)).update(i, (k, v@)),
        !has_key(recents_entries(*old(m)), k) ==> recents_entries(*final(m))
            == recents_entries(*old(m)).push((k, v@)),
{
    m.insert(k, v);
}

/// `IndexMap::get_index`: the time and receipt at position `i`.
#[verifier::external_body]
pub(crate) fn recents_at(m: &IndexMap<Timestamp, Receipt>, i: usize) -> (pair: (Timestamp, &Receipt))
    requires
        i < recents_entries(*m).len(),
    ensures
        (pair.0, pair.1@) == recents_entries(*m)[i as int],
{
    let (k, v) = m.get_index(i).unwrap();
    (*k, v)
}

/// `IndexMap::get_index_of`: the position of the receipt with time `k`.
#[verifier::external_body]
pub(crate) fn recents_index_of(m: &IndexMap<Timestamp, Receipt>, k: &Timestamp) -> (r: Option<usize>)
    ensures
        r is Some <==> has_key(recents_entries(*m), *k),
        r matches Some(i) ==> i < recents_entries(*m).len() && recents_entries(*m)[i as int].0 == *k,
{
    m.get_index_of(k)
}

/// The lines an older receipt's map holds, keyed by name, in the map's order.
pub uninterp spec fn reciept_entries(m: IndexMap<String, Line>) -> Seq<(Seq<char>, LineView)>;

/// `IndexMap::new`: an empty map.
#[verifier::external_body]
pub(crate) fn reciept_new() -> (m: IndexMap<String, Line>)
    ensures
        reciept_entries(m) == Seq::<(Seq<char>, LineView)>::empty(),
{
    IndexMap::new()
}

/// `IndexMap::len`: the number of lines in the map.
#[verifier::external_body]
pub(crate) fn reciept_len(m: &IndexMap<String, Line>) -> (n: usize)
    ensures
        n == reciept_entries(*m).len(),
{
    m.len()
}

/// `IndexMap::get`: the line under the name equal to `k` (names compare by
/// their characters), if there is one.
#[verifier::external_body]
pub(crate) fn reciept_get<'a>(m: &'a IndexMap<String, Line>, k: &String) -> (r: Option<&'a Line>)
    ensures
        r is Some <==> has_key(reciept_entries(*m), k@),
        r matches Some(l) ==> reciept_entries(*m).contains((k@, l@)),
{
    m.get(k)
}

/// `IndexMap::insert`: an equal name keeps its place and takes the new line;
/// a new name is appended last.
#[verifier::external_body]
pub(crate) fn reciept_insert(m: &mut IndexMap<String, Line>, k: String, v: Line)
    ensures
        has_key(reciept_entries(*old(m)), k@) ==> exists|i: int|
            0 <= i < reciept_entries(*old(m)).len() && reciept_entries(*old(m))[i].0 == k@
                && reciept_entries(*final(m)) == reciept_entries(*old(m)).update(i, (k@, v@)),
        !has_key(reciept_entries(*old(m)), k@) ==> reciept_entries(*final(m))
            == reciept_entries(*old(m)).push((k@, v@)),
{
    m.insert(k, v);
}

} // verus!
