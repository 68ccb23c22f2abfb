//! What holds of the order of keys.
use crate::key::{compare, key_le, key_lt, same_name, Key, KeyOrder};
use crate::key::{key_lt_total, parts_at};
use vstd::prelude::*;

verus! {

/// The order of keys is that of their bytes as numbers: of two keys with the same first
/// bytes, the one with the smaller byte after these comes first, whatever follows.
pub proof fn smaller_byte_comes_first(
    p: Seq<u8>,
    x: u8,
    y: u8,
    s: Seq<u8>,
    t: Seq<u8>,
)
    requires
        x < y,
    ensures
        key_lt(p + seq![x] + s, p + seq![y] + t),
        key_le(p + seq![x] + s, p + seq![y] + t),
        !key_lt(p + seq![y] + t, p + seq![x] + s),
        !key_le(p + seq![y] + t, p + seq![x] + s),
{
    let a = p + seq![x] + s;
    let b = p + seq![y] + t;
    let i = p.len() as int;
    assert(a[i] == x && b[i] == y);
    assert(parts_at(a, b, i));
    key_lt_total(a, b);
}

/// A key comes before every key that it is a proper beginning of.
pub proof fn beginning_comes_first(p: Seq<u8>, x: u8, s: Seq<u8>)
    ensures
        key_lt(p, p + seq![x] + s),
        key_le(p, p + seq![x] + s),
        !key_lt(p + seq![x] + s, p),
        !key_le(p + seq![x] + s, p),
{
    let b = p + seq![x] + s;
    assert(parts_at(p, b, p.len() as int));
    key_lt_total(p, b);
}

/// A key is not before itself, and is not after itself.
pub proof fn key_stands_with_itself(a: Seq<u8>)
    ensures
        !key_lt(a, a),
        key_le(a, a),
{
}

/// Every comparison of two keys goes by the first byte in which they differ, as a number;
/// where there is none, the shorter key comes first, and keys of the same bytes are equal.
pub proof fn every_comparison_goes_by_bytes()
    ensures
        forall|a: &[u8], b: &[u8], order: KeyOrder, i: int|
            #![trigger call_ensures(compare, (a, b), order), a@[i], b@[i]]
            call_ensures(compare, (a, b), order) && 0 <= i < a@.len() && i < b@.len() && a@.take(i)
                == b@.take(i) ==> {
                &&& a@[i] < b@[i] ==> order == KeyOrder::Less
                &&& a@[i] > b@[i] ==> order == KeyOrder::Greater
            },
        forall|a: &[u8], b: &[u8], order: KeyOrder| #[trigger]
            call_ensures(compare, (a, b), order) ==> {
                &&& a@.len() < b@.len() && b@.take(a@.len() as int) == a@ ==> order
                    == KeyOrder::Less
                &&& b@.len() < a@.len() && a@.take(b@.len() as int) == b@ ==> order
                    == KeyOrder::Greater
                &&& order == KeyOrder::Equal <==> a@ == b@
            },
{
    assert forall|a: &[u8], b: &[u8], order: KeyOrder, i: int|
        #![trigger call_ensures(compare, (a, b), order), a@[i], b@[i]]
        call_ensures(compare, (a, b), order) && 0 <= i < a@.len() && i < b@.len() && a@.take(i)
            == b@.take(i) implies {
        &&& a@[i] < b@[i] ==> order == KeyOrder::Less
        &&& a@[i] > b@[i] ==> order == KeyOrder::Greater
    } by {
        assert forall|j: int| 0 <= j < i implies a@[j] == b@[j] by {
            assert(a@.take(i)[j] == b@.take(i)[j]);
        }
        key_lt_total(a@, b@);
        if a@[i] < b@[i] {
            assert(parts_at(a@, b@, i));
        }
        if a@[i] > b@[i] {
            assert(parts_at(b@, a@, i));
        }
    }
    assert forall|a: &[u8], b: &[u8], order: KeyOrder| #[trigger]
        call_ensures(compare, (a, b), order) implies {
        &&& a@.len() < b@.len() && b@.take(a@.len() as int) == a@ ==> order == KeyOrder::Less
        &&& b@.len() < a@.len() && a@.take(b@.len() as int) == b@ ==> order == KeyOrder::Greater
        &&& order == KeyOrder::Equal <==> a@ == b@
    } by {
        key_lt_total(a@, b@);
        if a@.len() < b@.len() && b@.take(a@.len() as int) == a@ {
            assert forall|j: int| 0 <= j < a@.len() implies a@[j] == b@[j] by {
                assert(b@.take(a@.len() as int)[j] == b@[j]);
            }
            assert(parts_at(a@, b@, a@.len() as int));
        }
        if b@.len() < a@.len() && a@.take(b@.len() as int) == b@ {
            assert forall|j: int| 0 <= j < b@.len() implies b@[j] == a@[j] by {
                assert(a@.take(b@.len() as int)[j] == a@[j]);
            }
            assert(parts_at(b@, a@, b@.len() as int));
        }
    }
}

/// A key gives back the bytes that it was made of.
pub proof fn every_key_keeps_its_bytes()
    ensures
        forall|bytes: Vec<u8>, key: Key, encoded: &Vec<u8>|
            #![trigger
                call_ensures(Key::from_encoded, (bytes,), key),
                call_ensures(Key::encoded, (&key,), encoded),
            ]
            call_ensures(Key::from_encoded, (bytes,), key) && call_ensures(
                Key::encoded,
                (&key,),
                encoded,
            ) ==> encoded@ == bytes@ && key@ == bytes@,
{
}

/// Names are the same if and only if they hold the same characters.
pub proof fn every_name_is_told_apart()
    ensures
        forall|a: &str, b: &str, same: bool| #[trigger]
            call_ensures(same_name, (a, b), same) ==> (same <==> a@ == b@),
{
}

} // verus!
