//! Keys and the byte order in which an engine keeps them.
use vstd::prelude::*;

verus! {

/// The position `i` at which `a` and `b` part, `a` coming first: the bytes before
/// it are the same in both, and there `a` has ended or holds the smaller byte.
pub open spec fn parts_at(a: Seq<u8>, b: Seq<u8>, i: int) -> bool {
    &&& 0 <= i < b.len()
    &&& i <= a.len()
    &&& forall|j: int| 0 <= j < i ==> a[j] == b[j]
    &&& (i == a.len() || a[i] < b[i])
}

/// Whether the key `a` comes strictly before the key `b` in byte order.
pub open spec fn key_lt(a: Seq<u8>, b: Seq<u8>) -> bool {
    exists|i: int| parts_at(a, b, i)
}

/// Whether the key `a` comes before the key `b` or is the same key.
pub open spec fn key_le(a: Seq<u8>, b: Seq<u8>) -> bool {
    a == b || key_lt(a, b)
}

/// No key comes before itself.
pub proof fn key_lt_irreflexive(a: Seq<u8>)
    ensures
        !key_lt(a, a),
{
}

/// The order of keys is transitive.
pub proof fn key_lt_transitive(a: Seq<u8>, b: Seq<u8>, c: Seq<u8>)
    requires
        key_lt(a, b),
        key_lt(b, c),
    ensures
        key_lt(a, c),
{
    let i = choose|i: int| parts_at(a, b, i);
    let j = choose|j: int| parts_at(b, c, j);
    assert(parts_at(a, c, if i < j { i } else { j }));
}

/// Of two keys that are not the same, exactly one comes before the other.
pub proof fn key_lt_total(a: Seq<u8>, b: Seq<u8>)
    ensures
        a == b || key_lt(a, b) || key_lt(b, a),
        !(key_lt(a, b) && key_lt(b, a)),
        a == b ==> !key_lt(a, b),
{
    if key_lt(a, b) && key_lt(b, a) {
        key_lt_transitive(a, b, a);
        key_lt_irreflexive(a);
    }
    if a == b {
        key_lt_irreflexive(a);
    }
    parting_point(a, b, 0);
}

/// From a common prefix of length `from`, one of the three relations follows.
proof fn parting_point(a: Seq<u8>, b: Seq<u8>, from: int)
    requires
        0 <= from <= a.len(),
        from <= b.len(),
        forall|j: int| 0 <= j < from ==> a[j] == b[j],
    ensures
        a == b || key_lt(a, b) || key_lt(b, a),
    decreases a.len() - from,
{
    if from == a.len() && from == b.len() {
        assert(a =~= b);
    } else if from == a.len() {
        assert(parts_at(a, b, from));
    } else if from == b.len() {
        assert(parts_at(b, a, from));
    } else if a[from] < b[from] {
        assert(parts_at(a, b, from));
    } else if b[from] < a[from] {
        assert(parts_at(b, a, from));
    } else {
        parting_point(a, b, from + 1);
    }
}

/// How one key stands to another.
#[derive(Debug, PartialEq, Eq, Clone, Copy, Structural)]
pub enum KeyOrder {
    Less,
    Equal,
    Greater,
}

/// How the key `a` stands to the key `b`.
pub open spec fn key_order(a: Seq<u8>, b: Seq<u8>) -> KeyOrder {
    if a == b {
        KeyOrder::Equal
    } else if key_lt(a, b) {
        KeyOrder::Less
    } else {
        KeyOrder::Greater
    }
}

/// Compares two keys byte by byte.
pub fn compare(a: &[u8], b: &[u8]) -> (order: KeyOrder)
    ensures
        order == key_order(a@, b@),
        order is Greater <==> key_lt(b@, a@),
{
    let mut i: usize = 0;
    proof {
        key_lt_total(a@, b@);
    }
    while i < a.len() && i < b.len()
        invariant
            i <= a@.len(),
            i <= b@.len(),
            forall|j: int| 0 <= j < i ==> a@[j] == b@[j],
            a@ == b@ || key_lt(a@, b@) || key_lt(b@, a@),
            !(key_lt(a@, b@) && key_lt(b@, a@)),
            a@ == b@ ==> !key_lt(a@, b@),
        decreases a@.len() - i,
    {
        if a[i] < b[i] {
            assert(parts_at(a@, b@, i as int));
            return KeyOrder::Less;
        }
        if b[i] < a[i] {
            assert(parts_at(b@, a@, i as int));
            return KeyOrder::Greater;
        }
        i += 1;
    }
    if i < b.len() {
        assert(parts_at(a@, b@, i as int));
        KeyOrder::Less
    } else if i < a.len() {
        assert(parts_at(b@, a@, i as int));
        KeyOrder::Greater
    } else {
        assert(a@ =~= b@);
        KeyOrder::Equal
    }
}

/// Whether two names hold the same characters.
pub fn same_name(a: &str, b: &str) -> (same: bool)
    ensures
        same == (a@ == b@),
{
    proof {
        vstd::utf8::encode_utf8_decode_utf8(a@);
        vstd::utf8::encode_utf8_decode_utf8(b@);
    }
    match compare(a.as_bytes(), b.as_bytes()) {
        KeyOrder::Equal => true,
        _ => false,
    }
}

/// A key in the encoded form in which an engine stores and orders it.
#[derive(Debug)]
pub struct Key {
    encoded: Vec<u8>,
}

impl View for Key {
    type V = Seq<u8>;

    closed spec fn view(&self) -> Seq<u8> {
        self.encoded@
    }
}

impl Key {
    /// Takes bytes that are already in encoded form.
    pub fn from_encoded(encoded: Vec<u8>) -> (key: Key)
        ensures
            key@ == encoded@,
    {
        Key { encoded }
    }

    /// The encoded form of the key.
    pub fn encoded(&self) -> (encoded: &Vec<u8>)
        ensures
            encoded@ == self@,
    {
        &self.encoded
    }
}

/// A value stored under a key.
pub type Value = Vec<u8>;

} // verus!
