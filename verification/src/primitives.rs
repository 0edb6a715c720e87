//! Fixed-size byte strings and the small operations on them that the rest of
//! the crate shares.
use vstd::prelude::*;

verus! {

/// A 32-byte hash.
pub type B256 = [u8; 32];

/// A 20-byte account address.
pub type Address = [u8; 20];

/// A 48-byte compressed BLS public key.
pub type PubKey = [u8; 48];

/// A 96-byte compressed BLS signature.
pub type BlsSignature = [u8; 96];

/// The hash of zeros.
pub const ZERO_HASH: [u8; 32] = [
    0, 0, 0, 0, 0, 0, 0, 0, 0, 0, 0, 0, 0, 0, 0, 0,
    0, 0, 0, 0, 0, 0, 0, 0, 0, 0, 0, 0, 0, 0, 0, 0,
];

/// The code hash of an account without code.
pub const KECCAK_EMPTY: [u8; 32] = [
    0xc5, 0xd2, 0x46, 0x01, 0x86, 0xf7, 0x23, 0x3c, 0x92, 0x7e, 0x7d, 0xb2, 0xdc, 0xc7, 0x03, 0xc0,
    0xe5, 0x00, 0xb6, 0x53, 0xca, 0x82, 0x27, 0x3b, 0x7b, 0xfa, 0xd8, 0x04, 0x5d, 0x85, 0xa4, 0x70,
];

/// The address of zeros.
pub const ZERO_ADDRESS: [u8; 20] = [0, 0, 0, 0, 0, 0, 0, 0, 0, 0, 0, 0, 0, 0, 0, 0, 0, 0, 0, 0];

/// Byte strings of one length, compared byte by byte: the first difference decides.
pub open spec fn bytes_less(a: Seq<u8>, b: Seq<u8>) -> bool {
    exists|i: int| #[trigger] first_difference(a, b, i) && a[i] < b[i]
}

/// `i` is the first position at which `a` and `b` differ.
pub open spec fn first_difference(a: Seq<u8>, b: Seq<u8>, i: int) -> bool {
    &&& 0 <= i < a.len()
    &&& i < b.len()
    &&& a[i] != b[i]
    &&& forall|j: int| 0 <= j < i ==> a[j] == b[j]
}

/// Whether two byte strings hold the same bytes.
pub fn same_bytes(a: &[u8], b: &[u8]) -> (same: bool)
    ensures
        same == (a@ == b@),
{
    if a.len() != b.len() {
        return false;
    }
    let mut i: usize = 0;
    while i < a.len()
        invariant
            i <= a@.len(),
            a@.len() == b@.len(),
            forall|j: int| 0 <= j < i ==> a@[j] == b@[j],
        decreases a@.len() - i,
    {
        if a[i] != b[i] {
            return false;
        }
        i += 1;
    }
    assert(a@ =~= b@);
    true
}

/// Whether two fixed-size byte strings are equal.
pub fn same_key<const N: usize>(a: &[u8; N], b: &[u8; N]) -> (same: bool)
    ensures
        same == (*a == *b),
{
    let mut i: usize = 0;
    while i < N
        invariant
            i <= N,
            forall|j: int| 0 <= j < i ==> a@[j] == b@[j],
        decreases N - i,
    {
        if a[i] != b[i] {
            assert(a@[i as int] != b@[i as int]);
            return false;
        }
        i += 1;
    }
    assert(*a =~= *b);
    true
}

/// Whether `a` comes before `b` in byte order.
pub fn key_less<const N: usize>(a: &[u8; N], b: &[u8; N]) -> (less: bool)
    ensures
        less == bytes_less(a@, b@),
{
    let mut i: usize = 0;
    while i < N
        invariant
            i <= N,
            forall|j: int| 0 <= j < i ==> a@[j] == b@[j],
        decreases N - i,
    {
        if a[i] != b[i] {
            assert(first_difference(a@, b@, i as int));
            assert forall|k: int| first_difference(a@, b@, k) implies k == i by {}
            return a[i] < b[i];
        }
        i += 1;
    }
    false
}

/// Byte order is total on strings of one length.
pub proof fn bytes_less_total(a: Seq<u8>, b: Seq<u8>)
    requires
        a.len() == b.len(),
    ensures
        a == b || bytes_less(a, b) || bytes_less(b, a),
{
    if a != b {
        let d = least_difference(a, b, 0);
        assert(first_difference(a, b, d));
        assert(first_difference(b, a, d));
    }
}

proof fn least_difference(a: Seq<u8>, b: Seq<u8>, from: int) -> (d: int)
    requires
        a.len() == b.len(),
        a != b,
        0 <= from <= a.len(),
        forall|j: int| 0 <= j < from ==> a[j] == b[j],
    ensures
        first_difference(a, b, d),
    decreases a.len() - from,
{
    if from == a.len() {
        assert(a =~= b);
        from
    } else if a[from] != b[from] {
        from
    } else {
        least_difference(a, b, from + 1)
    }
}

/// Byte order is irreflexive and transitive.
pub proof fn bytes_less_strict(a: Seq<u8>, b: Seq<u8>, c: Seq<u8>)
    requires
        a.len() == b.len() == c.len(),
    ensures
        !bytes_less(a, a),
        bytes_less(a, b) && bytes_less(b, c) ==> bytes_less(a, c),
        bytes_less(a, b) ==> !bytes_less(b, a),
{
    if bytes_less(a, b) && bytes_less(b, c) {
        let i = choose|i: int| #[trigger] first_difference(a, b, i) && a[i] < b[i];
        let j = choose|j: int| #[trigger] first_difference(b, c, j) && b[j] < c[j];
        let k = if i < j {
            i
        } else {
            j
        };
        assert(first_difference(a, c, k));
    }
    if bytes_less(a, b) && bytes_less(b, a) {
        let i = choose|i: int| #[trigger] first_difference(a, b, i) && a[i] < b[i];
        let j = choose|j: int| #[trigger] first_difference(b, a, j) && b[j] < a[j];
        assert(i == j);
    }
}

/// The smaller of two numbers.
pub fn min_u64(a: u64, b: u64) -> (m: u64)
    ensures
        m == if a <= b {
            a
        } else {
            b
        },
{
    if a <= b {
        a
    } else {
        b
    }
}

/// The larger of two numbers.
pub fn max_u64(a: u64, b: u64) -> (m: u64)
    ensures
        m == if a >= b {
            a
        } else {
            b
        },
{
    if a >= b {
        a
    } else {
        b
    }
}

/// A product that stays at the largest `u64` where it would exceed it.
pub open spec fn saturating_product(a: int, b: int, top: int) -> int {
    if a * b > top {
        top
    } else {
        a * b
    }
}

/// `a * b`, or the largest `u64` where the product exceeds it.
pub fn saturating_mul_u64(a: u64, b: u64) -> (p: u64)
    ensures
        p == saturating_product(a as int, b as int, u64::MAX as int),
{
    match a.checked_mul(b) {
        Some(p) => p,
        None => u64::MAX,
    }
}

/// `a * b`, or the largest `usize` where the product exceeds it.
pub fn saturating_mul_usize(a: usize, b: usize) -> (p: usize)
    ensures
        p == saturating_product(a as int, b as int, usize::MAX as int),
{
    match a.checked_mul(b) {
        Some(p) => p,
        None => usize::MAX,
    }
}

/// A copy of a byte vector.
pub fn copy_bytes(v: &Vec<u8>) -> (c: Vec<u8>)
    ensures
        c@ == v@,
{
    let c = v.clone();
    assert(c@ =~= v@);
    c
}

/// A byte slice as a vector.
pub fn to_bytes(v: &[u8]) -> (c: Vec<u8>)
    ensures
        c@ == v@,
{
    let mut c: Vec<u8> = Vec::new();
    c.extend_from_slice(v);
    assert(c@ =~= v@);
    c
}

/// Byte strings are compared at the first place where they differ: there the smaller
/// has the smaller byte.
pub proof fn the_first_difference_decides(
    same: Seq<u8>,
    a: u8,
    b: u8,
    rest_a: Seq<u8>,
    rest_b: Seq<u8>,
)
    requires
        a < b,
    ensures
        bytes_less(same.push(a) + rest_a, same.push(b) + rest_b),
        !bytes_less(same.push(b) + rest_b, same.push(a) + rest_a),
{
    let x = same.push(a) + rest_a;
    let y = same.push(b) + rest_b;
    let at = same.len() as int;
    assert(x[at] == a && y[at] == b);
    assert(first_difference(x, y, at));
    if bytes_less(y, x) {
        let i = choose|i: int| #[trigger] first_difference(y, x, i) && y[i] < x[i];
        if i < at {
            assert(x[i] == same[i] && y[i] == same[i]);
        } else if i > at {
            assert(y[at] == x[at]);
        }
    }
}

/// A product that does not fit is the largest number.
pub proof fn products_stop_at_the_top(a: int, b: int, top: int)
    ensures
        a * b <= top ==> saturating_product(a, b, top) == a * b,
        a * b > top ==> saturating_product(a, b, top) == top,
{
}

} // verus!
