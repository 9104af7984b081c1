//! The lexicographic order of strings by their UTF-8 bytes, which is the order
//! in which the registry lists categories and names.

use vstd::prelude::*;
use vstd::string::*;
use vstd::utf8::*;

verus! {

/// `-1`, `0` or `1` as `a` comes before, equals or comes after `b` when the
/// two are compared byte by byte, a proper prefix coming first.
pub open spec fn byte_order(a: Seq<u8>, b: Seq<u8>) -> int
    decreases a.len(),
{
    if a.len() == 0 {
        if b.len() == 0 {
            0
        } else {
            -1
        }
    } else if b.len() == 0 {
        1
    } else if a[0] < b[0] {
        -1
    } else if a[0] > b[0] {
        1
    } else {
        byte_order(a.drop_first(), b.drop_first())
    }
}

/// The order of two strings: that of their UTF-8 encodings.
pub open spec fn text_order(a: Seq<char>, b: Seq<char>) -> int {
    byte_order(encode_utf8(a), encode_utf8(b))
}

/// `byte_order` is `0` exactly on equal sequences, and swapping its arguments
/// negates it.
pub proof fn lemma_byte_order_basics(a: Seq<u8>, b: Seq<u8>)
    ensures
        -1 <= byte_order(a, b) <= 1,
        byte_order(a, b) == 0 <==> a == b,
        byte_order(b, a) == -byte_order(a, b),
    decreases a.len(),
{
    if a.len() > 0 && b.len() > 0 && a[0] == b[0] {
        lemma_byte_order_basics(a.drop_first(), b.drop_first());
        if a.drop_first() == b.drop_first() {
            assert(a =~= seq![a[0]] + a.drop_first());
            assert(b =~= seq![b[0]] + b.drop_first());
        }
    } else if a.len() == 0 && b.len() == 0 {
        assert(a =~= b);
    }
}

/// `byte_order` is transitive, and strict as soon as one step is.
pub proof fn lemma_byte_order_transitive(a: Seq<u8>, b: Seq<u8>, c: Seq<u8>)
    requires
        byte_order(a, b) <= 0,
        byte_order(b, c) <= 0,
    ensures
        byte_order(a, c) <= 0,
        byte_order(a, b) < 0 || byte_order(b, c) < 0 ==> byte_order(a, c) < 0,
    decreases a.len(),
{
    if a.len() > 0 && b.len() > 0 && c.len() > 0 && a[0] == b[0] && b[0] == c[0] {
        lemma_byte_order_transitive(a.drop_first(), b.drop_first(), c.drop_first());
    }
}

/// `text_order` is `0` exactly on equal strings, swapping its arguments negates
/// it.
pub proof fn lemma_text_order_total(a: Seq<char>, b: Seq<char>)
    ensures
        -1 <= text_order(a, b) <= 1,
        text_order(a, b) == 0 <==> a == b,
        text_order(b, a) == -text_order(a, b),
{
    lemma_byte_order_basics(encode_utf8(a), encode_utf8(b));
    encode_utf8_decode_utf8(a);
    encode_utf8_decode_utf8(b);
}

/// Compares two strings by their UTF-8 bytes, as `str`'s own ordering does.
pub fn order_of(a: &str, b: &str) -> (r: i8)
    ensures
        r == text_order(a@, b@),
{
    let x = a.as_bytes();
    let y = b.as_bytes();
    let n = x.len();
    let m = y.len();
    let mut i: usize = 0;
    assert(x@.skip(0) =~= x@);
    assert(y@.skip(0) =~= y@);
    while i < n && i < m
        invariant
            i <= n,
            i <= m,
            n == x@.len(),
            m == y@.len(),
            x@ == encode_utf8(a@),
            y@ == encode_utf8(b@),
            byte_order(x@, y@) == byte_order(x@.skip(i as int), y@.skip(i as int)),
        decreases n - i,
    {
        if x[i] < y[i] {
            return -1;
        }
        if x[i] > y[i] {
            return 1;
        }
        assert(x@.skip(i as int).drop_first() =~= x@.skip(i as int + 1));
        assert(y@.skip(i as int).drop_first() =~= y@.skip(i as int + 1));
        i = i + 1;
    }
    if i < m {
        -1
    } else if i < n {
        1
    } else {
        0
    }
}

} // verus!
