//! Lower-case hexadecimal rendering of bytes.
use vstd::prelude::*;
use crate::text::push_char;

verus! {

/// The lower-case hexadecimal digit of a value below sixteen.
pub open spec fn spec_hex_digit(v: int) -> char {
    if v < 10 {
        (v + 48) as char
    } else {
        (v + 87) as char
    }
}

/// The two hexadecimal digits of every byte, high nibble first, in order.
pub open spec fn spec_hex(data: Seq<u8>) -> Seq<char>
    decreases data.len(),
{
    if data.len() == 0 {
        Seq::empty()
    } else {
        spec_hex(data.drop_last()).push(spec_hex_digit(data.last() as int / 16)).push(
            spec_hex_digit(data.last() as int % 16),
        )
    }
}

/// The hexadecimal digit of `v` (`'0'..='9'`, `'a'..='f'`).
pub fn hex_digit(v: u8) -> (c: char)
    requires
        v < 16,
    ensures
        c == spec_hex_digit(v as int),
{
    if v < 10 {
        (v + 48) as char
    } else {
        (v + 87) as char
    }
}

/// Renders bytes as lower-case hexadecimal, two digits per byte.
pub fn hex(data: &[u8]) -> (s: String)
    ensures
        s@ == spec_hex(data@),
{
    let mut s = String::new();
    let n = data.len();
    for i in 0..n
        invariant
            n == data@.len(),
            s@ == spec_hex(data@.take(i as int)),
    {
        let b = data[i];
        assert(b >> 4 == b / 16 && b & 0x0f == b % 16) by (bit_vector);
        push_char(&mut s, hex_digit(b >> 4));
        push_char(&mut s, hex_digit(b & 0x0f));
        assert(data@.take(i + 1).drop_last() == data@.take(i as int));
    }
    assert(data@.take(n as int) == data@);
    s
}


/// Every byte becomes two digits.
pub proof fn lemma_hex_len(data: Seq<u8>)
    ensures
        spec_hex(data).len() == 2 * data.len(),
    decreases data.len(),
{
    if data.len() > 0 {
        lemma_hex_len(data.drop_last());
    }
}

/// Distinct byte strings have distinct hexadecimal renderings.
pub proof fn lemma_hex_injective(a: Seq<u8>, b: Seq<u8>)
    requires
        spec_hex(a) == spec_hex(b),
    ensures
        a == b,
    decreases a.len(),
{
    lemma_hex_len(a);
    lemma_hex_len(b);
    if a.len() > 0 {
        let ha = spec_hex(a);
        let hb = spec_hex(b);
        let n = ha.len();
        assert(ha[n - 1] == hb[n - 1] && ha[n - 2] == hb[n - 2]);
        assert(spec_hex(a.drop_last()) =~= ha.take(n - 2));
        assert(spec_hex(b.drop_last()) =~= hb.take(n - 2));
        lemma_hex_injective(a.drop_last(), b.drop_last());
        let x = a.last() as int;
        let y = b.last() as int;
        assert(x / 16 == y / 16 && x % 16 == y % 16);
        assert(a =~= a.drop_last().push(a.last()));
        assert(b =~= b.drop_last().push(b.last()));
    } else {
        assert(a =~= b);
    }
}

} // verus!
