//! Byte strings: the few operations on `Vec<u8>` that the serializers share.

use vstd::prelude::*;
use vstd::string::*;

verus! {

/// Appends `src` to `out`.
pub fn append(out: &mut Vec<u8>, src: &[u8])
    ensures
        final(out)@ == old(out)@ + src@,
{
    let mut i: usize = 0;
    while i < src.len()
        invariant
            i <= src@.len(),
            out@ == old(out)@ + src@.subrange(0, i as int),
        decreases src@.len() - i,
    {
        out.push(src[i]);
        i += 1;
    }
    assert(src@.subrange(0, i as int) == src@);
}

/// Appends the UTF-8 encoding of `s` to `out`.
pub fn append_str(out: &mut Vec<u8>, s: &str)
    ensures
        final(out)@ == old(out)@ + s.spec_bytes(),
{
    append(out, s.as_bytes());
}

/// Whether two byte strings hold the same bytes.
pub fn same_bytes(a: &[u8], b: &[u8]) -> (r: bool)
    ensures
        r == (a@ == b@),
{
    if a.len() != b.len() {
        return false;
    }
    let mut i: usize = 0;
    while i < a.len()
        invariant
            a@.len() == b@.len(),
            i <= a@.len(),
            a@.subrange(0, i as int) == b@.subrange(0, i as int),
        decreases a@.len() - i,
    {
        if a[i] != b[i] {
            return false;
        }
        assert(a@.subrange(0, i + 1) == a@.subrange(0, i as int).push(a@[i as int]));
        assert(b@.subrange(0, i + 1) == b@.subrange(0, i as int).push(b@[i as int]));
        i += 1;
    }
    assert(a@.subrange(0, i as int) == a@);
    assert(b@.subrange(0, i as int) == b@);
    true
}

/// The decimal numeral of `n`, without leading zeros.
pub open spec fn decimal(n: nat) -> Seq<u8>
    decreases n,
{
    if n < 10 {
        seq![(48 + n) as u8]
    } else {
        decimal(n / 10).push((48 + n % 10) as u8)
    }
}

/// Appends the decimal numeral of `n` to `out`.
pub fn append_decimal(out: &mut Vec<u8>, n: u64)
    ensures
        final(out)@ == old(out)@ + decimal(n as nat),
    decreases n,
{
    if n < 10 {
        out.push(48u8 + (n as u8));
        assert(seq![(48 + n as nat) as u8] == Seq::<u8>::empty().push((48 + n) as u8));
    } else {
        append_decimal(out, n / 10);
        out.push(48u8 + ((n % 10) as u8));
    }
}

/// The UTF-8 encoding of `text` followed by one zero byte: the text as a
/// string of the C language.
pub fn terminated(text: &str) -> (r: Vec<u8>)
    ensures
        r@ == text.spec_bytes().push(0),
{
    let mut r = text.as_bytes_vec();
    r.push(0);
    r
}

} // verus!
