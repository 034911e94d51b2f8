//! Lower-case hexadecimal.

use vstd::prelude::*;

verus! {

/// The hexadecimal digit of a value below 16.
pub open spec fn hex_digit(d: int) -> char {
    if d < 10 {
        (d + 48) as char
    } else {
        (d + 87) as char
    }
}

/// The bytes in hexadecimal, two digits each.
pub open spec fn hex(bytes: Seq<u8>) -> Seq<char>
    decreases bytes.len(),
{
    if bytes.len() == 0 {
        Seq::empty()
    } else {
        hex(bytes.drop_last()).push(hex_digit(bytes.last() as int / 16)).push(
            hex_digit(bytes.last() as int % 16),
        )
    }
}

fn digit(d: u8) -> (r: char)
    requires
        d < 16,
    ensures
        r == hex_digit(d as int),
{
    if d < 10 {
        (d + 48u8) as char
    } else {
        (d + 87u8) as char
    }
}

/// The bytes in hexadecimal.
pub fn to_hex(bytes: &[u8]) -> (r: String)
    ensures
        r@ == hex(bytes@),
        r@.len() == 2 * bytes@.len(),
{
    let mut out = String::new();
    let mut i: usize = 0;
    while i < bytes.len()
        invariant
            i <= bytes@.len(),
            out@ == hex(bytes@.take(i as int)),
            out@.len() == 2 * i,
        decreases bytes@.len() - i,
    {
        let b: u8 = bytes[i];
        assert(bytes@.take(i + 1).drop_last() =~= bytes@.take(i as int));
        out.push(digit(b / 16));
        out.push(digit(b % 16));
        i = i + 1;
    }
    assert(bytes@.take(bytes@.len() as int) =~= bytes@);
    out
}

/// Hexadecimal text has two characters a byte, and none that sorts before the
/// digits.
pub proof fn lemma_hex_clean(bytes: Seq<u8>, c: char)
    requires
        c < '0',
    ensures
        !hex(bytes).contains(c),
        hex(bytes).len() == 2 * bytes.len(),
    decreases bytes.len(),
{
    if bytes.len() > 0 {
        lemma_hex_clean(bytes.drop_last(), c);
        let h = hex(bytes.drop_last());
        let s = hex(bytes);
        if s.contains(c) {
            let k = choose|k: int| 0 <= k < s.len() && s[k] == c;
            if k < h.len() {
                assert(h[k] == c);
            }
        }
    }
}

/// Different byte strings have different hexadecimal texts.
pub proof fn law_hex_injective(a: Seq<u8>, b: Seq<u8>)
    requires
        hex(a) == hex(b),
    ensures
        a == b,
    decreases a.len(),
{
    lemma_hex_clean(a, ' ');
    lemma_hex_clean(b, ' ');
    if a.len() > 0 {
        let x = hex(a);
        let y = hex(b);
        let n = x.len() as int;
        assert(hex(a.drop_last()) =~= x.take(n - 2));
        assert(hex(b.drop_last()) =~= y.take(n - 2));
        law_hex_injective(a.drop_last(), b.drop_last());
        let p = a.last();
        let q = b.last();
        assert(x[n - 1] == hex_digit(p as int % 16) && y[n - 1] == hex_digit(q as int % 16));
        assert(x[n - 2] == hex_digit(p as int / 16) && y[n - 2] == hex_digit(q as int / 16));
        assert(a =~= a.drop_last().push(p));
        assert(b =~= b.drop_last().push(q));
    } else {
        assert(a =~= b);
    }
}

/// Each byte gives two digits, the higher one first; the digits from ten on
/// are the small letters from `a` on.
pub proof fn law_two_digits_a_byte(bytes: Seq<u8>, b: u8, d: int)
    requires
        0 <= d < 16,
    ensures
        hex(seq![]).len() == 0,
        hex(bytes.push(b)) == hex(bytes) + seq![hex_digit(b as int / 16), hex_digit(b as int % 16)],
        d < 10 ==> hex_digit(d) as int == '0' as int + d,
        d >= 10 ==> hex_digit(d) as int == 'a' as int + (d - 10),
{
    assert(bytes.push(b).drop_last() =~= bytes);
    assert(hex(bytes.push(b)) =~= hex(bytes) + seq![
        hex_digit(b as int / 16),
        hex_digit(b as int % 16),
    ]);
}

} // verus!
