//! Decimal numerals: writing integers out and reading them back.

use vstd::prelude::*;

use crate::text;

verus! {

/// The decimal numeral of `n`, without leading zeros.
pub open spec fn decimal(n: nat) -> Seq<char>
    decreases n,
{
    if n < 10 {
        seq![digit_char(n as int)]
    } else {
        decimal(n / 10).push(digit_char((n % 10) as int))
    }
}

/// The decimal numeral of an integer, with a minus sign when negative.
pub open spec fn signed_decimal(n: int) -> Seq<char> {
    if n < 0 {
        seq!['-'] + decimal((-n) as nat)
    } else {
        decimal(n as nat)
    }
}

/// The character of a digit value.
pub open spec fn digit_char(d: int) -> char {
    (d + 48) as char
}

/// Whether every character is an ASCII digit.
pub open spec fn all_digits(s: Seq<char>) -> bool {
    forall|i: int| 0 <= i < s.len() ==> text::is_digit(#[trigger] s[i])
}

/// The value of a string of digits.
pub open spec fn digits_value(s: Seq<char>) -> nat
    decreases s.len(),
{
    if s.len() == 0 {
        0
    } else {
        digits_value(s.drop_last()) * 10 + ((s.last() as int - 48) as nat)
    }
}

/// Text read as an unsigned numeral no larger than `max`, one leading plus
/// sign allowed, as `str::parse` reads it.
pub open spec fn parsed_unsigned(s: Seq<char>, max: nat) -> Option<nat> {
    let body = if s.len() > 0 && s[0] == '+' {
        s.drop_first()
    } else {
        s
    };
    if body.len() > 0 && all_digits(body) && digits_value(body) <= max {
        Some(digits_value(body))
    } else {
        None
    }
}

/// Text read as a signed 64-bit numeral, one leading sign allowed, as
/// `str::parse` reads it.
pub open spec fn parsed_i64(s: Seq<char>) -> Option<int> {
    let negative = s.len() > 0 && s[0] == '-';
    let body = if s.len() > 0 && (s[0] == '+' || s[0] == '-') {
        s.drop_first()
    } else {
        s
    };
    if body.len() == 0 || !all_digits(body) {
        None
    } else if negative && digits_value(body) <= -(i64::MIN as int) {
        Some(-(digits_value(body) as int))
    } else if !negative && digits_value(body) <= i64::MAX {
        Some(digits_value(body) as int)
    } else {
        None
    }
}

fn push_decimal(out: &mut String, n: u64)
    ensures
        final(out)@ == old(out)@ + decimal(n as nat),
    decreases n,
{
    if n >= 10 {
        push_decimal(out, n / 10);
    }
    let d: u8 = (n % 10) as u8;
    out.push((48u8 + d) as char);
    assert(out@ =~= old(out)@ + decimal(n as nat));
}

/// The decimal numeral of `n`.
pub fn show_u64(n: u64) -> (r: String)
    ensures
        r@ == decimal(n as nat),
{
    let mut out = String::new();
    push_decimal(&mut out, n);
    assert(Seq::<char>::empty() + decimal(n as nat) == decimal(n as nat));
    out
}

/// The decimal numeral of `n`.
pub fn show_usize(n: usize) -> (r: String)
    ensures
        r@ == decimal(n as nat),
{
    show_u64(n as u64)
}

/// The decimal numeral of a signed integer.
pub fn show_i64(n: i64) -> (r: String)
    ensures
        r@ == signed_decimal(n as int),
{
    if n < 0 {
        let mut out = String::new();
        out.push('-');
        let magnitude: u64 = if n == i64::MIN {
            9223372036854775808u64
        } else {
            (-n) as u64
        };
        push_decimal(&mut out, magnitude);
        assert(out@ == seq!['-'] + decimal((-n) as nat));
        out
    } else {
        show_u64(n as u64)
    }
}

proof fn lemma_prefix_value(s: Seq<char>, i: int)
    requires
        0 <= i <= s.len(),
        all_digits(s),
    ensures
        digits_value(s.take(i)) <= digits_value(s),
    decreases s.len() - i,
{
    if i == s.len() {
        assert(s.take(i) == s);
    } else {
        lemma_prefix_value(s, i + 1);
        assert(s.take(i + 1).drop_last() == s.take(i));
    }
}

/// Reads the digits `from..` of `v`; `None` when there is none, when one is
/// no digit, or when the value exceeds `u64`.
fn read_digits(v: &Vec<char>, from: usize) -> (r: Option<u64>)
    requires
        from <= v@.len(),
    ensures
        ({
            let body = v@.skip(from as int);
            r == if body.len() > 0 && all_digits(body) && digits_value(body) <= u64::MAX {
                Some(digits_value(body) as u64)
            } else {
                None::<u64>
            }
        }),
{
    let ghost body = v@.skip(from as int);
    let mut i: usize = from;
    while i < v.len()
        invariant
            from <= i <= v@.len(),
            body == v@.skip(from as int),
            forall|k: int| 0 <= k < i - from ==> text::is_digit(#[trigger] body[k]),
        decreases v@.len() - i,
    {
        let c = v[i];
        assert(body[i - from] == c);
        if c < '0' || '9' < c {
            return None;
        }
        i = i + 1;
    }
    assert(all_digits(body));
    if from == v.len() {
        return None;
    }
    let mut value: u64 = 0;
    let mut j: usize = from;
    assert(body.take(0) == Seq::<char>::empty());
    while j < v.len()
        invariant
            from <= j <= v@.len(),
            body == v@.skip(from as int),
            all_digits(body),
            value == digits_value(body.take(j - from)),
        decreases v@.len() - j,
    {
        let c = v[j];
        assert(body[j - from] == c);
        let d: u64 = (c as u64) - 48u64;
        proof {
            assert(body.take(j - from + 1).drop_last() == body.take(j - from));
            assert(digits_value(body.take(j - from + 1)) == value * 10 + d);
            lemma_prefix_value(body, j - from + 1);
        }
        if value > (u64::MAX - d) / 10 {
            return None;
        }
        value = value * 10 + d;
        j = j + 1;
    }
    assert(body.take(body.len() as int) == body);
    Some(value)
}

/// Reads a string made of digits alone.
pub fn parse_digits(s: &str) -> (r: Option<u64>)
    ensures
        r == if s@.len() > 0 && all_digits(s@) && digits_value(s@) <= u64::MAX {
            Some(digits_value(s@) as u64)
        } else {
            None::<u64>
        },
{
    let v = text::chars_of(s);
    assert(v@.skip(0) == s@);
    read_digits(&v, 0)
}

/// Reads an unsigned numeral, one leading plus sign allowed.
pub fn parse_u64(s: &str) -> (r: Option<u64>)
    ensures
        match r {
            Some(n) => parsed_unsigned(s@, u64::MAX as nat) == Some(n as nat),
            None => parsed_unsigned(s@, u64::MAX as nat) is None,
        },
{
    let v = text::chars_of(s);
    assert(v@.skip(0) == s@);
    if v.len() > 0 && v[0] == '+' {
        assert(v@.skip(1) == s@.drop_first());
        read_digits(&v, 1)
    } else {
        read_digits(&v, 0)
    }
}

/// Reads a signed numeral, one leading sign allowed.
pub fn parse_i64(s: &str) -> (r: Option<i64>)
    ensures
        match r {
            Some(n) => parsed_i64(s@) == Some(n as int),
            None => parsed_i64(s@) is None,
        },
{
    let v = text::chars_of(s);
    assert(v@.skip(0) == s@);
    let negative: bool = v.len() > 0 && v[0] == '-';
    let signed: bool = v.len() > 0 && (v[0] == '+' || v[0] == '-');
    if signed {
        assert(v@.skip(1) == s@.drop_first());
    }
    let magnitude: Option<u64> = if signed {
        read_digits(&v, 1)
    } else {
        read_digits(&v, 0)
    };
    match magnitude {
        None => None,
        Some(m) => if negative {
            if m < 9223372036854775808u64 {
                Some(-(m as i64))
            } else if m == 9223372036854775808u64 {
                Some(i64::MIN)
            } else {
                None
            }
        } else if m <= 9223372036854775807u64 {
            Some(m as i64)
        } else {
            None
        },
    }
}

/// A numeral holds digits alone.
pub proof fn lemma_decimal_digits(n: nat)
    ensures
        decimal(n).len() > 0,
        all_digits(decimal(n)),
    decreases n,
{
    if n >= 10 {
        lemma_decimal_digits(n / 10);
    }
}

/// Reading a numeral gives back the number that was written.
pub proof fn law_decimal_round_trip(n: nat)
    ensures
        digits_value(decimal(n)) == n,
    decreases n,
{
    if n >= 10 {
        law_decimal_round_trip(n / 10);
        assert(decimal(n).drop_last() == decimal(n / 10));
    } else {
        assert(decimal(n).drop_last() == Seq::<char>::empty());
        assert(digits_value(Seq::<char>::empty()) == 0);
    }
}

/// Two numbers with the same numeral are equal.
pub proof fn law_decimal_injective(m: nat, n: nat)
    requires
        decimal(m) == decimal(n),
    ensures
        m == n,
{
    law_decimal_round_trip(m);
    law_decimal_round_trip(n);
}

/// A numeral is made of the digits 0 to 9, at least one, and begins with 0
/// only when it is that of zero.
pub proof fn law_numeral_is_digits(n: nat)
    ensures
        decimal(n).len() > 0,
        forall|i: int| 0 <= i < decimal(n).len() ==> '0' <= #[trigger] decimal(n)[i] <= '9',
        decimal(n)[0] == '0' <==> n == 0,
        n < 10 ==> decimal(n).len() == 1,
        n >= 10 ==> decimal(n).len() == decimal(n / 10).len() + 1,
    decreases n,
{
    if n >= 10 {
        law_numeral_is_digits(n / 10);
        let d = decimal(n / 10);
        assert(decimal(n)[0] == d[0]);
        assert forall|i: int| 0 <= i < decimal(n).len() implies '0' <= #[trigger] decimal(n)[i]
            <= '9' by {
            if i < d.len() {
                assert(decimal(n)[i] == d[i]);
            }
        }
    }
}

/// One more digit makes ten times the value and the digit.
pub proof fn law_digit_counts_tenfold(s: Seq<char>, c: char)
    requires
        '0' <= c <= '9',
    ensures
        digits_value(seq![]) == 0,
        digits_value(s.push(c)) == 10 * digits_value(s) + (c as int - '0' as int),
{
    assert(s.push(c).drop_last() =~= s);
}

/// Text is read as an unsigned number exactly when, one leading plus aside,
/// it is digits whose value is in range; it is then their value.
pub proof fn law_unsigned_reading(s: Seq<char>, max: nat)
    requires
        s.len() > 0,
        s[0] != '+',
    ensures
        parsed_unsigned(s, max) is Some <==> (forall|i: int|
            0 <= i < s.len() ==> '0' <= #[trigger] s[i] <= '9') && digits_value(s) <= max,
        parsed_unsigned(s, max) matches Some(n) ==> n == digits_value(s),
        parsed_unsigned(seq!['+'] + s, max) == parsed_unsigned(s, max),
        parsed_unsigned(seq![], max) is None,
        parsed_unsigned(seq!['+'], max) is None,
{
    assert((seq!['+'] + s).drop_first() =~= s);
    assert((seq!['+'] + s)[0] == '+');
    assert(seq!['+'].drop_first().len() == 0);
    assert(all_digits(s) <==> forall|i: int| 0 <= i < s.len() ==> '0' <= #[trigger] s[i] <= '9');
}

/// What is written comes back when read: an unsigned number in range, and a
/// signed one of either sign.
pub proof fn law_reading_undoes_writing(n: nat, m: int, max: nat)
    ensures
        parsed_unsigned(decimal(n), max) == if n <= max {
            Some(n)
        } else {
            None::<nat>
        },
        i64::MIN <= m <= i64::MAX ==> parsed_i64(signed_decimal(m)) == Some(m),
        m < i64::MIN || m > i64::MAX ==> parsed_i64(signed_decimal(m)) is None,
{
    law_numeral_is_digits(n);
    law_decimal_round_trip(n);
    assert(all_digits(decimal(n)));
    assert(decimal(n)[0] != '+');
    let a: nat = if m < 0 {
        (-m) as nat
    } else {
        m as nat
    };
    law_numeral_is_digits(a);
    law_decimal_round_trip(a);
    assert(all_digits(decimal(a)));
    assert(decimal(a)[0] != '+' && decimal(a)[0] != '-');
    assert((seq!['-'] + decimal(a)).drop_first() =~= decimal(a));
    assert((seq!['-'] + decimal(a))[0] == '-');
}

/// A negative number is written as the minus sign and the numeral of its
/// opposite.
pub proof fn law_sign_is_written_in_front(n: nat)
    ensures
        signed_decimal(n as int) == decimal(n),
        n > 0 ==> signed_decimal(-(n as int)) == seq!['-'] + decimal(n),
{
}

/// Text without digits behind its sign, or with anything else in it, is no
/// signed number; a plus sign changes nothing.
pub proof fn law_signed_reading(s: Seq<char>)
    requires
        s.len() > 0,
        s[0] != '+',
        s[0] != '-',
    ensures
        parsed_i64(s) is Some <==> (forall|i: int|
            0 <= i < s.len() ==> '0' <= #[trigger] s[i] <= '9') && digits_value(s) <= i64::MAX,
        parsed_i64(s) matches Some(n) ==> n == digits_value(s),
        parsed_i64(seq!['+'] + s) == parsed_i64(s),
        parsed_i64(seq!['-'] + s) matches Some(n) ==> n == -(digits_value(s) as int),
        parsed_i64(seq![]) is None,
{
    assert((seq!['+'] + s).drop_first() =~= s);
    assert((seq!['+'] + s)[0] == '+');
    assert((seq!['-'] + s).drop_first() =~= s);
    assert((seq!['-'] + s)[0] == '-');
    assert(all_digits(s) <==> forall|i: int| 0 <= i < s.len() ==> '0' <= #[trigger] s[i] <= '9');
}

/// Numbers are written as their numerals and read back from them: what is
/// written is read, and nothing else is read than what the digits say.
pub proof fn law_written_number_is_read(
    n: u64,
    m: i64,
    shown: String,
    shown_signed: String,
    s: &str,
    t: &str,
    read: Option<u64>,
    digits: Option<u64>,
    signed: Option<i64>,
)
    requires
        call_ensures(show_u64, (n,), shown),
        call_ensures(show_i64, (m,), shown_signed),
        s@ == shown@,
        t@ == shown_signed@,
        call_ensures(parse_u64, (s,), read),
        call_ensures(parse_digits, (s,), digits),
        call_ensures(parse_i64, (t,), signed),
    ensures
        read == Some(n),
        digits == Some(n),
        signed == Some(m),
{
    law_reading_undoes_writing(n as nat, m as int, u64::MAX as nat);
    law_numeral_is_digits(n as nat);
    law_decimal_round_trip(n as nat);
    assert(all_digits(decimal(n as nat)));
}

} // verus!
