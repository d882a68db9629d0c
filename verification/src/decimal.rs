//! Process ids as decimal text.
use crate::text::to_chars;
use vstd::prelude::*;

verus! {

/// The character for the digit `d`.
pub open spec fn digit_char(d: int) -> char {
    ((48 + d) as u8) as char
}

/// Whether `c` is a decimal digit.
pub open spec fn is_digit(c: char) -> bool {
    '0' <= c && c <= '9'
}

/// The decimal text of `n`, without sign or leading zeros.
pub open spec fn decimal_text(n: nat) -> Seq<char>
    decreases n,
{
    if n < 10 {
        seq![digit_char(n as int)]
    } else {
        decimal_text(n / 10).push(digit_char((n % 10) as int))
    }
}

/// The number that the digits `s` stand for.
pub open spec fn decimal_value(s: Seq<char>) -> nat
    decreases s.len(),
{
    if s.len() == 0 {
        0
    } else {
        (decimal_value(s.drop_last()) * 10 + (s.last() as int - 48)) as nat
    }
}

/// Whether `s` is decimal text as [`decimal_text`] writes it: digits only,
/// at least one, and no leading zero but for zero itself.
pub open spec fn is_canonical(s: Seq<char>) -> bool {
    &&& s.len() > 0
    &&& forall|i: int| 0 <= i < s.len() ==> is_digit(#[trigger] s[i])
    &&& s.len() == 1 || s[0] != '0'
}

/// The number that `s` stands for, where it is canonical decimal text of
/// a number no greater than `max`.
pub open spec fn parse_spec(s: Seq<char>, max: nat) -> Option<nat> {
    if is_canonical(s) && decimal_value(s) <= max {
        Some(decimal_value(s))
    } else {
        None
    }
}

/// The value of digits is no smaller than the value of fewer of them.
pub proof fn lemma_value_prefix(s: Seq<char>, n: int)
    requires
        0 <= n <= s.len(),
        forall|i: int| 0 <= i < s.len() ==> is_digit(#[trigger] s[i]),
    ensures
        decimal_value(s.take(n)) <= decimal_value(s),
    decreases s.len() - n,
{
    if n < s.len() {
        lemma_value_prefix(s, n + 1);
        let t = s.take(n + 1);
        assert(t.drop_last() =~= s.take(n));
        assert(is_digit(s[n]));
        assert(t.last() == s[n]);
    } else {
        assert(s.take(n) =~= s);
    }
}

/// The value of `c` where it is a decimal digit.
pub fn digit_value(c: char) -> (r: Option<u64>)
    ensures
        match r {
            Some(d) => is_digit(c) && d == c as int - 48 && d < 10,
            None => !is_digit(c),
        },
{
    let n: u32 = c as u32;
    if n < 48 || n > 57 {
        None
    } else {
        Some((n - 48) as u64)
    }
}

/// Reads canonical decimal text of a number that fits 64 bits.
pub fn parse_u64(text: &str) -> (r: Option<u64>)
    ensures
        match r {
            Some(v) => parse_spec(text@, u64::MAX as nat) == Some(v as nat),
            None => parse_spec(text@, u64::MAX as nat) is None,
        },
{
    let v = to_chars(text);
    if v.len() == 0 {
        return None;
    }
    if v.len() > 1 && v[0] == '0' {
        return None;
    }
    let mut acc: u64 = 0;
    let mut i: usize = 0;
    proof {
        assert(v@.take(0) =~= Seq::<char>::empty());
    }
    while i < v.len()
        invariant
            0 <= i <= v.len(),
            v@ == text@,
            v@.len() > 0,
            v@.len() == 1 || v@[0] != '0',
            forall|k: int| 0 <= k < i ==> is_digit(#[trigger] v@[k]),
            acc == decimal_value(v@.take(i as int)),
        decreases v.len() - i,
    {
        let c = v[i];
        let d: u64 = match digit_value(c) {
            Some(d) => d,
            None => {
                proof {
                    assert(!is_digit(v@[i as int]));
                }
                return None;
            },
        };
        proof {
            let t = v@.take(i as int + 1);
            assert(t.drop_last() =~= v@.take(i as int));
            assert(t.last() == c);
            assert(decimal_value(t) == acc * 10 + d);
        }
        if acc > (u64::MAX - d) / 10 {
            proof {
                // The digits read so far already exceed the limit.
                if parse_spec(v@, u64::MAX as nat) is Some {
                    lemma_value_prefix(v@, i as int + 1);
                }
            }
            return None;
        }
        acc = acc * 10 + d;
        i += 1;
    }
    proof {
        assert(v@.take(i as int) =~= v@);
    }
    Some(acc)
}

fn digit_of(d: u64) -> (c: char)
    requires
        d < 10,
    ensures
        c == digit_char(d as int),
        is_digit(c),
{
    ((48 + d) as u8) as char
}

/// Writes `n` as decimal text.
pub fn format_u64(n: u64) -> (r: String)
    ensures
        r@ == decimal_text(n as nat),
    decreases n,
{
    if n < 10 {
        let mut s = String::new();
        s.push(digit_of(n));
        proof {
            assert(s@ =~= seq![digit_char(n as int)]);
        }
        s
    } else {
        let mut s = format_u64(n / 10);
        s.push(digit_of(n % 10));
        s
    }
}

/// What is written can be read: the decimal text of a number is
/// canonical and stands for that number.
pub proof fn lemma_decimal_round_trip(n: nat)
    ensures
        is_canonical(decimal_text(n)),
        decimal_value(decimal_text(n)) == n,
        n > 0 ==> decimal_text(n)[0] != '0',
    decreases n,
{
    let s = decimal_text(n);
    if n < 10 {
        assert(s.drop_last() =~= Seq::<char>::empty());
        assert(decimal_value(s.drop_last()) == 0);
    } else {
        lemma_decimal_round_trip(n / 10);
        let front = decimal_text(n / 10);
        assert(s.drop_last() =~= front);
        assert(s[0] == front[0]);
        assert forall|i: int| 0 <= i < s.len() implies is_digit(#[trigger] s[i]) by {
            if i < front.len() {
                assert(s[i] == front[i]);
            }
        }
    }
}

/// Two different numbers have different decimal texts.
pub proof fn lemma_decimal_text_injective(a: nat, b: nat)
    requires
        decimal_text(a) == decimal_text(b),
    ensures
        a == b,
{
    lemma_decimal_round_trip(a);
    lemma_decimal_round_trip(b);
}

} // verus!
