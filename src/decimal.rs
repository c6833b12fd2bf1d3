use vstd::prelude::*;

verus! {

/// The largest magnitude an `i64` can hold (that of `i64::MIN`).
pub const I64_MIN_MAGNITUDE: u64 = 0x8000_0000_0000_0000;

pub open spec fn digit_char(d: int) -> char {
    seq!['0', '1', '2', '3', '4', '5', '6', '7', '8', '9'][d]
}

pub open spec fn is_digit(c: char) -> bool {
    '0' <= c && c <= '9'
}

pub open spec fn digit_value(c: char) -> int {
    c as int - '0' as int
}

/// The decimal digits of a natural number, most significant first, no
/// leading zeros.
pub open spec fn digits_of(n: nat) -> Seq<char>
    decreases n,
{
    if n < 10 {
        seq![digit_char(n as int)]
    } else {
        digits_of(n / 10).push(digit_char((n % 10) as int))
    }
}

/// The decimal text of an integer: a minus sign before negative ones.
pub open spec fn decimal_of(t: int) -> Seq<char> {
    if t < 0 {
        seq!['-'] + digits_of((-t) as nat)
    } else {
        digits_of(t as nat)
    }
}

pub open spec fn all_digits(s: Seq<char>) -> bool {
    forall|i: int| 0 <= i < s.len() ==> is_digit(#[trigger] s[i])
}

/// The number that a sequence of digits spells.
pub open spec fn digits_value(s: Seq<char>) -> int
    decreases s.len(),
{
    if s.len() == 0 {
        0
    } else {
        digits_value(s.drop_last()) * 10 + digit_value(s.last())
    }
}

pub open spec fn in_i64_range(v: int) -> bool {
    i64::MIN <= v && v <= i64::MAX
}

/// The integer a text spells: an optional minus sign and at least one
/// digit, with a value that fits an `i64`.
pub open spec fn parse_decimal(s: Seq<char>) -> Option<int> {
    let negative = s.len() > 0 && s[0] == '-';
    let body = if negative { s.drop_first() } else { s };
    let v = if negative { -digits_value(body) } else { digits_value(body) };
    if body.len() > 0 && all_digits(body) && in_i64_range(v) {
        Some(v)
    } else {
        None
    }
}

proof fn lemma_digit_char(d: int)
    requires
        0 <= d < 10,
    ensures
        is_digit(digit_char(d)),
        digit_value(digit_char(d)) == d,
        digit_char(d) != '-',
{
    let s = seq!['0', '1', '2', '3', '4', '5', '6', '7', '8', '9'];
    assert(s[0] == '0' && s[1] == '1' && s[2] == '2' && s[3] == '3' && s[4] == '4');
    assert(s[5] == '5' && s[6] == '6' && s[7] == '7' && s[8] == '8' && s[9] == '9');
}

/// The digits of a number spell it back.
pub proof fn lemma_digits_round_trip(n: nat)
    ensures
        digits_of(n).len() > 0,
        all_digits(digits_of(n)),
        digits_value(digits_of(n)) == n,
        digits_of(n)[0] != '-',
    decreases n,
{
    if n < 10 {
        lemma_digit_char(n as int);
        assert(digits_of(n).drop_last() =~= Seq::<char>::empty());
        assert(digits_value(Seq::<char>::empty()) == 0);
        assert(digits_value(digits_of(n)) == digit_value(digits_of(n).last()));
    } else {
        lemma_digits_round_trip(n / 10);
        lemma_digit_char((n % 10) as int);
        assert(digits_of(n).drop_last() =~= digits_of(n / 10));
        assert(digits_value(digits_of(n)) == (n / 10) * 10 + n % 10);
    }
}

/// The decimal text of an `i64` parses back to it.
pub proof fn lemma_decimal_round_trip(t: int)
    requires
        in_i64_range(t),
    ensures
        parse_decimal(decimal_of(t)) == Some(t),
{
    if t < 0 {
        lemma_digits_round_trip((-t) as nat);
        assert(decimal_of(t).drop_first() =~= digits_of((-t) as nat));
    } else {
        lemma_digits_round_trip(t as nat);
    }
}

fn digit_str(d: u64) -> (r: &'static str)
    requires
        d < 10,
    ensures
        r@ == seq![digit_char(d as int)],
{
    let ghost s = seq!['0', '1', '2', '3', '4', '5', '6', '7', '8', '9'];
    if d == 0 {
        proof { reveal_strlit("0"); }
        assert(s[0] == '0');
        "0"
    } else if d == 1 {
        proof { reveal_strlit("1"); }
        assert(s[1] == '1');
        "1"
    } else if d == 2 {
        proof { reveal_strlit("2"); }
        assert(s[2] == '2');
        "2"
    } else if d == 3 {
        proof { reveal_strlit("3"); }
        assert(s[3] == '3');
        "3"
    } else if d == 4 {
        proof { reveal_strlit("4"); }
        assert(s[4] == '4');
        "4"
    } else if d == 5 {
        proof { reveal_strlit("5"); }
        assert(s[5] == '5');
        "5"
    } else if d == 6 {
        proof { reveal_strlit("6"); }
        assert(s[6] == '6');
        "6"
    } else if d == 7 {
        proof { reveal_strlit("7"); }
        assert(s[7] == '7');
        "7"
    } else if d == 8 {
        proof { reveal_strlit("8"); }
        assert(s[8] == '8');
        "8"
    } else {
        proof { reveal_strlit("9"); }
        assert(s[9] == '9');
        "9"
    }
}

/// Appends the decimal digits of `n`.
pub fn append_digits(out: &mut String, n: u64)
    ensures
        final(out)@ == old(out)@ + digits_of(n as nat),
    decreases n,
{
    if n >= 10 {
        append_digits(out, n / 10);
    }
    out.append(digit_str(n % 10));
    assert(final(out)@ =~= old(out)@ + digits_of(n as nat));
}

/// Appends the decimal text of `t`.
pub fn append_decimal(out: &mut String, t: i64)
    ensures
        final(out)@ == old(out)@ + decimal_of(t as int),
{
    if t < 0 {
        proof { reveal_strlit("-"); }
        out.append("-");
        let magnitude: u64 = (0 - (t as i128)) as u64;
        append_digits(out, magnitude);
        assert(final(out)@ =~= old(out)@ + decimal_of(t as int));
    } else {
        append_digits(out, t as u64);
    }
}

proof fn lemma_digits_value_nonneg(b: Seq<char>)
    requires
        all_digits(b),
    ensures
        digits_value(b) >= 0,
    decreases b.len(),
{
    if b.len() > 0 {
        lemma_digits_value_nonneg(b.drop_last());
    }
}

/// Appending digits never makes the value smaller.
proof fn lemma_digits_value_prefix(b: Seq<char>, i: int)
    requires
        all_digits(b),
        0 <= i <= b.len(),
    ensures
        digits_value(b) >= digits_value(b.subrange(0, i)),
    decreases b.len(),
{
    if i == b.len() {
        assert(b.subrange(0, i) =~= b);
    } else {
        let d = b.drop_last();
        lemma_digits_value_prefix(d, i);
        lemma_digits_value_nonneg(d);
        assert(d.subrange(0, i) =~= b.subrange(0, i));
    }
}

/// Parses the integer spelled by the characters `lo..hi` of `s`.
pub fn parse_decimal_at(s: &str, lo: usize, hi: usize) -> (r: Option<i64>)
    requires
        lo <= hi <= s@.len(),
    ensures
        match r {
            Some(v) => parse_decimal(s@.subrange(lo as int, hi as int)) == Some(v as int),
            None => parse_decimal(s@.subrange(lo as int, hi as int)) is None,
        },
{
    let ghost text = s@.subrange(lo as int, hi as int);
    let negative = lo < hi && s.get_char(lo) == '-';
    let start: usize = if negative { lo + 1 } else { lo };
    assert(lo < hi ==> text[0] == s@[lo as int]);
    assert(negative == (text.len() > 0 && text[0] == '-'));
    let ghost body = if negative { text.drop_first() } else { text };
    assert(body =~= s@.subrange(start as int, hi as int));
    if start == hi {
        return None;
    }
    let limit: u64 = if negative { I64_MIN_MAGNITUDE } else { I64_MIN_MAGNITUDE - 1 };
    let mut acc: u64 = 0;
    let mut i: usize = start;
    assert(s@.subrange(start as int, start as int) =~= Seq::<char>::empty());
    while i < hi
        invariant
            start <= i <= hi,
            hi <= s@.len(),
            body == s@.subrange(start as int, hi as int),
            text == s@.subrange(lo as int, hi as int),
            negative == (text.len() > 0 && text[0] == '-'),
            body == if negative { text.drop_first() } else { text },
            acc as int == digits_value(s@.subrange(start as int, i as int)),
            all_digits(s@.subrange(start as int, i as int)),
            acc <= limit,
            limit == if negative { I64_MIN_MAGNITUDE } else { (I64_MIN_MAGNITUDE - 1) as u64 },
        decreases hi - i,
    {
        let c = s.get_char(i);
        assert(body[i - start] == c);
        if !('0' <= c && c <= '9') {
            assert(!all_digits(body));
            assert(parse_decimal(text) is None);
            return None;
        }
        let d: u64 = (c as u32 - '0' as u32) as u64;
        let ghost next = s@.subrange(start as int, i + 1);
        assert(next.drop_last() =~= s@.subrange(start as int, i as int));
        assert(digits_value(next) == acc * 10 + d);
        assert(all_digits(next)) by {
            assert forall|k: int| 0 <= k < next.len() implies is_digit(#[trigger] next[k]) by {
                if k < next.len() - 1 {
                    assert(next[k] == s@.subrange(start as int, i as int)[k]);
                }
            }
        }
        if acc > (limit - d) / 10 {
            assert(acc * 10 + d > limit) by (nonlinear_arith)
                requires
                    acc > (limit - d) / 10,
                    d <= limit,
            ;
            proof {
                if all_digits(body) {
                    assert(body.subrange(0, i + 1 - start) =~= next);
                    lemma_digits_value_prefix(body, i + 1 - start);
                    assert(digits_value(body) > limit);
                    assert(!in_i64_range(if negative { -digits_value(body) } else { digits_value(body) }));
                }
                assert(parse_decimal(text) is None);
            }
            return None;
        }
        assert(acc * 10 + d <= limit) by (nonlinear_arith)
            requires
                acc <= (limit - d) / 10,
                d <= limit,
        ;
        acc = acc * 10 + d;
        i = i + 1;
    }
    assert(s@.subrange(start as int, hi as int) =~= body);
    if negative {
        if acc == I64_MIN_MAGNITUDE {
            Some(i64::MIN)
        } else {
            Some(-(acc as i64))
        }
    } else {
        Some(acc as i64)
    }
}

} // verus!
