use vstd::prelude::*;

verus! {

pub open spec fn is_digit(c: char) -> bool {
    '0' <= c && c <= '9'
}

pub open spec fn digit_value(c: char) -> int {
    (c as u32) as int - ('0' as u32) as int
}

pub open spec fn all_digits(d: Seq<char>) -> bool {
    forall|i: int| 0 <= i < d.len() ==> is_digit(#[trigger] d[i])
}

/// The number written by the decimal digits `d`, most significant first.
pub open spec fn digits_value(d: Seq<char>) -> int
    decreases d.len(),
{
    if d.len() == 0 {
        0
    } else {
        digits_value(d.drop_last()) * 10 + digit_value(d.last())
    }
}

/// A non-empty run of decimal digits whose value fits in a `u32`.
pub open spec fn unsigned_digits(d: Seq<char>) -> Option<u32> {
    if d.len() > 0 && all_digits(d) && digits_value(d) <= u32::MAX {
        Some(digits_value(d) as u32)
    } else {
        None
    }
}

/// The `u32` that the text `t` denotes: an optional `+` followed by decimal digits,
/// with nothing else around them.
pub open spec fn parse_u32_spec(t: Seq<char>) -> Option<u32> {
    if t.len() > 0 && t[0] == '+' {
        unsigned_digits(t.drop_first())
    } else {
        unsigned_digits(t)
    }
}

/// The character of the decimal digit `d`.
pub open spec fn digit_char(d: nat) -> char
    recommends
        d < 10,
{
    if d == 0 { '0' }
    else if d == 1 { '1' }
    else if d == 2 { '2' }
    else if d == 3 { '3' }
    else if d == 4 { '4' }
    else if d == 5 { '5' }
    else if d == 6 { '6' }
    else if d == 7 { '7' }
    else if d == 8 { '8' }
    else { '9' }
}

/// The decimal text of `n`, without leading zeros.
pub open spec fn decimal(n: nat) -> Seq<char>
    decreases n,
{
    if n < 10 {
        seq![digit_char(n)]
    } else {
        decimal(n / 10).push(digit_char(n % 10))
    }
}

/// The decimal text of the signed integer `n`.
pub open spec fn signed_decimal(n: int) -> Seq<char> {
    if n < 0 {
        seq!['-'] + decimal((-n) as nat)
    } else {
        decimal(n as nat)
    }
}

proof fn lemma_digits_push(d: Seq<char>, c: char)
    ensures
        digits_value(d.push(c)) == digits_value(d) * 10 + digit_value(c),
{
    assert(d.push(c).drop_last() =~= d);
}

proof fn lemma_digits_nonneg(d: Seq<char>)
    requires
        all_digits(d),
    ensures
        digits_value(d) >= 0,
    decreases d.len(),
{
    if d.len() > 0 {
        assert(all_digits(d.drop_last()));
        lemma_digits_nonneg(d.drop_last());
        assert(is_digit(d[d.len() - 1]));
    }
}

/// The number written by `s[lo..hi]`, as `parse_u32_spec` reads it.
pub fn parse_u32(s: &Vec<char>, lo: usize, hi: usize) -> (r: Option<u32>)
    requires
        lo <= hi <= s.len(),
    ensures
        r == parse_u32_spec(s@.subrange(lo as int, hi as int)),
{
    let ghost t = s@.subrange(lo as int, hi as int);
    let mut first = lo;
    if lo < hi && s[lo] == '+' {
        first = lo + 1;
        assert(t.drop_first() =~= s@.subrange(first as int, hi as int));
    }
    let ghost d = s@.subrange(first as int, hi as int);
    assert(parse_u32_spec(t) == unsigned_digits(d));
    if first == hi {
        assert(d.len() == 0);
        return None;
    }
    let mut val: u64 = 0;
    let mut big = false;
    let mut j = first;
    assert(s@.subrange(first as int, first as int) =~= Seq::<char>::empty());
    while j < hi
        invariant
            first <= j <= hi <= s.len(),
            d == s@.subrange(first as int, hi as int),
            parse_u32_spec(s@.subrange(lo as int, hi as int)) == unsigned_digits(d),
            all_digits(s@.subrange(first as int, j as int)),
            !big ==> val == digits_value(s@.subrange(first as int, j as int)),
            big ==> digits_value(s@.subrange(first as int, j as int)) > u32::MAX,
            val <= u32::MAX,
        decreases hi - j,
    {
        let c = s[j];
        if c < '0' || c > '9' {
            assert(d[j - first] == c);
            assert(!all_digits(d));
            assert(unsigned_digits(d).is_none());
            return None;
        }
        let ghost pre = s@.subrange(first as int, j as int);
        assert(s@.subrange(first as int, j + 1) =~= pre.push(c));
        proof {
            lemma_digits_push(pre, c);
            lemma_digits_nonneg(pre);
        }
        let dv = (c as u32 - '0' as u32) as u64;
        if !big {
            let next = val * 10 + dv;
            if next > u32::MAX as u64 {
                big = true;
            } else {
                val = next;
            }
        } else {
            assert(digits_value(pre) * 10 + digit_value(c) > u32::MAX) by (nonlinear_arith)
                requires
                    digits_value(pre) > u32::MAX,
                    digit_value(c) >= 0,
            ;
        }
        j = j + 1;
    }
    assert(s@.subrange(first as int, j as int) =~= d);
    if big {
        assert(unsigned_digits(d).is_none());
        None
    } else {
        assert(unsigned_digits(d) == Some(val as u32));
        Some(val as u32)
    }
}

fn digit_text(d: u32) -> (r: &'static str)
    requires
        d < 10,
    ensures
        r@ == seq![digit_char(d as nat)],
{
    let r = if d == 0 { "0" }
    else if d == 1 { "1" }
    else if d == 2 { "2" }
    else if d == 3 { "3" }
    else if d == 4 { "4" }
    else if d == 5 { "5" }
    else if d == 6 { "6" }
    else if d == 7 { "7" }
    else if d == 8 { "8" }
    else { "9" };
    proof {
        reveal_strlit("0");
        reveal_strlit("1");
        reveal_strlit("2");
        reveal_strlit("3");
        reveal_strlit("4");
        reveal_strlit("5");
        reveal_strlit("6");
        reveal_strlit("7");
        reveal_strlit("8");
        reveal_strlit("9");
    }
    assert(r@ =~= seq![digit_char(d as nat)]);
    r
}

/// Appends the decimal text of `n` to `out`.
pub fn push_decimal(out: &mut String, n: u32)
    ensures
        final(out)@ == old(out)@ + decimal(n as nat),
    decreases n,
{
    if n >= 10 {
        push_decimal(out, n / 10);
        out.append(digit_text(n % 10));
        assert(decimal(n as nat) == decimal((n / 10) as nat).push(digit_char((n % 10) as nat)));
        assert(final(out)@ =~= old(out)@ + decimal(n as nat));
    } else {
        out.append(digit_text(n));
    }
}

/// Appends the decimal text of the signed integer `n` to `out`.
pub fn push_signed_decimal(out: &mut String, n: i32)
    ensures
        final(out)@ == old(out)@ + signed_decimal(n as int),
{
    if n < 0 {
        out.append("-");
        proof {
            reveal_strlit("-");
        }
        let m = (-(n as i64)) as u32;
        push_decimal(out, m);
        assert(final(out)@ =~= old(out)@ + signed_decimal(n as int));
    } else {
        push_decimal(out, n as u32);
    }
}

} // verus!
