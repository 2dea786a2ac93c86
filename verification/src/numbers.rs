use vstd::prelude::*;

verus! {

// ---------------------------------------------------------------------------
// Decimal digits
// ---------------------------------------------------------------------------

pub open spec fn is_digit(c: char) -> bool {
    48 <= c as u32 <= 57
}

pub open spec fn digit_val(c: char) -> int {
    c as u32 - 48
}

pub open spec fn all_digits(s: Seq<char>) -> bool {
    forall|i: int| 0 <= i < s.len() ==> is_digit(s[i])
}

/// The value of a sequence of decimal digits, most significant first.
pub open spec fn digits_val(s: Seq<char>) -> int
    decreases s.len(),
{
    if s.len() == 0 {
        0
    } else {
        digits_val(s.drop_last()) * 10 + digit_val(s.last())
    }
}

pub fn char_is_digit(c: char) -> (r: bool)
    ensures
        r == is_digit(c),
{
    let u = c as u32;
    48 <= u && u <= 57
}

pub proof fn lemma_digits_val_nonneg(s: Seq<char>)
    requires
        all_digits(s),
    ensures
        digits_val(s) >= 0,
    decreases s.len(),
{
    if s.len() > 0 {
        assert(all_digits(s.drop_last())) by {
            assert(forall|i: int|
                0 <= i < s.len() - 1 ==> s.drop_last()[i] == s[i] && is_digit(s[i]));
        }
        lemma_digits_val_nonneg(s.drop_last());
    }
}

/// Appending digits never makes the value smaller.
pub proof fn lemma_digits_val_prefix_le(s: Seq<char>, i: int)
    requires
        all_digits(s),
        0 <= i <= s.len(),
    ensures
        digits_val(s.take(i)) <= digits_val(s),
    decreases s.len() - i,
{
    if i < s.len() {
        let t = s.take(i + 1);
        assert(all_digits(t)) by {
            assert(forall|k: int| 0 <= k < t.len() ==> t[k] == s[k] && is_digit(s[k]));
        }
        assert(t.drop_last() =~= s.take(i));
        assert(all_digits(s.take(i))) by {
            assert(forall|k: int|
                0 <= k < i ==> s.take(i)[k] == s[k] && is_digit(s[k]));
        }
        lemma_digits_val_nonneg(s.take(i));
        assert(digits_val(t) == digits_val(s.take(i)) * 10 + digit_val(t.last()));
        assert(digit_val(t.last()) >= 0);
        assert(digits_val(s.take(i)) * 10 >= digits_val(s.take(i)));
        lemma_digits_val_prefix_le(s, i + 1);
    } else {
        assert(s.take(i) =~= s);
    }
}

/// One or two digits are worth at most 99.
pub proof fn lemma_digits12_bounds(s: Seq<char>)
    requires
        1 <= s.len() <= 2,
        all_digits(s),
    ensures
        0 <= digits_val(s) <= 99,
{
    assert(digits_val(Seq::<char>::empty()) == 0);
    if s.len() == 2 {
        assert(s.drop_last() =~= seq![s[0]]);
        assert(seq![s[0]].drop_last() =~= Seq::<char>::empty());
        assert(seq![s[0]].last() == s[0]);
        assert(digits_val(seq![s[0]]) == digit_val(s[0]));
        assert(s.last() == s[1]);
        assert(digits_val(s) == digit_val(s[0]) * 10 + digit_val(s[1]));
    } else {
        assert(s.drop_last() =~= Seq::<char>::empty());
        assert(digits_val(s) == digit_val(s[0]));
    }
}

/// Parses the digits `v[a..b]` as a `u32`; `None` when the value does not
/// fit.
pub fn parse_u32(v: &Vec<char>, a: usize, b: usize) -> (r: Option<u32>)
    requires
        a <= b <= v.len(),
        forall|j: int| a <= j < b ==> is_digit(v@[j]),
    ensures
        match r {
            Some(n) => n == digits_val(v@.subrange(a as int, b as int)) && digits_val(
                v@.subrange(a as int, b as int),
            ) <= u32::MAX,
            None => digits_val(v@.subrange(a as int, b as int)) > u32::MAX,
        },
{
    let ghost s = v@.subrange(a as int, b as int);
    proof {
        assert(all_digits(s));
    }
    let mut val: u64 = 0;
    let mut i: usize = a;
    while i < b
        invariant
            a <= i <= b <= v.len(),
            s == v@.subrange(a as int, b as int),
            all_digits(s),
            forall|j: int| a <= j < b ==> is_digit(v@[j]),
            val == digits_val(s.take(i - a)),
            val <= u32::MAX,
        decreases b - i,
    {
        let d = (v[i] as u32) - 48;
        let nv: u64 = val * 10 + (d as u64);
        proof {
            assert(s.take(i - a + 1).drop_last() =~= s.take(i - a));
            assert(s.take(i - a + 1).last() == s[i - a]);
            assert(s[i - a] == v@[i as int]);
        }
        if nv > 0xFFFF_FFFF {
            proof {
                lemma_digits_val_prefix_le(s, i - a + 1);
            }
            return None;
        }
        val = nv;
        i = i + 1;
    }
    proof {
        assert(s.take(b - a) =~= s);
    }
    Some(val as u32)
}

// ---------------------------------------------------------------------------
// Decimal formatting
// ---------------------------------------------------------------------------

pub open spec fn digit_char(d: int) -> char {
    if d == 0 {
        '0'
    } else if d == 1 {
        '1'
    } else if d == 2 {
        '2'
    } else if d == 3 {
        '3'
    } else if d == 4 {
        '4'
    } else if d == 5 {
        '5'
    } else if d == 6 {
        '6'
    } else if d == 7 {
        '7'
    } else if d == 8 {
        '8'
    } else {
        '9'
    }
}

/// The decimal digits of the nonnegative integer `n`, without leading
/// zeros (a single `'0'` for zero).
pub open spec fn dec_digits(n: int) -> Seq<char>
    decreases n,
{
    if n < 10 {
        seq![digit_char(n)]
    } else {
        dec_digits(n / 10).push(digit_char(n % 10))
    }
}

/// `dec_digits` padded on the left with `'0'` to at least two characters,
/// as the `{:0>2}` format does.
pub open spec fn dec_digits_pad2(n: int) -> Seq<char> {
    if dec_digits(n).len() >= 2 {
        dec_digits(n)
    } else {
        seq!['0'] + dec_digits(n)
    }
}

fn digit_char_x(d: u32) -> (r: char)
    requires
        d < 10,
    ensures
        r == digit_char(d as int),
{
    if d == 0 {
        '0'
    } else if d == 1 {
        '1'
    } else if d == 2 {
        '2'
    } else if d == 3 {
        '3'
    } else if d == 4 {
        '4'
    } else if d == 5 {
        '5'
    } else if d == 6 {
        '6'
    } else if d == 7 {
        '7'
    } else if d == 8 {
        '8'
    } else {
        '9'
    }
}

/// Appends the decimal digits of `n` to `out`.
pub fn push_dec_u32(out: &mut Vec<char>, n: u32)
    ensures
        final(out)@ == old(out)@ + dec_digits(n as int),
    decreases n,
{
    if n < 10 {
        out.push(digit_char_x(n));
        proof {
            assert(old(out)@.push(digit_char(n as int)) =~= old(out)@ + dec_digits(n as int));
        }
    } else {
        push_dec_u32(out, n / 10);
        out.push(digit_char_x(n % 10));
        proof {
            assert((old(out)@ + dec_digits(n as int / 10)).push(digit_char(n as int % 10))
                =~= old(out)@ + dec_digits(n as int));
        }
    }
}

/// Appends the decimal digits of `n`, left padded with `'0'` to at least
/// two characters.
pub fn push_dec_pad2(out: &mut Vec<char>, n: u32)
    ensures
        final(out)@ == old(out)@ + dec_digits_pad2(n as int),
{
    if n < 10 {
        out.push('0');
        push_dec_u32(out, n);
        proof {
            assert(old(out)@.push('0') + dec_digits(n as int) =~= old(out)@ + dec_digits_pad2(
                n as int,
            ));
        }
    } else {
        push_dec_u32(out, n);
        proof {
            assert(dec_digits(n as int).len() >= 2) by {
                assert(dec_digits(n as int) == dec_digits(n as int / 10).push(
                    digit_char(n as int % 10),
                ));
            }
        }
    }
}

/// Formatting then parsing gives the value back.
pub proof fn lemma_digits_val_of_dec(n: int)
    requires
        n >= 0,
    ensures
        all_digits(dec_digits(n)),
        digits_val(dec_digits(n)) == n,
    decreases n,
{
    if n < 10 {
        assert(dec_digits(n) == seq![digit_char(n)]);
        assert(is_digit(digit_char(n)));
        assert(digits_val(dec_digits(n)) == digits_val(seq![digit_char(n)].drop_last()) * 10
            + digit_val(digit_char(n)));
        assert(seq![digit_char(n)].drop_last() =~= Seq::<char>::empty());
        assert(digit_val(digit_char(n)) == n);
    } else {
        lemma_digits_val_of_dec(n / 10);
        let s = dec_digits(n);
        assert(s == dec_digits(n / 10).push(digit_char(n % 10)));
        assert(s.drop_last() =~= dec_digits(n / 10));
        assert(s.last() == digit_char(n % 10));
        assert(digit_val(digit_char(n % 10)) == n % 10);
        assert(all_digits(s)) by {
            assert(forall|i: int|
                0 <= i < s.len() - 1 ==> s[i] == dec_digits(n / 10)[i] && is_digit(
                    dec_digits(n / 10)[i],
                ));
            assert(is_digit(s[s.len() - 1]));
        }
    }
}

/// Values below one hundred print as at most two digits.
pub proof fn lemma_dec_len_le2(n: int)
    requires
        0 <= n <= 99,
    ensures
        dec_digits(n).len() <= 2,
        n < 10 ==> dec_digits(n).len() == 1,
{
    if n >= 10 {
        assert(dec_digits(n) == dec_digits(n / 10).push(digit_char(n % 10)));
        assert(n / 10 < 10);
    }
}

/// A leading zero does not change the value.
pub proof fn lemma_digits_val_leading_zero(s: Seq<char>)
    ensures
        digits_val(seq!['0'] + s) == digits_val(s),
    decreases s.len(),
{
    if s.len() == 0 {
        assert(seq!['0'] + s =~= seq!['0']);
        assert(seq!['0'].drop_last() =~= Seq::<char>::empty());
        assert(digits_val(Seq::<char>::empty()) == 0);
        assert(digit_val('0') == 0);
    } else {
        assert((seq!['0'] + s).drop_last() =~= seq!['0'] + s.drop_last());
        assert((seq!['0'] + s).last() == s.last());
        lemma_digits_val_leading_zero(s.drop_last());
    }
}

/// For values up to 99, the two-digit padded writing holds exactly two
/// digits, and they read back to the value.
pub proof fn lemma_pad2_two_digits(n: int)
    requires
        0 <= n <= 99,
    ensures
        dec_digits_pad2(n).len() == 2,
        all_digits(dec_digits_pad2(n)),
        digits_val(dec_digits_pad2(n)) == n,
{
    lemma_digits_val_of_dec(n);
    lemma_dec_len_le2(n);
    if n < 10 {
        let p = seq!['0'] + dec_digits(n);
        assert(dec_digits_pad2(n) == p);
        assert(all_digits(p)) by {
            assert(p[0] == '0' && is_digit('0'));
            assert(forall|i: int|
                1 <= i < p.len() ==> p[i] == dec_digits(n)[i - 1] && is_digit(
                    dec_digits(n)[i - 1],
                ));
        }
        lemma_digits_val_leading_zero(dec_digits(n));
    } else {
        assert(dec_digits(n) == dec_digits(n / 10).push(digit_char(n % 10)));
        assert(dec_digits(n / 10).len() >= 1);
    }
}

// ---------------------------------------------------------------------------
// UTF-8 byte length
// ---------------------------------------------------------------------------

/// The number of bytes of the UTF-8 encoding of `c`.
pub open spec fn utf8_len(c: char) -> int {
    if (c as u32) < 0x80 {
        1
    } else if (c as u32) < 0x800 {
        2
    } else if (c as u32) < 0x10000 {
        3
    } else {
        4
    }
}

/// The number of bytes of the UTF-8 encoding of `s`.
pub open spec fn utf8_len_seq(s: Seq<char>) -> int
    decreases s.len(),
{
    if s.len() == 0 {
        0
    } else {
        utf8_len_seq(s.drop_last()) + utf8_len(s.last())
    }
}

pub proof fn lemma_utf8_len_prefix_le(s: Seq<char>, i: int)
    requires
        0 <= i <= s.len(),
    ensures
        utf8_len_seq(s.take(i)) <= utf8_len_seq(s),
    decreases s.len() - i,
{
    if i < s.len() {
        assert(s.take(i + 1).drop_last() =~= s.take(i));
        assert(utf8_len(s.take(i + 1).last()) >= 1);
        lemma_utf8_len_prefix_le(s, i + 1);
    } else {
        assert(s.take(i) =~= s);
    }
}

fn utf8_len_char(c: char) -> (r: usize)
    ensures
        r == utf8_len(c),
{
    let u = c as u32;
    if u < 0x80 {
        1
    } else if u < 0x800 {
        2
    } else if u < 0x10000 {
        3
    } else {
        4
    }
}

/// Is the UTF-8 byte length of `v` at most `limit`?
pub fn utf8_len_at_most(v: &Vec<char>, limit: usize) -> (r: bool)
    requires
        limit < 1000,
    ensures
        r == (utf8_len_seq(v@) <= limit),
{
    let mut sum: usize = 0;
    let mut i: usize = 0;
    while i < v.len()
        invariant
            i <= v.len(),
            limit < 1000,
            sum == utf8_len_seq(v@.take(i as int)),
            sum <= limit,
        decreases v.len() - i,
    {
        let l = utf8_len_char(v[i]);
        proof {
            assert(v@.take(i as int + 1).drop_last() =~= v@.take(i as int));
            assert(v@.take(i as int + 1).last() == v@[i as int]);
        }
        if sum + l > limit {
            proof {
                lemma_utf8_len_prefix_le(v@, i as int + 1);
            }
            return false;
        }
        sum = sum + l;
        i = i + 1;
    }
    proof {
        assert(v@.take(v@.len() as int) =~= v@);
    }
    true
}

} // verus!
