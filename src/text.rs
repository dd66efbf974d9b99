use vstd::prelude::*;
use vstd::string::*;

verus! {

pub open spec fn is_digit(c: char) -> bool {
    '0' <= c && c <= '9'
}

pub open spec fn all_digits(s: Seq<char>) -> bool {
    forall|i: int| 0 <= i < s.len() ==> is_digit(s[i])
}

pub open spec fn digit_value(c: char) -> nat {
    ((c as u32) - ('0' as u32)) as nat
}

/// The number that a string of decimal digits denotes.
pub open spec fn decimal_value(s: Seq<char>) -> nat
    decreases s.len(),
{
    if s.len() == 0 {
        0
    } else {
        decimal_value(s.drop_last()) * 10 + digit_value(s.last())
    }
}

pub open spec fn digit_char(d: nat) -> char {
    if d == 0 { '0' }
    else if d == 1 { '1' }
    else if d == 2 { '2' }
    else if d == 3 { '3' }
    else if d == 4 { '4' }
    else if d == 5 { '5' }
    else if d == 6 { '6' }
    else if d == 7 { '7' }
    else if d == 8 { '8' }
    else { '9' }
}

/// The decimal representation of `n`, without leading zeros.
pub open spec fn decimal_digits(n: nat) -> Seq<char>
    decreases n,
{
    if n < 10 {
        seq![digit_char(n)]
    } else {
        decimal_digits(n / 10).push(digit_char(n % 10))
    }
}

proof fn lemma_value_monotone(s: Seq<char>, j: int, k: int)
    requires
        0 <= j <= k <= s.len(),
    ensures
        decimal_value(s.subrange(0, j)) <= decimal_value(s.subrange(0, k)),
    decreases k - j,
{
    if j < k {
        lemma_value_monotone(s, j, k - 1);
        assert(s.subrange(0, k).drop_last() =~= s.subrange(0, k - 1));
    }
}

/// Reads a non-empty string of decimal digits that fits in 64 bits.
pub fn parse_decimal(s: &Vec<char>) -> (r: Option<u64>)
    ensures
        r is Some <==> s@.len() > 0 && all_digits(s@) && decimal_value(s@) <= u64::MAX,
        r is Some ==> r->Some_0 == decimal_value(s@),
{
    if s.len() == 0 {
        return None;
    }
    let mut acc: u64 = 0;
    let mut i: usize = 0;
    while i < s.len()
        invariant
            i <= s@.len(),
            all_digits(s@.subrange(0, i as int)),
            acc == decimal_value(s@.subrange(0, i as int)),
        decreases s@.len() - i,
    {
        let c = s[i];
        proof {
            assert(s@.subrange(0, i as int + 1).drop_last() =~= s@.subrange(0, i as int));
        }
        if !('0' <= c && c <= '9') {
            assert(!is_digit(s@[i as int]));
            return None;
        }
        let d: u64 = (c as u32 - '0' as u32) as u64;
        if acc > (u64::MAX - d) / 10 {
            proof {
                assert(acc * 10 + d > u64::MAX) by (nonlinear_arith)
                    requires acc > (u64::MAX - d) / 10, d <= 9;
                if all_digits(s@) {
                    lemma_value_monotone(s@, i as int + 1, s@.len() as int);
                    assert(s@.subrange(0, s@.len() as int) =~= s@);
                }
            }
            return None;
        }
        assert(acc * 10 + d <= u64::MAX) by (nonlinear_arith)
            requires acc <= (u64::MAX - d) / 10, d <= 9;
        acc = acc * 10 + d;
        i = i + 1;
        assert(all_digits(s@.subrange(0, i as int))) by {
            assert forall|m: int| 0 <= m < i implies is_digit(s@.subrange(0, i as int)[m]) by {
                if m < i - 1 {
                    assert(s@.subrange(0, i as int)[m] == s@.subrange(0, i - 1)[m]);
                }
            }
        }
    }
    assert(s@.subrange(0, i as int) =~= s@);
    Some(acc)
}

fn digit_char_of(d: u64) -> (c: char)
    requires
        d < 10,
    ensures
        c == digit_char(d as nat),
{
    if d == 0 { '0' }
    else if d == 1 { '1' }
    else if d == 2 { '2' }
    else if d == 3 { '3' }
    else if d == 4 { '4' }
    else if d == 5 { '5' }
    else if d == 6 { '6' }
    else if d == 7 { '7' }
    else if d == 8 { '8' }
    else { '9' }
}

/// Appends the decimal representation of `n`.
pub fn push_decimal(buf: &mut Vec<char>, n: u64)
    ensures
        final(buf)@ == old(buf)@ + decimal_digits(n as nat),
{
    let mut digits: Vec<char> = Vec::new();
    let mut m: u64 = n;
    while m >= 10
        invariant
            decimal_digits(n as nat) == decimal_digits(m as nat) + digits@,
        decreases m,
    {
        let c = digit_char_of(m % 10);
        digits.insert(0, c);
        assert(decimal_digits(m as nat) == decimal_digits((m / 10) as nat).push(c));
        assert(decimal_digits(n as nat) =~= decimal_digits((m / 10) as nat) + digits@);
        m = m / 10;
    }
    let c = digit_char_of(m);
    digits.insert(0, c);
    assert(decimal_digits(n as nat) =~= digits@);
    let mut i: usize = 0;
    while i < digits.len()
        invariant
            i <= digits@.len(),
            buf@ == old(buf)@ + digits@.subrange(0, i as int),
        decreases digits@.len() - i,
    {
        buf.push(digits[i]);
        i = i + 1;
        assert(buf@ =~= old(buf)@ + digits@.subrange(0, i as int));
    }
    assert(digits@.subrange(0, i as int) =~= digits@);
}

/// Appends the characters of `s`.
pub fn push_str(buf: &mut Vec<char>, s: &str)
    ensures
        final(buf)@ == old(buf)@ + s@,
{
    let n = s.unicode_len();
    let mut i: usize = 0;
    while i < n
        invariant
            n == s@.len(),
            i <= n,
            buf@ == old(buf)@ + s@.subrange(0, i as int),
        decreases n - i,
    {
        buf.push(s.get_char(i));
        i = i + 1;
        assert(buf@ =~= old(buf)@ + s@.subrange(0, i as int));
    }
    assert(s@.subrange(0, i as int) =~= s@);
}

/// Appends the characters of `s`.
pub fn push_chars(buf: &mut Vec<char>, s: &Vec<char>)
    ensures
        final(buf)@ == old(buf)@ + s@,
{
    let mut i: usize = 0;
    while i < s.len()
        invariant
            i <= s@.len(),
            buf@ == old(buf)@ + s@.subrange(0, i as int),
        decreases s@.len() - i,
    {
        buf.push(s[i]);
        i = i + 1;
        assert(buf@ =~= old(buf)@ + s@.subrange(0, i as int));
    }
    assert(s@.subrange(0, i as int) =~= s@);
}

/// Whether two character buffers hold the same text.
pub fn chars_equal(a: &Vec<char>, b: &Vec<char>) -> (r: bool)
    ensures
        r == (a@ == b@),
{
    if a.len() != b.len() {
        return false;
    }
    let mut i: usize = 0;
    while i < a.len()
        invariant
            i <= a@.len(),
            a@.len() == b@.len(),
            forall|k: int| 0 <= k < i ==> a@[k] == b@[k],
        decreases a@.len() - i,
    {
        if a[i] != b[i] {
            return false;
        }
        i = i + 1;
    }
    assert(a@ =~= b@);
    true
}

} // verus!
