//! Numbers as the history table writes them, kept exactly as decimal text.
use vstd::prelude::*;

verus! {

pub open spec fn is_digit(c: char) -> bool {
    '0' <= c && c <= '9'
}

pub open spec fn digit_value(c: char) -> nat {
    (c as u32 - '0' as u32) as nat
}

/// Length of a leading '+' or '-'.
pub open spec fn sign_len(s: Seq<char>) -> int {
    if s.len() > 0 && (s[0] == '+' || s[0] == '-') { 1 } else { 0 }
}

/// A decimal numeral: an optional sign, then digits with at most one '.'
/// among them, and at least one digit ("12", "-0.5", "3.", ".25").
pub open spec fn is_numeral(s: Seq<char>) -> bool {
    let b = sign_len(s);
    &&& forall|i: int| b <= i < s.len() ==> is_digit(s[i]) || s[i] == '.'
    &&& forall|i: int, j: int|
        b <= i < s.len() && b <= j < s.len() && s[i] == '.' && s[j] == '.' ==> i == j
    &&& exists|i: int| b <= i < s.len() && is_digit(s[i])
}

/// Where the run of digits that starts at `i` ends.
pub open spec fn digits_end(s: Seq<char>, i: int) -> int
    decreases s.len() - i,
{
    if 0 <= i < s.len() && is_digit(s[i]) {
        digits_end(s, i + 1)
    } else {
        i
    }
}

/// The value of a string of digits.
pub open spec fn digits_value(s: Seq<char>) -> nat
    decreases s.len(),
{
    if s.len() == 0 {
        0
    } else {
        digits_value(s.drop_last()) * 10 + digit_value(s.last())
    }
}

pub open spec fn saturate(v: nat) -> u64 {
    if v > u64::MAX { u64::MAX } else { v as u64 }
}

/// A numeral truncated toward zero to an unsigned integer: zero when it is
/// negative, the largest `u64` when it is too large.
pub open spec fn truncated(s: Seq<char>) -> u64 {
    if s.len() > 0 && s[0] == '-' {
        0
    } else {
        let b = sign_len(s);
        saturate(digits_value(s.subrange(b, digits_end(s, b))))
    }
}

/// A number read from the table, held as the decimal text it was written in.
#[derive(Clone, Debug, PartialEq, Eq)]
pub struct Numeral {
    pub text: String,
}

impl Numeral {
    pub open spec fn wf(self) -> bool {
        is_numeral(self.text@)
    }

    /// The number zero.
    pub fn zero() -> (r: Numeral)
        ensures
            r.text@ == seq!['0'],
            r.wf(),
    {
        proof {
            reveal_strlit("0");
        }
        let r = Numeral { text: String::from_str("0") };
        assert(is_digit(r.text@[0]));
        r
    }

    /// Reads a numeral; none when `text` is not one.
    pub fn parse(text: String) -> (r: Option<Numeral>)
        ensures
            r is Some <==> is_numeral(text@),
            r matches Some(n) ==> n.text@ == text@,
    {
        if is_numeral_text(text.as_str()) {
            Some(Numeral { text })
        } else {
            None
        }
    }

    /// The number truncated toward zero to an unsigned integer.
    pub fn truncate(&self) -> (r: u64)
        ensures
            r == truncated(self.text@),
    {
        truncated_value(self.text.as_str())
    }
}

fn is_digit_char(c: char) -> (r: bool)
    ensures
        r == is_digit(c),
{
    '0' <= c && c <= '9'
}

/// Whether `s` is a decimal numeral.
pub fn is_numeral_text(s: &str) -> (r: bool)
    ensures
        r == is_numeral(s@),
{
    let n = s.unicode_len();
    let mut i: usize = 0;
    if n > 0 {
        let c = s.get_char(0);
        if c == '+' || c == '-' {
            i = 1;
        }
    }
    let b = i;
    let mut dot: Option<usize> = None;
    let mut digit: Option<usize> = None;
    while i < n
        invariant
            n == s@.len(),
            b == sign_len(s@),
            b <= i <= n,
            forall|j: int| b <= j < i ==> is_digit(s@[j]) || s@[j] == '.',
            dot matches Some(k) ==> b <= k < i && s@[k as int] == '.',
            dot is None ==> forall|j: int| b <= j < i ==> s@[j] != '.',
            forall|j: int, k: int|
                b <= j < i && b <= k < i && s@[j] == '.' && s@[k] == '.' ==> j == k,
            digit matches Some(k) ==> b <= k < i && is_digit(s@[k as int]),
            digit is None ==> forall|j: int| b <= j < i ==> !is_digit(s@[j]),
        decreases n - i,
    {
        let c = s.get_char(i);
        if is_digit_char(c) {
            digit = Some(i);
        } else if c == '.' {
            if let Some(k) = dot {
                assert(s@[k as int] == '.' && s@[i as int] == '.' && k != i);
                return false;
            }
            dot = Some(i);
        } else {
            assert(!(is_digit(s@[i as int]) || s@[i as int] == '.'));
            return false;
        }
        i = i + 1;
    }
    match digit {
        Some(k) => {
            assert(is_digit(s@[k as int]));
            true
        },
        None => false,
    }
}

proof fn lemma_digits_end_step(s: Seq<char>, i: int)
    requires
        0 <= i < s.len(),
        is_digit(s[i]),
    ensures
        digits_end(s, i) == digits_end(s, i + 1),
{
}

/// The numeral in `s`, truncated toward zero to an unsigned integer.
fn truncated_value(s: &str) -> (r: u64)
    ensures
        r == truncated(s@),
{
    let n = s.unicode_len();
    if n > 0 && s.get_char(0) == '-' {
        return 0;
    }
    let mut i: usize = if n > 0 && s.get_char(0) == '+' { 1 } else { 0 };
    let b = i;
    let mut v: u64 = 0;
    let mut done = false;
    assert(s@.subrange(b as int, b as int) =~= Seq::<char>::empty());
    while !done && i < n
        invariant
            n == s@.len(),
            b == sign_len(s@),
            b <= i <= n,
            digits_end(s@, b as int) == digits_end(s@, i as int),
            done ==> i < n && !is_digit(s@[i as int]),
            v == saturate(digits_value(s@.subrange(b as int, i as int))),
        decreases n - i, if done { 0int } else { 1int },
    {
        let c = s.get_char(i);
        if is_digit_char(c) {
            let d: u64 = (c as u32 - '0' as u32) as u64;
            let ghost prefix = s@.subrange(b as int, i as int);
            let ghost next = s@.subrange(b as int, i + 1);
            assert(next.drop_last() =~= prefix);
            assert(digits_value(next) == digits_value(prefix) * 10 + d);
            proof {
                lemma_digits_end_step(s@, i as int);
            }
            if v > (u64::MAX - d) / 10 {
                assert(digits_value(prefix) * 10 + d > u64::MAX) by (nonlinear_arith)
                    requires
                        v == saturate(digits_value(prefix)),
                        v > (u64::MAX - d) / 10,
                        d <= 9,
                ;
                v = u64::MAX;
            } else {
                assert(v * 10 + d <= u64::MAX && digits_value(prefix) == v) by (nonlinear_arith)
                    requires
                        v == saturate(digits_value(prefix)),
                        v <= (u64::MAX - d) / 10,
                        d <= 9,
                ;
                v = v * 10 + d;
            }
            i = i + 1;
        } else {
            done = true;
        }
    }
    v
}

} // verus!
