//! Readers for the length-prefixed fields of the text protocol.
//!
//! A number is read by skipping every character up to the first decimal
//! digit, then taking the run of digits that starts there; the character
//! that ends the run is consumed with it. A string is a number `n` followed
//! by the next `n` characters (fewer where the text runs out).
use vstd::prelude::*;
use std::collections::VecDeque;
use crate::strings::push_char;

verus! {

/// A decimal digit, the characters that `char::to_digit(10)` accepts.
pub open spec fn is_digit(c: char) -> bool {
    '0' <= c && c <= '9'
}

/// The value of a decimal digit.
pub open spec fn digit_value(c: char) -> nat {
    ((c as int) - ('0' as int)) as nat
}

/// The index of the first digit of `s` at or after `i` (`s.len()` if none).
pub open spec fn first_digit_from(s: Seq<char>, i: int) -> int
    decreases s.len() - i,
{
    if i < 0 || i >= s.len() {
        s.len() as int
    } else if is_digit(s[i]) {
        i
    } else {
        first_digit_from(s, i + 1)
    }
}

/// The end of the run of digits of `s` that starts at `i`.
pub open spec fn run_end_from(s: Seq<char>, i: int) -> int
    decreases s.len() - i,
{
    if i < 0 || i >= s.len() || !is_digit(s[i]) {
        i
    } else {
        run_end_from(s, i + 1)
    }
}

/// The decimal value of the characters `s[i..j]`, read as digits.
pub open spec fn value_between(s: Seq<char>, i: int, j: int) -> nat
    decreases j - i,
{
    if j <= i {
        0
    } else {
        value_between(s, i, j - 1) * 10 + digit_value(s[j - 1])
    }
}

/// The length of the run of digits at the start of `t`.
pub open spec fn lead_run_len(t: Seq<char>) -> int {
    run_end_from(t, 0)
}

/// The value of the run of digits at the start of `t` (0 if there is none).
pub open spec fn lead_value(t: Seq<char>) -> nat {
    value_between(t, 0, lead_run_len(t))
}

/// What is left of `t` once its leading run of digits and the one character
/// that ends the run are taken away.
pub open spec fn after_lead(t: Seq<char>) -> Seq<char> {
    if lead_run_len(t) < t.len() {
        t.subrange(lead_run_len(t) + 1, t.len() as int)
    } else {
        Seq::empty()
    }
}

/// `s` without the characters before its first digit.
pub open spec fn from_first_digit(s: Seq<char>) -> Seq<char> {
    s.subrange(first_digit_from(s, 0), s.len() as int)
}

/// The number that `read_number` reads from `s`.
pub open spec fn number_value(s: Seq<char>) -> nat {
    lead_value(from_first_digit(s))
}

/// What `read_number` leaves of `s`.
pub open spec fn after_number(s: Seq<char>) -> Seq<char> {
    after_lead(from_first_digit(s))
}

/// The number read from `s` and the rest, or `None` where the number does
/// not fit in a `u64`.
pub open spec fn spec_read_number(s: Seq<char>) -> Option<(u64, Seq<char>)> {
    if number_value(s) <= u64::MAX {
        Some((number_value(s) as u64, after_number(s)))
    } else {
        None
    }
}

/// The string read from `s` and the rest, or `None` where its length
/// prefix does not fit in a `u64`.
pub open spec fn spec_read_string(s: Seq<char>) -> Option<(Seq<char>, Seq<char>)> {
    match spec_read_number(s) {
        Some((n, rest)) => {
            let k = if n < rest.len() { n as int } else { rest.len() as int };
            Some((rest.take(k), rest.skip(k)))
        },
        None => None,
    }
}

proof fn lemma_first_digit_bounds(s: Seq<char>, i: int)
    requires
        0 <= i <= s.len(),
    ensures
        i <= first_digit_from(s, i) <= s.len(),
        first_digit_from(s, i) < s.len() ==> is_digit(s[first_digit_from(s, i)]),
        forall|j: int| i <= j < first_digit_from(s, i) ==> !is_digit(#[trigger] s[j]),
    decreases s.len() - i,
{
    if i < s.len() && !is_digit(s[i]) {
        lemma_first_digit_bounds(s, i + 1);
    }
}

proof fn lemma_run_end_bounds(s: Seq<char>, i: int)
    requires
        0 <= i <= s.len(),
    ensures
        i <= run_end_from(s, i) <= s.len(),
        run_end_from(s, i) < s.len() ==> !is_digit(s[run_end_from(s, i)]),
        forall|j: int| i <= j < run_end_from(s, i) ==> is_digit(#[trigger] s[j]),
    decreases s.len() - i,
{
    if i < s.len() && is_digit(s[i]) {
        lemma_run_end_bounds(s, i + 1);
    }
}

/// A longer prefix of a run of digits is worth at least as much.
proof fn lemma_value_monotone(s: Seq<char>, i: int, j: int, k: int)
    requires
        i <= j <= k,
    ensures
        value_between(s, i, j) <= value_between(s, i, k),
    decreases k - j,
{
    if j < k {
        lemma_value_monotone(s, i, j, k - 1);
    }
}

/// Reads the run of digits that starts with `cur` (the character just taken
/// from the front of the text) and goes on in `text`; the character that
/// ends the run is consumed. `None` where the value does not fit in a `u64`.
fn take_digit_run(text: &mut VecDeque<char>, cur: Option<char>, Ghost(t): Ghost<Seq<char>>) -> (r:
    Option<u64>)
    requires
        match cur {
            Some(c) => t == seq![c] + old(text)@,
            None => t.len() == 0 && old(text)@.len() == 0,
        },
    ensures
        lead_value(t) <= u64::MAX ==> r == Some(lead_value(t) as u64) && final(text)@ == after_lead(t),
        lead_value(t) > u64::MAX ==> r is None,
{
    proof {
        lemma_run_end_bounds(t, 0);
    }
    let mut cur = cur;
    let mut ans: u64 = 0;
    let ghost mut k: int = 0;
    loop
        invariant
            0 <= k <= lead_run_len(t),
            lead_run_len(t) <= t.len(),
            forall|j: int| 0 <= j < lead_run_len(t) ==> is_digit(#[trigger] t[j]),
            lead_run_len(t) < t.len() ==> !is_digit(t[lead_run_len(t)]),
            ans == value_between(t, 0, k),
            k < t.len() ==> cur == Some(t[k]) && text@ == t.subrange(k + 1, t.len() as int),
            k >= t.len() ==> cur is None && text@.len() == 0,
        decreases t.len() - k,
    {
        match cur {
            Some(c) => {
                if '0' <= c && c <= '9' {
                    let d: u64 = ((c as u32) - ('0' as u32)) as u64;
                    proof {
                        lemma_value_monotone(t, 0, k + 1, lead_run_len(t));
                    }
                    match ans.checked_mul(10) {
                        Some(m) => match m.checked_add(d) {
                            Some(v) => {
                                ans = v;
                            },
                            None => {
                                return None;
                            },
                        },
                        None => {
                            return None;
                        },
                    }
                    cur = text.pop_front();
                    proof {
                        k = k + 1;
                    }
                } else {
                    return Some(ans);
                }
            },
            None => {
                return Some(ans);
            },
        }
    }
}

/// Reads a number: characters before the first digit are skipped, then the
/// run of digits is read, and the character that ends it is consumed.
/// `None` where the number does not fit in a `u64`.
pub fn try_read_number(text: &mut VecDeque<char>) -> (r: Option<u64>)
    ensures
        r is Some <==> spec_read_number(old(text)@) is Some,
        r matches Some(n) ==> spec_read_number(old(text)@) == Some((n, final(text)@)),
{
    let ghost s = text@;
    proof {
        lemma_first_digit_bounds(s, 0);
    }
    let mut cur = text.pop_front();
    let ghost mut i: int = 0;
    loop
        invariant
            0 <= i <= first_digit_from(s, 0),
            first_digit_from(s, 0) <= s.len(),
            forall|j: int| 0 <= j < first_digit_from(s, 0) ==> !is_digit(#[trigger] s[j]),
            first_digit_from(s, 0) < s.len() ==> is_digit(s[first_digit_from(s, 0)]),
            i < s.len() ==> cur == Some(s[i]) && text@ == s.subrange(i + 1, s.len() as int),
            i >= s.len() ==> cur is None && text@.len() == 0,
        ensures
            i == first_digit_from(s, 0),
            i < s.len() ==> cur == Some(s[i]) && text@ == s.subrange(i + 1, s.len() as int),
            i >= s.len() ==> cur is None && text@.len() == 0,
        decreases s.len() - i,
    {
        match cur {
            Some(c) => {
                if '0' <= c && c <= '9' {
                    break;
                }
                cur = text.pop_front();
                proof {
                    i = i + 1;
                }
            },
            None => {
                break;
            },
        }
    }
    let ghost t = from_first_digit(s);
    proof {
        if i < s.len() {
            assert(t =~= seq![s[i]] + text@);
        } else {
            assert(t.len() == 0);
        }
    }
    take_digit_run(text, cur, Ghost(t))
}

/// Reads a number: characters before the first digit are skipped, then the
/// run of digits is read, and the character that ends it is consumed.
pub fn read_number(text: &mut VecDeque<char>) -> (n: u64)
    requires
        number_value(old(text)@) <= u64::MAX,
    ensures
        n == number_value(old(text)@),
        final(text)@ == after_number(old(text)@),
{
    match try_read_number(text) {
        Some(n) => n,
        None => 0,
    }
}

/// Takes up to `cap` characters from the front of `text` into a string.
fn take_chars(text: &mut VecDeque<char>, cap: u64) -> (r: String)
    ensures
        ({
            let k = if cap < old(text)@.len() { cap as int } else { old(text)@.len() as int };
            r@ == old(text)@.take(k) && final(text)@ == old(text)@.skip(k)
        }),
{
    let ghost s = text@;
    let mut ans = String::new();
    let mut i: u64 = 0;
    while i < cap
        invariant
            i <= cap,
            i <= s.len(),
            ans@ == s.take(i as int),
            text@ == s.skip(i as int),
        ensures
            i == cap || i == s.len(),
            ans@ == s.take(i as int),
            text@ == s.skip(i as int),
        decreases cap - i,
    {
        match text.pop_front() {
            Some(ch) => {
                push_char(&mut ans, ch);
                proof {
                    assert(s.take(i + 1) =~= s.take(i as int).push(ch));
                    assert(s.skip(i + 1) =~= s.skip(i as int).subrange(1, s.skip(i as int).len() as int));
                }
                i = i + 1;
            },
            None => {
                break;
            },
        }
    }
    ans
}

/// Reads a string: a number `n` (see `read_number`), then the next `n`
/// characters, or all that are left if there are fewer. `None` where the
/// length prefix does not fit in a `u64`.
pub fn try_read_string(text: &mut VecDeque<char>) -> (r: Option<String>)
    ensures
        r is Some <==> spec_read_string(old(text)@) is Some,
        r matches Some(v) ==> spec_read_string(old(text)@) == Some((v@, final(text)@)),
{
    match try_read_number(text) {
        Some(cap) => Some(take_chars(text, cap)),
        None => None,
    }
}

/// Reads a string: a number `n` (see `read_number`), then the next `n`
/// characters, or all that are left if there are fewer.
pub fn read_string(text: &mut VecDeque<char>) -> (r: String)
    requires
        number_value(old(text)@) <= u64::MAX,
    ensures
        spec_read_string(old(text)@) == Some((r@, final(text)@)),
{
    match try_read_string(text) {
        Some(v) => v,
        None => String::new(),
    }
}

} // verus!
