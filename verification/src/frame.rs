//! The relay frame in which the nexus hands a message on to a listener:
//! `1r|<len>|<source id>|<len>|<channel id>|<len>|<text>`, where each
//! `<len>` is the byte length of the UTF-8 field that follows it.
use vstd::prelude::*;
use vstd::string::*;
use vstd::utf8::{encode_utf8, is_ascii_chars, is_ascii_chars_encode_utf8};
use crate::strings::push_char;
use crate::reader::{
    after_number, digit_value, first_digit_from, from_first_digit, is_digit, number_value,
    run_end_from, spec_read_string, value_between,
};

verus! {

/// The character of a decimal digit `d < 10`.
pub open spec fn digit_char(d: nat) -> char {
    ((d + 48) as char)
}

/// The decimal numeral of `n`, without leading zeros.
pub open spec fn decimal(n: nat) -> Seq<char>
    decreases n,
{
    if n < 10 {
        seq![digit_char(n)]
    } else {
        decimal(n / 10).push(digit_char(n % 10))
    }
}

/// The length of the UTF-8 encoding of `s`, as `str::len` gives it.
pub open spec fn byte_len(s: Seq<char>) -> nat {
    (encode_utf8(s).len() as usize) as nat
}

/// One field of a frame: a bar, the byte length of `s`, a bar, then `s`.
pub open spec fn spec_field(s: Seq<char>) -> Seq<char> {
    seq!['|'] + decimal(byte_len(s)) + seq!['|'] + s
}

/// The relay frame for `text`, sent by `src` on `chan`.
pub open spec fn spec_relay_frame(src: Seq<char>, chan: Seq<char>, text: Seq<char>) -> Seq<char> {
    seq!['1', 'r'] + spec_field(src) + spec_field(chan) + spec_field(text)
}

fn push_decimal(out: &mut String, n: u64)
    ensures
        final(out)@ == old(out)@ + decimal(n as nat),
    decreases n,
{
    if n >= 10 {
        push_decimal(out, n / 10);
    }
    let d: u8 = (n % 10) as u8;
    let c: char = (d + 48) as char;
    push_char(out, c);
    proof {
        if n >= 10 {
            assert(decimal(n as nat) == decimal((n / 10) as nat).push(digit_char((n % 10) as nat)));
        }
    }
    assert(out@ =~= old(out)@ + decimal(n as nat));
}

fn push_field(out: &mut String, s: &str)
    ensures
        final(out)@ == old(out)@ + spec_field(s@),
{
    push_char(out, '|');
    let len = s.len();
    push_decimal(out, len as u64);
    push_char(out, '|');
    out.append(s);
    assert(out@ =~= old(out)@ + spec_field(s@));
}

/// Builds the relay frame in which `text`, sent by `src` on `chan`, goes
/// out to a listener.
pub fn relay_frame(src: &str, chan: &str, text: &str) -> (r: String)
    ensures
        r@ == spec_relay_frame(src@, chan@, text@),
{
    let mut out = String::new();
    push_char(&mut out, '1');
    push_char(&mut out, 'r');
    push_field(&mut out, src);
    push_field(&mut out, chan);
    push_field(&mut out, text);
    assert(out@ =~= spec_relay_frame(src@, chan@, text@));
    out
}

proof fn lemma_digit_char(d: nat)
    requires
        d < 10,
    ensures
        is_digit(digit_char(d)),
        digit_value(digit_char(d)) == d,
{
}

proof fn lemma_decimal_digits(n: nat)
    ensures
        decimal(n).len() >= 1,
        forall|i: int| 0 <= i < decimal(n).len() ==> is_digit(#[trigger] decimal(n)[i]),
    decreases n,
{
    if n < 10 {
        lemma_digit_char(n);
    } else {
        lemma_decimal_digits(n / 10);
        lemma_digit_char(n % 10);
        assert forall|i: int| 0 <= i < decimal(n).len() implies is_digit(#[trigger] decimal(n)[i]) by {
            if i < decimal(n / 10).len() {
                assert(decimal(n)[i] == decimal(n / 10)[i]);
            }
        }
    }
}

proof fn lemma_value_congruent(s1: Seq<char>, s2: Seq<char>, j: int)
    requires
        0 <= j,
        forall|k: int| 0 <= k < j ==> s1[k] == s2[k],
    ensures
        value_between(s1, 0, j) == value_between(s2, 0, j),
    decreases j,
{
    if j > 0 {
        lemma_value_congruent(s1, s2, j - 1);
    }
}

proof fn lemma_decimal_value(n: nat)
    ensures
        value_between(decimal(n), 0, decimal(n).len() as int) == n,
    decreases n,
{
    let d = decimal(n);
    if n < 10 {
        lemma_digit_char(n);
        assert(value_between(d, 0, 0) == 0);
    } else {
        let p = decimal(n / 10);
        lemma_decimal_value(n / 10);
        lemma_digit_char(n % 10);
        lemma_value_congruent(d, p, p.len() as int);
        assert(value_between(d, 0, d.len() as int) == value_between(d, 0, p.len() as int) * 10
            + digit_value(d[p.len() as int]));
    }
}

proof fn lemma_run_end_at(u: Seq<char>, i: int, e: int)
    requires
        0 <= i <= e < u.len(),
        forall|k: int| i <= k < e ==> is_digit(#[trigger] u[k]),
        !is_digit(u[e]),
    ensures
        run_end_from(u, i) == e,
    decreases e - i,
{
    if i < e {
        lemma_run_end_at(u, i + 1, e);
    }
}

/// A field written for an ASCII string reads back as that string, and the
/// read stops right after it.
pub proof fn lemma_field_reads_back(w: Seq<char>, rest: Seq<char>)
    requires
        is_ascii_chars(w),
        w.len() <= usize::MAX,
    ensures
        spec_read_string(spec_field(w) + rest) == Some((w, rest)),
{
    is_ascii_chars_encode_utf8(w);
    let n = w.len();
    assert(byte_len(w) == n);
    let dn = decimal(n);
    let t = spec_field(w) + rest;
    let u = dn + seq!['|'] + w + rest;
    lemma_decimal_digits(n);
    lemma_decimal_value(n);
    assert(t =~= seq!['|'] + u);
    assert(!is_digit(t[0]));
    assert(t[1] == dn[0]);
    assert(first_digit_from(t, 1) == 1);
    assert(first_digit_from(t, 0) == 1);
    assert(from_first_digit(t) =~= u);
    assert forall|k: int| 0 <= k < dn.len() implies is_digit(#[trigger] u[k]) by {
        assert(u[k] == dn[k]);
    }
    assert(u[dn.len() as int] == '|');
    lemma_run_end_at(u, 0, dn.len() as int);
    lemma_value_congruent(u, dn, dn.len() as int);
    assert(number_value(t) == n);
    assert(after_number(t) =~= w + rest);
    assert((w + rest).take(n as int) =~= w);
    assert((w + rest).skip(n as int) =~= rest);
}

/// A relay frame reads back with the field readers: after its two-character
/// tag, three string reads give the source id, the channel id and the text,
/// provided all three are ASCII (for other text the length prefix counts
/// bytes while the reader counts characters).
pub proof fn lemma_relay_frame_reads_back(src: Seq<char>, chan: Seq<char>, text: Seq<char>)
    requires
        is_ascii_chars(src),
        is_ascii_chars(chan),
        is_ascii_chars(text),
        src.len() <= usize::MAX,
        chan.len() <= usize::MAX,
        text.len() <= usize::MAX,
    ensures
        spec_relay_frame(src, chan, text).skip(2) == spec_field(src) + spec_field(chan) + spec_field(text),
        spec_read_string(spec_field(src) + spec_field(chan) + spec_field(text)) == Some(
            (src, spec_field(chan) + spec_field(text)),
        ),
        spec_read_string(spec_field(chan) + spec_field(text)) == Some((chan, spec_field(text))),
        spec_read_string(spec_field(text)) == Some((text, Seq::<char>::empty())),
{
    assert(spec_relay_frame(src, chan, text).skip(2) =~= spec_field(src) + spec_field(chan)
        + spec_field(text));
    lemma_field_reads_back(src, spec_field(chan) + spec_field(text));
    assert(spec_field(src) + spec_field(chan) + spec_field(text) =~= spec_field(src) + (spec_field(
        chan,
    ) + spec_field(text)));
    lemma_field_reads_back(chan, spec_field(text));
    lemma_field_reads_back(text, Seq::empty());
    assert(spec_field(text) + Seq::<char>::empty() =~= spec_field(text));
}

} // verus!
