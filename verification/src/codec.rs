//! The persisted JSON form of bank-account events.
//!
//! An event is stored as one JSON object whose single key names the variant
//! and whose value carries the variant's fields in declaration order. Account
//! ids and names are JSON strings (quotes, backslashes and control characters
//! escaped), amounts and timestamps are JSON integers. Encoding and decoding
//! are written here directly over characters, with a proof that decoding
//! inverts encoding.

use vstd::prelude::*;

use crate::aggregate::{
    valid_uuid_chars, BankAccountEvent, BankAccountEventV, BankAccountId, BankAccountName,
};
use crate::clock::Timestamp;
use crate::text::{chars_to_string, push_char, str_to_chars};
use vstd::string::StringExecFns;

verus! {

// ---------------------------------------------------------------------------
// Digits
// ---------------------------------------------------------------------------

pub open spec fn is_dec_digit(c: char) -> bool {
    '0' <= c && c <= '9'
}

pub open spec fn dec_digit_val(c: char) -> int {
    c as int - '0' as int
}

pub open spec fn dec_digit_char(d: int) -> char {
    if d == 0 { '0' }
    else if d == 1 { '1' }
    else if d == 2 { '2' }
    else if d == 3 { '3' }
    else if d == 4 { '4' }
    else if d == 5 { '5' }
    else if d == 6 { '6' }
    else if d == 7 { '7' }
    else if d == 8 { '8' }
    else { '9' }
}

/// Hex digits, lower case, as in a JSON `\u00..` escape.
pub open spec fn hex_digit_char(d: int) -> char {
    if d < 10 { dec_digit_char(d) }
    else if d == 10 { 'a' }
    else if d == 11 { 'b' }
    else if d == 12 { 'c' }
    else if d == 13 { 'd' }
    else if d == 14 { 'e' }
    else { 'f' }
}

pub open spec fn is_hex_lower(c: char) -> bool {
    is_dec_digit(c) || ('a' <= c && c <= 'f')
}

pub open spec fn hex_val(c: char) -> int {
    if is_dec_digit(c) { dec_digit_val(c) } else { c as int - 'a' as int + 10 }
}

fn is_dec_digit_exec(c: char) -> (r: bool)
    ensures
        r == is_dec_digit(c),
{
    '0' <= c && c <= '9'
}

fn dec_digit_val_exec(c: char) -> (r: u32)
    requires
        is_dec_digit(c),
    ensures
        r == dec_digit_val(c),
{
    c as u32 - '0' as u32
}

fn dec_digit_char_exec(d: u64) -> (r: char)
    requires
        d < 10,
    ensures
        r == dec_digit_char(d as int),
{
    if d == 0 { '0' }
    else if d == 1 { '1' }
    else if d == 2 { '2' }
    else if d == 3 { '3' }
    else if d == 4 { '4' }
    else if d == 5 { '5' }
    else if d == 6 { '6' }
    else if d == 7 { '7' }
    else if d == 8 { '8' }
    else { '9' }
}

fn hex_digit_char_exec(d: u32) -> (r: char)
    requires
        d < 16,
    ensures
        r == hex_digit_char(d as int),
{
    if d == 0 { '0' }
    else if d == 1 { '1' }
    else if d == 2 { '2' }
    else if d == 3 { '3' }
    else if d == 4 { '4' }
    else if d == 5 { '5' }
    else if d == 6 { '6' }
    else if d == 7 { '7' }
    else if d == 8 { '8' }
    else if d == 9 { '9' }
    else if d == 10 { 'a' }
    else if d == 11 { 'b' }
    else if d == 12 { 'c' }
    else if d == 13 { 'd' }
    else if d == 14 { 'e' }
    else { 'f' }
}

fn is_hex_lower_exec(c: char) -> (r: bool)
    ensures
        r == is_hex_lower(c),
{
    ('0' <= c && c <= '9') || ('a' <= c && c <= 'f')
}

fn hex_val_exec(c: char) -> (r: u32)
    requires
        is_hex_lower(c),
    ensures
        r == hex_val(c),
{
    if '0' <= c && c <= '9' {
        c as u32 - '0' as u32
    } else {
        c as u32 - 'a' as u32 + 10
    }
}

fn low_char_exec(v: u32) -> (r: char)
    requires
        v < 32,
    ensures
        r == v as char,
{
    if v == 0 { '\u{0}' } else if v == 1 { '\u{1}' } else if v == 2 { '\u{2}' }
    else if v == 3 { '\u{3}' } else if v == 4 { '\u{4}' } else if v == 5 { '\u{5}' }
    else if v == 6 { '\u{6}' } else if v == 7 { '\u{7}' } else if v == 8 { '\u{8}' }
    else if v == 9 { '\u{9}' } else if v == 10 { '\u{a}' } else if v == 11 { '\u{b}' }
    else if v == 12 { '\u{c}' } else if v == 13 { '\u{d}' } else if v == 14 { '\u{e}' }
    else if v == 15 { '\u{f}' } else if v == 16 { '\u{10}' } else if v == 17 { '\u{11}' }
    else if v == 18 { '\u{12}' } else if v == 19 { '\u{13}' } else if v == 20 { '\u{14}' }
    else if v == 21 { '\u{15}' } else if v == 22 { '\u{16}' } else if v == 23 { '\u{17}' }
    else if v == 24 { '\u{18}' } else if v == 25 { '\u{19}' } else if v == 26 { '\u{1a}' }
    else if v == 27 { '\u{1b}' } else if v == 28 { '\u{1c}' } else if v == 29 { '\u{1d}' }
    else if v == 30 { '\u{1e}' } else { '\u{1f}' }
}

// ---------------------------------------------------------------------------
// Decimal integers
// ---------------------------------------------------------------------------

/// The decimal digits of a natural number, most significant first.
pub open spec fn dec_digits(n: nat) -> Seq<char>
    decreases n,
{
    if n < 10 {
        seq![dec_digit_char(n as int)]
    } else {
        dec_digits(n / 10) + seq![dec_digit_char((n % 10) as int)]
    }
}

/// The decimal form of an integer, with a leading minus when negative.
pub open spec fn dec_int(n: int) -> Seq<char> {
    if n < 0 {
        seq!['-'] + dec_digits((-n) as nat)
    } else {
        dec_digits(n as nat)
    }
}

pub open spec fn pow10(k: nat) -> int
    decreases k,
{
    if k == 0 {
        1
    } else {
        10 * pow10((k - 1) as nat)
    }
}

/// Consumes a run of digits, folding them onto an accumulator.
pub open spec fn parse_digits(s: Seq<char>, acc: int) -> (int, Seq<char>)
    decreases s.len(),
{
    if s.len() > 0 && is_dec_digit(s[0]) {
        parse_digits(s.skip(1), acc * 10 + dec_digit_val(s[0]))
    } else {
        (acc, s)
    }
}

/// Parses an unsigned decimal number without leading zeros.
pub open spec fn parse_uint(s: Seq<char>) -> Option<(int, Seq<char>)> {
    if s.len() == 0 || !is_dec_digit(s[0]) {
        None
    } else if s[0] == '0' && s.len() > 1 && is_dec_digit(s[1]) {
        None
    } else {
        Some(parse_digits(s, 0))
    }
}

/// Parses a decimal integer that fits a 64-bit signed machine word.
pub open spec fn parse_int(s: Seq<char>) -> Option<(int, Seq<char>)> {
    if s.len() > 0 && s[0] == '-' {
        match parse_uint(s.skip(1)) {
            Some((v, r)) => if v <= 0x8000_0000_0000_0000 {
                Some((-v, r))
            } else {
                None
            },
            None => None,
        }
    } else {
        match parse_uint(s) {
            Some((v, r)) => if v <= 0x7fff_ffff_ffff_ffff {
                Some((v, r))
            } else {
                None
            },
            None => None,
        }
    }
}

/// Every decimal rendering is non-empty, made of digits, and free of leading
/// zeros.
proof fn lemma_dec_digits_shape(n: nat)
    ensures
        dec_digits(n).len() >= 1,
        forall|i: int| 0 <= i < dec_digits(n).len() ==> is_dec_digit(#[trigger] dec_digits(n)[i]),
        n > 0 ==> dec_digits(n)[0] != '0',
        n == 0 ==> dec_digits(n) == seq!['0'],
    decreases n,
{
    if n < 10 {
        assert(dec_digits(n) == seq![dec_digit_char(n as int)]);
    } else {
        lemma_dec_digits_shape(n / 10);
        assert(n / 10 > 0) by (nonlinear_arith)
            requires n >= 10;
        let pre = dec_digits(n / 10);
        let last = seq![dec_digit_char((n % 10) as int)];
        assert(0 <= n % 10 < 10) by (nonlinear_arith);
        assert(forall|i: int|
            0 <= i < dec_digits(n).len() ==> is_dec_digit(#[trigger] dec_digits(n)[i])) by {
            assert(dec_digits(n) == pre + last);
            assert(forall|i: int| 0 <= i < pre.len() ==> (pre + last)[i] == pre[i]);
            assert((pre + last)[pre.len() as int] == last[0]);
        }
    }
}

/// Folding the digits of `n` onto `acc` multiplies `acc` up and adds `n`.
proof fn lemma_parse_digits_concat(n: nat, rest: Seq<char>, acc: int)
    ensures
        parse_digits(dec_digits(n) + rest, acc) == parse_digits(
            rest,
            acc * pow10(dec_digits(n).len()) + n,
        ),
    decreases n,
{
    lemma_dec_digits_shape(n);
    if n < 10 {
        let s = dec_digits(n) + rest;
        assert(s[0] == dec_digit_char(n as int));
        assert(dec_digit_val(dec_digit_char(n as int)) == n);
        assert(s.skip(1) =~= rest);
        assert(pow10(0) == 1);
        assert(pow10(1) == 10);
        assert(parse_digits(s, acc) == parse_digits(rest, acc * 10 + n));
    } else {
        let d = (n % 10) as int;
        let m = n / 10;
        assert(0 <= d < 10 && m * 10 + d == n) by (nonlinear_arith)
            requires d == (n % 10) as int, m == n / 10;
        let tail = seq![dec_digit_char(d)] + rest;
        assert(dec_digits(n) + rest =~= dec_digits(m) + tail);
        lemma_parse_digits_concat(m, tail, acc);
        let l1 = dec_digits(m).len();
        let a1 = acc * pow10(l1) + m;
        assert(tail[0] == dec_digit_char(d));
        assert(dec_digit_val(dec_digit_char(d)) == d);
        assert(tail.skip(1) =~= rest);
        assert(parse_digits(tail, a1) == parse_digits(rest, a1 * 10 + d));
        assert(dec_digits(n).len() == l1 + 1);
        assert(pow10(l1 + 1) == 10 * pow10(l1));
        assert((acc * pow10(l1) + m) * 10 + d == acc * (10 * pow10(l1)) + (m * 10 + d))
            by (nonlinear_arith);
    }
}

/// Parsing stops exactly at the end of the rendered number.
proof fn lemma_parse_int_of_dec(n: int, rest: Seq<char>)
    requires
        -0x8000_0000_0000_0000 <= n <= 0x7fff_ffff_ffff_ffff,
        rest.len() == 0 || !is_dec_digit(rest[0]),
    ensures
        parse_int(dec_int(n) + rest) == Some((n, rest)),
{
    if n >= 0 {
        let m = n as nat;
        lemma_dec_digits_shape(m);
        let s = dec_digits(m) + rest;
        assert(dec_int(n) + rest =~= s);
        assert(s[0] == dec_digits(m)[0]);
        assert(is_dec_digit(s[0]));
        assert(s[0] != '-');
        lemma_parse_digits_concat(m, rest, 0);
        assert(0 * pow10(dec_digits(m).len()) == 0) by (nonlinear_arith);
        assert(parse_digits(rest, n) == (n, rest));
        if s[0] == '0' {
            assert(m == 0);
            assert(dec_digits(m).len() == 1);
            if s.len() > 1 {
                assert(s[1] == rest[0]);
            }
            assert(!(s[0] == '0' && s.len() > 1 && is_dec_digit(s[1])));
        } else {
            if s.len() > 1 && dec_digits(m).len() == 1 {
                assert(s[1] == rest[0]);
            }
        }
        assert(parse_uint(s) == Some((n, rest)));
    } else {
        let m = (-n) as nat;
        lemma_dec_digits_shape(m);
        let body = dec_digits(m) + rest;
        let s = seq!['-'] + body;
        assert(dec_int(n) + rest =~= s);
        assert(s[0] == '-');
        assert(s.skip(1) =~= body);
        assert(body[0] == dec_digits(m)[0]);
        assert(is_dec_digit(body[0]));
        assert(body[0] != '0');
        lemma_parse_digits_concat(m, rest, 0);
        assert(0 * pow10(dec_digits(m).len()) == 0) by (nonlinear_arith);
        assert(parse_digits(rest, m as int) == (m as int, rest));
        if body.len() > 1 && dec_digits(m).len() == 1 {
            assert(body[1] == rest[0]);
        }
        assert(parse_uint(body) == Some((m as int, rest)));
        assert(m <= 0x8000_0000_0000_0000);
    }
}

/// Appends the decimal digits of `n`.
fn append_dec_u64(s: &mut String, n: u64)
    ensures
        final(s)@ == old(s)@ + dec_digits(n as nat),
    decreases n,
{
    if n < 10 {
        push_char(s, dec_digit_char_exec(n));
        proof {
            assert(old(s)@.push(dec_digit_char(n as int)) =~= old(s)@ + dec_digits(n as nat));
        }
    } else {
        let q = n / 10;
        let d = n % 10;
        proof {
            assert(d < 10 && q == n as nat / 10 && d == n as nat % 10) by (nonlinear_arith)
                requires q == n / 10, d == n % 10, n >= 10;
        }
        append_dec_u64(s, q);
        push_char(s, dec_digit_char_exec(d));
        proof {
            assert((old(s)@ + dec_digits(q as nat)).push(dec_digit_char(d as int)) =~= old(s)@
                + dec_digits(n as nat));
        }
    }
}

/// Appends the decimal form of `n`, with a leading minus when negative.
fn append_dec_i64(s: &mut String, n: i64)
    ensures
        final(s)@ == old(s)@ + dec_int(n as int),
{
    if n < 0 {
        push_char(s, '-');
        let mag: u64 = ((-(n + 1)) as u64) + 1;
        proof {
            assert(mag as int == -(n as int));
        }
        append_dec_u64(s, mag);
        proof {
            assert(old(s)@.push('-') + dec_digits(mag as nat) =~= old(s)@ + dec_int(n as int));
        }
    } else {
        append_dec_u64(s, n as u64);
    }
}

/// Reads a decimal integer at position `i`, exactly as the model parser does.
fn parse_i64_exec(v: &Vec<char>, i: usize) -> (r: Option<(i64, usize)>)
    requires
        i <= v@.len(),
    ensures
        match r {
            Some((n, j)) => i <= j <= v@.len() && parse_int(v@.skip(i as int)) == Some(
                (n as int, v@.skip(j as int)),
            ),
            None => parse_int(v@.skip(i as int)) is None,
        },
{
    let ghost s0 = v@.skip(i as int);
    let neg = i < v.len() && v[i] == '-';
    let start = if neg { i + 1 } else { i };
    proof {
        if neg {
            assert(s0[0] == v@[i as int]);
            assert(s0.skip(1) =~= v@.skip(start as int));
        } else {
            if s0.len() > 0 {
                assert(s0[0] == v@[i as int]);
            }
        }
    }
    let ghost su = v@.skip(start as int);
    if start >= v.len() || !is_dec_digit_exec(v[start]) {
        proof {
            if su.len() > 0 {
                assert(su[0] == v@[start as int]);
            }
        }
        return None;
    }
    proof {
        assert(su[0] == v@[start as int]);
    }
    if v[start] == '0' && start + 1 < v.len() && is_dec_digit_exec(v[start + 1]) {
        proof {
            assert(su[1] == v@[start + 1 as int]);
        }
        return None;
    }
    proof {
        if su[0] == '0' && su.len() > 1 {
            assert(su[1] == v@[start + 1 as int]);
        }
    }
    let mut cur = start;
    let mut acc: u64 = 0;
    let ghost mut rval: int = 0;
    while cur < v.len() && is_dec_digit_exec(v[cur])
        invariant
            start <= cur <= v@.len(),
            0 <= rval,
            rval <= 0x8000_0000_0000_0000 ==> acc == rval,
            rval > 0x8000_0000_0000_0000 ==> acc == 0x8000_0000_0000_0001u64,
            acc <= 0x8000_0000_0000_0001u64,
            parse_digits(v@.skip(start as int), 0) == parse_digits(v@.skip(cur as int), rval),
        decreases v@.len() - cur,
    {
        let d = dec_digit_val_exec(v[cur]);
        proof {
            let sc = v@.skip(cur as int);
            assert(sc[0] == v@[cur as int]);
            assert(sc.skip(1) =~= v@.skip(cur + 1 as int));
            assert(parse_digits(sc, rval) == parse_digits(
                v@.skip(cur + 1 as int),
                rval * 10 + dec_digit_val(sc[0]),
            ));
        }
        if acc >= 922337203685477581 {
            acc = 9223372036854775809;
        } else {
            acc = acc * 10 + (d as u64);
        }
        proof {
            rval = rval * 10 + d;
        }
        cur = cur + 1;
    }
    proof {
        let sc = v@.skip(cur as int);
        if sc.len() > 0 {
            assert(sc[0] == v@[cur as int]);
        }
        assert(parse_digits(sc, rval) == (rval, sc));
        assert(parse_uint(v@.skip(start as int)) == Some((rval, v@.skip(cur as int))));
    }
    if neg {
        if acc > 9223372036854775808 {
            return None;
        }
        let n: i64 = if acc == 9223372036854775808 {
            i64::MIN
        } else {
            -(acc as i64)
        };
        Some((n, cur))
    } else {
        if acc > 9223372036854775807 {
            return None;
        }
        Some((acc as i64, cur))
    }
}

// ---------------------------------------------------------------------------
// JSON strings
// ---------------------------------------------------------------------------

/// How one character appears inside a JSON string.
pub open spec fn escape_char(c: char) -> Seq<char> {
    if c == '"' {
        seq!['\\', '"']
    } else if c == '\\' {
        seq!['\\', '\\']
    } else if (c as u32) < 32 {
        seq![
            '\\',
            'u',
            '0',
            '0',
            hex_digit_char((c as u32 / 16) as int),
            hex_digit_char((c as u32 % 16) as int),
        ]
    } else {
        seq![c]
    }
}

/// How text appears inside a JSON string.
pub open spec fn escape(s: Seq<char>) -> Seq<char>
    decreases s.len(),
{
    if s.len() == 0 {
        Seq::empty()
    } else {
        escape_char(s[0]) + escape(s.skip(1))
    }
}

/// Consumes an escaped string body through its closing quote, returning the
/// unescaped text and the rest.
pub open spec fn parse_jstring(s: Seq<char>) -> Option<(Seq<char>, Seq<char>)>
    decreases s.len(),
{
    if s.len() == 0 {
        None
    } else if s[0] == '"' {
        Some((Seq::empty(), s.skip(1)))
    } else if s[0] == '\\' {
        if s.len() >= 2 && (s[1] == '"' || s[1] == '\\') {
            match parse_jstring(s.skip(2)) {
                Some((t, r)) => Some((seq![s[1]] + t, r)),
                None => None,
            }
        } else if s.len() >= 6 && s[1] == 'u' && s[2] == '0' && s[3] == '0' && is_hex_lower(s[4])
            && is_hex_lower(s[5]) && hex_val(s[4]) * 16 + hex_val(s[5]) < 32 {
            match parse_jstring(s.skip(6)) {
                Some((t, r)) => Some(
                    (seq![((hex_val(s[4]) * 16 + hex_val(s[5])) as u32) as char] + t, r),
                ),
                None => None,
            }
        } else {
            None
        }
    } else {
        match parse_jstring(s.skip(1)) {
            Some((t, r)) => Some((seq![s[0]] + t, r)),
            None => None,
        }
    }
}

/// Escaping is one-for-one per character.
proof fn lemma_escape_snoc(s: Seq<char>, c: char)
    ensures
        escape(s.push(c)) == escape(s) + escape_char(c),
    decreases s.len(),
{
    if s.len() == 0 {
        assert(s.push(c)[0] == c);
        assert(s.push(c).skip(1) =~= Seq::<char>::empty());
        assert(escape(Seq::<char>::empty()) == Seq::<char>::empty());
        assert(escape(s.push(c)) == escape_char(c) + escape(Seq::<char>::empty()));
        assert(escape_char(c) + Seq::<char>::empty() =~= escape_char(c));
        assert(escape(s) + escape_char(c) =~= escape_char(c));
    } else {
        assert(s.push(c)[0] == s[0]);
        assert(s.push(c).skip(1) =~= s.skip(1).push(c));
        lemma_escape_snoc(s.skip(1), c);
        assert(escape_char(s[0]) + (escape(s.skip(1)) + escape_char(c)) =~= (escape_char(s[0])
            + escape(s.skip(1))) + escape_char(c));
    }
}

/// Hex digits round-trip through their character form.
proof fn lemma_hex_digit_roundtrip(d: int)
    requires
        0 <= d < 16,
    ensures
        is_hex_lower(hex_digit_char(d)),
        hex_val(hex_digit_char(d)) == d,
{
}

/// Unescaping inverts escaping: the string body parser reads the escaped
/// text, stops at the closing quote, and returns the original text.
proof fn lemma_parse_jstring_escape(t: Seq<char>, rest: Seq<char>)
    ensures
        parse_jstring(escape(t) + seq!['"'] + rest) == Some((t, rest)),
    decreases t.len(),
{
    if t.len() == 0 {
        let s = escape(t) + seq!['"'] + rest;
        assert(s =~= seq!['"'] + rest);
        assert(s[0] == '"');
        assert(s.skip(1) =~= rest);
        assert(t =~= Seq::<char>::empty());
    } else {
        let c = t[0];
        let s = escape(t) + seq!['"'] + rest;
        let s2 = escape(t.skip(1)) + seq!['"'] + rest;
        lemma_parse_jstring_escape(t.skip(1), rest);
        assert(escape(t) == escape_char(c) + escape(t.skip(1)));
        assert(s =~= escape_char(c) + s2);
        if c == '"' {
            assert(s =~= seq!['\\', '"'] + s2);
            assert(s[0] == '\\' && s[1] == '"');
            assert(s.skip(2) =~= s2);
            assert(seq![s[1]] + t.skip(1) =~= t);
        } else if c == '\\' {
            assert(s =~= seq!['\\', '\\'] + s2);
            assert(s[0] == '\\' && s[1] == '\\');
            assert(s.skip(2) =~= s2);
            assert(seq![s[1]] + t.skip(1) =~= t);
        } else if (c as u32) < 32 {
            let hi = (c as u32 / 16) as int;
            let lo = (c as u32 % 16) as int;
            assert(0 <= hi < 2 && 0 <= lo < 16) by (nonlinear_arith)
                requires (c as u32) < 32, hi == (c as u32 / 16) as int, lo == (c as u32 % 16) as int;
            lemma_hex_digit_roundtrip(hi);
            lemma_hex_digit_roundtrip(lo);
            assert(s =~= seq!['\\', 'u', '0', '0', hex_digit_char(hi), hex_digit_char(lo)] + s2);
            assert(s[0] == '\\' && s[1] == 'u' && s[2] == '0' && s[3] == '0');
            assert(s[4] == hex_digit_char(hi) && s[5] == hex_digit_char(lo));
            assert(s[1] != '"' && s[1] != '\\');
            assert(hi * 16 + lo == c as u32) by (nonlinear_arith)
                requires hi == (c as u32 / 16) as int, lo == (c as u32 % 16) as int;
            assert(s.skip(6) =~= s2);
            vstd::utf8::char_u32_cast(c, c as u32);
            assert(((hex_val(s[4]) * 16 + hex_val(s[5])) as u32) as char == c);
            assert(seq![c] + t.skip(1) =~= t);
        } else {
            assert(s =~= seq![c] + s2);
            assert(s[0] == c);
            assert(c != '"' && c != '\\');
            assert(s.skip(1) =~= s2);
            assert(seq![s[0]] + t.skip(1) =~= t);
        }
    }
}

/// Appends one character in its escaped form.
fn append_escaped_char(s: &mut String, c: char)
    ensures
        final(s)@ == old(s)@ + escape_char(c),
{
    if c == '"' {
        push_char(s, '\\');
        push_char(s, '"');
        proof {
            assert(old(s)@.push('\\').push('"') =~= old(s)@ + escape_char(c));
        }
    } else if c == '\\' {
        push_char(s, '\\');
        push_char(s, '\\');
        proof {
            assert(old(s)@.push('\\').push('\\') =~= old(s)@ + escape_char(c));
        }
    } else if (c as u32) < 32 {
        let v = c as u32;
        proof {
            assert(v / 16 < 16 && v % 16 < 16) by (nonlinear_arith)
                requires v < 32;
        }
        push_char(s, '\\');
        push_char(s, 'u');
        push_char(s, '0');
        push_char(s, '0');
        push_char(s, hex_digit_char_exec(v / 16));
        push_char(s, hex_digit_char_exec(v % 16));
        proof {
            assert(old(s)@.push('\\').push('u').push('0').push('0').push(
                hex_digit_char((v / 16) as int),
            ).push(hex_digit_char((v % 16) as int)) =~= old(s)@ + escape_char(c));
        }
    } else {
        push_char(s, c);
        proof {
            assert(old(s)@.push(c) =~= old(s)@ + escape_char(c));
        }
    }
}

/// Appends text in its escaped form.
fn append_escaped(s: &mut String, t: &str)
    ensures
        final(s)@ == old(s)@ + escape(t@),
{
    let chars = str_to_chars(t);
    let mut i: usize = 0;
    while i < chars.len()
        invariant
            chars@ == t@,
            i <= t@.len(),
            s@ == old(s)@ + escape(t@.take(i as int)),
        decreases t@.len() - i,
    {
        append_escaped_char(s, chars[i]);
        proof {
            assert(t@.take(i + 1 as int) =~= t@.take(i as int).push(t@[i as int]));
            lemma_escape_snoc(t@.take(i as int), t@[i as int]);
            assert((old(s)@ + escape(t@.take(i as int))) + escape_char(t@[i as int]) =~= old(s)@
                + escape(t@.take(i + 1 as int)));
        }
        i = i + 1;
    }
    proof {
        assert(t@.take(t@.len() as int) =~= t@);
    }
}

/// Reads an escaped string body at position `i`, through its closing quote,
/// exactly as the model parser does.
fn parse_jstring_exec(v: &Vec<char>, i: usize) -> (r: Option<(Vec<char>, usize)>)
    requires
        i <= v@.len(),
    ensures
        match r {
            Some((t, j)) => i <= j <= v@.len() && parse_jstring(v@.skip(i as int)) == Some(
                (t@, v@.skip(j as int)),
            ),
            None => parse_jstring(v@.skip(i as int)) is None,
        },
{
    let mut acc: Vec<char> = Vec::new();
    let mut cur: usize = i;
    loop
        invariant
            i <= cur <= v@.len(),
            parse_jstring(v@.skip(i as int)) == (match parse_jstring(v@.skip(cur as int)) {
                Some((t, r)) => Some((acc@ + t, r)),
                None => None::<(Seq<char>, Seq<char>)>,
            }),
        decreases v@.len() - cur,
    {
        let ghost sc = v@.skip(cur as int);
        if cur >= v.len() {
            return None;
        }
        let c = v[cur];
        proof {
            assert(sc[0] == v@[cur as int]);
        }
        if c == '"' {
            proof {
                assert(sc.skip(1) =~= v@.skip(cur + 1 as int));
                assert(acc@ + Seq::<char>::empty() =~= acc@);
            }
            return Some((acc, cur + 1));
        } else if c == '\\' {
            proof {
                if sc.len() >= 2 {
                    assert(sc[1] == v@[cur + 1 as int]);
                }
                if sc.len() >= 6 {
                    assert(sc[2] == v@[cur + 2 as int]);
                    assert(sc[3] == v@[cur + 3 as int]);
                    assert(sc[4] == v@[cur + 4 as int]);
                    assert(sc[5] == v@[cur + 5 as int]);
                }
            }
            if cur + 1 < v.len() && (v[cur + 1] == '"' || v[cur + 1] == '\\') {
                let e = v[cur + 1];
                proof {
                    assert(sc.skip(2) =~= v@.skip(cur + 2 as int));
                    match parse_jstring(v@.skip(cur + 2 as int)) {
                        Some((t0, r0)) => {
                            assert(acc@ + (seq![e] + t0) =~= acc@.push(e) + t0);
                        },
                        None => {},
                    }
                }
                acc.push(e);
                cur = cur + 2;
            } else if v.len() - cur > 5 && v[cur + 1] == 'u' && v[cur + 2] == '0' && v[cur + 3]
                == '0' && is_hex_lower_exec(v[cur + 4]) && is_hex_lower_exec(v[cur + 5]) {
                let hv = hex_val_exec(v[cur + 4]) * 16 + hex_val_exec(v[cur + 5]);
                if hv < 32 {
                    let e = low_char_exec(hv);
                    proof {
                        assert(sc.skip(6) =~= v@.skip(cur + 6 as int));
                        match parse_jstring(v@.skip(cur + 6 as int)) {
                            Some((t0, r0)) => {
                                assert(acc@ + (seq![e] + t0) =~= acc@.push(e) + t0);
                            },
                            None => {},
                        }
                    }
                    acc.push(e);
                    cur = cur + 6;
                } else {
                    return None;
                }
            } else {
                return None;
            }
        } else {
            proof {
                assert(sc.skip(1) =~= v@.skip(cur + 1 as int));
                match parse_jstring(v@.skip(cur + 1 as int)) {
                    Some((t0, r0)) => {
                        assert(acc@ + (seq![c] + t0) =~= acc@.push(c) + t0);
                    },
                    None => {},
                }
            }
            acc.push(c);
            cur = cur + 1;
        }
    }
}

// ---------------------------------------------------------------------------
// Literals
// ---------------------------------------------------------------------------

/// Consumes an expected literal prefix.
pub open spec fn parse_lit(s: Seq<char>, p: Seq<char>) -> Option<Seq<char>> {
    if p.len() <= s.len() && s.take(p.len() as int) == p {
        Some(s.skip(p.len() as int))
    } else {
        None
    }
}

proof fn lemma_parse_lit_prefix(p: Seq<char>, rest: Seq<char>)
    ensures
        parse_lit(p + rest, p) == Some(rest),
{
    assert((p + rest).take(p.len() as int) =~= p);
    assert((p + rest).skip(p.len() as int) =~= rest);
}

proof fn lemma_parse_lit_mismatch2(s: Seq<char>, p: Seq<char>)
    requires
        s.len() > 2,
        p.len() > 2,
        s[2] != p[2],
    ensures
        parse_lit(s, p) is None,
{
    if p.len() <= s.len() && s.take(p.len() as int) == p {
        assert(s.take(p.len() as int)[2] == s[2]);
    }
}

/// Consumes the literal at position `i` when it is present.
fn expect_lit(v: &Vec<char>, i: usize, lit: &str) -> (r: Option<usize>)
    requires
        i <= v@.len(),
    ensures
        match r {
            Some(j) => i <= j <= v@.len() && parse_lit(v@.skip(i as int), lit@) == Some(
                v@.skip(j as int),
            ),
            None => parse_lit(v@.skip(i as int), lit@) is None,
        },
{
    let l = str_to_chars(lit);
    let ghost s = v@.skip(i as int);
    if v.len() - i < l.len() {
        return None;
    }
    let vn = v.len();
    let mut k: usize = 0;
    while k < l.len()
        invariant
            vn == v@.len(),
            l@ == lit@,
            i <= v@.len(),
            lit@.len() <= v@.len() - i,
            k <= lit@.len(),
            forall|m: int| 0 <= m < k ==> v@.skip(i as int)[m] == lit@[m],
        decreases l@.len() - k,
    {
        proof {
            assert(i + k < v@.len());
        }
        if v[i + k] != l[k] {
            proof {
                assert(v@.skip(i as int)[k as int] == v@[i + k as int]);
                if parse_lit(v@.skip(i as int), lit@) is Some {
                    assert(v@.skip(i as int).take(lit@.len() as int)[k as int] == v@.skip(
                        i as int,
                    )[k as int]);
                }
            }
            return None;
        }
        proof {
            assert(v@.skip(i as int)[k as int] == v@[i + k as int]);
        }
        k = k + 1;
    }
    proof {
        assert(v@.skip(i as int).take(lit@.len() as int) =~= lit@);
    }
    Some(i + l.len())
}

// ---------------------------------------------------------------------------
// Events
// ---------------------------------------------------------------------------

/// The stored JSON form of an event.
pub open spec fn spec_encode_event(e: BankAccountEventV) -> Seq<char> {
    match e {
        BankAccountEventV::Opened { bank_account_id, name, occurred_at } => (
        "{\"Opened\":{\"bank_account_id\":\""@ + escape(bank_account_id) + seq!['"']
            + ",\"name\":\""@ + escape(name) + seq!['"'] + ",\"occurred_at\":"@ + dec_int(
            occurred_at as int,
        ) + "}}"@),
        BankAccountEventV::Updated { bank_account_id, name, occurred_at } => (
        "{\"Updated\":{\"bank_account_id\":\""@ + escape(bank_account_id) + seq!['"']
            + ",\"name\":\""@ + escape(name) + seq!['"'] + ",\"occurred_at\":"@ + dec_int(
            occurred_at as int,
        ) + "}}"@),
        BankAccountEventV::Deposited { bank_account_id, deposit, occurred_at } => (
        "{\"Deposited\":{\"bank_account_id\":\""@ + escape(bank_account_id) + seq!['"']
            + ",\"deposit\":"@ + dec_int(deposit as int) + ",\"occurred_at\":"@ + dec_int(
            occurred_at as int,
        ) + "}}"@),
        BankAccountEventV::Withdrawn { bank_account_id, withdraw, occurred_at } => (
        "{\"Withdrawn\":{\"bank_account_id\":\""@ + escape(bank_account_id) + seq!['"']
            + ",\"withdraw\":"@ + dec_int(withdraw as int) + ",\"occurred_at\":"@ + dec_int(
            occurred_at as int,
        ) + "}}"@),
        BankAccountEventV::Closed { bank_account_id, occurred_at } => (
        "{\"Closed\":{\"bank_account_id\":\""@ + escape(bank_account_id) + seq!['"']
            + ",\"occurred_at\":"@ + dec_int(occurred_at as int) + "}}"@),
    }
}

/// Parses the tail of an `Opened` or `Updated` body, after the opening quote
/// of the account id.
pub open spec fn parse_name_variant_tail(s: Seq<char>, opened: bool) -> Option<
    BankAccountEventV,
> {
    match parse_jstring(s) {
        None => None,
        Some((id, r1)) => if !valid_uuid_chars(id) {
            None
        } else {
            match parse_lit(r1, ",\"name\":\""@) {
                None => None,
                Some(r2) => match parse_jstring(r2) {
                    None => None,
                    Some((name, r3)) => match parse_lit(r3, ",\"occurred_at\":"@) {
                        None => None,
                        Some(r4) => match parse_int(r4) {
                            None => None,
                            Some((at, r5)) => match parse_lit(r5, "}}"@) {
                                None => None,
                                Some(r6) => if r6.len() == 0 {
                                    if opened {
                                        Some(
                                            BankAccountEventV::Opened {
                                                bank_account_id: id,
                                                name,
                                                occurred_at: at as i64,
                                            },
                                        )
                                    } else {
                                        Some(
                                            BankAccountEventV::Updated {
                                                bank_account_id: id,
                                                name,
                                                occurred_at: at as i64,
                                            },
                                        )
                                    }
                                } else {
                                    None
                                },
                            },
                        },
                    },
                },
            }
        },
    }
}

/// Parses the tail of a `Deposited` or `Withdrawn` body, after the opening
/// quote of the account id.
pub open spec fn parse_amount_variant_tail(s: Seq<char>, deposited: bool) -> Option<
    BankAccountEventV,
> {
    match parse_jstring(s) {
        None => None,
        Some((id, r1)) => if !valid_uuid_chars(id) {
            None
        } else {
            match parse_lit(r1, if deposited { ",\"deposit\":"@ } else { ",\"withdraw\":"@ }) {
                None => None,
                Some(r2) => match parse_int(r2) {
                    None => None,
                    Some((amt, r3)) => if amt < -0x8000_0000 || amt > 0x7fff_ffff {
                        None
                    } else {
                        match parse_lit(r3, ",\"occurred_at\":"@) {
                            None => None,
                            Some(r4) => match parse_int(r4) {
                                None => None,
                                Some((at, r5)) => match parse_lit(r5, "}}"@) {
                                    None => None,
                                    Some(r6) => if r6.len() == 0 {
                                        if deposited {
                                            Some(
                                                BankAccountEventV::Deposited {
                                                    bank_account_id: id,
                                                    deposit: amt as i32,
                                                    occurred_at: at as i64,
                                                },
                                            )
                                        } else {
                                            Some(
                                                BankAccountEventV::Withdrawn {
                                                    bank_account_id: id,
                                                    withdraw: amt as i32,
                                                    occurred_at: at as i64,
                                                },
                                            )
                                        }
                                    } else {
                                        None
                                    },
                                },
                            },
                        }
                    },
                },
            }
        },
    }
}

/// Parses the tail of a `Closed` body, after the opening quote of the
/// account id.
pub open spec fn parse_closed_tail(s: Seq<char>) -> Option<BankAccountEventV> {
    match parse_jstring(s) {
        None => None,
        Some((id, r1)) => if !valid_uuid_chars(id) {
            None
        } else {
            match parse_lit(r1, ",\"occurred_at\":"@) {
                None => None,
                Some(r2) => match parse_int(r2) {
                    None => None,
                    Some((at, r3)) => match parse_lit(r3, "}}"@) {
                        None => None,
                        Some(r4) => if r4.len() == 0 {
                            Some(
                                BankAccountEventV::Closed {
                                    bank_account_id: id,
                                    occurred_at: at as i64,
                                },
                            )
                        } else {
                            None
                        },
                    },
                },
            }
        },
    }
}

/// Parses a stored event body back into an event model.
pub open spec fn spec_parse_event(s: Seq<char>) -> Option<BankAccountEventV> {
    if parse_lit(s, "{\"Opened\":{\"bank_account_id\":\""@) is Some {
        parse_name_variant_tail(parse_lit(s, "{\"Opened\":{\"bank_account_id\":\""@)->Some_0, true)
    } else if parse_lit(s, "{\"Updated\":{\"bank_account_id\":\""@) is Some {
        parse_name_variant_tail(
            parse_lit(s, "{\"Updated\":{\"bank_account_id\":\""@)->Some_0,
            false,
        )
    } else if parse_lit(s, "{\"Deposited\":{\"bank_account_id\":\""@) is Some {
        parse_amount_variant_tail(
            parse_lit(s, "{\"Deposited\":{\"bank_account_id\":\""@)->Some_0,
            true,
        )
    } else if parse_lit(s, "{\"Withdrawn\":{\"bank_account_id\":\""@) is Some {
        parse_amount_variant_tail(
            parse_lit(s, "{\"Withdrawn\":{\"bank_account_id\":\""@)->Some_0,
            false,
        )
    } else if parse_lit(s, "{\"Closed\":{\"bank_account_id\":\""@) is Some {
        parse_closed_tail(parse_lit(s, "{\"Closed\":{\"bank_account_id\":\""@)->Some_0)
    } else {
        None
    }
}

/// Renders an event as its stored JSON body.
pub fn encode_event(event: &BankAccountEvent) -> (r: String)
    ensures
        r@ == spec_encode_event(event@),
        crate::aggregate::event_v_wf(event@),
{
    match event {
        BankAccountEvent::Opened { bank_account_id, name, occurred_at } => {
            let mut s = String::new();
            s.append("{\"Opened\":{\"bank_account_id\":\"");
            append_escaped(&mut s, bank_account_id.value());
            push_char(&mut s, '"');
            s.append(",\"name\":\"");
            append_escaped(&mut s, name.value());
            push_char(&mut s, '"');
            s.append(",\"occurred_at\":");
            append_dec_i64(&mut s, occurred_at.millis());
            s.append("}}");
            proof {
                assert(s@ =~= spec_encode_event(event@));
            }
            s
        },
        BankAccountEvent::Updated { bank_account_id, name, occurred_at } => {
            let mut s = String::new();
            s.append("{\"Updated\":{\"bank_account_id\":\"");
            append_escaped(&mut s, bank_account_id.value());
            push_char(&mut s, '"');
            s.append(",\"name\":\"");
            append_escaped(&mut s, name.value());
            push_char(&mut s, '"');
            s.append(",\"occurred_at\":");
            append_dec_i64(&mut s, occurred_at.millis());
            s.append("}}");
            proof {
                assert(s@ =~= spec_encode_event(event@));
            }
            s
        },
        BankAccountEvent::Deposited { bank_account_id, deposit, occurred_at } => {
            let mut s = String::new();
            s.append("{\"Deposited\":{\"bank_account_id\":\"");
            append_escaped(&mut s, bank_account_id.value());
            push_char(&mut s, '"');
            s.append(",\"deposit\":");
            append_dec_i64(&mut s, *deposit as i64);
            s.append(",\"occurred_at\":");
            append_dec_i64(&mut s, occurred_at.millis());
            s.append("}}");
            proof {
                assert(s@ =~= spec_encode_event(event@));
            }
            s
        },
        BankAccountEvent::Withdrawn { bank_account_id, withdraw, occurred_at } => {
            let mut s = String::new();
            s.append("{\"Withdrawn\":{\"bank_account_id\":\"");
            append_escaped(&mut s, bank_account_id.value());
            push_char(&mut s, '"');
            s.append(",\"withdraw\":");
            append_dec_i64(&mut s, *withdraw as i64);
            s.append(",\"occurred_at\":");
            append_dec_i64(&mut s, occurred_at.millis());
            s.append("}}");
            proof {
                assert(s@ =~= spec_encode_event(event@));
            }
            s
        },
        BankAccountEvent::Closed { bank_account_id, occurred_at } => {
            let mut s = String::new();
            s.append("{\"Closed\":{\"bank_account_id\":\"");
            append_escaped(&mut s, bank_account_id.value());
            push_char(&mut s, '"');
            s.append(",\"occurred_at\":");
            append_dec_i64(&mut s, occurred_at.millis());
            s.append("}}");
            proof {
                assert(s@ =~= spec_encode_event(event@));
            }
            s
        },
    }
}

/// Checks that text is an account id in canonical hyphenated form.
fn is_canonical_uuid(v: &Vec<char>) -> (r: bool)
    ensures
        r == valid_uuid_chars(v@),
{
    if v.len() != 36 {
        return false;
    }
    let mut i: usize = 0;
    while i < 36
        invariant
            v@.len() == 36,
            i <= 36,
            forall|j: int|
                0 <= j < i ==> (if crate::aggregate::uuid_hyphen_pos(j) {
                    v@[j] == '-'
                } else {
                    crate::aggregate::is_lower_hex_digit(#[trigger] v@[j])
                }),
        decreases 36 - i,
    {
        let c = v[i];
        if i == 8 || i == 13 || i == 18 || i == 23 {
            if c != '-' {
                return false;
            }
        } else {
            if !(('0' <= c && c <= '9') || ('a' <= c && c <= 'f')) {
                return false;
            }
        }
        i = i + 1;
    }
    true
}

fn decode_name_variant(v: &Vec<char>, j: usize, opened: bool) -> (r: Option<BankAccountEvent>)
    requires
        j <= v@.len(),
    ensures
        match r {
            Some(ev) => parse_name_variant_tail(v@.skip(j as int), opened) == Some(ev@),
            None => parse_name_variant_tail(v@.skip(j as int), opened) is None,
        },
{
    let (idv, p1) = match parse_jstring_exec(v, j) {
        Some(x) => x,
        None => { return None },
    };
    if !is_canonical_uuid(&idv) {
        return None;
    }
    let p2 = match expect_lit(v, p1, ",\"name\":\"") {
        Some(x) => x,
        None => { return None },
    };
    let (namev, p3) = match parse_jstring_exec(v, p2) {
        Some(x) => x,
        None => { return None },
    };
    let p4 = match expect_lit(v, p3, ",\"occurred_at\":") {
        Some(x) => x,
        None => { return None },
    };
    let (at, p5) = match parse_i64_exec(v, p4) {
        Some(x) => x,
        None => { return None },
    };
    let p6 = match expect_lit(v, p5, "}}") {
        Some(x) => x,
        None => { return None },
    };
    if p6 != v.len() {
        return None;
    }
    proof {
        assert(v@.skip(p6 as int).len() == 0);
    }
    let id = BankAccountId::from_canonical(chars_to_string(&idv));
    let name = BankAccountName::from_raw(chars_to_string(&namev));
    let ts = Timestamp::new(at);
    if opened {
        Some(BankAccountEvent::Opened { bank_account_id: id, name, occurred_at: ts })
    } else {
        Some(BankAccountEvent::Updated { bank_account_id: id, name, occurred_at: ts })
    }
}

fn decode_amount_variant(v: &Vec<char>, j: usize, deposited: bool) -> (r: Option<
    BankAccountEvent,
>)
    requires
        j <= v@.len(),
    ensures
        match r {
            Some(ev) => parse_amount_variant_tail(v@.skip(j as int), deposited) == Some(ev@),
            None => parse_amount_variant_tail(v@.skip(j as int), deposited) is None,
        },
{
    let (idv, p1) = match parse_jstring_exec(v, j) {
        Some(x) => x,
        None => { return None },
    };
    if !is_canonical_uuid(&idv) {
        return None;
    }
    let p2 = match expect_lit(v, p1, if deposited { ",\"deposit\":" } else { ",\"withdraw\":" }) {
        Some(x) => x,
        None => { return None },
    };
    let (amt, p3) = match parse_i64_exec(v, p2) {
        Some(x) => x,
        None => { return None },
    };
    if amt < -2147483648 || amt > 2147483647 {
        return None;
    }
    let p4 = match expect_lit(v, p3, ",\"occurred_at\":") {
        Some(x) => x,
        None => { return None },
    };
    let (at, p5) = match parse_i64_exec(v, p4) {
        Some(x) => x,
        None => { return None },
    };
    let p6 = match expect_lit(v, p5, "}}") {
        Some(x) => x,
        None => { return None },
    };
    if p6 != v.len() {
        return None;
    }
    proof {
        assert(v@.skip(p6 as int).len() == 0);
    }
    let id = BankAccountId::from_canonical(chars_to_string(&idv));
    let ts = Timestamp::new(at);
    if deposited {
        Some(
            BankAccountEvent::Deposited {
                bank_account_id: id,
                deposit: amt as i32,
                occurred_at: ts,
            },
        )
    } else {
        Some(
            BankAccountEvent::Withdrawn {
                bank_account_id: id,
                withdraw: amt as i32,
                occurred_at: ts,
            },
        )
    }
}

fn decode_closed_variant(v: &Vec<char>, j: usize) -> (r: Option<BankAccountEvent>)
    requires
        j <= v@.len(),
    ensures
        match r {
            Some(ev) => parse_closed_tail(v@.skip(j as int)) == Some(ev@),
            None => parse_closed_tail(v@.skip(j as int)) is None,
        },
{
    let (idv, p1) = match parse_jstring_exec(v, j) {
        Some(x) => x,
        None => { return None },
    };
    if !is_canonical_uuid(&idv) {
        return None;
    }
    let p2 = match expect_lit(v, p1, ",\"occurred_at\":") {
        Some(x) => x,
        None => { return None },
    };
    let (at, p3) = match parse_i64_exec(v, p2) {
        Some(x) => x,
        None => { return None },
    };
    let p4 = match expect_lit(v, p3, "}}") {
        Some(x) => x,
        None => { return None },
    };
    if p4 != v.len() {
        return None;
    }
    proof {
        assert(v@.skip(p4 as int).len() == 0);
    }
    let id = BankAccountId::from_canonical(chars_to_string(&idv));
    let ts = Timestamp::new(at);
    Some(BankAccountEvent::Closed { bank_account_id: id, occurred_at: ts })
}

/// Parses a stored event body; returns the event exactly when the text is a
/// well-formed body.
pub fn decode_event(s: &str) -> (r: Option<BankAccountEvent>)
    ensures
        match r {
            Some(ev) => spec_parse_event(s@) == Some(ev@),
            None => spec_parse_event(s@) is None,
        },
{
    let v = str_to_chars(s);
    proof {
        assert(v@.skip(0) =~= s@);
    }
    if let Some(j) = expect_lit(&v, 0, "{\"Opened\":{\"bank_account_id\":\"") {
        decode_name_variant(&v, j, true)
    } else if let Some(j) = expect_lit(&v, 0, "{\"Updated\":{\"bank_account_id\":\"") {
        decode_name_variant(&v, j, false)
    } else if let Some(j) = expect_lit(&v, 0, "{\"Deposited\":{\"bank_account_id\":\"") {
        decode_amount_variant(&v, j, true)
    } else if let Some(j) = expect_lit(&v, 0, "{\"Withdrawn\":{\"bank_account_id\":\"") {
        decode_amount_variant(&v, j, false)
    } else if let Some(j) = expect_lit(&v, 0, "{\"Closed\":{\"bank_account_id\":\"") {
        decode_closed_variant(&v, j)
    } else {
        None
    }
}

/// Shared context for the per-variant round-trip proofs.
proof fn lemma_fin_shape()
    ensures
        "}}"@.len() == 2,
        "}}"@[0] == '}',
        !is_dec_digit("}}"@[0]),
{
    reveal_strlit("}}");
}

proof fn lemma_round_trip_opened(e: BankAccountEventV)
    requires
        crate::aggregate::event_v_wf(e),
        e is Opened,
    ensures
        spec_parse_event(spec_encode_event(e)) == Some(e),
{
    let id = e->Opened_bank_account_id;
    let name = e->Opened_name;
    let at = e->Opened_occurred_at;
    let pre_o = "{\"Opened\":{\"bank_account_id\":\""@;
    let q = seq!['"'];
    let fin = "}}"@;
    let enc = spec_encode_event(e);
    lemma_fin_shape();
    let t4 = dec_int(at as int) + fin;
    let t3 = ",\"occurred_at\":"@ + t4;
    let t2 = escape(name) + q + t3;
    let t1 = ",\"name\":\""@ + t2;
    let t0 = escape(id) + q + t1;
    assert(enc =~= pre_o + t0);
    lemma_parse_lit_prefix(pre_o, t0);
    lemma_parse_jstring_escape(id, t1);
    lemma_parse_lit_prefix(",\"name\":\""@, t2);
    lemma_parse_jstring_escape(name, t3);
    lemma_parse_lit_prefix(",\"occurred_at\":"@, t4);
    lemma_parse_int_of_dec(at as int, fin);
    lemma_parse_lit_prefix(fin, Seq::<char>::empty());
    assert(fin + Seq::<char>::empty() =~= fin);
}

proof fn lemma_round_trip_updated(e: BankAccountEventV)
    requires
        crate::aggregate::event_v_wf(e),
        e is Updated,
    ensures
        spec_parse_event(spec_encode_event(e)) == Some(e),
{
    let id = e->Updated_bank_account_id;
    let name = e->Updated_name;
    let at = e->Updated_occurred_at;
    let pre_o = "{\"Opened\":{\"bank_account_id\":\""@;
    let pre_u = "{\"Updated\":{\"bank_account_id\":\""@;
    let q = seq!['"'];
    let fin = "}}"@;
    let enc = spec_encode_event(e);
    lemma_fin_shape();
    let t4 = dec_int(at as int) + fin;
    let t3 = ",\"occurred_at\":"@ + t4;
    let t2 = escape(name) + q + t3;
    let t1 = ",\"name\":\""@ + t2;
    let t0 = escape(id) + q + t1;
    assert(enc =~= pre_u + t0);
    reveal_strlit("{\"Opened\":{\"bank_account_id\":\"");
    reveal_strlit("{\"Updated\":{\"bank_account_id\":\"");
    assert(enc[2] == pre_u[2]);
    lemma_parse_lit_mismatch2(enc, pre_o);
    lemma_parse_lit_prefix(pre_u, t0);
    lemma_parse_jstring_escape(id, t1);
    lemma_parse_lit_prefix(",\"name\":\""@, t2);
    lemma_parse_jstring_escape(name, t3);
    lemma_parse_lit_prefix(",\"occurred_at\":"@, t4);
    lemma_parse_int_of_dec(at as int, fin);
    lemma_parse_lit_prefix(fin, Seq::<char>::empty());
    assert(fin + Seq::<char>::empty() =~= fin);
}

proof fn lemma_round_trip_deposited(e: BankAccountEventV)
    requires
        crate::aggregate::event_v_wf(e),
        e is Deposited,
    ensures
        spec_parse_event(spec_encode_event(e)) == Some(e),
{
    let id = e->Deposited_bank_account_id;
    let deposit = e->Deposited_deposit;
    let at = e->Deposited_occurred_at;
    let pre_o = "{\"Opened\":{\"bank_account_id\":\""@;
    let pre_u = "{\"Updated\":{\"bank_account_id\":\""@;
    let pre_d = "{\"Deposited\":{\"bank_account_id\":\""@;
    let q = seq!['"'];
    let fin = "}}"@;
    let enc = spec_encode_event(e);
    lemma_fin_shape();
    let t4 = dec_int(at as int) + fin;
    let t3 = ",\"occurred_at\":"@ + t4;
    let t2 = dec_int(deposit as int) + t3;
    let t1 = ",\"deposit\":"@ + t2;
    let t0 = escape(id) + q + t1;
    assert(enc =~= pre_d + t0);
    reveal_strlit("{\"Opened\":{\"bank_account_id\":\"");
    reveal_strlit("{\"Updated\":{\"bank_account_id\":\"");
    reveal_strlit("{\"Deposited\":{\"bank_account_id\":\"");
    assert(enc[2] == pre_d[2]);
    lemma_parse_lit_mismatch2(enc, pre_o);
    lemma_parse_lit_mismatch2(enc, pre_u);
    lemma_parse_lit_prefix(pre_d, t0);
    lemma_parse_jstring_escape(id, t1);
    lemma_parse_lit_prefix(",\"deposit\":"@, t2);
    reveal_strlit(",\"occurred_at\":");
    assert(t3[0] == ',' && !is_dec_digit(t3[0]));
    lemma_parse_int_of_dec(deposit as int, t3);
    lemma_parse_lit_prefix(",\"occurred_at\":"@, t4);
    lemma_parse_int_of_dec(at as int, fin);
    lemma_parse_lit_prefix(fin, Seq::<char>::empty());
    assert(fin + Seq::<char>::empty() =~= fin);
}

proof fn lemma_round_trip_withdrawn(e: BankAccountEventV)
    requires
        crate::aggregate::event_v_wf(e),
        e is Withdrawn,
    ensures
        spec_parse_event(spec_encode_event(e)) == Some(e),
{
    let id = e->Withdrawn_bank_account_id;
    let withdraw = e->Withdrawn_withdraw;
    let at = e->Withdrawn_occurred_at;
    let pre_o = "{\"Opened\":{\"bank_account_id\":\""@;
    let pre_u = "{\"Updated\":{\"bank_account_id\":\""@;
    let pre_d = "{\"Deposited\":{\"bank_account_id\":\""@;
    let pre_w = "{\"Withdrawn\":{\"bank_account_id\":\""@;
    let q = seq!['"'];
    let fin = "}}"@;
    let enc = spec_encode_event(e);
    lemma_fin_shape();
    let t4 = dec_int(at as int) + fin;
    let t3 = ",\"occurred_at\":"@ + t4;
    let t2 = dec_int(withdraw as int) + t3;
    let t1 = ",\"withdraw\":"@ + t2;
    let t0 = escape(id) + q + t1;
    assert(enc =~= pre_w + t0);
    reveal_strlit("{\"Opened\":{\"bank_account_id\":\"");
    reveal_strlit("{\"Updated\":{\"bank_account_id\":\"");
    reveal_strlit("{\"Deposited\":{\"bank_account_id\":\"");
    reveal_strlit("{\"Withdrawn\":{\"bank_account_id\":\"");
    assert(enc[2] == pre_w[2]);
    lemma_parse_lit_mismatch2(enc, pre_o);
    lemma_parse_lit_mismatch2(enc, pre_u);
    lemma_parse_lit_mismatch2(enc, pre_d);
    lemma_parse_lit_prefix(pre_w, t0);
    lemma_parse_jstring_escape(id, t1);
    lemma_parse_lit_prefix(",\"withdraw\":"@, t2);
    reveal_strlit(",\"occurred_at\":");
    assert(t3[0] == ',' && !is_dec_digit(t3[0]));
    lemma_parse_int_of_dec(withdraw as int, t3);
    lemma_parse_lit_prefix(",\"occurred_at\":"@, t4);
    lemma_parse_int_of_dec(at as int, fin);
    lemma_parse_lit_prefix(fin, Seq::<char>::empty());
    assert(fin + Seq::<char>::empty() =~= fin);
}

proof fn lemma_round_trip_closed(e: BankAccountEventV)
    requires
        crate::aggregate::event_v_wf(e),
        e is Closed,
    ensures
        spec_parse_event(spec_encode_event(e)) == Some(e),
{
    let id = e->Closed_bank_account_id;
    let at = e->Closed_occurred_at;
    let pre_o = "{\"Opened\":{\"bank_account_id\":\""@;
    let pre_u = "{\"Updated\":{\"bank_account_id\":\""@;
    let pre_d = "{\"Deposited\":{\"bank_account_id\":\""@;
    let pre_w = "{\"Withdrawn\":{\"bank_account_id\":\""@;
    let pre_c = "{\"Closed\":{\"bank_account_id\":\""@;
    let q = seq!['"'];
    let fin = "}}"@;
    let enc = spec_encode_event(e);
    lemma_fin_shape();
    let t2 = dec_int(at as int) + fin;
    let t1 = ",\"occurred_at\":"@ + t2;
    let t0 = escape(id) + q + t1;
    assert(enc =~= pre_c + t0);
    reveal_strlit("{\"Opened\":{\"bank_account_id\":\"");
    reveal_strlit("{\"Updated\":{\"bank_account_id\":\"");
    reveal_strlit("{\"Deposited\":{\"bank_account_id\":\"");
    reveal_strlit("{\"Withdrawn\":{\"bank_account_id\":\"");
    reveal_strlit("{\"Closed\":{\"bank_account_id\":\"");
    assert(enc[2] == pre_c[2]);
    lemma_parse_lit_mismatch2(enc, pre_o);
    lemma_parse_lit_mismatch2(enc, pre_u);
    lemma_parse_lit_mismatch2(enc, pre_d);
    lemma_parse_lit_mismatch2(enc, pre_w);
    lemma_parse_lit_prefix(pre_c, t0);
    lemma_parse_jstring_escape(id, t1);
    lemma_parse_lit_prefix(",\"occurred_at\":"@, t2);
    lemma_parse_int_of_dec(at as int, fin);
    lemma_parse_lit_prefix(fin, Seq::<char>::empty());
    assert(fin + Seq::<char>::empty() =~= fin);
}

/// Decoding inverts encoding: every well-formed event comes back from its
/// stored body unchanged.
pub proof fn lemma_event_codec_round_trip(e: BankAccountEventV)
    requires
        crate::aggregate::event_v_wf(e),
    ensures
        spec_parse_event(spec_encode_event(e)) == Some(e),
{
    match e {
        BankAccountEventV::Opened { .. } => lemma_round_trip_opened(e),
        BankAccountEventV::Updated { .. } => lemma_round_trip_updated(e),
        BankAccountEventV::Deposited { .. } => lemma_round_trip_deposited(e),
        BankAccountEventV::Withdrawn { .. } => lemma_round_trip_withdrawn(e),
        BankAccountEventV::Closed { .. } => lemma_round_trip_closed(e),
    }
}


} // verus!
