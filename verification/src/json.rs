//! JSON building blocks shared by the request serializer and the response
//! parser: character classes, decimal digit rendering, string escaping, and
//! a parser core (strings, integers, and a scanner that steps over one
//! arbitrary JSON value, used to tolerate unknown fields).
//!
//! Every spec function here is the mathematical definition of the grammar;
//! each exec function is proved to return exactly what its spec function
//! says. Positions returned by parsing functions are checked defensively
//! (`k <= j` branches return `None`); those branches are unreachable, but
//! they make termination of the recursive definitions self-evident.

use vstd::prelude::*;

verus! {

// ---------------------------------------------------------------------------
// character classes
// ---------------------------------------------------------------------------

pub open spec fn ws_char(c: char) -> bool {
    c == ' ' || c == '\t' || c == '\n' || c == '\r'
}

pub open spec fn is_digit(c: char) -> bool {
    48 <= c as u32 && c as u32 <= 57
}

/// Numeric value of a decimal digit; 0 for any other character.
pub open spec fn digit_val(c: char) -> int {
    if is_digit(c) {
        c as u32 - 48
    } else {
        0
    }
}

pub open spec fn is_hex(c: char) -> bool {
    is_digit(c) || (97 <= c as u32 && c as u32 <= 102) || (65 <= c as u32 && c as u32 <= 70)
}

/// Numeric value of a hexadecimal digit; 0 for any other character.
pub open spec fn hex_val(c: char) -> int {
    if is_digit(c) {
        c as u32 - 48
    } else if 97 <= c as u32 && c as u32 <= 102 {
        c as u32 - 87
    } else if 65 <= c as u32 && c as u32 <= 70 {
        c as u32 - 55
    } else {
        0
    }
}

fn exec_is_ws(c: char) -> (b: bool)
    ensures
        b == ws_char(c),
{
    c == ' ' || c == '\t' || c == '\n' || c == '\r'
}

fn exec_is_digit(c: char) -> (b: bool)
    ensures
        b == is_digit(c),
{
    let u = c as u32;
    48 <= u && u <= 57
}

fn exec_is_hex(c: char) -> (b: bool)
    ensures
        b == is_hex(c),
{
    let u = c as u32;
    (48 <= u && u <= 57) || (97 <= u && u <= 102) || (65 <= u && u <= 70)
}

fn exec_hex_val(c: char) -> (v: u32)
    ensures
        v == hex_val(c),
        v <= 15,
{
    let u = c as u32;
    if 48 <= u && u <= 57 {
        u - 48
    } else if 97 <= u && u <= 102 {
        u - 87
    } else if 65 <= u && u <= 70 {
        u - 55
    } else {
        0
    }
}

// ---------------------------------------------------------------------------
// rendering integers and decimals
// ---------------------------------------------------------------------------

/// The character for a single decimal digit value.
pub open spec fn digit_char(d: int) -> char {
    if d == 0 { '0' }
    else if d == 1 { '1' }
    else if d == 2 { '2' }
    else if d == 3 { '3' }
    else if d == 4 { '4' }
    else if d == 5 { '5' }
    else if d == 6 { '6' }
    else if d == 7 { '7' }
    else if d == 8 { '8' }
    else { '9' }
}

/// Decimal digits of `n`, most significant first, with no leading zeros
/// (a single `'0'` for zero).
pub open spec fn spec_digits(n: nat) -> Seq<char>
    decreases n,
{
    if n < 10 {
        seq![digit_char(n as int)]
    } else {
        spec_digits(n / 10) + seq![digit_char((n % 10) as int)]
    }
}

/// Rendering of a (possibly negative) integer.
pub open spec fn spec_int_chars(n: int) -> Seq<char> {
    if n < 0 {
        seq!['-'] + spec_digits((-n) as nat)
    } else {
        spec_digits(n as nat)
    }
}

/// Rendering of a non-negative count of thousandths as a decimal number:
/// the integer part, then a fractional part of up to three digits with
/// trailing zeros dropped and no fractional part at all for a whole number.
pub open spec fn spec_decimal_mag_chars(m: int) -> Seq<char> {
    let u = spec_digits((m / 1000) as nat);
    let f = m % 1000;
    if f == 0 {
        u
    } else if f % 100 == 0 {
        u + seq!['.', digit_char(f / 100)]
    } else if f % 10 == 0 {
        u + seq!['.', digit_char(f / 100), digit_char((f / 10) % 10)]
    } else {
        u + seq!['.', digit_char(f / 100), digit_char((f / 10) % 10), digit_char(f % 10)]
    }
}

/// Rendering of a count of thousandths, with a leading minus sign when
/// negative.
pub open spec fn spec_decimal_chars(milli: int) -> Seq<char> {
    if milli < 0 {
        seq!['-'] + spec_decimal_mag_chars(-milli)
    } else {
        spec_decimal_mag_chars(milli)
    }
}

fn exec_digit_char(d: u64) -> (c: char)
    requires
        d < 10,
    ensures
        c == digit_char(d as int),
{
    if d == 0 { '0' }
    else if d == 1 { '1' }
    else if d == 2 { '2' }
    else if d == 3 { '3' }
    else if d == 4 { '4' }
    else if d == 5 { '5' }
    else if d == 6 { '6' }
    else if d == 7 { '7' }
    else if d == 8 { '8' }
    else { '9' }
}

/// Append the decimal digits of `n` to `out`.
pub(crate) fn push_u64(out: &mut Vec<char>, n: u64)
    ensures
        final(out)@ == old(out)@ + spec_digits(n as nat),
    decreases n,
{
    if n < 10 {
        out.push(exec_digit_char(n));
        assert(final(out)@ =~= old(out)@ + spec_digits(n as nat));
    } else {
        push_u64(out, n / 10);
        out.push(exec_digit_char(n % 10));
        assert(final(out)@ =~= old(out)@ + spec_digits(n as nat));
    }
}

/// Append the rendering of a signed integer to `out`.
pub(crate) fn push_i64(out: &mut Vec<char>, n: i64)
    ensures
        final(out)@ == old(out)@ + spec_int_chars(n as int),
{
    if n < 0 {
        out.push('-');
        let mag: u64 = (-(n as i128)) as u64;
        assert(mag as int == -(n as int));
        push_u64(out, mag);
        assert(final(out)@ =~= old(out)@ + spec_int_chars(n as int));
    } else {
        push_u64(out, n as u64);
    }
}

// ---------------------------------------------------------------------------
// string escaping (serialization side)
// ---------------------------------------------------------------------------

/// Escaped form of one character inside a JSON string: quote, backslash and
/// the common control characters get a two-character escape; any other
/// control character below space gets a `\u00XX` escape; everything else is
/// itself.
pub open spec fn spec_escape_char(c: char) -> Seq<char> {
    if c == '"' {
        seq!['\\', '"']
    } else if c == '\\' {
        seq!['\\', '\\']
    } else if c == '\n' {
        seq!['\\', 'n']
    } else if c == '\r' {
        seq!['\\', 'r']
    } else if c == '\t' {
        seq!['\\', 't']
    } else if (c as u32) < 32 {
        seq!['\\', 'u', '0', '0', hex_char(c as u32 as int / 16), hex_char(c as u32 as int % 16)]
    } else {
        seq![c]
    }
}

/// The lower-case hexadecimal character for a digit value below 16.
pub open spec fn hex_char(d: int) -> char {
    if d < 10 {
        digit_char(d)
    } else if d == 10 { 'a' }
    else if d == 11 { 'b' }
    else if d == 12 { 'c' }
    else if d == 13 { 'd' }
    else if d == 14 { 'e' }
    else { 'f' }
}

/// Escaped form of a whole character sequence.
pub open spec fn spec_escape(s: Seq<char>) -> Seq<char>
    decreases s.len(),
{
    if s.len() == 0 {
        Seq::empty()
    } else {
        spec_escape(s.drop_last()) + spec_escape_char(s.last())
    }
}

/// A complete JSON string literal for `s`: quotes around the escaped body.
pub open spec fn spec_json_string(s: Seq<char>) -> Seq<char> {
    seq!['"'] + spec_escape(s) + seq!['"']
}

fn exec_hex_char(d: u32) -> (c: char)
    requires
        d < 16,
    ensures
        c == hex_char(d as int),
{
    if d < 10 {
        exec_digit_char(d as u64)
    } else if d == 10 { 'a' }
    else if d == 11 { 'b' }
    else if d == 12 { 'c' }
    else if d == 13 { 'd' }
    else if d == 14 { 'e' }
    else { 'f' }
}

/// Append the escaped form of one character to `out`.
fn push_escaped_char(out: &mut Vec<char>, c: char)
    ensures
        final(out)@ == old(out)@ + spec_escape_char(c),
{
    if c == '"' {
        out.push('\\');
        out.push('"');
    } else if c == '\\' {
        out.push('\\');
        out.push('\\');
    } else if c == '\n' {
        out.push('\\');
        out.push('n');
    } else if c == '\r' {
        out.push('\\');
        out.push('r');
    } else if c == '\t' {
        out.push('\\');
        out.push('t');
    } else if (c as u32) < 32 {
        out.push('\\');
        out.push('u');
        out.push('0');
        out.push('0');
        out.push(exec_hex_char(c as u32 / 16));
        out.push(exec_hex_char(c as u32 % 16));
    } else {
        out.push(c);
    }
    assert(final(out)@ =~= old(out)@ + spec_escape_char(c));
}

/// Append the characters of a literal to `out`, unchanged.
pub(crate) fn push_lit(out: &mut Vec<char>, s: &str)
    ensures
        final(out)@ == old(out)@ + s@,
{
    let n = s.unicode_len();
    let mut i: usize = 0;
    while i < n
        invariant
            n == s@.len(),
            i <= n,
            out@ == old(out)@ + s@.subrange(0, i as int),
        decreases n - i,
    {
        let c = s.get_char(i);
        out.push(c);
        assert(old(out)@ + s@.subrange(0, i + 1 as int) =~= (old(out)@ + s@.subrange(
            0,
            i as int,
        )).push(s@[i as int]));
        i = i + 1;
    }
    assert(s@.subrange(0, n as int) =~= s@);
}

/// Append the complete JSON string literal for `s` to `out`.
pub(crate) fn push_json_string(out: &mut Vec<char>, s: &str)
    ensures
        final(out)@ == old(out)@ + spec_json_string(s@),
{
    out.push('"');
    let n = s.unicode_len();
    let mut i: usize = 0;
    while i < n
        invariant
            n == s@.len(),
            i <= n,
            out@ == old(out)@ + seq!['"'] + spec_escape(s@.subrange(0, i as int)),
        decreases n - i,
    {
        let c = s.get_char(i);
        push_escaped_char(out, c);
        proof {
            let pre = s@.subrange(0, i + 1);
            assert(pre.drop_last() =~= s@.subrange(0, i as int));
            assert(pre.last() == s@[i as int]);
        }
        i = i + 1;
    }
    out.push('"');
    proof {
        assert(s@.subrange(0, n as int) =~= s@);
        assert(final(out)@ =~= old(out)@ + spec_json_string(s@));
    }
}

// ---------------------------------------------------------------------------
// conversions between `String` and `Vec<char>`
// ---------------------------------------------------------------------------

/// Relies on `String`'s `FromIterator<char>` implementation: collecting
/// chars yields a string whose characters are exactly the input, in order.
#[verifier::external_body]
pub(crate) fn chars_to_string(v: Vec<char>) -> (r: String)
    ensures
        r@ == v@,
{
    v.into_iter().collect()
}

/// The characters of a string slice, as a vector.
pub(crate) fn str_to_chars(s: &str) -> (r: Vec<char>)
    ensures
        r@ == s@,
{
    let n = s.unicode_len();
    let mut v: Vec<char> = Vec::new();
    let mut i: usize = 0;
    while i < n
        invariant
            n == s@.len(),
            i <= n,
            v@ == s@.subrange(0, i as int),
        decreases n - i,
    {
        v.push(s.get_char(i));
        assert(s@.subrange(0, i + 1 as int) =~= s@.subrange(0, i as int).push(s@[i as int]));
        i = i + 1;
    }
    assert(s@.subrange(0, n as int) =~= s@);
    v
}

// ---------------------------------------------------------------------------
// parser core: whitespace, strings, integers
// ---------------------------------------------------------------------------

/// First position at or after `i` holding a non-whitespace character.
pub open spec fn spec_skip_ws(s: Seq<char>, i: int) -> int
    decreases s.len() - i,
{
    if i < 0 || i >= s.len() {
        i
    } else if ws_char(s[i]) {
        spec_skip_ws(s, i + 1)
    } else {
        i
    }
}

pub(crate) fn skip_ws(v: &Vec<char>, i: usize) -> (r: usize)
    requires
        i <= v@.len(),
    ensures
        r as int == spec_skip_ws(v@, i as int),
        i <= r <= v@.len(),
{
    let mut r = i;
    while r < v.len() && exec_is_ws(v[r])
        invariant
            i <= r <= v@.len(),
            spec_skip_ws(v@, i as int) == spec_skip_ws(v@, r as int),
        decreases v@.len() - r,
    {
        r = r + 1;
    }
    r
}

/// Replacement character for a one-letter escape code, if the code is valid.
pub open spec fn spec_escape_code(e: char) -> Option<char> {
    if e == '"' { Some('"') }
    else if e == '\\' { Some('\\') }
    else if e == '/' { Some('/') }
    else if e == 'b' { Some('\u{0008}') }
    else if e == 'f' { Some('\u{000C}') }
    else if e == 'n' { Some('\n') }
    else if e == 'r' { Some('\r') }
    else if e == 't' { Some('\t') }
    else { None }
}

fn exec_escape_code(e: char) -> (r: Option<char>)
    ensures
        r == spec_escape_code(e),
{
    if e == '"' { Some('"') }
    else if e == '\\' { Some('\\') }
    else if e == '/' { Some('/') }
    else if e == 'b' { Some('\u{0008}') }
    else if e == 'f' { Some('\u{000C}') }
    else if e == 'n' { Some('\n') }
    else if e == 'r' { Some('\r') }
    else if e == 't' { Some('\t') }
    else { None }
}

/// The body of a JSON string starting just after the opening quote at
/// position `i - 1`: the decoded characters and the position just after the
/// closing quote. Simple escapes and non-surrogate `\uXXXX` escapes are
/// decoded; a surrogate code unit makes the string fail to parse.
pub open spec fn spec_string_body(s: Seq<char>, i: int) -> Option<(Seq<char>, int)>
    decreases s.len() - i,
{
    if i < 0 || i >= s.len() {
        None
    } else if s[i] == '"' {
        Some((Seq::empty(), i + 1))
    } else if s[i] == '\\' {
        if i + 1 >= s.len() {
            None
        } else if s[i + 1] == 'u' {
            if i + 6 > s.len() {
                None
            } else if is_hex(s[i + 2]) && is_hex(s[i + 3]) && is_hex(s[i + 4]) && is_hex(
                s[i + 5],
            ) {
                let code = hex_val(s[i + 2]) * 4096 + hex_val(s[i + 3]) * 256 + hex_val(
                    s[i + 4],
                ) * 16 + hex_val(s[i + 5]);
                if 0xD800 <= code && code < 0xE000 {
                    None
                } else {
                    match spec_string_body(s, i + 6) {
                        None => None,
                        Some((t, j)) => Some((seq![(code as u32) as char] + t, j)),
                    }
                }
            } else {
                None
            }
        } else {
            match spec_escape_code(s[i + 1]) {
                None => None,
                Some(c) => match spec_string_body(s, i + 2) {
                    None => None,
                    Some((t, j)) => Some((seq![c] + t, j)),
                },
            }
        }
    } else {
        match spec_string_body(s, i + 1) {
            None => None,
            Some((t, j)) => Some((seq![s[i]] + t, j)),
        }
    }
}

/// A complete JSON string starting at position `i` (which must hold the
/// opening quote): the decoded characters and the position after the
/// closing quote.
pub open spec fn spec_parse_string(s: Seq<char>, i: int) -> Option<(Seq<char>, int)> {
    if i < 0 || i >= s.len() || s[i] != '"' {
        None
    } else {
        spec_string_body(s, i + 1)
    }
}

/// Relies on `char::from_u32`: returns `Some` exactly for Unicode scalar
/// values (below the surrogate range or between it and 0x10FFFF), and the
/// returned character has the given code.
#[verifier::external_body]
fn char_from_u32(u: u32) -> (r: Option<char>)
    ensures
        r == (if u < 0xD800 || (0xE000 <= u && u <= 0x10FFFF) {
            Some(u as char)
        } else {
            None::<char>
        }),
{
    char::from_u32(u)
}

fn parse_string_body(v: &Vec<char>, i: usize) -> (r: Option<(Vec<char>, usize)>)
    requires
        i <= v@.len(),
    ensures
        match r {
            None => spec_string_body(v@, i as int) is None,
            Some(p) => spec_string_body(v@, i as int) == Some((p.0@, p.1 as int)) && i < p.1
                <= v@.len(),
        },
    decreases v@.len() - i,
{
    if i >= v.len() {
        return None;
    }
    let c = v[i];
    if c == '"' {
        let empty: Vec<char> = Vec::new();
        Some((empty, i + 1))
    } else if c == '\\' {
        if i + 1 >= v.len() {
            return None;
        }
        let e = v[i + 1];
        if e == 'u' {
            if v.len() < 6 || i > v.len() - 6 {
                return None;
            }
            if !(exec_is_hex(v[i + 2]) && exec_is_hex(v[i + 3]) && exec_is_hex(v[i + 4])
                && exec_is_hex(v[i + 5])) {
                return None;
            }
            let code: u32 = exec_hex_val(v[i + 2]) * 4096 + exec_hex_val(v[i + 3]) * 256
                + exec_hex_val(v[i + 4]) * 16 + exec_hex_val(v[i + 5]);
            if 0xD800 <= code && code < 0xE000 {
                return None;
            }
            let ch = match char_from_u32(code) {
                Some(ch) => ch,
                None => {
                    return None;
                },
            };
            match parse_string_body(v, i + 6) {
                None => None,
                Some((mut t, j)) => {
                    let ghost tv = t@;
                    let mut outv: Vec<char> = Vec::new();
                    outv.push(ch);
                    outv.append(&mut t);
                    assert(outv@ =~= seq![ch] + tv);
                    Some((outv, j))
                },
            }
        } else {
            match exec_escape_code(e) {
                None => None,
                Some(ec) => match parse_string_body(v, i + 2) {
                    None => None,
                    Some((mut t, j)) => {
                        let ghost tv = t@;
                        let mut outv: Vec<char> = Vec::new();
                        outv.push(ec);
                        outv.append(&mut t);
                        assert(outv@ =~= seq![ec] + tv);
                        Some((outv, j))
                    },
                },
            }
        }
    } else {
        match parse_string_body(v, i + 1) {
            None => None,
            Some((mut t, j)) => {
                let ghost tv = t@;
                let mut outv: Vec<char> = Vec::new();
                outv.push(c);
                outv.append(&mut t);
                assert(outv@ =~= seq![c] + tv);
                Some((outv, j))
            },
        }
    }
}

/// Parse a complete JSON string at position `i`; see [`spec_parse_string`].
pub(crate) fn parse_string(v: &Vec<char>, i: usize) -> (r: Option<(Vec<char>, usize)>)
    requires
        i <= v@.len(),
    ensures
        match r {
            None => spec_parse_string(v@, i as int) is None,
            Some(p) => spec_parse_string(v@, i as int) == Some((p.0@, p.1 as int)) && i < p.1
                <= v@.len(),
        },
{
    if i >= v.len() || v[i] != '"' {
        return None;
    }
    parse_string_body(v, i + 1)
}

/// First position at or after `i` holding a non-digit character.
pub open spec fn spec_digits_end(s: Seq<char>, i: int) -> int
    decreases s.len() - i,
{
    if i < 0 || i >= s.len() {
        i
    } else if is_digit(s[i]) {
        spec_digits_end(s, i + 1)
    } else {
        i
    }
}

fn digits_end(v: &Vec<char>, i: usize) -> (r: usize)
    requires
        i <= v@.len(),
    ensures
        r as int == spec_digits_end(v@, i as int),
        i <= r <= v@.len(),
{
    let mut r = i;
    while r < v.len() && exec_is_digit(v[r])
        invariant
            i <= r <= v@.len(),
            spec_digits_end(v@, i as int) == spec_digits_end(v@, r as int),
        decreases v@.len() - r,
    {
        r = r + 1;
    }
    r
}

/// Value of the digit run `s[i..j)`, read as a decimal number.
pub open spec fn spec_digits_val(s: Seq<char>, i: int, j: int) -> int
    decreases j - i,
{
    if j <= i {
        0
    } else {
        spec_digits_val(s, i, j - 1) * 10 + digit_val(s[j - 1])
    }
}

proof fn lemma_digits_end_ge(s: Seq<char>, i: int)
    ensures
        spec_digits_end(s, i) >= i,
    decreases s.len() - i,
{
    if 0 <= i && i < s.len() && is_digit(s[i]) {
        lemma_digits_end_ge(s, i + 1);
    }
}

proof fn lemma_digits_val_nonneg(s: Seq<char>, i: int, j: int)
    ensures
        spec_digits_val(s, i, j) >= 0,
    decreases j - i,
{
    if j > i {
        lemma_digits_val_nonneg(s, i, j - 1);
    }
}

proof fn lemma_digits_val_mono(s: Seq<char>, i: int, j: int, k: int)
    requires
        j <= k,
    ensures
        spec_digits_val(s, i, j) <= spec_digits_val(s, i, k),
    decreases k - j,
{
    if j < k {
        lemma_digits_val_mono(s, i, j, k - 1);
        lemma_digits_val_nonneg(s, i, k - 1);
    }
}

/// A JSON integer at position `i`: an optional minus sign and a digit run
/// with no leading zero, not followed by a fraction or exponent, whose
/// value fits in an `i64`. Returns the value and the position after the
/// digits.
pub open spec fn spec_parse_i64(s: Seq<char>, i: int) -> Option<(i64, int)> {
    if i < 0 || i >= s.len() {
        None
    } else {
        let neg = s[i] == '-';
        let d0 = if neg { i + 1 } else { i };
        if d0 >= s.len() || !is_digit(s[d0]) {
            None
        } else {
            let e = spec_digits_end(s, d0);
            if s[d0] == '0' && e > d0 + 1 {
                None
            } else if e < s.len() && (s[e] == '.' || s[e] == 'e' || s[e] == 'E') {
                None
            } else {
                let m = spec_digits_val(s, d0, e);
                if neg {
                    if m <= 0x8000_0000_0000_0000 {
                        Some(((-m) as i64, e))
                    } else {
                        None
                    }
                } else {
                    if m <= 0x7fff_ffff_ffff_ffff {
                        Some((m as i64, e))
                    } else {
                        None
                    }
                }
            }
        }
    }
}

/// Parse a JSON integer at position `i`; see [`spec_parse_i64`].
#[verifier::loop_isolation(false)]
pub(crate) fn parse_i64(v: &Vec<char>, i: usize) -> (r: Option<(i64, usize)>)
    requires
        i <= v@.len(),
    ensures
        match r {
            None => spec_parse_i64(v@, i as int) is None,
            Some(p) => spec_parse_i64(v@, i as int) == Some((p.0, p.1 as int)) && i < p.1
                <= v@.len(),
        },
{
    if i >= v.len() {
        return None;
    }
    let neg = v[i] == '-';
    let d0 = if neg { i + 1 } else { i };
    if d0 >= v.len() || !exec_is_digit(v[d0]) {
        return None;
    }
    let e = digits_end(v, d0);
    if v[d0] == '0' && e > d0 + 1 {
        return None;
    }
    if e < v.len() && (v[e] == '.' || v[e] == 'e' || v[e] == 'E') {
        return None;
    }
    let ghost m = spec_digits_val(v@, d0 as int, e as int);
    let mut acc: u128 = 0;
    let mut k = d0;
    while k < e
        invariant
            d0 <= k <= e <= v@.len(),
            acc as int == spec_digits_val(v@, d0 as int, k as int),
            acc <= 0xffff_ffff_ffff_ffffu128,
            m == spec_digits_val(v@, d0 as int, e as int),
        decreases e - k,
    {
        let c = v[k];
        let u: u32 = c as u32;
        let d: u128 = if 48 <= u && u <= 57 {
            (u - 48) as u128
        } else {
            0
        };
        assert(d as int == digit_val(v@[k as int]));
        acc = acc * 10 + d;
        k = k + 1;
        assert(acc as int == spec_digits_val(v@, d0 as int, k as int));
        if acc > 0xffff_ffff_ffff_ffffu128 {
            proof {
                lemma_digits_val_mono(v@, d0 as int, k as int, e as int);
            }
            return None;
        }
    }
    proof {
        lemma_digits_end_ge(v@, d0 + 1 as int);
    }
    if neg {
        if acc > 0x8000_0000_0000_0000u128 {
            return None;
        }
        if acc == 0x8000_0000_0000_0000u128 {
            Some((i64::MIN, e))
        } else {
            Some((-(acc as i64), e))
        }
    } else {
        if acc > 0x7fff_ffff_ffff_ffffu128 {
            return None;
        }
        Some((acc as i64, e))
    }
}

/// A JSON integer whose value fits in an `i32`.
pub open spec fn spec_parse_i32(s: Seq<char>, i: int) -> Option<(i32, int)> {
    match spec_parse_i64(s, i) {
        None => None,
        Some((x, j)) => if -0x8000_0000 <= x as int && x as int <= 0x7fff_ffff {
            Some((x as i32, j))
        } else {
            None
        },
    }
}

/// Parse a JSON integer into an `i32`; see [`spec_parse_i32`].
pub(crate) fn parse_i32(v: &Vec<char>, i: usize) -> (r: Option<(i32, usize)>)
    requires
        i <= v@.len(),
    ensures
        match r {
            None => spec_parse_i32(v@, i as int) is None,
            Some(p) => spec_parse_i32(v@, i as int) == Some((p.0, p.1 as int)) && i < p.1
                <= v@.len(),
        },
{
    match parse_i64(v, i) {
        None => None,
        Some((x, j)) => {
            if x < -0x8000_0000i64 || x > 0x7fff_ffffi64 {
                None
            } else {
                Some((x as i32, j))
            }
        },
    }
}

/// A JSON string preceded by optional whitespace.
pub open spec fn spec_ws_string(s: Seq<char>, i: int) -> Option<(Seq<char>, int)> {
    let j = spec_skip_ws(s, i);
    if j < i {
        None
    } else {
        match spec_parse_string(s, j) {
            None => None,
            Some((t, k)) => if k <= j || k > s.len() {
                None
            } else {
                Some((t, k))
            },
        }
    }
}

/// Parse a JSON string preceded by optional whitespace; see
/// [`spec_ws_string`].
pub(crate) fn ws_string(v: &Vec<char>, i: usize) -> (r: Option<(Vec<char>, usize)>)
    requires
        i <= v@.len(),
    ensures
        match r {
            None => spec_ws_string(v@, i as int) is None,
            Some(p) => spec_ws_string(v@, i as int) == Some((p.0@, p.1 as int)) && i < p.1
                <= v@.len(),
        },
{
    let j = skip_ws(v, i);
    parse_string(v, j)
}

/// A JSON integer preceded by optional whitespace.
pub open spec fn spec_ws_i64(s: Seq<char>, i: int) -> Option<(i64, int)> {
    let j = spec_skip_ws(s, i);
    if j < i {
        None
    } else {
        match spec_parse_i64(s, j) {
            None => None,
            Some((x, k)) => if k <= j || k > s.len() {
                None
            } else {
                Some((x, k))
            },
        }
    }
}

/// Parse a JSON integer preceded by optional whitespace; see
/// [`spec_ws_i64`].
pub(crate) fn ws_i64(v: &Vec<char>, i: usize) -> (r: Option<(i64, usize)>)
    requires
        i <= v@.len(),
    ensures
        match r {
            None => spec_ws_i64(v@, i as int) is None,
            Some(p) => spec_ws_i64(v@, i as int) == Some((p.0, p.1 as int)) && i < p.1
                <= v@.len(),
        },
{
    let j = skip_ws(v, i);
    parse_i64(v, j)
}

/// A JSON integer that fits in an `i32`, preceded by optional whitespace.
pub open spec fn spec_ws_i32(s: Seq<char>, i: int) -> Option<(i32, int)> {
    match spec_ws_i64(s, i) {
        None => None,
        Some((x, j)) => if -0x8000_0000 <= x as int && x as int <= 0x7fff_ffff {
            Some((x as i32, j))
        } else {
            None
        },
    }
}

/// Parse a JSON integer into an `i32`, preceded by optional whitespace; see
/// [`spec_ws_i32`].
pub(crate) fn ws_i32(v: &Vec<char>, i: usize) -> (r: Option<(i32, usize)>)
    requires
        i <= v@.len(),
    ensures
        match r {
            None => spec_ws_i32(v@, i as int) is None,
            Some(p) => spec_ws_i32(v@, i as int) == Some((p.0, p.1 as int)) && i < p.1
                <= v@.len(),
        },
{
    match ws_i64(v, i) {
        None => None,
        Some((x, j)) => {
            if x < -0x8000_0000i64 || x > 0x7fff_ffffi64 {
                None
            } else {
                Some((x as i32, j))
            }
        },
    }
}

/// Whether the characters of `v` are exactly those of the literal `s`.
#[verifier::loop_isolation(false)]
pub(crate) fn chars_eq_lit(v: &Vec<char>, s: &str) -> (b: bool)
    ensures
        b == (v@ == s@),
{
    let n = s.unicode_len();
    if v.len() != n {
        proof {
            assert(v@.len() != s@.len());
        }
        return false;
    }
    let mut i: usize = 0;
    while i < n
        invariant
            i <= n,
            forall|k: int| 0 <= k < i ==> v@[k] == s@[k],
        decreases n - i,
    {
        if v[i] != s.get_char(i) {
            return false;
        }
        i = i + 1;
    }
    proof {
        assert(v@ =~= s@);
    }
    true
}

/// A nonempty sequence's escape decomposes at its first character.
proof fn lemma_escape_first(s: Seq<char>)
    requires
        s.len() > 0,
    ensures
        spec_escape(s) == spec_escape_char(s[0]) + spec_escape(s.subrange(1, s.len() as int)),
    decreases s.len(),
{
    if s.len() == 1 {
        assert(s.drop_last() =~= Seq::<char>::empty());
        assert(s.subrange(1, 1) =~= Seq::<char>::empty());
        assert(spec_escape(s) =~= spec_escape_char(s[0]) + spec_escape(
            s.subrange(1, s.len() as int),
        ));
    } else {
        let s0 = s.drop_last();
        lemma_escape_first(s0);
        let t = s.subrange(1, s.len() as int);
        assert(t.drop_last() =~= s0.subrange(1, s0.len() as int));
        assert(t.last() == s.last());
        assert(spec_escape(t) == spec_escape(t.drop_last()) + spec_escape_char(t.last()));
        assert(spec_escape(s) =~= spec_escape_char(s[0]) + spec_escape(t));
    }
}

/// A sequence of characters that escape to themselves is unchanged by
/// escaping.
pub(crate) proof fn lemma_escape_plain(s: Seq<char>)
    requires
        forall|k: int| 0 <= k < s.len() ==> #[trigger] spec_escape_char(s[k]) == seq![s[k]],
    ensures
        spec_escape(s) == s,
    decreases s.len(),
{
    if s.len() > 0 {
        lemma_escape_plain(s.drop_last());
        assert(spec_escape(s) =~= s);
    }
}

/// Parsing picks up just after the closing quote of a serialized string
/// embedded in a larger text: the text `head + escape(s) + '"' + rest`,
/// parsed as a string body from just after `head`, yields `s`.
pub(crate) proof fn lemma_string_body_round_trip(head: Seq<char>, s: Seq<char>, rest: Seq<char>)
    ensures
        spec_string_body(head + spec_escape(s) + seq!['"'] + rest, head.len() as int) == Some(
            (s, head.len() + spec_escape(s).len() + 1 as int),
        ),
    decreases s.len(),
{
    let w = head + spec_escape(s) + seq!['"'] + rest;
    let i = head.len() as int;
    if s.len() == 0 {
        assert(spec_escape(s) =~= Seq::<char>::empty());
        assert(w[i] == '"');
        assert(s =~= Seq::<char>::empty());
    } else {
        let c = s[0];
        let s1 = s.subrange(1, s.len() as int);
        lemma_escape_first(s);
        let ec = spec_escape_char(c);
        let head2 = head + ec;
        assert(head2 + spec_escape(s1) + seq!['"'] + rest =~= w);
        lemma_string_body_round_trip(head2, s1, rest);
        let j: int = head2.len() + spec_escape(s1).len() + 1 as int;
        assert(spec_string_body(w, head2.len() as int) == Some((s1, j)));
        assert(j == i + spec_escape(s).len() + 1);
        if c == '"' || c == '\\' || c == '\n' || c == '\r' || c == '\t' {
            assert(ec.len() == 2);
            assert(w[i] == '\\');
            assert(w[i + 1] == ec[1]);
            assert(ec[1] != 'u');
            assert(spec_escape_code(ec[1]) == Some(c));
            assert(head2.len() == i + 2);
            assert(spec_string_body(w, i) == Some((seq![c] + s1, j)));
        } else if (c as u32) < 32 {
            assert(ec.len() == 6);
            assert(w[i] == '\\' && w[i + 1] == 'u' && w[i + 2] == '0' && w[i + 3] == '0');
            let hi = c as u32 as int / 16;
            let lo = c as u32 as int % 16;
            assert(w[i + 4] == hex_char(hi) && w[i + 5] == hex_char(lo));
            assert(is_hex(hex_char(hi)) && hex_val(hex_char(hi)) == hi);
            assert(is_hex(hex_char(lo)) && hex_val(hex_char(lo)) == lo);
            let code = hex_val(w[i + 2]) * 4096 + hex_val(w[i + 3]) * 256 + hex_val(w[i + 4]) * 16
                + hex_val(w[i + 5]);
            assert(code == c as u32);
            assert(!(0xD800 <= code && code < 0xE000));
            vstd::utf8::char_u32_cast(c, c as u32);
            assert((code as u32) as char == c);
            assert(head2.len() == i + 6);
            assert(spec_string_body(w, i) == Some((seq![c] + s1, j)));
        } else {
            assert(ec.len() == 1);
            assert(w[i] == c);
            assert(c != '"' && c != '\\');
            assert(head2.len() == i + 1);
            assert(spec_string_body(w, i) == Some((seq![c] + s1, j)));
        }
        assert(seq![c] + s1 =~= s);
    }
}

/// Law: a serialized JSON string parses back to exactly the original
/// characters, and the parser stops exactly at its closing quote, whatever
/// text follows. The escaping of [`spec_json_string`] is inverted by
/// [`spec_parse_string`].
pub proof fn lemma_json_string_round_trip(s: Seq<char>, rest: Seq<char>)
    ensures
        spec_parse_string(spec_json_string(s) + rest, 0) == Some(
            (s, spec_json_string(s).len() as int),
        ),
{
    let w = spec_json_string(s) + rest;
    let head = seq!['"'];
    assert(head + spec_escape(s) + seq!['"'] + rest =~= w);
    lemma_string_body_round_trip(head, s, rest);
    assert(w[0] == '"');
    assert(spec_string_body(w, 1) == Some((s, 1 + spec_escape(s).len() + 1 as int)));
    assert(spec_json_string(s).len() == spec_escape(s).len() + 2);
}

// ---------------------------------------------------------------------------
// stepping over one arbitrary JSON value (for unknown fields)
// ---------------------------------------------------------------------------

/// A character that may occur in a JSON number token.
pub open spec fn number_char(c: char) -> bool {
    is_digit(c) || c == '-' || c == '+' || c == '.' || c == 'e' || c == 'E'
}

/// First position at or after `i` holding a character outside the number
/// alphabet. Unknown fields only need to be stepped over, so numbers are
/// scanned leniently rather than validated against the full grammar.
pub open spec fn spec_number_end(s: Seq<char>, i: int) -> int
    decreases s.len() - i,
{
    if i < 0 || i >= s.len() {
        i
    } else if number_char(s[i]) {
        spec_number_end(s, i + 1)
    } else {
        i
    }
}

fn exec_is_number_char(c: char) -> (b: bool)
    ensures
        b == number_char(c),
{
    exec_is_digit(c) || c == '-' || c == '+' || c == '.' || c == 'e' || c == 'E'
}

fn number_end(v: &Vec<char>, i: usize) -> (r: usize)
    requires
        i <= v@.len(),
    ensures
        r as int == spec_number_end(v@, i as int),
        i <= r <= v@.len(),
{
    let mut r = i;
    while r < v.len() && exec_is_number_char(v[r])
        invariant
            i <= r <= v@.len(),
            spec_number_end(v@, i as int) == spec_number_end(v@, r as int),
        decreases v@.len() - r,
    {
        r = r + 1;
    }
    r
}

/// Position just after one complete JSON value starting at (or after
/// whitespace from) position `i`, or `None` if no value starts there.
pub open spec fn spec_skip_value(s: Seq<char>, i: int) -> Option<int>
    decreases s.len() - i, 0int,
{
    let j = spec_skip_ws(s, i);
    if j < i || j >= s.len() {
        None
    } else if s[j] == '"' {
        match spec_parse_string(s, j) {
            None => None,
            Some((t, k)) => if k <= j || k > s.len() {
                None
            } else {
                Some(k)
            },
        }
    } else if s[j] == '{' {
        spec_skip_members(s, j + 1, true)
    } else if s[j] == '[' {
        spec_skip_elements(s, j + 1, true)
    } else if s[j] == 't' {
        if j + 4 <= s.len() && s[j + 1] == 'r' && s[j + 2] == 'u' && s[j + 3] == 'e' {
            Some(j + 4)
        } else {
            None
        }
    } else if s[j] == 'f' {
        if j + 5 <= s.len() && s[j + 1] == 'a' && s[j + 2] == 'l' && s[j + 3] == 's' && s[j + 4]
            == 'e' {
            Some(j + 5)
        } else {
            None
        }
    } else if s[j] == 'n' {
        if j + 4 <= s.len() && s[j + 1] == 'u' && s[j + 2] == 'l' && s[j + 3] == 'l' {
            Some(j + 4)
        } else {
            None
        }
    } else if is_digit(s[j]) || s[j] == '-' {
        let k = spec_number_end(s, j + 1);
        if k <= j || k > s.len() {
            None
        } else {
            Some(k)
        }
    } else {
        None
    }
}

/// Position just after the members and closing brace of an object whose
/// opening brace stood just before position `i`.
pub open spec fn spec_skip_members(s: Seq<char>, i: int, first: bool) -> Option<int>
    decreases s.len() - i, 1int,
{
    let j = spec_skip_ws(s, i);
    if j < i || j >= s.len() {
        None
    } else if s[j] == '}' && first {
        Some(j + 1)
    } else {
        match spec_parse_string(s, j) {
            None => None,
            Some((key, k)) => if k <= j || k > s.len() {
                None
            } else {
                let m = spec_skip_ws(s, k);
                if m < k || m >= s.len() || s[m] != ':' {
                    None
                } else {
                    match spec_skip_value(s, m + 1) {
                        None => None,
                        Some(p) => if p <= m || p > s.len() {
                            None
                        } else {
                            let q = spec_skip_ws(s, p);
                            if q < p || q >= s.len() {
                                None
                            } else if s[q] == '}' {
                                Some(q + 1)
                            } else if s[q] == ',' {
                                spec_skip_members(s, q + 1, false)
                            } else {
                                None
                            }
                        },
                    }
                }
            },
        }
    }
}

/// Position just after the elements and closing bracket of an array whose
/// opening bracket stood just before position `i`.
pub open spec fn spec_skip_elements(s: Seq<char>, i: int, first: bool) -> Option<int>
    decreases s.len() - i, 1int,
{
    let j = spec_skip_ws(s, i);
    if j < i || j >= s.len() {
        None
    } else if s[j] == ']' && first {
        Some(j + 1)
    } else {
        match spec_skip_value(s, j) {
            None => None,
            Some(p) => if p <= j || p > s.len() {
                None
            } else {
                let q = spec_skip_ws(s, p);
                if q < p || q >= s.len() {
                    None
                } else if s[q] == ']' {
                    Some(q + 1)
                } else if s[q] == ',' {
                    spec_skip_elements(s, q + 1, false)
                } else {
                    None
                }
            },
        }
    }
}

/// Step over one JSON value; see [`spec_skip_value`].
pub(crate) fn skip_value(v: &Vec<char>, i: usize) -> (r: Option<usize>)
    requires
        i <= v@.len(),
    ensures
        match r {
            None => spec_skip_value(v@, i as int) is None,
            Some(k) => spec_skip_value(v@, i as int) == Some(k as int) && i < k <= v@.len(),
        },
    decreases v@.len() - i, 0int,
{
    let j = skip_ws(v, i);
    if j >= v.len() {
        return None;
    }
    let c = v[j];
    if c == '"' {
        match parse_string(v, j) {
            None => None,
            Some((_t, k)) => Some(k),
        }
    } else if c == '{' {
        skip_members(v, j + 1, true)
    } else if c == '[' {
        skip_elements(v, j + 1, true)
    } else if c == 't' {
        if v.len() - j >= 4 && v[j + 1] == 'r' && v[j + 2] == 'u' && v[j + 3] == 'e' {
            Some(j + 4)
        } else {
            None
        }
    } else if c == 'f' {
        if v.len() - j >= 5 && v[j + 1] == 'a' && v[j + 2] == 'l' && v[j + 3] == 's' && v[j + 4]
            == 'e' {
            Some(j + 5)
        } else {
            None
        }
    } else if c == 'n' {
        if v.len() - j >= 4 && v[j + 1] == 'u' && v[j + 2] == 'l' && v[j + 3] == 'l' {
            Some(j + 4)
        } else {
            None
        }
    } else if exec_is_digit(c) || c == '-' {
        let k = number_end(v, j + 1);
        Some(k)
    } else {
        None
    }
}

/// Step over object members; see [`spec_skip_members`].
fn skip_members(v: &Vec<char>, i: usize, first: bool) -> (r: Option<usize>)
    requires
        i <= v@.len(),
    ensures
        match r {
            None => spec_skip_members(v@, i as int, first) is None,
            Some(k) => spec_skip_members(v@, i as int, first) == Some(k as int) && i <= k
                <= v@.len(),
        },
    decreases v@.len() - i, 1int,
{
    let j = skip_ws(v, i);
    if j >= v.len() {
        return None;
    }
    if v[j] == '}' && first {
        return Some(j + 1);
    }
    match parse_string(v, j) {
        None => None,
        Some((_key, k)) => {
            let m = skip_ws(v, k);
            if m >= v.len() || v[m] != ':' {
                return None;
            }
            match skip_value(v, m + 1) {
                None => None,
                Some(p) => {
                    let q = skip_ws(v, p);
                    if q >= v.len() {
                        None
                    } else if v[q] == '}' {
                        Some(q + 1)
                    } else if v[q] == ',' {
                        skip_members(v, q + 1, false)
                    } else {
                        None
                    }
                },
            }
        },
    }
}

/// Step over array elements; see [`spec_skip_elements`].
fn skip_elements(v: &Vec<char>, i: usize, first: bool) -> (r: Option<usize>)
    requires
        i <= v@.len(),
    ensures
        match r {
            None => spec_skip_elements(v@, i as int, first) is None,
            Some(k) => spec_skip_elements(v@, i as int, first) == Some(k as int) && i <= k
                <= v@.len(),
        },
    decreases v@.len() - i, 1int,
{
    let j = skip_ws(v, i);
    if j >= v.len() {
        return None;
    }
    if v[j] == ']' && first {
        return Some(j + 1);
    }
    match skip_value(v, j) {
        None => None,
        Some(p) => {
            let q = skip_ws(v, p);
            if q >= v.len() {
                None
            } else if v[q] == ']' {
                Some(q + 1)
            } else if v[q] == ',' {
                skip_elements(v, q + 1, false)
            } else {
                None
            }
        },
    }
}

} // verus!
