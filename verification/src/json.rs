//! Compact JSON text, written the way `serde_json` writes it: strings with `"`, `\` and
//! control characters escaped (short escapes where JSON has them, `\u00xx` otherwise), no
//! whitespace between tokens.
use vstd::prelude::*;

verus! {

/// The lower-case hexadecimal digit of `n` (`n < 16`).
pub open spec fn hex_digit_char(n: nat) -> char {
    if n < 10 {
        (n + 48) as char
    } else {
        (n + 87) as char
    }
}

/// How one character of a string is written inside the quotes.
pub open spec fn escape_char(c: char) -> Seq<char> {
    if c == '"' {
        "\\\""@
    } else if c == '\\' {
        "\\\\"@
    } else if c == '\u{8}' {
        "\\b"@
    } else if c == '\t' {
        "\\t"@
    } else if c == '\n' {
        "\\n"@
    } else if c == '\u{c}' {
        "\\f"@
    } else if c == '\r' {
        "\\r"@
    } else if (c as u32) < 0x20 {
        "\\u00"@ + seq![hex_digit_char((c as u32 / 16) as nat), hex_digit_char((c as u32 % 16) as nat)]
    } else {
        seq![c]
    }
}

/// The escaped characters of a string, without the quotes.
pub open spec fn escape_text(s: Seq<char>) -> Seq<char>
    decreases s.len(),
{
    if s.len() == 0 {
        Seq::empty()
    } else {
        escape_text(s.drop_last()) + escape_char(s.last())
    }
}

/// A JSON string.
pub open spec fn json_string(s: Seq<char>) -> Seq<char> {
    "\""@ + escape_text(s) + "\""@
}

pub open spec fn json_bool(b: bool) -> Seq<char> {
    if b {
        "true"@
    } else {
        "false"@
    }
}

/// An optional string: the string, or `null`.
pub open spec fn json_opt_string(s: Option<Seq<char>>) -> Seq<char> {
    match s {
        Some(t) => json_string(t),
        None => "null"@,
    }
}

/// An optional boolean: the boolean, or `null`.
pub open spec fn json_opt_bool(b: Option<bool>) -> Seq<char> {
    match b {
        Some(v) => json_bool(v),
        None => "null"@,
    }
}

/// The decimal digits of a natural number.
pub open spec fn decimal_digits(n: nat) -> Seq<char>
    decreases n,
{
    if n < 10 {
        seq![hex_digit_char(n)]
    } else {
        decimal_digits(n / 10) + seq![hex_digit_char(n % 10)]
    }
}

/// A JSON integer.
pub open spec fn json_int(n: int) -> Seq<char> {
    if n < 0 {
        "-"@ + decimal_digits((-n) as nat)
    } else {
        decimal_digits(n as nat)
    }
}

/// `String::push`: appends one character to the string.
#[verifier::external_body]
pub(crate) fn push_char(s: &mut String, c: char)
    ensures
        final(s)@ == old(s)@.push(c),
{
    s.push(c);
}

/// The character of a hexadecimal digit.
pub fn hex_digit(n: u32) -> (c: char)
    requires
        n < 16,
    ensures
        c == hex_digit_char(n as nat),
{
    match n {
        0 => '0',
        1 => '1',
        2 => '2',
        3 => '3',
        4 => '4',
        5 => '5',
        6 => '6',
        7 => '7',
        8 => '8',
        9 => '9',
        10 => 'a',
        11 => 'b',
        12 => 'c',
        13 => 'd',
        14 => 'e',
        _ => 'f',
    }
}

fn push_escaped_char(out: &mut String, c: char)
    ensures
        final(out)@ == old(out)@ + escape_char(c),
{
    if c == '"' {
        out.append("\\\"");
    } else if c == '\\' {
        out.append("\\\\");
    } else if c == '\u{8}' {
        out.append("\\b");
    } else if c == '\t' {
        out.append("\\t");
    } else if c == '\n' {
        out.append("\\n");
    } else if c == '\u{c}' {
        out.append("\\f");
    } else if c == '\r' {
        out.append("\\r");
    } else if (c as u32) < 0x20 {
        let v = c as u32;
        out.append("\\u00");
        push_char(out, hex_digit(v / 16));
        push_char(out, hex_digit(v % 16));
        assert(final(out)@ =~= old(out)@ + escape_char(c));
    } else {
        push_char(out, c);
    }
}

/// Appends `s` as a JSON string.
pub fn push_json_string(out: &mut String, s: &str)
    ensures
        final(out)@ == old(out)@ + json_string(s@),
{
    let ghost start = out@;
    out.append("\"");
    for c in it: s.chars()
        invariant
            it.seq() == s@,
            out@ == start + "\""@ + escape_text(s@.take(it.index())),
    {
        proof {
            let k = it.index();
            assert(s@.take(k + 1).drop_last() =~= s@.take(k));
            assert(s@.take(k + 1).last() == c);
        }
        push_escaped_char(out, c);
        proof {
            let k = it.index();
            assert(out@ =~= start + "\""@ + escape_text(s@.take(k + 1)));
        }
    }
    assert(s@.take(s@.len() as int) =~= s@);
    out.append("\"");
    assert(out@ =~= start + json_string(s@));
}

pub fn push_json_bool(out: &mut String, b: bool)
    ensures
        final(out)@ == old(out)@ + json_bool(b),
{
    if b {
        out.append("true");
    } else {
        out.append("false");
    }
}

pub fn push_json_opt_string(out: &mut String, s: &Option<String>)
    ensures
        final(out)@ == old(out)@ + json_opt_string(
            match s {
                Some(t) => Some(t@),
                None => None,
            },
        ),
{
    match s {
        Some(t) => push_json_string(out, t.as_str()),
        None => out.append("null"),
    }
}

pub fn push_json_opt_bool(out: &mut String, b: Option<bool>)
    ensures
        final(out)@ == old(out)@ + json_opt_bool(b),
{
    match b {
        Some(v) => push_json_bool(out, v),
        None => out.append("null"),
    }
}

/// Appends the decimal digits of `n`.
pub fn push_decimal(out: &mut String, n: u64)
    ensures
        final(out)@ == old(out)@ + decimal_digits(n as nat),
    decreases n,
{
    if n < 10 {
        push_char(out, hex_digit(n as u32));
    } else {
        push_decimal(out, n / 10);
        push_char(out, hex_digit((n % 10) as u32));
        assert(final(out)@ =~= old(out)@ + decimal_digits(n as nat));
    }
}

/// Appends `n` as a JSON integer.
pub fn push_json_i64(out: &mut String, n: i64)
    ensures
        final(out)@ == old(out)@ + json_int(n as int),
{
    if n < 0 {
        out.append("-");
        let magnitude: u64 = if n == i64::MIN {
            9_223_372_036_854_775_808u64
        } else {
            (-n) as u64
        };
        push_decimal(out, magnitude);
        assert(final(out)@ =~= old(out)@ + json_int(n as int));
    } else {
        push_decimal(out, n as u64);
    }
}

} // verus!
