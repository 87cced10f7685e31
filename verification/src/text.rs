//! Character classes, byte lengths, trimming and byte-wise ordering of text.
use vstd::prelude::*;
use vstd::utf8::encode_utf8;

verus! {

/// Length in bytes of the UTF-8 encoding of a character sequence, as `str::len` returns it.
pub open spec fn byte_len(s: Seq<char>) -> usize {
    encode_utf8(s).len() as usize
}

pub open spec fn is_ascii_lowercase(c: char) -> bool {
    'a' <= c && c <= 'z'
}

pub open spec fn is_ascii_uppercase(c: char) -> bool {
    'A' <= c && c <= 'Z'
}

pub open spec fn is_ascii_digit(c: char) -> bool {
    '0' <= c && c <= '9'
}

pub open spec fn is_ascii_alphanumeric(c: char) -> bool {
    is_ascii_lowercase(c) || is_ascii_uppercase(c) || is_ascii_digit(c)
}

pub open spec fn is_ascii_hexdigit(c: char) -> bool {
    is_ascii_digit(c) || ('a' <= c && c <= 'f') || ('A' <= c && c <= 'F')
}

/// The Unicode general category `Cc`, which is what `char::is_control` tests.
pub open spec fn is_control(c: char) -> bool {
    (c as u32) <= 0x1f || (0x7f <= (c as u32) && (c as u32) <= 0x9f)
}

/// The Unicode `White_Space` property, which `str::trim` strips.
pub open spec fn is_whitespace(c: char) -> bool {
    let v = c as u32;
    (0x09 <= v && v <= 0x0d) || v == 0x20 || v == 0x85 || v == 0xa0 || v == 0x1680 || (0x2000
        <= v && v <= 0x200a) || v == 0x2028 || v == 0x2029 || v == 0x202f || v == 0x205f || v
        == 0x3000
}

/// The sets of characters that the library's text fields admit.
#[derive(Clone, Copy, Debug, PartialEq, Eq)]
pub enum CharClass {
    /// ASCII letters and digits and `.:_/-` (provider model ids).
    ModelId,
    /// ASCII letters and digits and `_-:.` (protocol identifiers).
    Identifier,
    /// ASCII lower-case letters and `_` (error codes).
    Code,
    /// ASCII lower-case letters, digits and `.-_` (extension ids).
    ExtensionId,
    /// ASCII letters and digits and `:._/-` (fixture references).
    FixtureRef,
    /// ASCII letters and digits and `:._-` (extension and gateway idempotency keys).
    DottedKey,
    /// ASCII letters and digits and `-_:` (cognitive idempotency keys).
    ColonKey,
    /// ASCII letters and digits and `-_` (source parts and agent ids).
    Slug,
    /// ASCII hexadecimal digits.
    HexDigit,
    /// Any character that is not a control character.
    NonControl,
    /// Any character that is not a control character, or a line feed, carriage return or tab.
    TextBody,
    /// ASCII lower-case letters, digits and `_` (custom trait names).
    LowerSnake,
}

pub open spec fn class_allows(class: CharClass, c: char) -> bool {
    match class {
        CharClass::ModelId => is_ascii_alphanumeric(c) || c == '.' || c == ':' || c == '_' || c
            == '/' || c == '-',
        CharClass::Identifier => is_ascii_alphanumeric(c) || c == '_' || c == '-' || c == ':'
            || c == '.',
        CharClass::Code => is_ascii_lowercase(c) || c == '_',
        CharClass::ExtensionId => is_ascii_lowercase(c) || is_ascii_digit(c) || c == '.' || c
            == '-' || c == '_',
        CharClass::FixtureRef => is_ascii_alphanumeric(c) || c == ':' || c == '.' || c == '_'
            || c == '/' || c == '-',
        CharClass::DottedKey => is_ascii_alphanumeric(c) || c == ':' || c == '.' || c == '_'
            || c == '-',
        CharClass::ColonKey => is_ascii_alphanumeric(c) || c == '-' || c == '_' || c == ':',
        CharClass::Slug => is_ascii_alphanumeric(c) || c == '-' || c == '_',
        CharClass::HexDigit => is_ascii_hexdigit(c),
        CharClass::NonControl => !is_control(c),
        CharClass::TextBody => !is_control(c) || c == '\n' || c == '\r' || c == '\t',
        CharClass::LowerSnake => is_ascii_lowercase(c) || is_ascii_digit(c) || c == '_',
    }
}

/// Every character of `s` belongs to `class`.
pub open spec fn all_in_class(s: Seq<char>, class: CharClass) -> bool {
    forall|i: int| 0 <= i < s.len() ==> #[trigger] class_allows(class, s[i])
}

pub fn char_in_class(class: CharClass, c: char) -> (r: bool)
    ensures
        r == class_allows(class, c),
{
    let alnum = ('a' <= c && c <= 'z') || ('A' <= c && c <= 'Z') || ('0' <= c && c <= '9');
    match class {
        CharClass::ModelId => alnum || c == '.' || c == ':' || c == '_' || c == '/' || c == '-',
        CharClass::Identifier => alnum || c == '_' || c == '-' || c == ':' || c == '.',
        CharClass::Code => ('a' <= c && c <= 'z') || c == '_',
        CharClass::ExtensionId => ('a' <= c && c <= 'z') || ('0' <= c && c <= '9') || c == '.'
            || c == '-' || c == '_',
        CharClass::FixtureRef => alnum || c == ':' || c == '.' || c == '_' || c == '/' || c
            == '-',
        CharClass::DottedKey => alnum || c == ':' || c == '.' || c == '_' || c == '-',
        CharClass::ColonKey => alnum || c == '-' || c == '_' || c == ':',
        CharClass::Slug => alnum || c == '-' || c == '_',
        CharClass::HexDigit => ('0' <= c && c <= '9') || ('a' <= c && c <= 'f') || ('A' <= c
            && c <= 'F'),
        CharClass::NonControl => {
            let v = c as u32;
            !(v <= 0x1f || (0x7f <= v && v <= 0x9f))
        },
        CharClass::TextBody => {
            let v = c as u32;
            !(v <= 0x1f || (0x7f <= v && v <= 0x9f)) || c == '\n' || c == '\r' || c == '\t'
        },
        CharClass::LowerSnake => ('a' <= c && c <= 'z') || ('0' <= c && c <= '9') || c == '_',
    }
}

/// Whether every character of `s` belongs to `class`.
pub fn all_chars_in_class(s: &str, class: CharClass) -> (r: bool)
    ensures
        r == all_in_class(s@, class),
{
    let mut ok = true;
    for c in it: s.chars()
        invariant
            it.seq() == s@,
            ok == (forall|j: int| 0 <= j < it.index() ==> #[trigger] class_allows(class, s@[j])),
    {
        let allowed = char_in_class(class, c);
        ok = ok && allowed;
    }
    ok
}

pub fn is_whitespace_char(c: char) -> (r: bool)
    ensures
        r == is_whitespace(c),
{
    let v = c as u32;
    (0x09 <= v && v <= 0x0d) || v == 0x20 || v == 0x85 || v == 0xa0 || v == 0x1680 || (0x2000
        <= v && v <= 0x200a) || v == 0x2028 || v == 0x2029 || v == 0x202f || v == 0x205f || v
        == 0x3000
}

/// Number of leading white-space characters.
pub open spec fn leading_ws(s: Seq<char>) -> nat
    decreases s.len(),
{
    if s.len() > 0 && is_whitespace(s[0]) {
        1 + leading_ws(s.drop_first())
    } else {
        0
    }
}

/// Number of trailing white-space characters.
pub open spec fn trailing_ws(s: Seq<char>) -> nat
    decreases s.len(),
{
    if s.len() > 0 && is_whitespace(s.last()) {
        1 + trailing_ws(s.drop_last())
    } else {
        0
    }
}

/// What `str::trim` returns: `s` without leading and trailing white space.
pub open spec fn trimmed(s: Seq<char>) -> Seq<char> {
    let start = leading_ws(s) as int;
    let rest = s.subrange(start, s.len() as int);
    rest.subrange(0, rest.len() - trailing_ws(rest))
}

proof fn lemma_leading_ws(s: Seq<char>, i: int)
    requires
        0 <= i <= s.len(),
        forall|k: int| 0 <= k < i ==> is_whitespace(#[trigger] s[k]),
        i == s.len() || !is_whitespace(s[i]),
    ensures
        leading_ws(s) == i,
    decreases i,
{
    if i > 0 {
        let t = s.drop_first();
        assert forall|k: int| 0 <= k < i - 1 implies is_whitespace(#[trigger] t[k]) by {
            assert(t[k] == s[k + 1]);
        }
        if i - 1 < t.len() {
            assert(t[i - 1] == s[i]);
        }
        lemma_leading_ws(t, i - 1);
    }
}

proof fn lemma_trailing_ws(s: Seq<char>, j: int)
    requires
        0 <= j <= s.len(),
        forall|k: int| j <= k < s.len() ==> is_whitespace(#[trigger] s[k]),
        j == 0 || !is_whitespace(s[j - 1]),
    ensures
        trailing_ws(s) == s.len() - j,
    decreases s.len() - j,
{
    if j < s.len() {
        let t = s.drop_last();
        assert forall|k: int| j <= k < t.len() implies is_whitespace(#[trigger] t[k]) by {
            assert(t[k] == s[k]);
        }
        if j > 0 {
            assert(t[j - 1] == s[j - 1]);
        }
        assert(is_whitespace(s[s.len() - 1]));
        lemma_trailing_ws(t, j);
    }
}

proof fn lemma_leading_ws_stops(s: Seq<char>)
    ensures
        leading_ws(s) <= s.len(),
        leading_ws(s) < s.len() ==> !is_whitespace(s[leading_ws(s) as int]),
    decreases s.len(),
{
    if s.len() > 0 && is_whitespace(s[0]) {
        let t = s.drop_first();
        lemma_leading_ws_stops(t);
        if leading_ws(t) < t.len() {
            assert(t[leading_ws(t) as int] == s[leading_ws(s) as int]);
        }
    }
}

proof fn lemma_trailing_ws_stops(s: Seq<char>)
    ensures
        trailing_ws(s) <= s.len(),
        trailing_ws(s) < s.len() ==> !is_whitespace(s[s.len() - 1 - trailing_ws(s)]),
    decreases s.len(),
{
    if s.len() > 0 && is_whitespace(s.last()) {
        let t = s.drop_last();
        lemma_trailing_ws_stops(t);
        if trailing_ws(t) < t.len() {
            assert(t[t.len() - 1 - trailing_ws(t)] == s[s.len() - 1 - trailing_ws(s)]);
        }
    }
}

/// Trimming trimmed text changes nothing.
pub proof fn lemma_trimmed_idempotent(s: Seq<char>)
    ensures
        trimmed(trimmed(s)) == trimmed(s),
{
    lemma_leading_ws_stops(s);
    let i = leading_ws(s) as int;
    let rest = s.subrange(i, s.len() as int);
    lemma_trailing_ws_stops(rest);
    let t = trimmed(s);
    if t.len() > 0 {
        assert(t[0] == rest[0]);
        assert(rest[0] == s[i]);
        assert(t[t.len() - 1] == rest[rest.len() - 1 - trailing_ws(rest)]);
        assert(leading_ws(t) == 0);
        assert(trailing_ws(t.subrange(0, t.len() as int)) == 0) by {
            assert(t.subrange(0, t.len() as int) =~= t);
        }
        assert(trimmed(t) =~= t);
    } else {
        assert(trimmed(t) =~= t);
    }
}

/// `str::trim`: the view of the result is `trimmed(s@)`.
pub fn trim_text(s: &str) -> (r: &str)
    ensures
        r@ == trimmed(s@),
{
    let n = s.unicode_len();
    let mut i: usize = 0;
    while i < n && is_whitespace_char(s.get_char(i))
        invariant
            n == s@.len(),
            i <= n,
            forall|k: int| 0 <= k < i ==> is_whitespace(#[trigger] s@[k]),
        decreases n - i,
    {
        i = i + 1;
    }
    proof {
        lemma_leading_ws(s@, i as int);
    }
    let mut j: usize = n;
    while j > i && is_whitespace_char(s.get_char(j - 1))
        invariant
            n == s@.len(),
            i <= j <= n,
            forall|k: int| j <= k < n ==> is_whitespace(#[trigger] s@[k]),
        decreases j,
    {
        j = j - 1;
    }
    proof {
        let rest = s@.subrange(i as int, n as int);
        assert forall|k: int| (j - i) <= k < rest.len() implies is_whitespace(#[trigger] rest[k]) by {
            assert(rest[k] == s@[k + i]);
        }
        if j > i {
            assert(rest[j - i - 1] == s@[j - 1]);
        }
        lemma_trailing_ws(rest, (j - i) as int);
        assert(rest.subrange(0, (j - i) as int) =~= s@.subrange(i as int, j as int));
    }
    s.substring_char(i, j)
}

/// `prefix` is a prefix of `s`.
pub open spec fn has_prefix(s: Seq<char>, prefix: Seq<char>) -> bool {
    prefix.len() <= s.len() && s.subrange(0, prefix.len() as int) =~= prefix
}

/// Whether `s` starts with `prefix` (`str::starts_with`).
pub fn starts_with_text(s: &str, prefix: &str) -> (r: bool)
    ensures
        r == has_prefix(s@, prefix@),
{
    let n = s.unicode_len();
    let m = prefix.unicode_len();
    if m > n {
        return false;
    }
    let mut i: usize = 0;
    while i < m
        invariant
            n == s@.len(),
            m == prefix@.len(),
            m <= n,
            i <= m,
            forall|k: int| 0 <= k < i ==> s@[k] == prefix@[k],
        decreases m - i,
    {
        if s.get_char(i) != prefix.get_char(i) {
            assert(s@.subrange(0, m as int)[i as int] != prefix@[i as int]);
            return false;
        }
        i = i + 1;
    }
    assert(s@.subrange(0, m as int) =~= prefix@);
    true
}

/// `c`, lower-cased in the ASCII range, is `p`.
pub open spec fn ascii_folds_to(c: char, p: char) -> bool {
    c == p || (is_ascii_uppercase(c) && (c as u32) + 32 == (p as u32))
}

/// The first characters of `s`, lower-cased in the ASCII range, spell `prefix`.
pub open spec fn has_folded_prefix(s: Seq<char>, prefix: Seq<char>) -> bool {
    prefix.len() <= s.len() && forall|i: int|
        0 <= i < prefix.len() ==> #[trigger] ascii_folds_to(s[i], prefix[i])
}

/// Whether `s` starts with `prefix` once its ASCII letters are lower-cased.
pub fn starts_with_folded(s: &str, prefix: &str) -> (r: bool)
    ensures
        r == has_folded_prefix(s@, prefix@),
{
    let n = s.unicode_len();
    let m = prefix.unicode_len();
    if m > n {
        return false;
    }
    let mut i: usize = 0;
    while i < m
        invariant
            n == s@.len(),
            m == prefix@.len(),
            m <= n,
            i <= m,
            forall|k: int| 0 <= k < i ==> #[trigger] ascii_folds_to(s@[k], prefix@[k]),
        decreases m - i,
    {
        let c = s.get_char(i);
        let p = prefix.get_char(i);
        if !(c == p || ('A' <= c && c <= 'Z' && (c as u32) + 32 == (p as u32))) {
            assert(!ascii_folds_to(s@[i as int], prefix@[i as int]));
            return false;
        }
        i = i + 1;
    }
    true
}

/// The pieces of `s` between occurrences of `sep`, as `str::split` yields them.
pub open spec fn split_on(s: Seq<char>, sep: char) -> Seq<Seq<char>>
    decreases s.len(),
{
    if s.len() == 0 {
        seq![Seq::empty()]
    } else {
        let parts = split_on(s.drop_last(), sep);
        if s.last() == sep {
            parts.push(Seq::empty())
        } else {
            parts.update(parts.len() - 1, parts.last().push(s.last()))
        }
    }
}

pub proof fn lemma_split_on_nonempty(s: Seq<char>, sep: char)
    ensures
        split_on(s, sep).len() >= 1,
    decreases s.len(),
{
    if s.len() > 0 {
        lemma_split_on_nonempty(s.drop_last(), sep);
    }
}

/// `str::split` on a character, collected.
pub fn split_text(s: &str, sep: char) -> (r: Vec<String>)
    ensures
        r@.map_values(|p: String| p@) == split_on(s@, sep),
{
    let mut done: Vec<String> = Vec::new();
    let mut current = String::new();
    for c in it: s.chars()
        invariant
            it.seq() == s@,
            done@.map_values(|p: String| p@).push(current@) == split_on(s@.take(it.index()), sep),
    {
        proof {
            let k = it.index();
            let t = s@.take(k + 1);
            assert(t.drop_last() =~= s@.take(k));
            assert(t.last() == c);
            lemma_split_on_nonempty(s@.take(k), sep);
        }
        if c == sep {
            let ghost before = done@.map_values(|p: String| p@).push(current@);
            done.push(current);
            current = String::new();
            proof {
                assert(done@.map_values(|p: String| p@).push(current@) =~= before.push(
                    Seq::empty(),
                ));
            }
        } else {
            let ghost before = done@.map_values(|p: String| p@).push(current@);
            crate::json::push_char(&mut current, c);
            proof {
                assert(done@.map_values(|p: String| p@).push(current@) =~= before.update(
                    before.len() - 1,
                    before.last().push(c),
                ));
            }
        }
    }
    assert(s@.take(s@.len() as int) =~= s@);
    done.push(current);
    done
}

/// Whether `s` and `t` hold the same characters.
pub fn text_equal(s: &str, t: &str) -> (r: bool)
    ensures
        r == (s@ == t@),
{
    let n = s.unicode_len();
    let m = t.unicode_len();
    if n != m {
        return false;
    }
    let r = starts_with_text(s, t);
    proof {
        if r {
            assert(s@.subrange(0, m as int) =~= s@);
        }
    }
    r
}

/// `value` occurs as a contiguous run of characters in `s`.
pub open spec fn contains_run(s: Seq<char>, value: Seq<char>) -> bool {
    exists|k: int|
        0 <= k && k + value.len() <= s.len() && #[trigger] s.subrange(k, k + value.len())
            =~= value
}

/// Whether `c` occurs in `s`.
pub fn contains_char(s: &str, c: char) -> (r: bool)
    ensures
        r == s@.contains(c),
{
    let mut found = false;
    for d in it: s.chars()
        invariant
            it.seq() == s@,
            found == (exists|j: int| 0 <= j < it.index() && s@[j] == c),
    {
        if d == c {
            found = true;
        }
    }
    found
}

/// Position `k` of `s` holds `a` and position `k + 1` holds `b`.
pub open spec fn pair_at(s: Seq<char>, k: int, a: char, b: char) -> bool {
    0 <= k && k + 1 < s.len() && s[k] == a && s[k + 1] == b
}

/// Whether the two-character run `a b` occurs in `s`.
pub fn contains_pair(s: &str, a: char, b: char) -> (r: bool)
    ensures
        r == (exists|k: int| #[trigger] pair_at(s@, k, a, b)),
{
    let n = s.unicode_len();
    if n < 2 {
        return false;
    }
    let mut k: usize = 0;
    while k + 1 < n
        invariant
            n == s@.len(),
            n >= 2,
            k + 1 <= n,
            forall|j: int| 0 <= j < k ==> !#[trigger] pair_at(s@, j, a, b),
        decreases n - k,
    {
        if s.get_char(k) == a && s.get_char(k + 1) == b {
            assert(pair_at(s@, k as int, a, b));
            return true;
        }
        k = k + 1;
    }
    assert forall|j: int| !#[trigger] pair_at(s@, j, a, b) by {
        if 0 <= j < k {
        }
    }
    false
}

/// Byte-wise lexicographic order, which is the order of `str` (`Ord for str`).
pub open spec fn bytes_lt(a: Seq<u8>, b: Seq<u8>) -> bool
    decreases a.len(),
{
    if a.len() == 0 {
        b.len() > 0
    } else if b.len() == 0 {
        false
    } else if a[0] != b[0] {
        a[0] < b[0]
    } else {
        bytes_lt(a.drop_first(), b.drop_first())
    }
}

/// `a` sorts strictly before `b` as a Rust string.
pub open spec fn text_lt(a: Seq<char>, b: Seq<char>) -> bool {
    bytes_lt(encode_utf8(a), encode_utf8(b))
}

pub proof fn lemma_bytes_lt_transitive(a: Seq<u8>, b: Seq<u8>, c: Seq<u8>)
    ensures
        bytes_lt(a, b) && bytes_lt(b, c) ==> bytes_lt(a, c),
    decreases a.len(),
{
    if a.len() > 0 && b.len() > 0 && c.len() > 0 && a[0] == b[0] && b[0] == c[0] {
        lemma_bytes_lt_transitive(a.drop_first(), b.drop_first(), c.drop_first());
    }
}

pub proof fn lemma_bytes_lt_asymmetric(a: Seq<u8>, b: Seq<u8>)
    ensures
        !(bytes_lt(a, b) && bytes_lt(b, a)),
    decreases a.len(),
{
    if a.len() > 0 && b.len() > 0 && a[0] == b[0] {
        lemma_bytes_lt_asymmetric(a.drop_first(), b.drop_first());
    }
}

pub proof fn lemma_bytes_lt_equal_or_ordered(a: Seq<u8>, b: Seq<u8>)
    ensures
        a =~= b || bytes_lt(a, b) || bytes_lt(b, a),
    decreases a.len(),
{
    if a.len() > 0 && b.len() > 0 && a[0] == b[0] {
        lemma_bytes_lt_equal_or_ordered(a.drop_first(), b.drop_first());
        if a.drop_first() =~= b.drop_first() {
            assert(a =~= seq![a[0]] + a.drop_first());
            assert(b =~= seq![b[0]] + b.drop_first());
        }
    }
}

/// Whether `a < b` as Rust strings (byte-wise order).
pub fn text_less(a: &str, b: &str) -> (r: bool)
    ensures
        r == text_lt(a@, b@),
{
    let x = a.as_bytes();
    let y = b.as_bytes();
    let n = x.len();
    let m = y.len();
    let mut i: usize = 0;
    assert(x@.subrange(0, n as int) =~= x@);
    assert(y@.subrange(0, m as int) =~= y@);
    while i < n && i < m && x[i] == y[i]
        invariant
            x@ == encode_utf8(a@),
            y@ == encode_utf8(b@),
            n == x@.len(),
            m == y@.len(),
            i <= n,
            i <= m,
            bytes_lt(x@, y@) == bytes_lt(x@.subrange(i as int, n as int), y@.subrange(i as int, m as int)),
        decreases n - i,
    {
        proof {
            let xs = x@.subrange(i as int, n as int);
            let ys = y@.subrange(i as int, m as int);
            assert(xs.drop_first() =~= x@.subrange(i + 1, n as int));
            assert(ys.drop_first() =~= y@.subrange(i + 1, m as int));
        }
        i = i + 1;
    }
    proof {
        let xs = x@.subrange(i as int, n as int);
        let ys = y@.subrange(i as int, m as int);
        if i < n && i < m {
            assert(xs[0] == x@[i as int]);
            assert(ys[0] == y@[i as int]);
        }
    }
    if i == n {
        i < m
    } else if i == m {
        false
    } else {
        x[i] < y[i]
    }
}

} // verus!
