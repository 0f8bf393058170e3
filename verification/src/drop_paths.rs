//! Turning a drag-and-drop or paste payload into the file paths it names:
//! line and `file://` splitting, shell-like tokenising, quote stripping,
//! backslash unescaping and percent decoding; plus the import status lines.
use vstd::prelude::*;
use vstd::utf8::{decode_utf8, encode_utf8, valid_utf8};
use crate::codepoints::views;
use crate::text::{
    char_is_ws, chars_equal, chars_of, contains_char, contains_seq, decimal, is_ws, lower, lower_seq, push_all,
    push_decimal,
    push_str, slice_chars, starts_with, starts_with_str, string_of, trim, trim_chars,
};

verus! {

pub open spec fn file_scheme() -> Seq<char> {
    seq!['f', 'i', 'l', 'e', ':', '/', '/']
}

/// A paste payload is treated as paths when it is not blank and holds a
/// `/`, a `\`, or starts with `file://`.
pub open spec fn path_payload(s: Seq<char>) -> bool {
    let t = trim(s);
    t.len() > 0 && (t.contains('/') || starts_with(t, file_scheme()) || t.contains('\\'))
}

/// Whether a pasted payload looks like dropped file paths.
pub fn looks_like_path_payload(payload: &str) -> (r: bool)
    ensures
        r == path_payload(payload@),
{
    let s = chars_of(payload);
    let t = trim_chars(&s);
    if t.len() == 0 {
        return false;
    }
    let scheme = starts_with_str(&t, "file://");
    proof {
        reveal_strlit("file://");
        assert("file://"@ =~= file_scheme());
    }
    contains_char(&t, '/') || scheme || contains_char(&t, '\\')
}

// ---------------------------------------------------------------------------
// Quotes, backslashes, percent escapes
// ---------------------------------------------------------------------------
/// `value` without one pair of matching surrounding quotes.
pub open spec fn unquoted(s: Seq<char>) -> Seq<char> {
    if s.len() >= 2 && ((s[0] == '"' && s.last() == '"') || (s[0] == '\'' && s.last() == '\'')) {
        s.subrange(1, s.len() - 1)
    } else {
        s
    }
}

fn unquote_chars(s: &Vec<char>) -> (r: Vec<char>)
    ensures
        r@ == unquoted(s@),
{
    let n = s.len();
    if n >= 2 && ((s[0] == '"' && s[n - 1] == '"') || (s[0] == '\'' && s[n - 1] == '\'')) {
        slice_chars(s, 1, n - 1)
    } else {
        slice_chars(s, 0, n)
    }
}

/// Removes one pair of matching single or double quotes around `value`.
pub fn strip_wrapping_quotes(value: &str) -> (r: String)
    ensures
        r@ == unquoted(value@),
{
    let s = chars_of(value);
    let r = unquote_chars(&s);
    proof {
        assert(s@.subrange(0, s@.len() as int) =~= s@);
    }
    string_of(&r)
}

/// A backslash escapes the following space, tab, quote or backslash; any
/// other backslash is kept.
pub open spec fn escapable(c: char) -> bool {
    c == ' ' || c == '\t' || c == '"' || c == '\'' || c == '\\'
}

/// `unescape_backslashes`.
pub open spec fn unescaped(s: Seq<char>) -> Seq<char>
    decreases s.len(),
{
    if s.len() == 0 {
        seq![]
    } else if s[0] != '\\' {
        seq![s[0]] + unescaped(s.drop_first())
    } else if s.len() == 1 {
        seq!['\\']
    } else if escapable(s[1]) {
        seq![s[1]] + unescaped(s.skip(2))
    } else {
        seq!['\\', s[1]] + unescaped(s.skip(2))
    }
}

proof fn lemma_unescaped_plain_prefix(a: Seq<char>, rest: Seq<char>)
    requires
        forall|i: int| 0 <= i < a.len() ==> a[i] != '\\',
    ensures
        unescaped(a + rest) == a + unescaped(rest),
    decreases a.len(),
{
    if a.len() == 0 {
        assert(a + rest =~= rest);
    } else {
        let s = a + rest;
        assert(s[0] == a[0]);
        assert(s.drop_first() =~= a.drop_first() + rest);
        lemma_unescaped_plain_prefix(a.drop_first(), rest);
        assert(seq![a[0]] + (a.drop_first() + unescaped(rest)) =~= a + unescaped(rest));
    }
}

/// Unescaping text `a + "\\" + c + b`, where `a` has no backslash: the
/// backslash is dropped and `c` kept when `c` is a space, a tab, a quote or
/// a backslash (so a path dragged in as `my\ file` becomes `my file`);
/// before any other character the backslash stays (Windows separators).
/// A backslash at the very end stays, and text without backslashes is
/// unchanged.
pub proof fn lemma_unescape_backslash(a: Seq<char>, c: char, b: Seq<char>)
    requires
        forall|i: int| 0 <= i < a.len() ==> a[i] != '\\',
    ensures
        (c == ' ' || c == '\t' || c == '"' || c == '\'' || c == '\\') ==> unescaped(a + seq!['\\', c] + b) == a
            + seq![c] + unescaped(b),
        !(c == ' ' || c == '\t' || c == '"' || c == '\'' || c == '\\') ==> unescaped(a + seq!['\\', c] + b)
            == a + seq!['\\', c] + unescaped(b),
        unescaped(a + seq!['\\']) == a + seq!['\\'],
        unescaped(a) == a,
{
    let t = seq!['\\', c] + b;
    assert(a + seq!['\\', c] + b =~= a + t);
    lemma_unescaped_plain_prefix(a, t);
    assert(t.skip(2) =~= b);
    assert(t[0] == '\\' && t[1] == c);
    lemma_unescaped_plain_prefix(a, seq!['\\']);
    lemma_unescaped_plain_prefix(a, seq![]);
    assert(a + seq![] =~= a);
    assert(unescaped(seq![]) =~= seq![]);
    assert(a + seq![c] + unescaped(b) =~= a + (seq![c] + unescaped(b)));
    assert(a + seq!['\\', c] + unescaped(b) =~= a + (seq!['\\', c] + unescaped(b)));
}

fn unescape_chars(s: &Vec<char>) -> (r: Vec<char>)
    ensures
        r@ == unescaped(s@),
{
    let mut out: Vec<char> = Vec::new();
    let mut i: usize = 0;
    proof {
        assert(s@.skip(0) =~= s@);
    }
    while i < s.len()
        invariant
            i <= s.len(),
            out@ + unescaped(s@.skip(i as int)) == unescaped(s@),
        decreases s.len() - i,
    {
        let ghost rest = s@.skip(i as int);
        let ch = s[i];
        if ch != '\\' {
            out.push(ch);
            proof {
                assert(rest.drop_first() =~= s@.skip(i + 1));
                assert(out@ + unescaped(s@.skip(i + 1)) =~= out@.drop_last() + unescaped(rest));
            }
            i = i + 1;
        } else if i + 1 < s.len() {
            let next = s[i + 1];
            if next == ' ' || next == '\t' || next == '"' || next == '\'' || next == '\\' {
                out.push(next);
                proof {
                    assert(rest.skip(2) =~= s@.skip(i + 2));
                    assert(out@ + unescaped(s@.skip(i + 2)) =~= out@.drop_last() + unescaped(rest));
                }
            } else {
                out.push('\\');
                out.push(next);
                proof {
                    assert(rest.skip(2) =~= s@.skip(i + 2));
                    assert(out@ + unescaped(s@.skip(i + 2)) =~= out@.drop_last().drop_last()
                        + unescaped(rest));
                }
            }
            i = i + 2;
        } else {
            out.push('\\');
            proof {
                assert(rest.len() == 1);
                assert(s@.skip(i + 1).len() == 0);
                assert(unescaped(s@.skip(i + 1)) =~= seq![]);
                assert(out@ + unescaped(s@.skip(i + 1)) =~= out@.drop_last() + unescaped(rest));
            }
            i = i + 1;
        }
    }
    proof {
        assert(s@.skip(i as int).len() == 0);
        assert(out@ + unescaped(s@.skip(i as int)) =~= out@);
    }
    out
}

/// Resolves backslash escapes of spaces, tabs, quotes and backslashes;
/// other backslashes (such as Windows separators) are kept.
pub fn unescape_backslashes(value: &str) -> (r: String)
    ensures
        r@ == unescaped(value@),
{
    let s = chars_of(value);
    let r = unescape_chars(&s);
    string_of(&r)
}

/// The value of an ASCII hex digit byte.
pub open spec fn hex_byte_value(b: u8) -> Option<u8> {
    if 48 <= b && b <= 57 {
        Some((b - 48) as u8)
    } else if 97 <= b && b <= 102 {
        Some((b - 87) as u8)
    } else if 65 <= b && b <= 70 {
        Some((b - 55) as u8)
    } else {
        None
    }
}

/// The value of an ASCII hex digit (`0-9`, `a-f`, `A-F`).
pub fn hex_value(value: u8) -> (r: Option<u8>)
    ensures
        r == hex_byte_value(value),
{
    if 48 <= value && value <= 57 {
        Some(value - 48)
    } else if 97 <= value && value <= 102 {
        Some(value - 87)
    } else if 65 <= value && value <= 70 {
        Some(value - 55)
    } else {
        None
    }
}

/// Percent decoding on bytes: `%XY` with two hex digits is the byte `0xXY`
/// (a `%` needs two more bytes after it); every other byte is kept.
pub open spec fn percent_decoded(b: Seq<u8>) -> Seq<u8>
    decreases b.len(),
{
    if b.len() == 0 {
        seq![]
    } else if b[0] == 37 && 2 < b.len() && hex_byte_value(b[1]) is Some && hex_byte_value(b[2]) is Some {
        seq![(hex_byte_value(b[1])->0 * 16 + hex_byte_value(b[2])->0) as u8] + percent_decoded(b.skip(3))
    } else {
        seq![b[0]] + percent_decoded(b.drop_first())
    }
}

fn percent_decode_bytes(b: &Vec<u8>) -> (r: Vec<u8>)
    ensures
        r@ == percent_decoded(b@),
{
    let mut out: Vec<u8> = Vec::new();
    let mut i: usize = 0;
    proof {
        assert(b@.skip(0) =~= b@);
    }
    while i < b.len()
        invariant
            i <= b.len(),
            out@ + percent_decoded(b@.skip(i as int)) == percent_decoded(b@),
        decreases b.len() - i,
    {
        let ghost rest = b@.skip(i as int);
        if b[i] == 37 && b.len() - i > 2 {
            let hi = hex_value(b[i + 1]);
            let lo = hex_value(b[i + 2]);
            if hi.is_some() && lo.is_some() {
                let h = hi.unwrap();
                let l = lo.unwrap();
                out.push(h * 16 + l);
                proof {
                    assert(rest.skip(3) =~= b@.skip(i + 3));
                    assert(out@ + percent_decoded(b@.skip(i + 3)) =~= out@.drop_last()
                        + percent_decoded(rest));
                }
                i = i + 3;
                continue;
            }
        }
        out.push(b[i]);
        proof {
            assert(rest.drop_first() =~= b@.skip(i + 1));
            assert(out@ + percent_decoded(b@.skip(i + 1)) =~= out@.drop_last() + percent_decoded(
                rest,
            ));
        }
        i = i + 1;
    }
    proof {
        assert(b@.skip(i as int).len() == 0);
        assert(out@ + percent_decoded(b@.skip(i as int)) =~= out@);
    }
    out
}

/// The text `String::from_utf8_lossy` makes of `bytes`: each invalid
/// sequence replaced by U+FFFD.
pub uninterp spec fn utf8_lossy(bytes: Seq<u8>) -> Seq<char>;

/// Calls `String::from_utf8_lossy(bytes).into_owned()`.  The contract names
/// the result after the bytes and states, as the documentation does, that
/// valid UTF-8 is decoded unchanged; what replaces invalid sequences is left
/// to the name.
#[verifier::external_body]
fn string_from_utf8_lossy(bytes: &Vec<u8>) -> (r: String)
    ensures
        r@ == utf8_lossy(bytes@),
        valid_utf8(bytes@) ==> r@ == decode_utf8(bytes@),
{
    String::from_utf8_lossy(bytes).into_owned()
}

/// Decodes `%XY` escapes in the UTF-8 bytes of `input`; invalid UTF-8 in the
/// result is replaced as `String::from_utf8_lossy` does.
pub fn percent_decode(input: &str) -> (r: String)
    ensures
        r@ == utf8_lossy(percent_decoded(encode_utf8(input@))),
        valid_utf8(percent_decoded(encode_utf8(input@))) ==> r@ == decode_utf8(
            percent_decoded(encode_utf8(input@)),
        ),
{
    let bytes = input.as_bytes_vec();
    let decoded = percent_decode_bytes(&bytes);
    string_from_utf8_lossy(&decoded)
}

pub open spec fn localhost() -> Seq<char> {
    seq!['l', 'o', 'c', 'a', 'l', 'h', 'o', 's', 't']
}

/// The path of a `file://` URI: a `localhost` authority is dropped, then
/// percent escapes are decoded.
pub open spec fn file_uri_bytes(uri_path: Seq<char>) -> Seq<u8> {
    let p = if starts_with(uri_path, localhost()) {
        uri_path.skip(9)
    } else {
        uri_path
    };
    percent_decoded(encode_utf8(p))
}

/// The file path named by the part of a `file://` URI after the scheme.
pub fn decode_file_uri_path(uri_path: &str) -> (r: String)
    ensures
        r@ == utf8_lossy(file_uri_bytes(uri_path@)),
        valid_utf8(file_uri_bytes(uri_path@)) ==> r@ == decode_utf8(file_uri_bytes(uri_path@)),
{
    let s = chars_of(uri_path);
    let local = starts_with_str(&s, "localhost");
    proof {
        reveal_strlit("localhost");
        assert("localhost"@ =~= localhost());
    }
    let rest = if local { slice_chars(&s, 9, s.len()) } else { slice_chars(&s, 0, s.len()) };
    proof {
        assert(s@.subrange(0, s@.len() as int) =~= s@);
        assert(s@.subrange(9, s@.len() as int) =~= s@.skip(9));
    }
    let rest_string = string_of(&rest);
    percent_decode(rest_string.as_str())
}

// ---------------------------------------------------------------------------
// Shell-like tokens
// ---------------------------------------------------------------------------
/// The tokenizer state: tokens so far, the current token, and whether the
/// next character is escaped / a single or double quote is open.
pub struct TokenState {
    pub tokens: Seq<Seq<char>>,
    pub current: Seq<char>,
    pub escaped: bool,
    pub in_single: bool,
    pub in_double: bool,
}

/// One character of `split_shell_like_tokens`, given the character after it.
pub open spec fn token_step(st: TokenState, ch: char, next: Option<char>) -> TokenState {
    if st.escaped {
        TokenState { current: st.current.push(ch), escaped: false, ..st }
    } else if ch == '\\' && !st.in_single {
        match next {
            Some(n) => if escapable(n) {
                TokenState { escaped: true, ..st }
            } else {
                TokenState { current: st.current.push(ch), ..st }
            },
            None => TokenState { current: st.current.push(ch), ..st },
        }
    } else if ch == '\'' && !st.in_double {
        TokenState { in_single: !st.in_single, ..st }
    } else if ch == '"' && !st.in_single {
        TokenState { in_double: !st.in_double, ..st }
    } else if is_ws(ch) && !st.in_single && !st.in_double {
        if st.current.len() > 0 {
            TokenState { tokens: st.tokens.push(st.current), current: seq![], ..st }
        } else {
            st
        }
    } else {
        TokenState { current: st.current.push(ch), ..st }
    }
}

/// The state after the first `n` characters of `s`.
pub open spec fn token_run(s: Seq<char>, n: nat) -> TokenState
    decreases n,
{
    if n == 0 {
        TokenState { tokens: seq![], current: seq![], escaped: false, in_single: false, in_double: false }
    } else {
        let i = (n - 1) as int;
        token_step(token_run(s, (n - 1) as nat), s[i], if i + 1 < s.len() {
            Some(s[i + 1])
        } else {
            None
        })
    }
}

/// `split_shell_like_tokens`: whitespace-separated tokens with quotes and
/// backslash escapes resolved.
pub open spec fn shell_tokens(s: Seq<char>) -> Seq<Seq<char>> {
    let st = token_run(s, s.len());
    let cur = if st.escaped {
        st.current.push('\\')
    } else {
        st.current
    };
    if cur.len() > 0 {
        st.tokens.push(cur)
    } else {
        st.tokens
    }
}

/// A character that the tokenizer copies as it is: no whitespace, quote or
/// backslash.
pub open spec fn plain_token_char(c: char) -> bool {
    !is_ws(c) && c != '\'' && c != '"' && c != '\\'
}

proof fn lemma_token_run_escaped_space(a: Seq<char>, b: Seq<char>, n: nat)
    requires
        forall|i: int| 0 <= i < a.len() ==> plain_token_char(#[trigger] a[i]),
        forall|i: int| 0 <= i < b.len() ==> plain_token_char(#[trigger] b[i]),
        n <= a.len() + 2 + b.len(),
    ensures
        ({
            let s = a + seq!['\\', ' '] + b;
            let st = token_run(s, n);
            &&& st.tokens == Seq::<Seq<char>>::empty()
            &&& !st.in_single && !st.in_double
            &&& n <= a.len() ==> !st.escaped && st.current == a.take(n as int)
            &&& n == a.len() + 1 ==> st.escaped && st.current == a
            &&& n >= a.len() + 2 ==> !st.escaped && st.current == a + seq![' '] + b.take(n - a.len() - 2)
        }),
    decreases n,
{
    let s = a + seq!['\\', ' '] + b;
    if n > 0 {
        lemma_token_run_escaped_space(a, b, (n - 1) as nat);
        let i = n - 1;
        if i < a.len() {
            assert(s[i] == a[i]);
            assert(plain_token_char(a[i]));
            assert(a.take(i).push(a[i]) =~= a.take(n as int));
        } else if i == a.len() {
            assert(s[i] == '\\');
            assert(s[i + 1] == ' ');
            assert(a.take(i) =~= a);
        } else if i == a.len() + 1 {
            assert(s[i] == ' ');
            assert(a.push(' ') =~= a + seq![' '] + b.take(0));
        } else {
            let j = i - a.len() - 2;
            assert(s[i] == b[j]);
            assert(plain_token_char(b[j]));
            assert((a + seq![' '] + b.take(j)).push(b[j]) =~= a + seq![' '] + b.take(j + 1));
        }
    } else {
        assert(a.take(0) =~= Seq::<char>::empty());
    }
}

/// A backslash before a space keeps the space in the token and drops the
/// backslash: text `a\ b`, with `a` and `b` free of whitespace, quotes and
/// backslashes, is the one token `a b`.
pub proof fn lemma_escaped_space_joins_token(a: Seq<char>, b: Seq<char>)
    requires
        forall|i: int| 0 <= i < a.len() ==> plain_token_char(#[trigger] a[i]),
        forall|i: int| 0 <= i < b.len() ==> plain_token_char(#[trigger] b[i]),
    ensures
        shell_tokens(a + seq!['\\', ' '] + b) == seq![a + seq![' '] + b],
{
    let s = a + seq!['\\', ' '] + b;
    lemma_token_run_escaped_space(a, b, s.len());
    assert(b.take(b.len() as int) =~= b);
}

/// Splits `input` into whitespace-separated tokens as a shell would for a
/// dropped path list: quotes group, and a backslash escapes a following
/// space, tab, quote or backslash.
pub fn split_shell_like_tokens(input: &str) -> (r: Vec<String>)
    ensures
        views(r@) == shell_tokens(input@),
{
    let s = chars_of(input);
    let mut tokens: Vec<String> = Vec::new();
    let mut current: Vec<char> = Vec::new();
    let mut escaped = false;
    let mut in_single = false;
    let mut in_double = false;
    let mut i: usize = 0;
    while i < s.len()
        invariant
            i <= s.len(),
            s@ == input@,
            ({
                let st = token_run(s@, i as nat);
                &&& views(tokens@) == st.tokens
                &&& current@ == st.current
                &&& escaped == st.escaped
                &&& in_single == st.in_single
                &&& in_double == st.in_double
            }),
        decreases s.len() - i,
    {
        let ch = s[i];
        let next: Option<char> = if i + 1 < s.len() { Some(s[i + 1]) } else { None };
        let ghost before = token_run(s@, i as nat);
        if escaped {
            current.push(ch);
            escaped = false;
        } else if ch == '\\' && !in_single {
            match next {
                Some(n) => {
                    if n == ' ' || n == '\t' || n == '"' || n == '\'' || n == '\\' {
                        escaped = true;
                    } else {
                        current.push(ch);
                    }
                },
                None => {
                    current.push(ch);
                },
            }
        } else if ch == '\'' && !in_double {
            in_single = !in_single;
        } else if ch == '"' && !in_single {
            in_double = !in_double;
        } else if char_is_ws(ch) && !in_single && !in_double {
            if current.len() > 0 {
                let ghost tv = views(tokens@);
                tokens.push(string_of(&current));
                proof {
                    assert(views(tokens@) =~= tv.push(current@));
                }
                current = Vec::new();
            }
        } else {
            current.push(ch);
        }
        proof {
            let st = token_run(s@, (i + 1) as nat);
            assert(st == token_step(before, ch, next));
            assert(current@ =~= st.current);
        }
        i = i + 1;
    }
    if escaped {
        current.push('\\');
    }
    if current.len() > 0 {
        let ghost tv = views(tokens@);
        tokens.push(string_of(&current));
        proof {
            assert(views(tokens@) =~= tv.push(current@));
        }
    }
    tokens
}

// ---------------------------------------------------------------------------
// Candidates and the payload
// ---------------------------------------------------------------------------
/// `s` without trailing NUL characters.
pub open spec fn trim_end_nul(s: Seq<char>) -> Seq<char>
    decreases s.len(),
{
    if s.len() > 0 && s.last() == '\0' {
        trim_end_nul(s.drop_last())
    } else {
        s
    }
}

/// How a dropped candidate becomes a path: trimmed of whitespace and NULs,
/// unquoted, then a `file://` URI is decoded and anything else unescaped.
pub open spec fn candidate_path(candidate: Seq<char>) -> Option<Seq<char>> {
    let t = trim_end_nul(trim(candidate));
    if t.len() == 0 {
        None
    } else {
        let s = unquoted(t);
        if starts_with(s, file_scheme()) {
            Some(utf8_lossy(file_uri_bytes(s.skip(7))))
        } else {
            Some(unescaped(s))
        }
    }
}

fn trim_end_nul_chars(s: &Vec<char>) -> (r: Vec<char>)
    ensures
        r@ == trim_end_nul(s@),
{
    let mut end = s.len();
    proof {
        assert(s@.take(end as int) =~= s@);
    }
    while end > 0 && s[end - 1] == '\0'
        invariant
            end <= s.len(),
            trim_end_nul(s@.take(end as int)) == trim_end_nul(s@),
        decreases end,
    {
        proof {
            assert(s@.take(end - 1) =~= s@.take(end as int).drop_last());
        }
        end = end - 1;
    }
    proof {
        if end == s.len() {
            assert(s@.take(end as int) =~= s@);
        }
        assert(s@.take(end as int) =~= s@.subrange(0, end as int));
    }
    slice_chars(s, 0, end)
}

/// The path a dropped candidate names, or `None` when it is blank.
pub fn normalize_dropped_path_candidate(candidate: &str) -> (r: Option<String>)
    ensures
        (match r {
            Some(p) => Some(p@),
            None => None,
        }) == candidate_path(candidate@),
{
    let s = chars_of(candidate);
    let t0 = trim_chars(&s);
    let t = trim_end_nul_chars(&t0);
    if t.len() == 0 {
        return None;
    }
    let stripped = unquote_chars(&t);
    let is_uri = starts_with_str(&stripped, "file://");
    proof {
        reveal_strlit("file://");
        assert("file://"@ =~= file_scheme());
    }
    if is_uri {
        let rest = slice_chars(&stripped, 7, stripped.len());
        proof {
            assert(rest@ =~= stripped@.skip(7));
        }
        let rest_string = string_of(&rest);
        Some(decode_file_uri_path(rest_string.as_str()))
    } else {
        let u = unescape_chars(&stripped);
        Some(string_of(&u))
    }
}

/// `s` with every occurrence of `pat` replaced by `rep` (left to right,
/// without overlaps).
pub open spec fn replace_all(s: Seq<char>, pat: Seq<char>, rep: Seq<char>) -> Seq<char>
    decreases s.len(),
{
    if s.len() == 0 || pat.len() == 0 {
        s
    } else if starts_with(s, pat) {
        rep + replace_all(s.skip(pat.len() as int), pat, rep)
    } else {
        seq![s[0]] + replace_all(s.drop_first(), pat, rep)
    }
}

fn replace_all_chars(s: &Vec<char>, pat: &Vec<char>, rep: &Vec<char>) -> (r: Vec<char>)
    ensures
        r@ == replace_all(s@, pat@, rep@),
{
    if pat.len() == 0 {
        return slice_chars_all(s);
    }
    let mut out: Vec<char> = Vec::new();
    let mut i: usize = 0;
    proof {
        assert(s@.skip(0) =~= s@);
    }
    while i < s.len()
        invariant
            i <= s.len(),
            pat.len() > 0,
            out@ + replace_all(s@.skip(i as int), pat@, rep@) == replace_all(s@, pat@, rep@),
        decreases s.len() - i,
    {
        let ghost rest = s@.skip(i as int);
        if crate::text::matches_at(s, pat, i) {
            proof {
                assert(rest.take(pat.len() as int) =~= s@.subrange(i as int, i + pat.len()));
                assert(starts_with(rest, pat@));
                assert(rest.skip(pat.len() as int) =~= s@.skip(i + pat.len()));
            }
            let ghost before = out@;
            push_all(&mut out, rep);
            proof {
                assert(out@ + replace_all(s@.skip(i + pat.len()), pat@, rep@) =~= before
                    + replace_all(rest, pat@, rep@));
            }
            i = i + pat.len();
        } else {
            proof {
                if starts_with(rest, pat@) {
                    assert(rest.take(pat.len() as int) =~= s@.subrange(i as int, i + pat.len()));
                }
                assert(rest.drop_first() =~= s@.skip(i + 1));
            }
            let ghost before = out@;
            out.push(s[i]);
            proof {
                assert(out@ + replace_all(s@.skip(i + 1), pat@, rep@) =~= before + replace_all(
                    rest,
                    pat@,
                    rep@,
                ));
            }
            i = i + 1;
        }
    }
    proof {
        assert(s@.skip(i as int).len() == 0);
        assert(out@ + replace_all(s@.skip(i as int), pat@, rep@) =~= out@);
    }
    out
}

fn slice_chars_all(s: &Vec<char>) -> (r: Vec<char>)
    ensures
        r@ == s@,
{
    let r = slice_chars(s, 0, s.len());
    proof {
        assert(s@.subrange(0, s@.len() as int) =~= s@);
    }
    r
}

/// The items of `s.split('\n')` (trailing empty item included).
pub open spec fn split_newlines(s: Seq<char>) -> Seq<Seq<char>> {
    crate::installed::split_lines(s)
}

/// Line breaks normalised to `\n`, and a break inserted before every `file://`.
pub open spec fn normalized_payload(s: Seq<char>) -> Seq<char> {
    let a = replace_all(replace_all(s, seq!['\r', '\n'], seq!['\n']), seq!['\r'], seq!['\n']);
    if contains_seq(a, file_scheme()) {
        replace_all(a, file_scheme(), seq!['\n'] + file_scheme())
    } else {
        a
    }
}

/// The non-blank trimmed lines of the normalised payload.
pub open spec fn fragments_of(lines: Seq<Seq<char>>) -> Seq<Seq<char>>
    decreases lines.len(),
{
    if lines.len() == 0 {
        seq![]
    } else if trim(lines.last()).len() == 0 {
        fragments_of(lines.drop_last())
    } else {
        fragments_of(lines.drop_last()).push(trim(lines.last()))
    }
}

/// The non-blank trimmed lines of a payload.
pub open spec fn payload_fragments(payload: Seq<char>) -> Seq<Seq<char>> {
    fragments_of(split_newlines(normalized_payload(payload)))
}

/// The paths the candidates of `fragments` name, in order.
pub open spec fn candidate_paths(fragments: Seq<Seq<char>>) -> Seq<Seq<char>>
    decreases fragments.len(),
{
    if fragments.len() == 0 {
        seq![]
    } else {
        candidate_paths(fragments.drop_last()) + paths_of(fragment_candidates(fragments.last()))
    }
}

/// The paths named by `candidates`, in order.
pub open spec fn paths_of(candidates: Seq<Seq<char>>) -> Seq<Seq<char>>
    decreases candidates.len(),
{
    if candidates.len() == 0 {
        seq![]
    } else {
        let prev = paths_of(candidates.drop_last());
        match candidate_path(candidates.last()) {
            Some(p) => prev.push(p),
            None => prev,
        }
    }
}

/// `s` with every item after its first occurrence left out.
pub open spec fn first_occurrences(s: Seq<Seq<char>>) -> Seq<Seq<char>>
    decreases s.len(),
{
    if s.len() == 0 {
        seq![]
    } else {
        let prev = first_occurrences(s.drop_last());
        if prev.contains(s.last()) {
            prev
        } else {
            prev.push(s.last())
        }
    }
}

/// The candidates tried for one fragment: the whole fragment, then its tokens.
pub open spec fn fragment_candidates(fragment: Seq<char>) -> Seq<Seq<char>> {
    seq![fragment] + shell_tokens(fragment)
}

fn split_newline_chars(s: &Vec<char>) -> (r: Vec<Vec<char>>)
    ensures
        crate::installed::vec_views(r@) == split_newlines(s@),
{
    let mut lines: Vec<Vec<char>> = Vec::new();
    let mut current: Vec<char> = Vec::new();
    let ghost mut done: Seq<Seq<char>> = seq![];
    let mut i: usize = 0;
    proof {
        assert(s@.take(0) =~= seq![]);
        assert(crate::installed::split_lines(seq![]) =~= seq![seq![]]);
    }
    while i < s.len()
        invariant
            i <= s.len(),
            crate::installed::split_lines(s@.take(i as int)) == done.push(current@),
            crate::installed::vec_views(lines@) == done,
        decreases s.len() - i,
    {
        proof {
            assert(s@.take(i + 1).drop_last() =~= s@.take(i as int));
            crate::installed::lemma_split_lines_len(s@.take(i as int));
        }
        if s[i] == '\n' {
            let ghost before = crate::installed::vec_views(lines@);
            lines.push(current);
            proof {
                assert(crate::installed::vec_views(lines@) =~= before.push(current@));
                done = done.push(current@);
            }
            current = Vec::new();
            proof {
                assert(crate::installed::split_lines(s@.take(i + 1)) =~= done.push(current@));
            }
        } else {
            current.push(s[i]);
            proof {
                assert(crate::installed::split_lines(s@.take(i + 1)) =~= done.push(current@));
            }
        }
        i = i + 1;
    }
    proof {
        assert(s@.take(s.len() as int) =~= s@);
    }
    let ghost before = crate::installed::vec_views(lines@);
    lines.push(current);
    proof {
        assert(crate::installed::vec_views(lines@) =~= before.push(current@));
    }
    lines
}

fn normalize_payload_chars(s: &Vec<char>) -> (r: Vec<char>)
    ensures
        r@ == normalized_payload(s@),
{
    let crlf = chars_of("\r\n");
    let cr = chars_of("\r");
    let lf = chars_of("\n");
    let scheme = chars_of("file://");
    proof {
        reveal_strlit("\r\n");
        reveal_strlit("\r");
        reveal_strlit("\n");
        reveal_strlit("file://");
        assert(crlf@ =~= seq!['\r', '\n']);
        assert(cr@ =~= seq!['\r']);
        assert(lf@ =~= seq!['\n']);
        assert(scheme@ =~= file_scheme());
    }
    let a = replace_all_chars(s, &crlf, &lf);
    let b = replace_all_chars(&a, &cr, &lf);
    if crate::text::contains_chars(&b, &scheme) {
        let mut rep: Vec<char> = Vec::new();
        rep.push('\n');
        push_all(&mut rep, &scheme);
        proof {
            assert(rep@ =~= seq!['\n'] + file_scheme());
        }
        replace_all_chars(&b, &scheme, &rep)
    } else {
        b
    }
}

/// The file paths named by a drop/paste payload, first occurrence first and
/// each once: lines (and concatenated `file://` URIs) are split, and for each
/// non-blank line the whole line and then its shell-like tokens are tried.
pub fn collect_dropped_paths(payload: &str) -> (r: Vec<String>)
    ensures
        views(r@) == first_occurrences(candidate_paths(payload_fragments(payload@))),
{
    let s = chars_of(payload);
    let normalized = normalize_payload_chars(&s);
    let lines = split_newline_chars(&normalized);
    let ghost frags_all = payload_fragments(payload@);
    let ghost ls = crate::installed::vec_views(lines@);
    let mut fragments: Vec<Vec<char>> = Vec::new();
    let mut k: usize = 0;
    while k < lines.len()
        invariant
            k <= lines.len(),
            ls == crate::installed::vec_views(lines@),
            crate::installed::vec_views(fragments@) == fragments_of(ls.take(k as int)),
        decreases lines.len() - k,
    {
        proof {
            assert(ls.take(k + 1).drop_last() =~= ls.take(k as int));
            assert(ls.take(k + 1).last() == lines@[k as int]@);
        }
        let t = trim_chars(&lines[k]);
        if t.len() > 0 {
            let ghost before = crate::installed::vec_views(fragments@);
            fragments.push(t);
            proof {
                assert(crate::installed::vec_views(fragments@) =~= before.push(
                    trim(lines@[k as int]@),
                ));
            }
        }
        k = k + 1;
    }
    proof {
        assert(ls.take(lines.len() as int) =~= ls);
        assert(crate::installed::vec_views(fragments@) == frags_all);
    }
    let mut out: Vec<String> = Vec::new();
    let mut outc: Vec<Vec<char>> = Vec::new();
    let mut f: usize = 0;
    proof {
        assert(frags_all.take(0) =~= Seq::<Seq<char>>::empty());
        assert(views(out@) =~= Seq::<Seq<char>>::empty());
    }
    while f < fragments.len()
        invariant
            f <= fragments.len(),
            frags_all == payload_fragments(payload@),
            crate::installed::vec_views(fragments@) == frags_all,
            views(out@) == crate::installed::vec_views(outc@),
            views(out@) == first_occurrences(candidate_paths(frags_all.take(f as int))),
        decreases fragments.len() - f,
    {
        let frag_string = string_of(&fragments[f]);
        let tokens = split_shell_like_tokens(frag_string.as_str());
        let mut candidates: Vec<String> = Vec::new();
        candidates.push(frag_string);
        let mut t: usize = 0;
        while t < tokens.len()
            invariant
                t <= tokens.len(),
                candidates@.len() == t + 1,
                candidates@[0]@ == fragments@[f as int]@,
                forall|j: int| 0 < j <= t ==> candidates@[j]@ == tokens@[j - 1]@,
            decreases tokens.len() - t,
        {
            candidates.push(tokens[t].clone());
            t = t + 1;
        }
        let ghost fc = fragment_candidates(frags_all[f as int]);
        let ghost base = candidate_paths(frags_all.take(f as int));
        proof {
            assert(frags_all[f as int] == fragments@[f as int]@);
            assert(views(candidates@) =~= fc);
            assert(fc.take(0) =~= Seq::<Seq<char>>::empty());
            assert(base + paths_of(fc.take(0)) =~= base);
        }
        let mut c: usize = 0;
        while c < candidates.len()
            invariant
                c <= candidates.len(),
                f < fragments.len(),
                fc == fragment_candidates(frags_all[f as int]),
                frags_all == payload_fragments(payload@),
                views(candidates@) == fc,
                base == candidate_paths(frags_all.take(f as int)),
                views(out@) == crate::installed::vec_views(outc@),
                views(out@) == first_occurrences(base + paths_of(fc.take(c as int))),
            decreases candidates.len() - c,
        {
            let ghost before = views(out@);
            proof {
                assert(fc.take(c + 1).drop_last() =~= fc.take(c as int));
                assert(fc.take(c + 1).last() == fc[c as int]);
            }
            match normalize_dropped_path_candidate(candidates[c].as_str()) {
                Some(path) => {
                    let pc = chars_of(path.as_str());
                    let mut seen = false;
                    let mut q: usize = 0;
                    while q < outc.len()
                        invariant
                            q <= outc.len(),
                            seen <==> exists|a: int| 0 <= a < q && outc@[a]@ == pc@,
                        decreases outc.len() - q,
                    {
                        if chars_equal(&outc[q], &pc) {
                            seen = true;
                        }
                        q = q + 1;
                    }
                    proof {
                        let all = base + paths_of(fc.take(c + 1));
                        assert(paths_of(fc.take(c + 1)) == paths_of(fc.take(c as int)).push(path@));
                        assert(all =~= (base + paths_of(fc.take(c as int))).push(path@));
                        assert(all.drop_last() =~= base + paths_of(fc.take(c as int)));
                        if seen {
                            let a = choose|a: int| 0 <= a < q && outc@[a]@ == pc@;
                            assert(crate::installed::vec_views(outc@)[a] == path@);
                        } else {
                            assert forall|a: int| 0 <= a < before.len() implies before[a] != path@ by {
                                assert(crate::installed::vec_views(outc@)[a] == outc@[a]@);
                            }
                        }
                    }
                    if !seen {
                        let ghost ob = out@;
                        let ghost cb = outc@;
                        out.push(path);
                        outc.push(pc);
                        proof {
                            assert(views(out@) =~= views(ob).push(path@));
                            assert(crate::installed::vec_views(outc@) =~= crate::installed::vec_views(cb).push(pc@));
                        }
                    }
                },
                None => {
                    proof {
                        assert(paths_of(fc.take(c + 1)) == paths_of(fc.take(c as int)));
                    }
                },
            }
            c = c + 1;
        }
        proof {
            assert(fc.take(c as int) =~= fc);
            let t1 = frags_all.take(f + 1);
            assert(t1.drop_last() =~= frags_all.take(f as int));
            assert(t1.last() == frags_all[f as int]);
        }
        f = f + 1;
    }
    proof {
        assert(frags_all.take(f as int) =~= frags_all);
    }
    out
}

// ---------------------------------------------------------------------------
// Extensions and status lines
// ---------------------------------------------------------------------------
/// The index of the last `.` of `s`, or -1.
pub open spec fn last_dot(s: Seq<char>) -> int
    decreases s.len(),
{
    if s.len() == 0 {
        -1
    } else if s.last() == '.' {
        s.len() - 1
    } else {
        last_dot(s.drop_last())
    }
}

/// `Path::extension` given the file name: the text after the last `.`,
/// unless that dot starts the name.
pub open spec fn extension_of(name: Seq<char>) -> Option<Seq<char>> {
    if name == seq!['.', '.'] || last_dot(name) <= 0 {
        None
    } else {
        Some(name.skip(last_dot(name) + 1))
    }
}

/// `Path::file_stem` given the file name.
pub open spec fn stem_of(name: Seq<char>) -> Seq<char> {
    if name == seq!['.', '.'] || last_dot(name) <= 0 {
        name
    } else {
        name.take(last_dot(name))
    }
}

pub proof fn lemma_last_dot(s: Seq<char>)
    ensures
        -1 <= last_dot(s) < s.len(),
        last_dot(s) >= 0 ==> s[last_dot(s)] == '.',
        forall|j: int| last_dot(s) < j < s.len() ==> s[j] != '.',
    decreases s.len(),
{
    if s.len() > 0 && s.last() != '.' {
        lemma_last_dot(s.drop_last());
        assert forall|j: int| last_dot(s) < j < s.len() implies s[j] != '.' by {
            if j < s.len() - 1 {
                assert(s[j] == s.drop_last()[j]);
            }
        }
    }
}

pub fn last_dot_index(s: &Vec<char>) -> (r: Option<usize>)
    ensures
        r matches Some(k) ==> last_dot(s@) == k as int && k < s.len(),
        r is None ==> last_dot(s@) == -1,
{
    let mut k = s.len();
    proof {
        assert(s@.take(k as int) =~= s@);
    }
    while k > 0
        invariant
            k <= s.len(),
            last_dot(s@) == last_dot(s@.take(k as int)),
        decreases k,
    {
        if s[k - 1] == '.' {
            return Some(k - 1);
        }
        proof {
            assert(s@.take(k - 1) =~= s@.take(k as int).drop_last());
        }
        k = k - 1;
    }
    None
}

pub open spec fn grayscale_rewritable(ext: Seq<char>) -> bool {
    let e = crate::text::lower_seq(ext);
    e == seq!['p', 'n', 'g'] || e == seq!['j', 'p', 'g'] || e == seq!['j', 'p', 'e', 'g'] || e
        == seq!['b', 'm', 'p']
}

/// Whether grayscale import processing rewrites the file at `path`: its
/// file name has an extension that is `png`, `jpg`, `jpeg` or `bmp` in any
/// ASCII case.
pub open spec fn static_grayscale_applies(path: Seq<char>) -> bool {
    match crate::keys::file_name(path) {
        Some(name) => match extension_of(name) {
            Some(ext) => grayscale_rewritable(ext),
            None => false,
        },
        None => false,
    }
}

pub open spec fn lower_opt(o: Option<Seq<char>>) -> Option<Seq<char>> {
    match o {
        Some(s) => Some(lower_seq(s)),
        None => None,
    }
}

proof fn lemma_lower_keeps_marks(c: char)
    ensures
        (lower(c) == '/') == (c == '/'),
        (lower(c) == '.') == (c == '.'),
        lower(lower(c)) == lower(c),
{
}

proof fn lemma_lower_seq_slices(s: Seq<char>, k: int)
    requires
        0 <= k <= s.len(),
    ensures
        lower_seq(s).skip(k) == lower_seq(s.skip(k)),
        lower_seq(s).take(k) == lower_seq(s.take(k)),
{
    assert(lower_seq(s).skip(k) =~= lower_seq(s.skip(k)));
    assert(lower_seq(s).take(k) =~= lower_seq(s.take(k)));
}

proof fn lemma_lower_seq_literal(s: Seq<char>)
    ensures
        (lower_seq(s) == seq!['.']) == (s == seq!['.']),
        (lower_seq(s) == seq!['.', '.']) == (s == seq!['.', '.']),
        lower_seq(lower_seq(s)) == lower_seq(s),
{
    let l = lower_seq(s);
    assert(l.len() == s.len());
    if s.len() >= 1 {
        lemma_lower_keeps_marks(s[0]);
        assert(l[0] == lower(s[0]));
    }
    if s.len() >= 2 {
        lemma_lower_keeps_marks(s[1]);
        assert(l[1] == lower(s[1]));
    }
    if s.len() == 1 {
        assert((l == seq!['.']) == (l[0] == '.')) by {
            if l[0] == '.' {
                assert(l =~= seq!['.']);
            }
        }
        assert((s == seq!['.']) == (s[0] == '.')) by {
            if s[0] == '.' {
                assert(s =~= seq!['.']);
            }
        }
    }
    if s.len() == 2 {
        assert((l == seq!['.', '.']) == (l[0] == '.' && l[1] == '.')) by {
            if l[0] == '.' && l[1] == '.' {
                assert(l =~= seq!['.', '.']);
            }
        }
        assert((s == seq!['.', '.']) == (s[0] == '.' && s[1] == '.')) by {
            if s[0] == '.' && s[1] == '.' {
                assert(s =~= seq!['.', '.']);
            }
        }
    }
    assert forall|i: int| 0 <= i < s.len() implies lower_seq(lower_seq(s))[i] == lower_seq(s)[i] by {
        lemma_lower_keeps_marks(s[i]);
    }
    assert(lower_seq(lower_seq(s)) =~= lower_seq(s));
}

proof fn lemma_lower_strip_slashes(s: Seq<char>)
    ensures
        crate::keys::strip_trailing_slashes(lower_seq(s)) == lower_seq(crate::keys::strip_trailing_slashes(s)),
    decreases s.len(),
{
    if s.len() > 0 {
        lemma_lower_keeps_marks(s.last());
        assert(lower_seq(s).last() == lower(s.last()));
        assert(lower_seq(s).drop_last() =~= lower_seq(s.drop_last()));
        lemma_lower_strip_slashes(s.drop_last());
    } else {
        assert(lower_seq(s) =~= s);
    }
}

proof fn lemma_lower_last_slash(s: Seq<char>)
    ensures
        crate::keys::last_slash(lower_seq(s)) == crate::keys::last_slash(s),
    decreases s.len(),
{
    if s.len() > 0 {
        lemma_lower_keeps_marks(s.last());
        assert(lower_seq(s).last() == lower(s.last()));
        assert(lower_seq(s).drop_last() =~= lower_seq(s.drop_last()));
        lemma_lower_last_slash(s.drop_last());
    }
}

proof fn lemma_lower_last_dot(s: Seq<char>)
    ensures
        last_dot(lower_seq(s)) == last_dot(s),
    decreases s.len(),
{
    if s.len() > 0 {
        lemma_lower_keeps_marks(s.last());
        assert(lower_seq(s).last() == lower(s.last()));
        assert(lower_seq(s).drop_last() =~= lower_seq(s.drop_last()));
        lemma_lower_last_dot(s.drop_last());
    }
}

proof fn lemma_lower_file_name(s: Seq<char>)
    ensures
        crate::keys::file_name(lower_seq(s)) == lower_opt(crate::keys::file_name(s)),
    decreases s.len(),
{
    let t = crate::keys::strip_trailing_slashes(s);
    lemma_lower_strip_slashes(s);
    crate::keys::lemma_strip_trailing_slashes(s);
    if t.len() > 0 {
        crate::keys::lemma_last_slash(t);
        lemma_lower_last_slash(t);
        let k = crate::keys::last_slash(t) + 1;
        lemma_lower_seq_slices(t, k);
        lemma_lower_seq_literal(t.skip(k));
        if t.skip(k) == seq!['.'] {
            lemma_lower_file_name(t.take(k));
        }
    }
}

proof fn lemma_lower_extension(n: Seq<char>)
    ensures
        extension_of(lower_seq(n)) == lower_opt(extension_of(n)),
{
    lemma_lower_last_dot(n);
    lemma_lower_seq_literal(n);
    lemma_last_dot(n);
    if n != seq!['.', '.'] && last_dot(n) > 0 {
        lemma_lower_seq_slices(n, last_dot(n) + 1);
    }
}

/// Whether an imported file is processed to grayscale does not depend on
/// ASCII case: `IMG.JPG` is processed like `img.jpg`, for every path.
pub proof fn lemma_grayscale_ignores_case(path: Seq<char>)
    ensures
        static_grayscale_applies(lower_seq(path)) == static_grayscale_applies(path),
        static_grayscale_applies(path) <==> ({
            let e = lower_opt(
                match crate::keys::file_name(path) {
                    Some(name) => extension_of(name),
                    None => None,
                },
            );
            e == Some(seq!['p', 'n', 'g']) || e == Some(seq!['j', 'p', 'g']) || e == Some(seq!['j', 'p', 'e', 'g'])
                || e == Some(seq!['b', 'm', 'p'])
        }),
{
    lemma_lower_file_name(path);
    match crate::keys::file_name(path) {
        Some(name) => {
            lemma_lower_extension(name);
            match extension_of(name) {
                Some(e) => {
                    lemma_lower_seq_literal(e);
                },
                None => {},
            }
        },
        None => {},
    }
}

/// Grayscale import processing rewrites PNG, JPEG and BMP files only.
pub fn should_apply_static_import_grayscale(path: &str) -> (r: bool)
    ensures
        r == (match crate::keys::file_name(path@) {
            Some(name) => match extension_of(name) {
                Some(ext) => grayscale_rewritable(ext),
                None => false,
            },
            None => false,
        }),
        r == static_grayscale_applies(path@),
{
    let name = crate::keys::source_display_name(path);
    let full = chars_of(path);
    let nc = chars_of(name.as_str());
    // `source_display_name` falls back to the whole path when it has no file name.
    let has_name = match crate::keys::file_name_of(&full) {
        Some(_) => true,
        None => false,
    };
    if !has_name {
        return false;
    }
    if nc.len() == 2 && nc[0] == '.' && nc[1] == '.' {
        proof {
            assert(nc@ =~= seq!['.', '.']);
        }
        return false;
    }
    let dot = match last_dot_index(&nc) {
        Some(d) => d,
        None => return false,
    };
    if dot == 0 {
        return false;
    }
    proof {
        assert(nc@ != seq!['.', '.']);
    }
    let ext = slice_chars(&nc, dot + 1, nc.len());
    let low = crate::text::lower_chars(&ext);
    proof {
        assert(ext@ =~= nc@.skip(dot + 1));
    }
    let a = str_chars_equal(&low, "png");
    let b = str_chars_equal(&low, "jpg");
    let c = str_chars_equal(&low, "jpeg");
    let d = str_chars_equal(&low, "bmp");
    proof {
        reveal_strlit("png");
        reveal_strlit("jpg");
        reveal_strlit("jpeg");
        reveal_strlit("bmp");
        assert("png"@ =~= seq!['p', 'n', 'g']);
        assert("jpg"@ =~= seq!['j', 'p', 'g']);
        assert("jpeg"@ =~= seq!['j', 'p', 'e', 'g']);
        assert("bmp"@ =~= seq!['b', 'm', 'p']);
    }
    a || b || c || d
}

fn str_chars_equal(s: &Vec<char>, lit: &str) -> (r: bool)
    ensures
        r == (s@ == lit@),
{
    let l = chars_of(lit);
    chars_equal(s, &l)
}

/// `drop import: A added, R renamed, E already present, U unsupported, M missing`.
pub open spec fn drop_import_status(imported: nat, renamed: nat, existing: nat, unsupported: nat, missing: nat) -> Seq<char> {
    "drop import: "@ + decimal(imported) + " added, "@ + decimal(renamed) + " renamed, "@
        + decimal(existing) + " already present, "@ + decimal(unsupported) + " unsupported, "@
        + decimal(missing) + " missing"@
}

/// The status line after a drop import.
pub fn format_drop_import_status(
    imported: usize,
    renamed: usize,
    skipped_existing: usize,
    skipped_unsupported: usize,
    skipped_missing: usize,
) -> (r: String)
    ensures
        r@ == drop_import_status(
            imported as nat,
            renamed as nat,
            skipped_existing as nat,
            skipped_unsupported as nat,
            skipped_missing as nat,
        ),
{
    let mut out: Vec<char> = Vec::new();
    push_str(&mut out, "drop import: ");
    push_decimal(&mut out, imported as u64);
    push_str(&mut out, " added, ");
    push_decimal(&mut out, renamed as u64);
    push_str(&mut out, " renamed, ");
    push_decimal(&mut out, skipped_existing as u64);
    push_str(&mut out, " already present, ");
    push_decimal(&mut out, skipped_unsupported as u64);
    push_str(&mut out, " unsupported, ");
    push_decimal(&mut out, skipped_missing as u64);
    push_str(&mut out, " missing");
    proof {
        assert(out@ =~= drop_import_status(
            imported as nat,
            renamed as nat,
            skipped_existing as nat,
            skipped_unsupported as nat,
            skipped_missing as nat,
        ));
    }
    string_of(&out)
}

/// `animation media import: P media processed, F extracted frames, A added, ...`.
pub open spec fn media_import_status(
    imported: nat,
    renamed: nat,
    existing: nat,
    unsupported: nat,
    missing: nat,
    media: nat,
    frames: nat,
) -> Seq<char> {
    "animation media import: "@ + decimal(media) + " media processed, "@ + decimal(frames)
        + " extracted frames, "@ + decimal(imported) + " added, "@ + decimal(renamed)
        + " renamed, "@ + decimal(existing) + " already present, "@ + decimal(unsupported)
        + " unsupported, "@ + decimal(missing) + " missing"@
}

/// The status line after an animation media import.
pub fn format_animation_media_import_status(
    imported: usize,
    renamed: usize,
    skipped_existing: usize,
    skipped_unsupported: usize,
    skipped_missing: usize,
    media_files_processed: usize,
    frames_extracted: usize,
) -> (r: String)
    ensures
        r@ == media_import_status(
            imported as nat,
            renamed as nat,
            skipped_existing as nat,
            skipped_unsupported as nat,
            skipped_missing as nat,
            media_files_processed as nat,
            frames_extracted as nat,
        ),
{
    let mut out: Vec<char> = Vec::new();
    push_str(&mut out, "animation media import: ");
    push_decimal(&mut out, media_files_processed as u64);
    push_str(&mut out, " media processed, ");
    push_decimal(&mut out, frames_extracted as u64);
    push_str(&mut out, " extracted frames, ");
    push_decimal(&mut out, imported as u64);
    push_str(&mut out, " added, ");
    push_decimal(&mut out, renamed as u64);
    push_str(&mut out, " renamed, ");
    push_decimal(&mut out, skipped_existing as u64);
    push_str(&mut out, " already present, ");
    push_decimal(&mut out, skipped_unsupported as u64);
    push_str(&mut out, " unsupported, ");
    push_decimal(&mut out, skipped_missing as u64);
    push_str(&mut out, " missing");
    proof {
        assert(out@ =~= media_import_status(
            imported as nat,
            renamed as nat,
            skipped_existing as nat,
            skipped_unsupported as nat,
            skipped_missing as nat,
            media_files_processed as nat,
            frames_extracted as nat,
        ));
    }
    string_of(&out)
}

} // verus!
