//! Source keys: the project-relative names of glyph sources, their display
//! names, and the `#compose:` keys of grid tiles
//! (`<parent>#compose:<rows>x<cols>:<row>:<col>`), plus codepoint labels.
use vstd::prelude::*;
use crate::text::{
    all_digits, contains_seq, digit_char, digit_value, digits_value, is_digit,
    chars_of, decimal, occurs_at, find_seq, first_occurrence, lemma_first_occurrence, parse_unsigned,
    parse_unsigned_chars, push_all, push_decimal, push_str, slice_chars, starts_with,
    starts_with_str, string_of, unsigned_body,
};

verus! {

// ---------------------------------------------------------------------------
// Splitting
// ---------------------------------------------------------------------------
/// `str::split_once(pat)`: the text before and after the first occurrence.
pub open spec fn split_once(s: Seq<char>, pat: Seq<char>) -> Option<(Seq<char>, Seq<char>)> {
    match first_occurrence(s, pat) {
        Some(i) => Some((s.take(i), s.skip(i + pat.len()))),
        None => None,
    }
}

/// The first item of `s.split(c)`.
pub open spec fn first_piece(s: Seq<char>, c: char) -> Seq<char> {
    match split_once(s, seq![c]) {
        Some((a, _)) => a,
        None => s,
    }
}

pub fn split_once_chars(s: &Vec<char>, pat: &Vec<char>) -> (r: Option<(Vec<char>, Vec<char>)>)
    ensures
        r matches Some((a, b)) ==> split_once(s@, pat@) == Some((a@, b@)),
        r is None ==> split_once(s@, pat@) is None,
{
    match find_seq(s, pat) {
        Some(i) => {
            proof {
                lemma_first_occurrence(s@, pat@);
                assert(occurs_at(s@, pat@, i as int));
                assert(i + pat@.len() <= s@.len());
            }
            let a = slice_chars(s, 0, i);
            assert(i + pat.len() <= s.len());
            let b = slice_chars(s, i + pat.len(), s.len());
            proof {
                assert(a@ =~= s@.take(i as int));
                assert(b@ =~= s@.skip(i + pat.len()));
            }
            Some((a, b))
        },
        None => None,
    }
}

pub fn split_once_char(s: &Vec<char>, c: char) -> (r: Option<(Vec<char>, Vec<char>)>)
    ensures
        r matches Some((a, b)) ==> split_once(s@, seq![c]) == Some((a@, b@)),
        r is None ==> split_once(s@, seq![c]) is None,
{
    let mut pat: Vec<char> = Vec::new();
    pat.push(c);
    proof {
        assert(pat@ =~= seq![c]);
    }
    split_once_chars(s, &pat)
}

fn first_piece_chars(s: &Vec<char>, c: char) -> (r: Vec<char>)
    ensures
        r@ == first_piece(s@, c),
{
    match split_once_char(s, c) {
        Some((a, _)) => a,
        None => {
            let mut r: Vec<char> = Vec::new();
            push_all(&mut r, s);
            proof {
                assert(r@ =~= s@);
            }
            r
        },
    }
}

// ---------------------------------------------------------------------------
// Compose tile keys
// ---------------------------------------------------------------------------
pub open spec fn compose_marker() -> Seq<char> {
    seq!['#', 'c', 'o', 'm', 'p', 'o', 's', 'e', ':']
}

pub open spec fn parse_usize(s: Seq<char>) -> Option<nat> {
    parse_unsigned(s, usize::MAX as nat)
}

/// `<rows>x<cols>`: the first two items of `split('x')`.
pub open spec fn parse_pair(s: Seq<char>, sep: char) -> Option<(nat, nat)> {
    match split_once(s, seq![sep]) {
        Some((a, rest)) => match (parse_usize(a), parse_usize(first_piece(rest, sep))) {
            (Some(x), Some(y)) => Some((x, y)),
            _ => None,
        },
        None => None,
    }
}

/// `parse_compose_tile_key`: the parent key, grid size and tile position of
/// a `#compose:` key.
pub open spec fn parse_compose(s: Seq<char>) -> Option<(Seq<char>, nat, nat, nat, nat)> {
    match split_once(s, compose_marker()) {
        Some((parent, compose)) => match split_once(compose, seq![':']) {
            Some((dims, pos)) => match (parse_pair(dims, 'x'), parse_pair(pos, ':')) {
                (Some((rows, cols)), Some((row, col))) => Some((parent, rows, cols, row, col)),
                _ => None,
            },
            None => None,
        },
        None => None,
    }
}

pub(crate) proof fn lemma_decimal_digits(n: nat)
    ensures
        decimal(n).len() > 0,
        all_digits(decimal(n)),
        digits_value(decimal(n)) == n,
    decreases n,
{
    let d = decimal(n);
    if n < 10 {
        assert(d[0] == digit_char(n));
        assert(d.drop_last() =~= Seq::<char>::empty());
        assert(digit_value(digit_char(n)) == n);
        assert(digits_value(d.drop_last()) == 0);
        assert(d.last() == d[0]);
        assert(digits_value(d) == digits_value(d.drop_last()) * 10 + digit_value(d.last()));
    } else {
        lemma_decimal_digits(n / 10);
        let p = decimal(n / 10);
        assert(d.drop_last() =~= p);
        assert(d.last() == digit_char(n % 10));
        assert(digit_value(digit_char(n % 10)) == n % 10);
        assert(digits_value(d) == digits_value(p) * 10 + digit_value(d.last()));
        assert((n / 10) * 10 + n % 10 == n);
        assert forall|i: int| 0 <= i < d.len() implies is_digit(#[trigger] d[i]) by {
            if i < p.len() {
                assert(d[i] == p[i]);
            }
        }
    }
}

proof fn lemma_parse_decimal(n: nat)
    requires
        n <= usize::MAX,
    ensures
        parse_usize(decimal(n)) == Some(n),
{
    lemma_decimal_digits(n);
    assert(is_digit(decimal(n)[0]));
    assert(unsigned_body(decimal(n)) == decimal(n));
}

/// Splitting at the first `pat`, when the first one follows `a`.
proof fn lemma_split_after(a: Seq<char>, pat: Seq<char>, b: Seq<char>)
    requires
        pat.len() > 0,
        forall|j: int| 0 <= j < a.len() ==> !occurs_at(a + pat + b, pat, j),
    ensures
        split_once(a + pat + b, pat) == Some((a, b)),
{
    let s = a + pat + b;
    assert(s.subrange(a.len() as int, (a.len() + pat.len()) as int) =~= pat);
    assert(occurs_at(s, pat, a.len() as int));
    lemma_first_occurrence(s, pat);
    match first_occurrence(s, pat) {
        Some(i) => {
            if i > a.len() {
                assert(!occurs_at(s, pat, a.len() as int));
            }
            assert(i == a.len());
            assert(s.take(i) =~= a);
            assert(s.skip(i + pat.len()) =~= b);
        },
        None => {
            assert(contains_seq(s, pat));
        },
    }
}

proof fn lemma_split_char(a: Seq<char>, c: char, b: Seq<char>)
    requires
        forall|k: int| 0 <= k < a.len() ==> a[k] != c,
    ensures
        split_once(a + seq![c] + b, seq![c]) == Some((a, b)),
{
    let s = a + seq![c] + b;
    assert forall|j: int| 0 <= j < a.len() implies !occurs_at(s, seq![c], j) by {
        if occurs_at(s, seq![c], j) {
            assert(s.subrange(j, j + 1)[0] == s[j]);
            assert(s[j] == a[j]);
        }
    }
    lemma_split_after(a, seq![c], b);
}

proof fn lemma_no_char(a: Seq<char>, c: char)
    requires
        forall|k: int| 0 <= k < a.len() ==> a[k] != c,
    ensures
        split_once(a, seq![c]) is None,
        first_piece(a, c) == a,
{
    lemma_first_occurrence(a, seq![c]);
    match first_occurrence(a, seq![c]) {
        Some(i) => {
            assert(a.subrange(i, i + 1)[0] == a[i]);
        },
        None => {},
    }
}

pub(crate) proof fn lemma_digits_lack(n: nat, c: char)
    requires
        !is_digit(c),
    ensures
        forall|k: int| 0 <= k < decimal(n).len() ==> decimal(n)[k] != c,
{
    lemma_decimal_digits(n);
    assert forall|k: int| 0 <= k < decimal(n).len() implies decimal(n)[k] != c by {
        assert(is_digit(decimal(n)[k]));
    }
}

proof fn lemma_parse_pair_of(x: nat, sep: char, y: nat)
    requires
        !is_digit(sep),
        x <= usize::MAX,
        y <= usize::MAX,
    ensures
        parse_pair(decimal(x) + seq![sep] + decimal(y), sep) == Some((x, y)),
{
    lemma_digits_lack(x, sep);
    lemma_digits_lack(y, sep);
    lemma_split_char(decimal(x), sep, decimal(y));
    lemma_no_char(decimal(y), sep);
    lemma_parse_decimal(x);
    lemma_parse_decimal(y);
}

proof fn lemma_marker_after_parent(parent: Seq<char>, tail: Seq<char>)
    requires
        !contains_seq(parent, compose_marker()),
    ensures
        forall|j: int| 0 <= j < parent.len() ==> !occurs_at(parent + compose_marker() + tail, compose_marker(), j),
{
    let m = compose_marker();
    let s = parent + m + tail;
    assert forall|j: int| 0 <= j < parent.len() implies !occurs_at(s, m, j) by {
        if occurs_at(s, m, j) {
            if j + m.len() <= parent.len() {
                assert(parent.subrange(j, j + m.len()) =~= s.subrange(j, j + m.len()));
                assert(occurs_at(parent, m, j));
            } else {
                let k = parent.len() - j;
                assert(s.subrange(j, j + m.len())[k] == s[parent.len() as int]);
                assert(s[parent.len() as int] == '#');
                assert(1 <= k <= 8);
                assert(m[k] != '#');
            }
        }
    }
}

proof fn lemma_dims_lack_colon(rows: nat, cols: nat)
    ensures
        forall|k: int| 0 <= k < (decimal(rows) + seq!['x'] + decimal(cols)).len() ==> (decimal(rows) + seq!['x'] + decimal(
            cols,
        ))[k] != ':',
{
    let dims = decimal(rows) + seq!['x'] + decimal(cols);
    lemma_digits_lack(rows, ':');
    lemma_digits_lack(cols, ':');
    assert forall|k: int| 0 <= k < dims.len() implies dims[k] != ':' by {
        if k < decimal(rows).len() {
            assert(dims[k] == decimal(rows)[k]);
        } else if k > decimal(rows).len() {
            assert(dims[k] == decimal(cols)[k - decimal(rows).len() - 1]);
        }
    }
}

/// A tile key built from a parent with no `#compose:` in it parses back to
/// the parent, grid size and position it was built from.
pub proof fn lemma_compose_key_round_trip(parent: Seq<char>, rows: nat, cols: nat, row: nat, col: nat)
    requires
        !contains_seq(parent, compose_marker()),
        rows <= usize::MAX,
        cols <= usize::MAX,
        row <= usize::MAX,
        col <= usize::MAX,
    ensures
        parse_compose(compose_key(parent, rows, cols, row, col)) == Some((parent, rows, cols, row, col)),
{
    let m = compose_marker();
    let dims = decimal(rows) + seq!['x'] + decimal(cols);
    let pos = decimal(row) + seq![':'] + decimal(col);
    let tail = dims + seq![':'] + pos;
    assert(compose_key(parent, rows, cols, row, col) =~= parent + m + tail);
    lemma_marker_after_parent(parent, tail);
    lemma_split_after(parent, m, tail);
    lemma_dims_lack_colon(rows, cols);
    lemma_split_char(dims, ':', pos);
    lemma_parse_pair_of(rows, 'x', cols);
    lemma_parse_pair_of(row, ':', col);
}

/// A key with no `#compose:` in it is no tile key.
pub proof fn lemma_plain_key_is_no_tile(key: Seq<char>)
    requires
        !contains_seq(key, compose_marker()),
    ensures
        parse_compose(key) is None,
{
    lemma_first_occurrence(key, compose_marker());
    if let Some(i) = first_occurrence(key, compose_marker()) {
        assert(occurs_at(key, compose_marker(), i));
    }
}

fn parse_usize_chars(s: &Vec<char>) -> (r: Option<usize>)
    ensures
        r matches Some(v) ==> parse_usize(s@) == Some(v as nat),
        r is None ==> parse_usize(s@) is None,
{
    match parse_unsigned_chars(s, usize::MAX as u64) {
        Some(v) => Some(v as usize),
        None => None,
    }
}

fn parse_pair_chars(s: &Vec<char>, sep: char) -> (r: Option<(usize, usize)>)
    ensures
        r matches Some((x, y)) ==> parse_pair(s@, sep) == Some((x as nat, y as nat)),
        r is None ==> parse_pair(s@, sep) is None,
{
    let (a, rest) = match split_once_char(s, sep) {
        Some(p) => p,
        None => return None,
    };
    let x = match parse_usize_chars(&a) {
        Some(x) => x,
        None => return None,
    };
    let second = first_piece_chars(&rest, sep);
    let y = match parse_usize_chars(&second) {
        Some(y) => y,
        None => return None,
    };
    Some((x, y))
}

/// Splits a grid tile key `<parent>#compose:<rows>x<cols>:<row>:<col>` into
/// its parent key, grid size and tile position.
pub fn parse_compose_tile_key(source_key: &str) -> (r: Option<(String, usize, usize, usize, usize)>)
    ensures
        r matches Some((p, rows, cols, row, col)) ==> parse_compose(source_key@) == Some(
            (p@, rows as nat, cols as nat, row as nat, col as nat),
        ),
        r is None ==> parse_compose(source_key@) is None,
{
    let s = chars_of(source_key);
    let marker = chars_of("#compose:");
    proof {
        reveal_strlit("#compose:");
        assert(marker@ =~= compose_marker());
    }
    let (parent, compose) = match split_once_chars(&s, &marker) {
        Some(p) => p,
        None => return None,
    };
    let (dims, pos) = match split_once_char(&compose, ':') {
        Some(p) => p,
        None => return None,
    };
    let (rows, cols) = match parse_pair_chars(&dims, 'x') {
        Some(p) => p,
        None => return None,
    };
    let (row, col) = match parse_pair_chars(&pos, ':') {
        Some(p) => p,
        None => return None,
    };
    Some((string_of(&parent), rows, cols, row, col))
}

/// The parent key a frame's threshold is stored under: the source of a
/// grid tile, otherwise the key itself.
pub open spec fn frame_parent(s: Seq<char>) -> Seq<char> {
    match parse_compose(s) {
        Some((parent, _, _, _, _)) => parent,
        None => s,
    }
}

/// The source key whose threshold a (possibly tiled) animation frame uses.
pub fn animation_frame_parent_source(source_key: &str) -> (r: String)
    ensures
        r@ == frame_parent(source_key@),
{
    match parse_compose_tile_key(source_key) {
        Some((parent, _, _, _, _)) => parent,
        None => source_key.to_owned(),
    }
}

/// The number of glyph columns emitted for a grid of `logical_cols`
/// columns: every logical column is drawn two cells wide.
pub fn emitted_composition_cols(logical_cols: usize) -> (r: usize)
    ensures
        r as int == (if logical_cols * 2 <= usize::MAX { logical_cols * 2 } else { logical_cols as int }),
{
    match logical_cols.checked_mul(2) {
        Some(v) => v,
        None => logical_cols,
    }
}

/// `<parent>#compose:<rows>x<cols>:<row>:<col>`.
pub open spec fn compose_key(parent: Seq<char>, rows: nat, cols: nat, row: nat, col: nat) -> Seq<
    char,
> {
    parent + compose_marker() + decimal(rows) + seq!['x'] + decimal(cols) + seq![':'] + decimal(row)
        + seq![':'] + decimal(col)
}

/// Builds the key of tile (`row`, `col`) of a `rows` x `cols` grid of `parent`.
pub fn format_compose_tile_key(parent: &str, rows: usize, cols: usize, row: usize, col: usize) -> (r:
    String)
    ensures
        r@ == compose_key(parent@, rows as nat, cols as nat, row as nat, col as nat),
{
    let mut out = chars_of(parent);
    push_str(&mut out, "#compose:");
    proof {
        reveal_strlit("#compose:");
    }
    push_decimal(&mut out, rows as u64);
    out.push('x');
    push_decimal(&mut out, cols as u64);
    out.push(':');
    push_decimal(&mut out, row as u64);
    out.push(':');
    push_decimal(&mut out, col as u64);
    proof {
        assert(out@ =~= compose_key(parent@, rows as nat, cols as nat, row as nat, col as nat));
    }
    string_of(&out)
}

// ---------------------------------------------------------------------------
// Display names (`Path::file_name`)
// ---------------------------------------------------------------------------
pub open spec fn strip_trailing_slashes(s: Seq<char>) -> Seq<char>
    decreases s.len(),
{
    if s.len() > 0 && s.last() == '/' {
        strip_trailing_slashes(s.drop_last())
    } else {
        s
    }
}

/// The index of the last `/` of `s`, or -1.
pub open spec fn last_slash(s: Seq<char>) -> int
    decreases s.len(),
{
    if s.len() == 0 {
        -1
    } else if s.last() == '/' {
        s.len() - 1
    } else {
        last_slash(s.drop_last())
    }
}

pub proof fn lemma_strip_trailing_slashes(s: Seq<char>)
    ensures
        strip_trailing_slashes(s).len() <= s.len(),
        strip_trailing_slashes(s) == s.take(strip_trailing_slashes(s).len() as int),
        strip_trailing_slashes(s).len() > 0 ==> strip_trailing_slashes(s).last() != '/',
    decreases s.len(),
{
    if s.len() > 0 && s.last() == '/' {
        lemma_strip_trailing_slashes(s.drop_last());
        let t = strip_trailing_slashes(s.drop_last());
        assert(s.drop_last().take(t.len() as int) =~= s.take(t.len() as int));
    } else {
        assert(s.take(s.len() as int) =~= s);
    }
}

pub proof fn lemma_last_slash(s: Seq<char>)
    ensures
        -1 <= last_slash(s) < s.len(),
        last_slash(s) >= 0 ==> s[last_slash(s)] == '/',
        forall|j: int| last_slash(s) < j < s.len() ==> s[j] != '/',
    decreases s.len(),
{
    if s.len() > 0 && s.last() != '/' {
        lemma_last_slash(s.drop_last());
        assert forall|j: int| last_slash(s) < j < s.len() implies s[j] != '/' by {
            if j < s.len() - 1 {
                assert(s[j] == s.drop_last()[j]);
            }
        }
    }
}

/// `Path::file_name` of a `/`-separated path: the last component, where
/// empty and `.` components are skipped and `..` has no file name.
pub open spec fn file_name(s: Seq<char>) -> Option<Seq<char>>
    decreases s.len(),
{
    let t = strip_trailing_slashes(s);
    if t.len() == 0 {
        None
    } else {
        let k = last_slash(t) + 1;
        let piece = t.skip(k);
        if piece == seq!['.'] {
            proof {
                lemma_strip_trailing_slashes(s);
                lemma_last_slash(t);
            }
            file_name(t.take(k))
        } else if piece == seq!['.', '.'] {
            None
        } else {
            Some(piece)
        }
    }
}

/// What the glyph list shows for a source key: its file name.
pub open spec fn display_name(s: Seq<char>) -> Seq<char> {
    match file_name(s) {
        Some(n) => n,
        None => s,
    }
}

fn strip_trailing_slashes_len(s: &Vec<char>, len: usize) -> (r: usize)
    requires
        len <= s.len(),
    ensures
        r <= len,
        s@.take(r as int) == strip_trailing_slashes(s@.take(len as int)),
{
    let mut end = len;
    while end > 0 && s[end - 1] == '/'
        invariant
            end <= len <= s.len(),
            strip_trailing_slashes(s@.take(end as int)) == strip_trailing_slashes(
                s@.take(len as int),
            ),
        decreases end,
    {
        proof {
            assert(s@.take(end - 1) =~= s@.take(end as int).drop_last());
        }
        end = end - 1;
    }
    proof {
        let t = s@.take(end as int);
        if end > 0 {
            assert(t.last() != '/');
        }
    }
    end
}

fn last_slash_before(s: &Vec<char>, len: usize) -> (r: Option<usize>)
    requires
        len <= s.len(),
    ensures
        r matches Some(k) ==> last_slash(s@.take(len as int)) == k as int && k < len,
        r is None ==> last_slash(s@.take(len as int)) == -1,
{
    let mut k = len;
    while k > 0
        invariant
            k <= len <= s.len(),
            last_slash(s@.take(len as int)) == last_slash(s@.take(k as int)),
        decreases k,
    {
        if s[k - 1] == '/' {
            return Some(k - 1);
        }
        proof {
            assert(s@.take(k - 1) =~= s@.take(k as int).drop_last());
        }
        k = k - 1;
    }
    None
}

/// `Path::file_name` of a `/`-separated path.
pub fn file_name_of(s: &Vec<char>) -> (r: Option<Vec<char>>)
    ensures
        r matches Some(n) ==> file_name(s@) == Some(n@),
        r is None ==> file_name(s@) is None,
{
    let mut len = s.len();
    proof {
        assert(s@.take(len as int) =~= s@);
    }
    loop
        invariant
            len <= s.len(),
            file_name(s@) == file_name(s@.take(len as int)),
        decreases len,
    {
        let end = strip_trailing_slashes_len(s, len);
        let ghost t = s@.take(end as int);
        if end == 0 {
            proof {
                assert(t.len() == 0);
                assert(file_name(s@.take(len as int)) is None);
            }
            return None;
        }
        let k = match last_slash_before(s, end) {
            Some(k) => k + 1,
            None => 0,
        };
        proof {
            lemma_last_slash(t);
            assert(last_slash(t) + 1 == k);
        }
        let piece = slice_chars(s, k, end);
        proof {
            assert(piece@ =~= t.skip(k as int));
            assert(strip_trailing_slashes(s@.take(len as int)) == t);
        }
        if piece.len() == 1 && piece[0] == '.' {
            proof {
                assert(piece@ =~= seq!['.']);
                assert(t.take(k as int) =~= s@.take(k as int));
            }
            len = k;
        } else if piece.len() == 2 && piece[0] == '.' && piece[1] == '.' {
            proof {
                assert(piece@ =~= seq!['.', '.']);
            }
            return None;
        } else {
            proof {
                assert(piece@ != seq!['.']);
                assert(piece@ != seq!['.', '.']);
            }
            return Some(piece);
        }
    }
}

/// The file name of a source key, or the key itself when it has none.
pub fn source_display_name(source_key: &str) -> (r: String)
    ensures
        r@ == display_name(source_key@),
{
    let s = chars_of(source_key);
    match file_name_of(&s) {
        Some(n) => string_of(&n),
        None => source_key.to_owned(),
    }
}

// ---------------------------------------------------------------------------
// Codepoint labels
// ---------------------------------------------------------------------------
pub open spec fn hex_digit_value(c: char) -> Option<nat> {
    if '0' <= c && c <= '9' {
        Some((c as u32 - '0' as u32) as nat)
    } else if 'a' <= c && c <= 'f' {
        Some((c as u32 - 'a' as u32 + 10) as nat)
    } else if 'A' <= c && c <= 'F' {
        Some((c as u32 - 'A' as u32 + 10) as nat)
    } else {
        None
    }
}

pub open spec fn all_hex(s: Seq<char>) -> bool {
    forall|i: int| 0 <= i < s.len() ==> (#[trigger] hex_digit_value(s[i])) is Some
}

pub open spec fn hex_value(s: Seq<char>) -> nat
    decreases s.len(),
{
    if s.len() == 0 {
        0
    } else {
        hex_value(s.drop_last()) * 16 + hex_digit_value(s.last())->0
    }
}

/// `u32::from_str_radix(s, 16)`.
pub open spec fn parse_hex_u32(s: Seq<char>) -> Option<nat> {
    let body = unsigned_body(s);
    if body.len() > 0 && all_hex(body) && hex_value(body) <= u32::MAX {
        Some(hex_value(body))
    } else {
        None
    }
}

/// `char::from_u32`: valid Unicode scalar values.
pub open spec fn is_scalar(u: nat) -> bool {
    u < 0xD800 || (0xE000 <= u && u <= 0x10FFFF)
}

/// The character a codepoint label (`U+XXXX` or bare hex) denotes.
pub open spec fn codepoint_char(s: Seq<char>) -> Option<char> {
    let raw = if starts_with(s, seq!['U', '+']) {
        s.skip(2)
    } else {
        s
    };
    match parse_hex_u32(raw) {
        Some(u) => if is_scalar(u) {
            Some((u as u32) as char)
        } else {
            None
        },
        None => None,
    }
}

/// `char::from_u32`.
#[verifier::external_body]
pub(crate) fn char_from_u32(u: u32) -> (r: Option<char>)
    ensures
        is_scalar(u as nat) ==> r == Some(u as char),
        !is_scalar(u as nat) ==> r is None,
{
    char::from_u32(u)
}

fn hex_digit(c: char) -> (r: Option<u32>)
    ensures
        r matches Some(v) ==> hex_digit_value(c) == Some(v as nat),
        r is None ==> hex_digit_value(c) is None,
{
    if '0' <= c && c <= '9' {
        Some(c as u32 - 48)
    } else if 'a' <= c && c <= 'f' {
        Some(c as u32 - 87)
    } else if 'A' <= c && c <= 'F' {
        Some(c as u32 - 55)
    } else {
        None
    }
}

proof fn lemma_hex_value_monotone(s: Seq<char>, k: int)
    requires
        0 <= k <= s.len(),
        all_hex(s),
    ensures
        hex_value(s.take(k)) <= hex_value(s),
    decreases s.len() - k,
{
    if k < s.len() {
        lemma_hex_value_monotone(s.drop_last(), k);
        assert(s.drop_last().take(k) =~= s.take(k));
        assert(all_hex(s.drop_last()));
    } else {
        assert(s.take(k) =~= s);
    }
}

fn parse_hex_chars(s: &Vec<char>, start0: usize) -> (r: Option<u32>)
    requires
        start0 <= s.len(),
    ensures
        r matches Some(v) ==> parse_hex_u32(s@.skip(start0 as int)) == Some(v as nat),
        r is None ==> parse_hex_u32(s@.skip(start0 as int)) is None,
{
    let ghost raw = s@.skip(start0 as int);
    let start: usize = if start0 < s.len() && s[start0] == '+' { start0 + 1 } else { start0 };
    let ghost body = unsigned_body(raw);
    proof {
        assert(body =~= s@.skip(start as int));
    }
    if start >= s.len() {
        return None;
    }
    let mut value: u32 = 0;
    let mut i = start;
    while i < s.len()
        invariant
            start <= i <= s.len(),
            raw == s@.skip(start0 as int),
            body == unsigned_body(raw),
            body == s@.skip(start as int),
            body.len() > 0,
            all_hex(s@.subrange(start as int, i as int)),
            value as nat == hex_value(s@.subrange(start as int, i as int)),
        decreases s.len() - i,
    {
        let c = s[i];
        let ghost prefix = s@.subrange(start as int, i as int);
        let ghost next = s@.subrange(start as int, i + 1);
        proof {
            assert(next.drop_last() =~= prefix);
            assert(body[i - start] == c);
        }
        let d = match hex_digit(c) {
            Some(d) => d,
            None => {
                proof {
                    assert(!all_hex(body));
                }
                return None;
            },
        };
        if value > (0xffff_ffffu32 - d) / 16 {
            proof {
                assert(hex_value(next) == value * 16 + d);
                assert(value * 16 + d > u32::MAX) by (nonlinear_arith)
                    requires
                        value > (0xffff_ffffu32 - d) / 16,
                        d < 16,
                ;
                if all_hex(body) {
                    lemma_hex_value_monotone(body, (i + 1 - start) as int);
                    assert(body.take((i + 1 - start) as int) =~= next);
                }
            }
            return None;
        }
        value = value * 16 + d;
        proof {
            assert forall|j: int| 0 <= j < next.len() implies (#[trigger] hex_digit_value(
                next[j],
            )) is Some by {
                if j < prefix.len() {
                    assert(next[j] == prefix[j]);
                }
            }
        }
        i = i + 1;
    }
    proof {
        assert(s@.subrange(start as int, s.len() as int) =~= body);
    }
    Some(value)
}

/// The character a codepoint label such as `U+100000` denotes.
pub fn format_codepoint_char(codepoint: &str) -> (r: Option<char>)
    ensures
        r == codepoint_char(codepoint@),
{
    let s = chars_of(codepoint);
    let prefixed = starts_with_str(&s, "U+");
    proof {
        reveal_strlit("U+");
        assert("U+"@ =~= seq!['U', '+']);
    }
    let start: usize = if prefixed { 2 } else { 0 };
    proof {
        assert(s@.skip(0) =~= s@);
    }
    match parse_hex_chars(&s, start) {
        Some(u) => char_from_u32(u),
        None => None,
    }
}

} // verus!
