//! Natural ("human") ordering of byte strings: runs of ASCII digits compare
//! by numeric value (then by width), everything else byte by byte.  Frames
//! of an animation are ordered this way, so that `frame2` comes before
//! `frame10`.
use vstd::prelude::*;
use vstd::utf8::{decode_utf8, encode_utf8};
use crate::codepoints::views;
use crate::keys::{display_name, source_display_name};
use crate::text::{chars_of, lower_chars, lower_seq, string_of};
use std::cmp::Ordering;

verus! {

/// The outcome of a three-way comparison.
#[derive(Debug, Clone, Copy, PartialEq, Eq, Structural)]
pub enum Order {
    Less,
    Equal,
    Greater,
}

pub open spec fn reverse(o: Order) -> Order {
    match o {
        Order::Less => Order::Greater,
        Order::Equal => Order::Equal,
        Order::Greater => Order::Less,
    }
}

/// `a`, and `b` where `a` is a tie.
pub open spec fn tie_break(a: Order, b: Order) -> Order {
    if a is Equal {
        b
    } else {
        a
    }
}

pub open spec fn compare_nat(a: nat, b: nat) -> Order {
    if a < b {
        Order::Less
    } else if a == b {
        Order::Equal
    } else {
        Order::Greater
    }
}

pub open spec fn is_ascii_digit(b: u8) -> bool {
    48 <= b && b <= 57
}

/// The length of the run of ASCII digits that `s` starts with.
pub open spec fn digit_run(s: Seq<u8>) -> nat
    decreases s.len(),
{
    if s.len() > 0 && is_ascii_digit(s[0]) {
        1 + digit_run(s.skip(1))
    } else {
        0
    }
}

/// A run of digits without its leading zeros (one digit is always kept).
pub open spec fn trim_zeros(d: Seq<u8>) -> Seq<u8>
    decreases d.len(),
{
    if d.len() > 1 && d[0] == 48 {
        trim_zeros(d.skip(1))
    } else {
        d
    }
}

/// Lexicographic order of byte strings (a proper prefix comes first).
pub open spec fn lex_order(a: Seq<u8>, b: Seq<u8>) -> Order
    decreases a.len(),
{
    if a.len() == 0 || b.len() == 0 {
        compare_nat(a.len(), b.len())
    } else if a[0] < b[0] {
        Order::Less
    } else if a[0] > b[0] {
        Order::Greater
    } else {
        lex_order(a.skip(1), b.skip(1))
    }
}

/// Numeric order of two digit runs: fewer significant digits is smaller,
/// then digit by digit.
pub open spec fn digits_order(a: Seq<u8>, b: Seq<u8>) -> Order {
    let ta = trim_zeros(a);
    let tb = trim_zeros(b);
    tie_break(compare_nat(ta.len(), tb.len()), lex_order(ta, tb))
}

/// The natural order of two byte strings.  Where both continue with a digit
/// run, the runs compare by value and then by width (`7` before `07`);
/// elsewhere bytes compare as numbers; a string that ends first is smaller.
pub open spec fn natural_order(l: Seq<u8>, r: Seq<u8>) -> Order
    decreases l.len(),
{
    if l.len() == 0 || r.len() == 0 {
        compare_nat(l.len(), r.len())
    } else if is_ascii_digit(l[0]) && is_ascii_digit(r[0]) {
        let a = digit_run(l);
        let b = digit_run(r);
        let c = tie_break(digits_order(l.take(a as int), r.take(b as int)), compare_nat(a, b));
        if c is Equal {
            proof {
                lemma_digit_run(l);
            }
            natural_order(l.skip(a as int), r.skip(b as int))
        } else {
            c
        }
    } else if l[0] == r[0] {
        natural_order(l.skip(1), r.skip(1))
    } else if l[0] < r[0] {
        Order::Less
    } else {
        Order::Greater
    }
}

pub proof fn lemma_digit_run(s: Seq<u8>)
    ensures
        digit_run(s) <= s.len(),
        s.len() > 0 && is_ascii_digit(s[0]) ==> digit_run(s) >= 1,
        forall|i: int| 0 <= i < digit_run(s) ==> is_ascii_digit(#[trigger] s[i]),
        digit_run(s) < s.len() ==> !is_ascii_digit(s[digit_run(s) as int]),
    decreases s.len(),
{
    if s.len() > 0 && is_ascii_digit(s[0]) {
        lemma_digit_run(s.skip(1));
        assert forall|i: int| 0 <= i < digit_run(s) implies is_ascii_digit(#[trigger] s[i]) by {
            if i > 0 {
                assert(s[i] == s.skip(1)[i - 1]);
            }
        }
        if digit_run(s) < s.len() {
            assert(s[digit_run(s) as int] == s.skip(1)[digit_run(s.skip(1)) as int]);
        }
    }
}

/// `trim_zeros(d)` is what follows a run of `'0'` bytes at the front of `d`.
pub proof fn lemma_trim_zeros(d: Seq<u8>)
    ensures
        trim_zeros(d).len() <= d.len(),
        d.len() > 0 ==> trim_zeros(d).len() > 0,
        trim_zeros(d) == d.skip(d.len() - trim_zeros(d).len()),
        forall|i: int| 0 <= i < d.len() - trim_zeros(d).len() ==> #[trigger] d[i] == 48,
    decreases d.len(),
{
    if d.len() > 1 && d[0] == 48 {
        let t = d.skip(1);
        lemma_trim_zeros(t);
        assert(t.skip(t.len() - trim_zeros(t).len()) =~= d.skip(d.len() - trim_zeros(d).len()));
        assert forall|i: int| 0 <= i < d.len() - trim_zeros(d).len() implies #[trigger] d[i] == 48 by {
            if i > 0 {
                assert(d[i] == t[i - 1]);
            }
        }
    } else {
        assert(d.skip(0) =~= d);
    }
}

pub proof fn lemma_lex_reverse(a: Seq<u8>, b: Seq<u8>)
    ensures
        lex_order(a, b) == reverse(lex_order(b, a)),
    decreases a.len(),
{
    if a.len() > 0 && b.len() > 0 && a[0] == b[0] {
        lemma_lex_reverse(a.skip(1), b.skip(1));
    }
}

pub proof fn lemma_lex_equal(a: Seq<u8>, b: Seq<u8>)
    ensures
        lex_order(a, b) is Equal <==> a == b,
    decreases a.len(),
{
    if a.len() > 0 && b.len() > 0 {
        lemma_lex_equal(a.skip(1), b.skip(1));
        if a[0] == b[0] && a.skip(1) == b.skip(1) {
            assert(a =~= seq![a[0]] + a.skip(1));
            assert(b =~= seq![b[0]] + b.skip(1));
        }
        if a == b {
            assert(a.skip(1) == b.skip(1));
        }
    } else if a.len() == 0 && b.len() == 0 {
        assert(a =~= b);
    }
}

/// Swapping the two sides reverses the natural order.
pub proof fn lemma_natural_reverse(l: Seq<u8>, r: Seq<u8>)
    ensures
        natural_order(l, r) == reverse(natural_order(r, l)),
    decreases l.len(),
{
    if l.len() > 0 && r.len() > 0 {
        if is_ascii_digit(l[0]) && is_ascii_digit(r[0]) {
            let a = digit_run(l);
            let b = digit_run(r);
            lemma_digit_run(l);
            lemma_digit_run(r);
            lemma_lex_reverse(trim_zeros(l.take(a as int)), trim_zeros(r.take(b as int)));
            lemma_natural_reverse(l.skip(a as int), r.skip(b as int));
        } else if l[0] == r[0] {
            lemma_natural_reverse(l.skip(1), r.skip(1));
        }
    }
}

/// Two strings are naturally equal only when they are the same string.
#[verifier::spinoff_prover]
#[verifier::rlimit(40)]
pub proof fn lemma_natural_equal(l: Seq<u8>, r: Seq<u8>)
    ensures
        natural_order(l, r) is Equal <==> l == r,
    decreases l.len(),
{
    if l.len() > 0 && r.len() > 0 {
        if is_ascii_digit(l[0]) && is_ascii_digit(r[0]) {
            let a = digit_run(l);
            let b = digit_run(r);
            lemma_digit_run(l);
            lemma_digit_run(r);
            let la = l.take(a as int);
            let rb = r.take(b as int);
            lemma_trim_zeros(la);
            lemma_trim_zeros(rb);
            lemma_lex_equal(trim_zeros(la), trim_zeros(rb));
            lemma_natural_equal(l.skip(a as int), r.skip(b as int));
            if natural_order(l, r) is Equal {
                assert(a == b);
                assert(trim_zeros(la) == trim_zeros(rb));
                assert forall|i: int| 0 <= i < a implies la[i] == rb[i] by {
                    let k = a - trim_zeros(la).len();
                    if i < k {
                        assert(la[i] == 48);
                        assert(rb[i] == 48);
                    } else {
                        assert(la[i] == trim_zeros(la)[i - k]);
                        assert(rb[i] == trim_zeros(rb)[i - k]);
                    }
                }
                assert(la =~= rb);
                assert(l =~= la + l.skip(a as int));
                assert(r =~= rb + r.skip(b as int));
            }
            if l == r {
                lemma_lex_equal(trim_zeros(la), trim_zeros(la));
            }
        } else {
            lemma_natural_equal(l.skip(1), r.skip(1));
            if l[0] == r[0] && l.skip(1) == r.skip(1) {
                assert(l =~= seq![l[0]] + l.skip(1));
                assert(r =~= seq![r[0]] + r.skip(1));
            }
            if l == r {
                assert(l.skip(1) == r.skip(1));
            }
        }
    } else if l.len() == 0 && r.len() == 0 {
        assert(l =~= r);
    }
}


fn compare_usize(a: usize, b: usize) -> (o: Order)
    ensures
        o == compare_nat(a as nat, b as nat),
{
    if a < b {
        Order::Less
    } else if a == b {
        Order::Equal
    } else {
        Order::Greater
    }
}

fn byte_is_digit(b: u8) -> (r: bool)
    ensures
        r == is_ascii_digit(b),
{
    48 <= b && b <= 57
}

/// The end of the digit run that starts at `from`.
fn digit_run_end(s: &[u8], from: usize) -> (j: usize)
    requires
        from <= s@.len(),
    ensures
        from <= j <= s@.len(),
        j - from == digit_run(s@.skip(from as int)),
{
    let mut j = from;
    while j < s.len() && byte_is_digit(s[j])
        invariant
            from <= j <= s@.len(),
            digit_run(s@.skip(from as int)) == (j - from) + digit_run(s@.skip(j as int)),
        decreases s@.len() - j,
    {
        proof {
            assert(s@.skip(j as int).skip(1) =~= s@.skip(j + 1));
        }
        j = j + 1;
    }
    j
}

/// The digits of a run after its leading zeros (the last digit is kept).
pub fn trim_leading_ascii_zeroes(digits: &[u8]) -> (r: &[u8])
    ensures
        r@ == trim_zeros(digits@),
{
    let mut idx: usize = 0;
    proof {
        assert(digits@.skip(0) =~= digits@);
    }
    while digits.len() - idx > 1 && digits[idx] == 48
        invariant
            idx <= digits@.len(),
            trim_zeros(digits@) == trim_zeros(digits@.skip(idx as int)),
        decreases digits@.len() - idx,
    {
        proof {
            assert(digits@.skip(idx as int).skip(1) =~= digits@.skip(idx + 1));
        }
        idx = idx + 1;
    }
    let r = &digits[idx..digits.len()];
    proof {
        assert(r@ =~= digits@.skip(idx as int));
    }
    r
}

pub fn lex_bytes_order(a: &[u8], b: &[u8]) -> (o: Order)
    ensures
        o == lex_order(a@, b@),
{
    let mut i: usize = 0;
    proof {
        assert(a@.skip(0) =~= a@);
        assert(b@.skip(0) =~= b@);
    }
    while i < a.len() && i < b.len()
        invariant
            i <= a@.len(),
            i <= b@.len(),
            lex_order(a@, b@) == lex_order(a@.skip(i as int), b@.skip(i as int)),
        decreases a@.len() - i,
    {
        if a[i] < b[i] {
            return Order::Less;
        }
        if a[i] > b[i] {
            return Order::Greater;
        }
        proof {
            assert(a@.skip(i as int).skip(1) =~= a@.skip(i + 1));
            assert(b@.skip(i as int).skip(1) =~= b@.skip(i + 1));
        }
        i = i + 1;
    }
    compare_usize(a.len() - i, b.len() - i)
}

/// The natural order of two byte strings.
pub fn natural_bytes_order(l: &[u8], r: &[u8]) -> (o: Order)
    ensures
        o == natural_order(l@, r@),
{
    let mut i: usize = 0;
    proof {
        assert(l@.skip(0) =~= l@);
        assert(r@.skip(0) =~= r@);
    }
    while i < l.len() && i < r.len()
        invariant
            i <= l@.len(),
            i <= r@.len(),
            natural_order(l@, r@) == natural_order(l@.skip(i as int), r@.skip(i as int)),
        decreases l@.len() - i,
    {
        let ghost ls = l@.skip(i as int);
        let ghost rs = r@.skip(i as int);
        if byte_is_digit(l[i]) && byte_is_digit(r[i]) {
            let j = digit_run_end(l, i);
            let k = digit_run_end(r, i);
            proof {
                lemma_digit_run(ls);
                lemma_digit_run(rs);
            }
            let ld = trim_leading_ascii_zeroes(&l[i..j]);
            let rd = trim_leading_ascii_zeroes(&r[i..k]);
            proof {
                assert(l@.subrange(i as int, j as int) =~= ls.take((j - i) as int));
                assert(r@.subrange(i as int, k as int) =~= rs.take((k - i) as int));
            }
            let numeric = if ld.len() != rd.len() {
                compare_usize(ld.len(), rd.len())
            } else {
                lex_bytes_order(ld, rd)
            };
            if numeric != Order::Equal {
                return numeric;
            }
            if j - i != k - i {
                return compare_usize(j - i, k - i);
            }
            proof {
                assert(ls.skip((j - i) as int) =~= l@.skip(j as int));
                assert(rs.skip((k - i) as int) =~= r@.skip(k as int));
            }
            i = j;
        } else {
            if l[i] != r[i] {
                if l[i] < r[i] {
                    return Order::Less;
                }
                return Order::Greater;
            }
            proof {
                assert(ls.skip(1) =~= l@.skip(i + 1));
                assert(rs.skip(1) =~= r@.skip(i + 1));
            }
            i = i + 1;
        }
    }
    compare_usize(l.len(), r.len())
}

pub open spec fn ordering_of(o: Order) -> Ordering {
    match o {
        Order::Less => Ordering::Less,
        Order::Equal => Ordering::Equal,
        Order::Greater => Ordering::Greater,
    }
}

fn to_ordering(o: Order) -> (r: Ordering)
    ensures
        r == ordering_of(o),
{
    match o {
        Order::Less => Ordering::Less,
        Order::Equal => Ordering::Equal,
        Order::Greater => Ordering::Greater,
    }
}

/// The natural order of the UTF-8 bytes of two strings.
pub fn natural_ascii_cmp(left: &str, right: &str) -> (r: Ordering)
    ensures
        r == ordering_of(natural_order(encode_utf8(left@), encode_utf8(right@))),
{
    to_ordering(natural_bytes_order(left.as_bytes(), right.as_bytes()))
}


/// The bytes by which a source key is ordered among animation frames: its
/// display name, ASCII-lowercased.
pub open spec fn sort_key(source_key: Seq<char>) -> Seq<u8> {
    encode_utf8(lower_seq(display_name(source_key)))
}

/// The order of animation frames: natural order of their sort keys, ties
/// broken by the plain byte order of the same keys.
#[verifier::opaque]
pub open spec fn source_key_order(a: Seq<char>, b: Seq<char>) -> Order {
    tie_break(natural_order(sort_key(a), sort_key(b)), lex_order(sort_key(a), sort_key(b)))
}

fn sort_key_bytes(source_key: &str) -> (r: Vec<u8>)
    ensures
        r@ == sort_key(source_key@),
{
    let name = source_display_name(source_key);
    let lowered = string_of(&lower_chars(&chars_of(name.as_str())));
    lowered.as_str().as_bytes_vec()
}

fn source_key_order_exec(a: &str, b: &str) -> (o: Order)
    ensures
        o == source_key_order(a@, b@),
{
    reveal(source_key_order);
    let ka = sort_key_bytes(a);
    let kb = sort_key_bytes(b);
    let first = natural_bytes_order(ka.as_slice(), kb.as_slice());
    if first != Order::Equal {
        return first;
    }
    lex_bytes_order(ka.as_slice(), kb.as_slice())
}

/// The natural order of the display names of two source keys, ignoring
/// ASCII case.
pub fn natural_source_key_cmp(left: &str, right: &str) -> (r: Ordering)
    ensures
        r == ordering_of(natural_order(sort_key(left@), sort_key(right@))),
{
    let ka = sort_key_bytes(left);
    let kb = sort_key_bytes(right);
    to_ordering(natural_bytes_order(ka.as_slice(), kb.as_slice()))
}

/// Swapping the two sides reverses the frame order.
pub proof fn lemma_source_key_order_reverse(a: Seq<char>, b: Seq<char>)
    ensures
        source_key_order(a, b) == reverse(source_key_order(b, a)),
{
    reveal(source_key_order);
    lemma_natural_reverse(sort_key(a), sort_key(b));
    lemma_lex_reverse(sort_key(a), sort_key(b));
}

/// The keys at `i` and `i + 1` are in frame order.
pub open spec fn in_order_at(s: Seq<String>, i: int) -> bool {
    source_key_order(s[i]@, s[i + 1]@) != Order::Greater
}

pub open spec fn adjacent_sorted(s: Seq<String>) -> bool {
    forall|i: int| 0 <= i < s.len() - 1 ==> #[trigger] in_order_at(s, i)
}

proof fn lemma_insert_sorted(keys: Seq<String>, p: int, x: String)
    requires
        adjacent_sorted(keys),
        0 <= p <= keys.len(),
        p > 0 ==> source_key_order(keys[p - 1]@, x@) != Order::Greater,
        p < keys.len() ==> source_key_order(keys[p]@, x@) == Order::Greater,
    ensures
        adjacent_sorted(keys.insert(p, x)),
{
    let n = keys.insert(p, x);
    assert forall|i: int| 0 <= i < n.len() - 1 implies #[trigger] in_order_at(n, i) by {
        if i + 1 < p {
            assert(in_order_at(keys, i));
            assert(n[i] == keys[i]);
            assert(n[i + 1] == keys[i + 1]);
        } else if i + 1 == p {
            assert(n[i] == keys[i]);
            assert(n[i + 1] == x);
        } else if i == p {
            assert(n[i] == x);
            assert(n[i + 1] == keys[i]);
            lemma_source_key_order_reverse(x@, keys[i]@);
        } else {
            assert(in_order_at(keys, i - 1));
            assert(n[i] == keys[i - 1]);
            assert(n[i + 1] == keys[i]);
        }
    }
}

proof fn lemma_move_first(keys: Seq<String>, rest: Seq<String>, p: int)
    requires
        rest.len() > 0,
        0 <= p <= keys.len(),
    ensures
        keys.insert(p, rest[0]).to_multiset().add(rest.remove(0).to_multiset())
            == keys.to_multiset().add(rest.to_multiset()),
{
    broadcast use vstd::multiset::group_multiset_axioms;

    let x = rest[0];
    vstd::seq_lib::to_multiset_insert(keys, p, x);
    vstd::seq_lib::to_multiset_remove(rest, 0);
    vstd::seq_lib::to_multiset_contains(rest, x);
    assert(keys.insert(p, x).to_multiset().add(rest.remove(0).to_multiset())
        =~= keys.to_multiset().add(rest.to_multiset()));
}

/// The first `keys.len()` keys of `original` are placed in `keys` by `idx`,
/// keys of the same order in their original relative order.
pub open spec fn placed_stably(original: Seq<String>, keys: Seq<String>, idx: Seq<int>) -> bool {
    &&& idx.len() == keys.len()
    &&& keys.len() <= original.len()
    &&& forall|i: int| 0 <= i < keys.len() ==> 0 <= #[trigger] idx[i] < keys.len() && keys[i] == original[idx[i]]
    &&& forall|i: int, j: int| 0 <= i < j < keys.len() ==> #[trigger] idx[i] != #[trigger] idx[j]
    &&& forall|i: int, j: int|
        0 <= i < j < keys.len() && source_key_order(keys[i]@, keys[j]@) == Order::Equal ==> #[trigger] idx[i]
            < #[trigger] idx[j]
}

proof fn lemma_place_stably(original: Seq<String>, keys: Seq<String>, idx: Seq<int>, p: int)
    requires
        placed_stably(original, keys, idx),
        keys.len() < original.len(),
        0 <= p <= keys.len(),
        forall|q: int| p <= q < keys.len() ==> source_key_order(#[trigger] keys[q]@, original[keys.len() as int]@) == Order::Greater,
    ensures
        placed_stably(original, keys.insert(p, original[keys.len() as int]), idx.insert(p, keys.len() as int)),
{
    let m = keys.len() as int;
    let x = original[m];
    let k2 = keys.insert(p, x);
    let i2 = idx.insert(p, m);
    assert forall|i: int| 0 <= i < k2.len() implies 0 <= #[trigger] i2[i] < k2.len() && k2[i] == original[i2[i]] by {
        if i < p {
            assert(i2[i] == idx[i]);
        } else if i > p {
            assert(i2[i] == idx[i - 1]);
        }
    }
    assert forall|i: int, j: int| 0 <= i < j < k2.len() implies #[trigger] i2[i] != #[trigger] i2[j] by {
        if i < p && j > p {
            assert(i2[i] == idx[i] && i2[j] == idx[j - 1]);
        } else if j < p {
        } else if i > p {
            assert(i2[i] == idx[i - 1] && i2[j] == idx[j - 1]);
        } else if i == p {
            assert(i2[j] == idx[j - 1]);
        } else {
            assert(i2[i] == idx[i]);
        }
    }
    assert forall|i: int, j: int|
        0 <= i < j < k2.len() && source_key_order(k2[i]@, k2[j]@) == Order::Equal implies #[trigger] i2[i]
            < #[trigger] i2[j] by {
        if i < p && j > p {
            assert(i2[i] == idx[i] && i2[j] == idx[j - 1]);
            assert(k2[i] == keys[i] && k2[j] == keys[j - 1]);
        } else if j < p {
            assert(k2[i] == keys[i] && k2[j] == keys[j]);
        } else if i > p {
            assert(i2[i] == idx[i - 1] && i2[j] == idx[j - 1]);
            assert(k2[i] == keys[i - 1] && k2[j] == keys[j - 1]);
        } else if i == p {
            assert(k2[j] == keys[j - 1]);
            assert(source_key_order(keys[j - 1]@, x@) == Order::Greater);
            lemma_source_key_order_reverse(x@, keys[j - 1]@);
        } else {
            assert(i2[i] == idx[i]);
        }
    }
}

/// `after` is `before` rearranged by `perm` (`after[i]` is `before[perm[i]]`),
/// and keys in the same frame-order place keep their relative order.
pub open spec fn stable_rearrangement(before: Seq<String>, after: Seq<String>, perm: Seq<int>) -> bool {
    &&& perm.len() == after.len()
    &&& after.len() == before.len()
    &&& forall|i: int| 0 <= i < after.len() ==> 0 <= #[trigger] perm[i] < before.len() && after[i] == before[perm[i]]
    &&& forall|i: int, j: int| 0 <= i < j < after.len() ==> #[trigger] perm[i] != #[trigger] perm[j]
    &&& forall|i: int, j: int|
        0 <= i < j < after.len() && source_key_order(after[i]@, after[j]@) == Order::Equal ==> #[trigger] perm[i]
            < #[trigger] perm[j]
}

/// Sorts source keys into animation-frame order.  The sort is stable:
/// each key is inserted after the keys already placed that do not come
/// after it, so keys of the same order keep their relative order.
pub fn sort_source_keys_for_animation_frames(keys: &mut Vec<String>)
    ensures
        final(keys)@.to_multiset() == old(keys)@.to_multiset(),
        final(keys)@.len() == old(keys)@.len(),
        adjacent_sorted(final(keys)@),
        exists|perm: Seq<int>| stable_rearrangement(old(keys)@, final(keys)@, perm),
{
    let mut rest: Vec<String> = Vec::new();
    std::mem::swap(&mut rest, keys);
    let ghost original = rest@;
    proof {
        assert(keys@ =~= Seq::<String>::empty());
        vstd::seq_lib::to_multiset_len(keys@);
        assert(keys@.to_multiset() =~= vstd::multiset::Multiset::<String>::empty()) by {
            broadcast use vstd::multiset::group_multiset_axioms;
        }
        assert(keys@.to_multiset().add(rest@.to_multiset()) =~= original.to_multiset()) by {
            broadcast use vstd::multiset::group_multiset_axioms;
        }
    }
    let ghost mut idx: Seq<int> = Seq::empty();
    proof {
        assert(rest@ =~= original.skip(0));
    }
    while rest.len() > 0
        invariant
            keys@.to_multiset().add(rest@.to_multiset()) == original.to_multiset(),
            keys@.len() + rest@.len() == original.len(),
            adjacent_sorted(keys@),
            rest@ == original.skip(keys@.len() as int),
            placed_stably(original, keys@, idx),
        decreases rest@.len(),
    {
        let ghost before = rest@;
        let ghost old_keys = keys@;
        let x = rest.remove(0);
        let mut p = keys.len();
        while p > 0 && source_key_order_exec(keys[p - 1].as_str(), x.as_str()) == Order::Greater
            invariant
                p <= keys@.len(),
                forall|q: int| p <= q < keys@.len() ==> source_key_order(#[trigger] keys@[q]@, x@) == Order::Greater,
            decreases p,
        {
            p = p - 1;
        }
        proof {
            lemma_insert_sorted(old_keys, p as int, x);
            lemma_move_first(old_keys, before, p as int);
            assert(x == original[old_keys.len() as int]);
            lemma_place_stably(original, old_keys, idx, p as int);
            idx = idx.insert(p as int, old_keys.len() as int);
            assert(before.remove(0) =~= original.skip(old_keys.len() as int + 1));
        }
        keys.insert(p, x);
    }
    proof {
        assert(keys@.len() == original.len());
        assert(stable_rearrangement(original, keys@, idx));
    }
    proof {
        vstd::seq_lib::to_multiset_len(rest@);
        assert(keys@.to_multiset() =~= keys@.to_multiset().add(rest@.to_multiset())) by {
            broadcast use vstd::multiset::group_multiset_axioms;
        }
    }
}


// ---------------------------------------------------------------------------
// Sorted sets of strings (the order of `String`: byte by byte)
// ---------------------------------------------------------------------------
pub proof fn lemma_lex_transitive(a: Seq<u8>, b: Seq<u8>, c: Seq<u8>)
    requires
        lex_order(a, b) == Order::Less,
        lex_order(b, c) == Order::Less,
    ensures
        lex_order(a, c) == Order::Less,
    decreases a.len(),
{
    if a.len() > 0 && b.len() > 0 && c.len() > 0 && a[0] == b[0] && b[0] == c[0] {
        lemma_lex_transitive(a.skip(1), b.skip(1), c.skip(1));
    }
}

/// The order of two strings as `String`s compare: by their UTF-8 bytes.
pub open spec fn string_order(a: Seq<char>, b: Seq<char>) -> Order {
    lex_order(encode_utf8(a), encode_utf8(b))
}

pub proof fn lemma_string_order_equal(a: Seq<char>, b: Seq<char>)
    ensures
        string_order(a, b) is Equal <==> a == b,
{
    lemma_lex_equal(encode_utf8(a), encode_utf8(b));
    vstd::utf8::encode_utf8_decode_utf8(a);
    vstd::utf8::encode_utf8_decode_utf8(b);
}

/// Each string comes before every later one.
pub open spec fn strictly_sorted(s: Seq<String>) -> bool {
    forall|i: int, j: int| 0 <= i < j < s.len() ==> string_order(#[trigger] s[i]@, #[trigger] s[j]@) == Order::Less
}

fn string_order_exec(a: &str, b: &str) -> (o: Order)
    ensures
        o == string_order(a@, b@),
{
    lex_bytes_order(a.as_bytes(), b.as_bytes())
}

/// Adds `s` to a sorted set of strings (nothing changes when it is there).
pub fn insert_sorted_unique(set: &mut Vec<String>, s: String)
    requires
        strictly_sorted(old(set)@),
    ensures
        strictly_sorted(final(set)@),
        forall|x: Seq<char>| #[trigger] views(final(set)@).contains(x) <==> (views(old(set)@).contains(x) || x == s@),
{
    let ghost before = set@;
    let mut p: usize = 0;
    while p < set.len() && string_order_exec(set[p].as_str(), s.as_str()) == Order::Less
        invariant
            set@ == before,
            p <= set@.len(),
            forall|q: int| 0 <= q < p ==> string_order(#[trigger] set@[q]@, s@) == Order::Less,
        decreases set@.len() - p,
    {
        p = p + 1;
    }
    if p < set.len() && string_order_exec(set[p].as_str(), s.as_str()) == Order::Equal {
        proof {
            lemma_string_order_equal(set@[p as int]@, s@);
            assert forall|x: Seq<char>| #[trigger] views(set@).contains(x) <==> (views(before).contains(x) || x == s@) by {
                if x == s@ {
                    assert(views(set@)[p as int] == x);
                }
            }
        }
        return;
    }
    proof {
        if p < set@.len() {
            lemma_lex_reverse(encode_utf8(set@[p as int]@), encode_utf8(s@));
        }
    }
    let ghost sv = s@;
    set.insert(p, s);
    proof {
        let n = set@;
        assert forall|i: int, j: int| 0 <= i < j < n.len() implies string_order(#[trigger] n[i]@, #[trigger] n[j]@) == Order::Less by {
            if j < p {
                assert(n[i] == before[i] && n[j] == before[j]);
            } else if j == p {
                assert(n[i] == before[i]);
            } else if i == p {
                assert(n[j] == before[j - 1]);
                if j - 1 > p {
                    assert(string_order(before[p as int]@, before[j - 1]@) == Order::Less);
                    lemma_lex_transitive(encode_utf8(sv), encode_utf8(before[p as int]@), encode_utf8(before[j - 1]@));
                }
            } else if i < p {
                assert(n[i] == before[i]);
                assert(n[j] == before[j - 1]);
            } else {
                assert(n[i] == before[i - 1]);
                assert(n[j] == before[j - 1]);
            }
        }
        assert forall|x: Seq<char>| #[trigger] views(n).contains(x) <==> (views(before).contains(x) || x == sv) by {
            if views(n).contains(x) {
                let k = choose|k: int| 0 <= k < views(n).len() && views(n)[k] == x;
                if k < p {
                    assert(views(before)[k] == x);
                } else if k > p {
                    assert(views(before)[k - 1] == x);
                }
            }
            if views(before).contains(x) {
                let k = choose|k: int| 0 <= k < views(before).len() && views(before)[k] == x;
                if k < p {
                    assert(views(n)[k] == x);
                } else {
                    assert(views(n)[k + 1] == x);
                }
            }
            if x == sv {
                assert(views(n)[p as int] == x);
            }
        }
    }
}

} // verus!
