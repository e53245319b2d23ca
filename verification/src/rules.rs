//! Page rules: which pages a rule such as `"1, 3, >=10"` selects.
//!
//! A rule is a comma-separated list of tokens; a page is selected when any
//! token selects it. A token is a page number, optionally preceded by one of
//! `>=`, `<=`, `>`, `<` or `=`; white space around the token and between the
//! relation and the number is ignored. A token that is empty or does not
//! hold a number selects no page.
use vstd::prelude::*;

use crate::text::{chars_of, is_white, lemma_trim_start_at, trim, trim_end, trim_range, trim_start};

verus! {

/// How a token compares the page with its number.
#[derive(Clone, Copy, Debug, PartialEq, Eq, Structural)]
pub enum Relation {
    AtLeast,
    AtMost,
    Above,
    Below,
    Equal,
}

/// Whether `page` stands in `rel` to `n`.
pub open spec fn relation_holds(rel: Relation, page: u32, n: u32) -> bool {
    match rel {
        Relation::AtLeast => page >= n,
        Relation::AtMost => page <= n,
        Relation::Above => page > n,
        Relation::Below => page < n,
        Relation::Equal => page == n,
    }
}

/// The relation a (trimmed, non-empty) token starts with, and the rest of it.
pub open spec fn split_relation(s: Seq<char>) -> (Relation, Seq<char>) {
    if s.len() >= 2 && s[0] == '>' && s[1] == '=' {
        (Relation::AtLeast, s.skip(2))
    } else if s.len() >= 2 && s[0] == '<' && s[1] == '=' {
        (Relation::AtMost, s.skip(2))
    } else if s.len() >= 1 && s[0] == '>' {
        (Relation::Above, s.skip(1))
    } else if s.len() >= 1 && s[0] == '<' {
        (Relation::Below, s.skip(1))
    } else if s.len() >= 1 && s[0] == '=' {
        (Relation::Equal, s.skip(1))
    } else {
        (Relation::Equal, s)
    }
}

/// An ASCII decimal digit.
pub open spec fn is_digit(c: char) -> bool {
    48 <= (c as u32) <= 57
}

/// The value of a digit.
pub open spec fn digit_value(c: char) -> nat {
    ((c as u32) - 48) as nat
}

/// The value of a string of decimal digits (0 for the empty string).
pub open spec fn decimal_value(d: Seq<char>) -> nat
    decreases d.len(),
{
    if d.len() == 0 {
        0
    } else {
        decimal_value(d.drop_last()) * 10 + digit_value(d.last())
    }
}

/// The digits of a would-be number: `s` without one leading `+`.
pub open spec fn unsigned_digits(s: Seq<char>) -> Seq<char> {
    if s.len() > 0 && s[0] == '+' {
        s.drop_first()
    } else {
        s
    }
}

/// Every character of `d` is an ASCII digit.
pub open spec fn all_digits(d: Seq<char>) -> bool {
    forall|i: int| 0 <= i < d.len() ==> is_digit(#[trigger] d[i])
}

/// A `u32` as `str::parse::<u32>` reads it: an optional `+`, then one or more
/// ASCII digits whose value fits in a `u32`; anything else is no number.
pub open spec fn parse_u32(s: Seq<char>) -> Option<u32> {
    let d = unsigned_digits(s);
    if d.len() > 0 && all_digits(d) && decimal_value(d) <= u32::MAX {
        Some(decimal_value(d) as u32)
    } else {
        None
    }
}

/// Whether one token of a rule selects `page`.
pub open spec fn token_selects(token: Seq<char>, page: u32) -> bool {
    let s = trim(token);
    s.len() > 0 && {
        let (rel, rest) = split_relation(s);
        match parse_u32(trim(rest)) {
            Some(n) => relation_holds(rel, page, n),
            None => false,
        }
    }
}

/// `s[i..j]` is one of the comma-separated fields of `s`.
pub open spec fn is_field(s: Seq<char>, i: int, j: int) -> bool {
    &&& 0 <= i <= j <= s.len()
    &&& i == 0 || s[i - 1] == ','
    &&& j == s.len() || s[j] == ','
    &&& forall|k: int| i <= k < j ==> s[k] != ','
}

/// Whether a rule selects `page`: some field of it, as a token, does.
pub open spec fn rule_selects(spec: Seq<char>, page: u32) -> bool {
    exists|i: int, j: int| is_field(spec, i, j) && token_selects(spec.subrange(i, j), page)
}

proof fn lemma_decimal_push(d: Seq<char>, c: char)
    ensures
        decimal_value(d.push(c)) == decimal_value(d) * 10 + digit_value(c),
{
    assert(d.push(c).drop_last() =~= d);
}

proof fn lemma_decimal_prefix(d: Seq<char>, k: int)
    requires
        0 <= k <= d.len(),
    ensures
        decimal_value(d) >= decimal_value(d.take(k)),
    decreases d.len(),
{
    if k == d.len() {
        assert(d.take(k) =~= d);
    } else {
        lemma_decimal_prefix(d.drop_last(), k);
        assert(d.drop_last().take(k) =~= d.take(k));
    }
}

/// `str::parse::<u32>` on `v[lo..hi]`.
fn parse_u32_range(v: &Vec<char>, lo: usize, hi: usize) -> (r: Option<u32>)
    requires
        lo <= hi <= v.len(),
    ensures
        r == parse_u32(v@.subrange(lo as int, hi as int)),
{
    let ghost s = v@.subrange(lo as int, hi as int);
    let mut start = lo;
    if start < hi && v[start] == '+' {
        start = start + 1;
    }
    let ghost d = v@.subrange(start as int, hi as int);
    assert(d =~= unsigned_digits(s));
    if start == hi {
        return None;
    }
    let mut acc: u64 = 0;
    let mut i = start;
    while i < hi
        invariant
            lo <= start <= i <= hi <= v.len(),
            d == v@.subrange(start as int, hi as int),
            s == v@.subrange(lo as int, hi as int),
            d == unsigned_digits(s),
            d.len() > 0,
            forall|k: int| start <= k < i ==> is_digit(#[trigger] v@[k]),
            acc == decimal_value(v@.subrange(start as int, i as int)),
            acc <= u32::MAX,
        decreases hi - i,
    {
        let c = v[i];
        let u = c as u32;
        if !(48 <= u && u <= 57) {
            assert(d[i - start] == c);
            assert(!is_digit(c));
            return None;
        }
        proof {
            lemma_decimal_push(v@.subrange(start as int, i as int), c);
            assert(v@.subrange(start as int, i as int).push(c) =~= v@.subrange(
                start as int,
                i + 1,
            ));
        }
        acc = acc * 10 + (u - 48) as u64;
        i = i + 1;
        if acc > 0xFFFF_FFFFu64 {
            proof {
                assert(d.take(i - start) =~= v@.subrange(start as int, i as int));
                lemma_decimal_prefix(d, i - start);
            }
            return None;
        }
    }
    assert(v@.subrange(start as int, i as int) =~= d);
    Some(acc as u32)
}

/// Whether the token `v[lo..hi]` selects `page`.
fn token_selects_range(v: &Vec<char>, lo: usize, hi: usize, page: u32) -> (r: bool)
    requires
        lo <= hi <= v.len(),
    ensures
        r == token_selects(v@.subrange(lo as int, hi as int), page),
{
    let (a, b) = trim_range(v, lo, hi);
    if a == b {
        return false;
    }
    let ghost s = v@.subrange(a as int, b as int);
    let (rel, rest) = if b - a >= 2 && v[a] == '>' && v[a + 1] == '=' {
        (Relation::AtLeast, a + 2)
    } else if b - a >= 2 && v[a] == '<' && v[a + 1] == '=' {
        (Relation::AtMost, a + 2)
    } else if v[a] == '>' {
        (Relation::Above, a + 1)
    } else if v[a] == '<' {
        (Relation::Below, a + 1)
    } else if v[a] == '=' {
        (Relation::Equal, a + 1)
    } else {
        (Relation::Equal, a)
    };
    assert(split_relation(s).0 == rel);
    assert(split_relation(s).1 =~= v@.subrange(rest as int, b as int));
    let (c, d) = trim_range(v, rest, b);
    match parse_u32_range(v, c, d) {
        Some(n) => match rel {
            Relation::AtLeast => page >= n,
            Relation::AtMost => page <= n,
            Relation::Above => page > n,
            Relation::Below => page < n,
            Relation::Equal => page == n,
        },
        None => false,
    }
}

/// Whether one token of a page rule, such as `">= 4"`, selects `page`.
pub fn rule_token_matches(token: &str, page: u32) -> (r: bool)
    ensures
        r == token_selects(token@, page),
{
    let v = chars_of(token);
    assert(v@.subrange(0, v@.len() as int) =~= v@);
    token_selects_range(&v, 0, v.len(), page)
}

/// Whether a comma-separated page rule such as `"1, 3, >=10"` selects `page`:
/// the tokens are OR'd, and empty tokens select nothing.
pub fn rule_matches(spec: &str, page: u32) -> (r: bool)
    ensures
        r == rule_selects(spec@, page),
{
    let v = chars_of(spec);
    let ghost s = v@;
    let n = v.len();
    let mut start: usize = 0;
    let mut i: usize = 0;
    loop
        invariant
            s == v@,
            s == spec@,
            n == v.len(),
            0 <= start <= i <= n,
            start == 0 || s[start - 1] == ',',
            forall|k: int| start <= k < i ==> s[k] != ',',
            forall|a: int, b: int|
                #![trigger is_field(s, a, b)]
                is_field(s, a, b) && b < i ==> !token_selects(s.subrange(a, b), page),
        decreases n - i,
    {
        if i == n || v[i] == ',' {
            if token_selects_range(&v, start, i, page) {
                assert(is_field(s, start as int, i as int));
                return true;
            }
            assert forall|a: int, b: int|
                #![trigger is_field(s, a, b)]
                is_field(s, a, b) && b < i + 1 implies !token_selects(s.subrange(a, b), page) by {
                if b == i {
                    if a < start {
                        assert(s[start - 1] == ',');
                    }
                    if a > start {
                        assert(s[a - 1] != ',');
                    }
                }
            }
            if i == n {
                return false;
            }
            start = i + 1;
        }
        i = i + 1;
    }
}

/// A rule with no comma is a single token: it selects exactly the pages that
/// token selects.
pub proof fn law_single_token_rule(token: Seq<char>, page: u32)
    requires
        forall|k: int| 0 <= k < token.len() ==> token[k] != ',',
    ensures
        rule_selects(token, page) == token_selects(token, page),
{
    let n = token.len() as int;
    assert(token.subrange(0, n) =~= token);
    assert(is_field(token, 0, n));
    if rule_selects(token, page) {
        let (i, j) = choose|i: int, j: int|
            is_field(token, i, j) && token_selects(token.subrange(i, j), page);
        if i > 0 {
            assert(token[i - 1] == ',');
        }
        if j < n {
            assert(token[j] == ',');
        }
    }
}

/// Tokens are OR'd: joining two rules with a comma selects a page exactly
/// when either rule selects it.
pub proof fn law_rule_is_or(a: Seq<char>, b: Seq<char>, page: u32)
    ensures
        rule_selects(a + seq![','] + b, page) == (rule_selects(a, page) || rule_selects(b, page)),
{
    let s = a + seq![','] + b;
    let m = a.len() as int;
    assert(s[m] == ',');
    assert forall|k: int| 0 <= k < m implies #[trigger] s[k] == a[k] by {}
    assert forall|k: int| 0 <= k < b.len() implies #[trigger] s[m + 1 + k] == b[k] by {}
    if rule_selects(s, page) {
        let (i, j) = choose|i: int, j: int|
            is_field(s, i, j) && token_selects(s.subrange(i, j), page);
        if j <= m {
            assert(s.subrange(i, j) =~= a.subrange(i, j));
            assert forall|k: int| i <= k < j implies a[k] != ',' by {
                assert(s[k] == a[k]);
            }
            if i > 0 {
                assert(s[i - 1] == a[i - 1]);
            }
            if j < m {
                assert(s[j] == a[j]);
            }
            assert(is_field(a, i, j));
        } else {
            if i <= m {
                assert(s[m] != ',');
            }
            assert(s.subrange(i, j) =~= b.subrange(i - m - 1, j - m - 1));
            assert forall|k: int| i - m - 1 <= k < j - m - 1 implies b[k] != ',' by {
                assert(s[m + 1 + k] == b[k]);
            }
            assert(is_field(b, i - m - 1, j - m - 1));
        }
    }
    if rule_selects(a, page) {
        let (i, j) = choose|i: int, j: int|
            is_field(a, i, j) && token_selects(a.subrange(i, j), page);
        assert(s.subrange(i, j) =~= a.subrange(i, j));
        assert(is_field(s, i, j));
    }
    if rule_selects(b, page) {
        let (i, j) = choose|i: int, j: int|
            is_field(b, i, j) && token_selects(b.subrange(i, j), page);
        assert(s.subrange(i + m + 1, j + m + 1) =~= b.subrange(i, j));
        assert forall|k: int| i + m + 1 <= k < j + m + 1 implies s[k] != ',' by {
            assert(s[k] == b[k - m - 1]);
        }
        if i > 0 {
            assert(s[i + m] == b[i - 1]);
        }
        if j < b.len() {
            assert(s[j + m + 1] == b[j]);
        }
        assert(is_field(s, i + m + 1, j + m + 1));
    }
}

/// Empty tokens are ignored: a token of white space alone selects no page.
pub proof fn law_blank_token_selects_nothing(token: Seq<char>, page: u32)
    requires
        forall|k: int| 0 <= k < token.len() ==> is_white(#[trigger] token[k]),
    ensures
        !token_selects(token, page),
{
    lemma_trim_start_at(token, token.len() as int);
    assert(token.skip(token.len() as int) =~= Seq::<char>::empty());
    assert(trim_end(Seq::<char>::empty()) == Seq::<char>::empty());
}

/// Every character of `w` is white space.
pub open spec fn all_white(w: Seq<char>) -> bool {
    forall|i: int| 0 <= i < w.len() ==> is_white(#[trigger] w[i])
}

/// The texts a relation is written with: nothing (equality), `=`, `>`,
/// `<`, `>=` and `<=`.
pub open spec fn is_relation_text(op: Seq<char>) -> bool {
    ||| op == Seq::<char>::empty()
    ||| op == seq!['=']
    ||| op == seq!['>']
    ||| op == seq!['<']
    ||| op == seq!['>', '=']
    ||| op == seq!['<', '=']
}

proof fn lemma_trim_start_white(w: Seq<char>, s: Seq<char>)
    requires
        all_white(w),
    ensures
        trim_start(w + s) == trim_start(s),
    decreases w.len(),
{
    if w.len() == 0 {
        assert(w + s =~= s);
    } else {
        assert((w + s)[0] == w[0]);
        assert((w + s).drop_first() =~= w.drop_first() + s);
        assert forall|i: int| 0 <= i < w.drop_first().len() implies is_white(
            #[trigger] w.drop_first()[i],
        ) by {
            assert(w.drop_first()[i] == w[i + 1]);
        }
        lemma_trim_start_white(w.drop_first(), s);
    }
}

proof fn lemma_trim_end_white(s: Seq<char>, w: Seq<char>)
    requires
        all_white(w),
    ensures
        trim_end(s + w) == trim_end(s),
    decreases w.len(),
{
    if w.len() == 0 {
        assert(s + w =~= s);
    } else {
        assert((s + w).last() == w.last());
        assert((s + w).drop_last() =~= s + w.drop_last());
        assert forall|i: int| 0 <= i < w.drop_last().len() implies is_white(
            #[trigger] w.drop_last()[i],
        ) by {
            assert(w.drop_last()[i] == w[i]);
        }
        lemma_trim_end_white(s, w.drop_last());
    }
}

/// White space around a token, and between its relation and its number,
/// does not change which pages the token selects.
pub proof fn law_white_space_is_ignored(
    w1: Seq<char>,
    op: Seq<char>,
    w2: Seq<char>,
    digits: Seq<char>,
    w3: Seq<char>,
    page: u32,
)
    requires
        all_white(w1),
        all_white(w2),
        all_white(w3),
        is_relation_text(op),
        all_digits(digits),
    ensures
        token_selects(w1 + op + w2 + digits + w3, page) == token_selects(op + digits, page),
{
    let d = digits;
    let t = w1 + op + w2 + d + w3;
    let u = op + d;
    assert forall|i: int| 0 <= i < d.len() implies !is_white(#[trigger] d[i]) by {
        assert(is_digit(d[i]));
    }
    assert(trim_end(Seq::<char>::empty()) == Seq::<char>::empty());
    assert(trim_start(Seq::<char>::empty()) == Seq::<char>::empty());
    if op.len() == 0 {
        assert(t =~= (w1 + w2) + (d + w3));
        assert(u =~= d);
        assert forall|i: int| 0 <= i < (w1 + w2).len() implies is_white(#[trigger] (w1 + w2)[i]) by {
            if i < w1.len() {
                assert((w1 + w2)[i] == w1[i]);
            } else {
                assert((w1 + w2)[i] == w2[i - w1.len()]);
            }
        }
        lemma_trim_start_white(w1 + w2, d + w3);
        if d.len() == 0 {
            assert(d + w3 =~= w3 + Seq::<char>::empty());
            lemma_trim_start_white(w3, Seq::<char>::empty());
        } else {
            assert((d + w3)[0] == d[0]);
            assert(trim_start(d + w3) == d + w3);
            lemma_trim_end_white(d, w3);
            assert(trim_end(d) == d);
            assert(trim_start(d) == d);
        }
    } else {
        let m = op + w2 + d;
        assert(t =~= w1 + (m + w3));
        lemma_trim_start_white(w1, m + w3);
        assert((m + w3)[0] == op[0]);
        assert(trim_start(m + w3) == m + w3);
        lemma_trim_end_white(m, w3);
        assert(u[0] == op[0]);
        assert(trim_start(u) == u);
        if d.len() == 0 {
            assert(m =~= op + w2);
            lemma_trim_end_white(op, w2);
            assert(op.last() == op[op.len() - 1]);
            assert(trim_end(op) == op);
            assert(u =~= op);
        } else {
            assert(m.last() == d.last());
            assert(trim_end(m) == m);
            assert(u.last() == d.last());
            assert(trim_end(u) == u);
            assert(trim(t) == m);
            assert(trim(u) == u);
            let k = op.len() as int;
            assert(m.skip(k) =~= w2 + d);
            assert(u.skip(k) =~= d);
            assert(m[0] == op[0] && u[0] == op[0]);
            if k == 1 {
                assert(w2.len() > 0 ==> m[1] == w2[0]);
                assert(w2.len() == 0 ==> m[1] == d[0]);
                assert(u[1] == d[0]);
                assert(split_relation(m) == (split_relation(u).0, w2 + d));
            } else {
                assert(m[1] == op[1] && u[1] == op[1]);
                assert(split_relation(m) == (split_relation(u).0, w2 + d));
            }
            assert(split_relation(u).1 == d);
            lemma_trim_start_white(w2, d);
            assert(trim_start(d) == d);
            assert(trim_end(d) == d);
            assert(trim(w2 + d) == d);
            assert(trim(d) == d);
        }
    }
}

} // verus!
