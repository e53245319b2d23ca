//! Path decomposition as `std::path::Path` performs it on Unix and on
//! Windows: the last component (`file_name`), the path without it
//! (`parent`), the name split at its last dot (`file_stem`, `extension`),
//! and `join`.
//!
//! A path is a prefix (Windows only: `C:`, `\\server\share`, `\\.\device`
//! or a verbatim `\\?\...` form), then a root separator if one follows,
//! then a leading `.` component (only in a path without a root), then a
//! body of components. Unix separates components with `/`; Windows with
//! `/` or `\`, save in the body of a verbatim path, which only `\`
//! separates. Empty components are skipped, and so are `.` components,
//! except in a verbatim path.
use vstd::prelude::*;

use crate::text::chars_of;

verus! {

/// The path rules of a platform.
#[derive(Clone, Copy, Debug, PartialEq, Eq, Structural)]
pub enum PathStyle {
    Posix,
    Windows,
}

/// The prefix a Windows path starts with.
#[derive(Clone, Copy, Debug, PartialEq, Eq, Structural)]
pub enum PrefixKind {
    /// No prefix.
    Bare,
    /// `C:`
    Disk,
    /// `\\server\share`
    Unc,
    /// `\\.\device`
    DeviceNs,
    /// `\\?\name`
    Verbatim,
    /// `\\?\C:`
    VerbatimDisk,
    /// `\\?\UNC\server\share`
    VerbatimUnc,
}

/// `/` or `\`.
pub open spec fn is_slash(c: char) -> bool {
    c == '/' || c == '\\'
}

/// The separators of `style`: `/`, and on Windows `\` too.
pub open spec fn is_sep(style: PathStyle, c: char) -> bool {
    c == '/' || (style == PathStyle::Windows && c == '\\')
}

/// The separators of a body: `\` alone in a verbatim path.
pub open spec fn sep_in(style: PathStyle, verbatim: bool, c: char) -> bool {
    if verbatim {
        c == '\\'
    } else {
        is_sep(style, c)
    }
}

/// An ASCII letter, as a drive letter is.
pub open spec fn is_drive_letter(c: char) -> bool {
    ('a' <= c && c <= 'z') || ('A' <= c && c <= 'Z')
}

/// The first index from `from` on that holds a Windows separator (`\`
/// alone when `verbatim`), or the length of `p`.
pub open spec fn next_sep(p: Seq<char>, from: int, verbatim: bool) -> int
    decreases p.len() - from,
{
    if from >= p.len() {
        p.len() as int
    } else if sep_in(PathStyle::Windows, verbatim, p[from]) {
        from
    } else {
        next_sep(p, from + 1, verbatim)
    }
}

/// The prefix of a Windows path and its length.
pub open spec fn win_prefix(p: Seq<char>) -> (PrefixKind, int) {
    if p.len() >= 2 && is_slash(p[0]) && is_slash(p[1]) {
        if p.len() >= 4 && p[0] == '\\' && p[1] == '\\' && p[2] == '?' && p[3] == '\\' {
            if p.len() >= 8 && p[4] == 'U' && p[5] == 'N' && p[6] == 'C' && is_slash(p[7]) {
                let s1 = next_sep(p, 8, true);
                if s1 < p.len() && next_sep(p, s1 + 1, true) > s1 + 1 {
                    (PrefixKind::VerbatimUnc, next_sep(p, s1 + 1, true))
                } else {
                    (PrefixKind::VerbatimUnc, s1)
                }
            } else if p.len() >= 6 && is_drive_letter(p[4]) && p[5] == ':' && (p.len() == 6
                || is_slash(p[6])) {
                (PrefixKind::VerbatimDisk, 6)
            } else {
                (PrefixKind::Verbatim, next_sep(p, 4, true))
            }
        } else if p.len() >= 4 && p[2] == '.' && is_slash(p[3]) {
            (PrefixKind::DeviceNs, next_sep(p, 4, false))
        } else {
            let s1 = next_sep(p, 2, false);
            if s1 > 2 && s1 < p.len() && next_sep(p, s1 + 1, false) > s1 + 1 {
                (PrefixKind::Unc, next_sep(p, s1 + 1, false))
            } else {
                (PrefixKind::Bare, 0)
            }
        }
    } else if p.len() >= 2 && is_drive_letter(p[0]) && p[1] == ':' {
        (PrefixKind::Disk, 2)
    } else {
        (PrefixKind::Bare, 0)
    }
}

/// The prefix of `p` under `style` and its length.
pub open spec fn prefix_of(p: Seq<char>, style: PathStyle) -> (PrefixKind, int) {
    if style == PathStyle::Windows {
        win_prefix(p)
    } else {
        (PrefixKind::Bare, 0)
    }
}

pub open spec fn prefix_len(p: Seq<char>, style: PathStyle) -> int {
    prefix_of(p, style).1
}

/// Whether `p` has a verbatim `\\?\` prefix.
pub open spec fn is_verbatim(p: Seq<char>, style: PathStyle) -> bool {
    let k = prefix_of(p, style).0;
    k == PrefixKind::Verbatim || k == PrefixKind::VerbatimDisk || k == PrefixKind::VerbatimUnc
}

/// The separators of the body of `p`.
pub open spec fn body_sep(p: Seq<char>, style: PathStyle, c: char) -> bool {
    sep_in(style, is_verbatim(p, style), c)
}

/// 1 when a separator follows the prefix.
pub open spec fn root_len(p: Seq<char>, style: PathStyle) -> int {
    let k = prefix_len(p, style);
    if 0 <= k < p.len() && is_sep(style, p[k]) {
        1
    } else {
        0
    }
}

/// A root separator, or a prefix other than a drive, which has one
/// implied.
pub open spec fn has_root(p: Seq<char>, style: PathStyle) -> bool {
    let k = prefix_of(p, style).0;
    root_len(p, style) == 1 || (k != PrefixKind::Bare && k != PrefixKind::Disk)
}

/// 1 for a leading `.` component (`.` alone, or `./...`) in a path without
/// a root.
pub open spec fn cur_dir_len(p: Seq<char>, style: PathStyle) -> int {
    let k = prefix_len(p, style);
    if !has_root(p, style) && 0 <= k < p.len() && p[k] == '.' && (p.len() == k + 1 || body_sep(
        p,
        style,
        p[k + 1],
    )) {
        1
    } else {
        0
    }
}

/// Where the body of the path starts: after the prefix, the root and a
/// leading `.`.
pub open spec fn body_start(p: Seq<char>, style: PathStyle) -> int {
    prefix_len(p, style) + root_len(p, style) + cur_dir_len(p, style)
}

/// Start of the component that ends at `end`: just after the last
/// separator of the body before `end`, or the start of the body.
pub open spec fn component_start(p: Seq<char>, style: PathStyle, end: int) -> int
    decreases end,
{
    if end <= body_start(p, style) {
        body_start(p, style)
    } else if body_sep(p, style, p[end - 1]) {
        end
    } else {
        proof {
            lemma_layout(p, style);
        }
        component_start(p, style, end - 1)
    }
}

/// Where the body ends once the component `[start..]` and the separator
/// before it are taken off.
pub open spec fn before_component(p: Seq<char>, style: PathStyle, start: int) -> int {
    if start > body_start(p, style) {
        start - 1
    } else {
        start
    }
}

/// Components that `Path` skips: empty ones, and `.` outside a verbatim
/// path.
pub open spec fn is_skipped(c: Seq<char>, verbatim: bool) -> bool {
    c.len() == 0 || (!verbatim && c.len() == 1 && c[0] == '.')
}

pub proof fn lemma_next_sep(p: Seq<char>, from: int, verbatim: bool)
    requires
        0 <= from <= p.len(),
    ensures
        from <= next_sep(p, from, verbatim) <= p.len(),
        next_sep(p, from, verbatim) < p.len() ==> sep_in(
            PathStyle::Windows,
            verbatim,
            p[next_sep(p, from, verbatim)],
        ),
        forall|i: int|
            from <= i < next_sep(p, from, verbatim) ==> !sep_in(PathStyle::Windows, verbatim, p[i]),
    decreases p.len() - from,
{
    if from < p.len() && !sep_in(PathStyle::Windows, verbatim, p[from]) {
        lemma_next_sep(p, from + 1, verbatim);
    }
}

pub proof fn lemma_layout(p: Seq<char>, style: PathStyle)
    ensures
        0 <= prefix_len(p, style) <= body_start(p, style) <= p.len(),
        prefix_len(p, style) == 0 <==> prefix_of(p, style).0 == PrefixKind::Bare,
        prefix_of(p, style).0 != PrefixKind::Bare ==> prefix_len(p, style) >= 2,
        is_verbatim(p, style) ==> prefix_len(p, style) >= 4,
        prefix_of(p, style).0 != PrefixKind::Bare && prefix_of(p, style).0 != PrefixKind::Disk
            && prefix_len(p, style) < p.len() ==> is_slash(p[prefix_len(p, style)]),
{
    if style == PathStyle::Windows && p.len() >= 2 {
        if p.len() >= 4 {
            lemma_next_sep(p, 4, true);
            lemma_next_sep(p, 4, false);
        }
        if p.len() >= 8 {
            lemma_next_sep(p, 8, true);
            let s1 = next_sep(p, 8, true);
            if s1 < p.len() {
                lemma_next_sep(p, s1 + 1, true);
            }
        }
        lemma_next_sep(p, 2, false);
        let s1 = next_sep(p, 2, false);
        if s1 < p.len() {
            lemma_next_sep(p, s1 + 1, false);
        }
    }
}

pub proof fn lemma_component_start(p: Seq<char>, style: PathStyle, end: int)
    requires
        body_start(p, style) <= end,
    ensures
        body_start(p, style) <= component_start(p, style, end) <= end,
        component_start(p, style, end) == end ==> (end == body_start(p, style) || body_sep(
            p,
            style,
            p[end - 1],
        )),
        component_start(p, style, end) > body_start(p, style) ==> body_sep(
            p,
            style,
            p[component_start(p, style, end) - 1],
        ),
        forall|k: int|
            component_start(p, style, end) <= k < end ==> !body_sep(p, style, #[trigger] p[k]),
    decreases end,
{
    lemma_layout(p, style);
    if end > body_start(p, style) && !body_sep(p, style, p[end - 1]) {
        lemma_component_start(p, style, end - 1);
    }
}

/// The end of the body once trailing separators and skipped components
/// are cut off.
pub open spec fn trim_back(p: Seq<char>, style: PathStyle, end: int) -> int
    decreases end,
{
    if end <= body_start(p, style) {
        end
    } else {
        let start = component_start(p, style, end);
        proof {
            lemma_component_start(p, style, end);
            lemma_layout(p, style);
        }
        if is_skipped(p.subrange(start, end), is_verbatim(p, style)) {
            trim_back(p, style, before_component(p, style, start))
        } else {
            end
        }
    }
}

pub proof fn lemma_trim_back(p: Seq<char>, style: PathStyle, end: int)
    requires
        body_start(p, style) <= end,
    ensures
        body_start(p, style) <= trim_back(p, style, end) <= end,
        trim_back(p, style, end) > body_start(p, style) ==> !is_skipped(
            p.subrange(
                component_start(p, style, trim_back(p, style, end)),
                trim_back(p, style, end),
            ),
            is_verbatim(p, style),
        ),
    decreases end,
{
    lemma_layout(p, style);
    if end > body_start(p, style) {
        let start = component_start(p, style, end);
        lemma_component_start(p, style, end);
        if is_skipped(p.subrange(start, end), is_verbatim(p, style)) {
            lemma_trim_back(p, style, before_component(p, style, start));
        }
    }
}

/// The end of the last component of `p`.
pub open spec fn last_end(p: Seq<char>, style: PathStyle) -> int {
    trim_back(p, style, p.len() as int)
}

/// `Path::file_name`: the last component, unless there is none or it is
/// `..` (or `.`, which a verbatim path keeps as a component).
pub open spec fn file_name(p: Seq<char>, style: PathStyle) -> Option<Seq<char>> {
    let e = last_end(p, style);
    if e > body_start(p, style) {
        let c = p.subrange(component_start(p, style, e), e);
        if c == seq!['.', '.'] || (is_verbatim(p, style) && c == seq!['.']) {
            None
        } else {
            Some(c)
        }
    } else {
        None
    }
}

/// `Path::parent`: the path without its last component, trimmed of
/// trailing separators; the empty path for a lone leading `.`; none for a
/// path that is only a prefix and a root, and for the empty path.
pub open spec fn parent(p: Seq<char>, style: PathStyle) -> Option<Seq<char>> {
    let e = last_end(p, style);
    if e > body_start(p, style) {
        Some(
            p.take(
                trim_back(p, style, before_component(p, style, component_start(p, style, e))),
            ),
        )
    } else if prefix_len(p, style) == 0 && cur_dir_len(p, style) == 1 {
        Some(Seq::empty())
    } else {
        None
    }
}

/// Index of the last `.` in `f[..end]`, or -1.
pub open spec fn last_dot(f: Seq<char>, end: int) -> int
    decreases end,
{
    if end <= 0 {
        -1
    } else if f[end - 1] == '.' {
        end - 1
    } else {
        last_dot(f, end - 1)
    }
}

/// `Path::file_stem` of a file name: the name before its last dot, or the
/// whole name when the only dot leads it or there is none.
pub open spec fn stem_of(f: Seq<char>) -> Seq<char> {
    let k = last_dot(f, f.len() as int);
    if f == seq!['.', '.'] || k <= 0 {
        f
    } else {
        f.take(k)
    }
}

/// `Path::extension` of a file name: what follows its last dot, unless that
/// dot leads the name.
pub open spec fn extension_of(f: Seq<char>) -> Option<Seq<char>> {
    let k = last_dot(f, f.len() as int);
    if f == seq!['.', '.'] || k <= 0 {
        None
    } else {
        Some(f.skip(k + 1))
    }
}

/// The non-empty pieces of `s` from `from` on, between Windows separators
/// (`\` alone when `verbatim`).
pub open spec fn pieces_from(s: Seq<char>, from: int, verbatim: bool) -> Seq<Seq<char>>
    decreases s.len() - from,
{
    if from < 0 || from > s.len() {
        Seq::empty()
    } else {
        let k = next_sep(s, from, verbatim);
        proof {
            lemma_next_sep(s, from, verbatim);
        }
        let rest = if k < s.len() {
            pieces_from(s, k + 1, verbatim)
        } else {
            Seq::empty()
        };
        if k == from {
            rest
        } else {
            seq![s.subrange(from, k)] + rest
        }
    }
}

/// A component other than `.` and `..`.
pub open spec fn is_normal(c: Seq<char>) -> bool {
    c != seq!['.'] && c != seq!['.', '.']
}

/// The components `cs` once the piece `c` of a joined name is added: `.`
/// adds nothing, and `..` takes off a last component other than `.` and
/// `..`.
pub open spec fn push_piece(cs: Seq<Seq<char>>, c: Seq<char>) -> Seq<Seq<char>> {
    if c == seq!['.'] {
        cs
    } else if c == seq!['.', '.'] {
        if cs.len() > 0 && is_normal(cs.last()) {
            cs.drop_last()
        } else {
            cs
        }
    } else {
        cs.push(c)
    }
}

/// The components `cs` once the first `n` pieces of `ps` are added.
pub open spec fn push_pieces(cs: Seq<Seq<char>>, ps: Seq<Seq<char>>, n: int) -> Seq<Seq<char>>
    decreases n,
{
    if n <= 0 {
        cs
    } else {
        push_piece(push_pieces(cs, ps, n - 1), ps[n - 1])
    }
}

/// The components `cs` with `\` between them.
pub open spec fn joined(cs: Seq<Seq<char>>) -> Seq<char>
    decreases cs.len(),
{
    if cs.len() == 0 {
        Seq::empty()
    } else if cs.len() == 1 {
        cs[0]
    } else {
        joined(cs.drop_last()) + seq!['\\'] + cs.last()
    }
}

/// `name` joined onto a verbatim Windows `base`, rebuilt from components:
/// the prefix of `base`; then, after `\`, the components of `base` (none
/// when `name` starts with a separator) followed by those of `name`, `.`
/// dropped and `..` taking off the last component, all separated by `\`.
pub open spec fn verbatim_join(base: Seq<char>, name: Seq<char>) -> Seq<char> {
    let w = PathStyle::Windows;
    let k = prefix_len(base, w);
    let base_root = root_len(base, w) == 1;
    let name_root = name.len() > 0 && is_slash(name[0]);
    let start = if name_root {
        Seq::empty()
    } else {
        pieces_from(base, k + root_len(base, w), true)
    };
    let ps = pieces_from(name, 0, false);
    let cs = push_pieces(start, ps, ps.len() as int);
    base.take(k) + if base_root || name_root || cs.len() > 0 {
        seq!['\\'] + joined(cs)
    } else {
        Seq::empty()
    }
}

/// `Path::join`. A `name` that is absolute (Unix) or has a prefix
/// (Windows) replaces `base`. On Windows, a non-empty `name` joined onto a
/// verbatim `base` is rebuilt from components ([`verbatim_join`]), and a
/// `name` that starts with a separator keeps only the prefix of `base`.
/// Otherwise `name` follows `base`, with the main separator between them
/// unless `base` is empty, ends with a separator, or is a bare drive `C:`.
pub open spec fn join(base: Seq<char>, name: Seq<char>, style: PathStyle) -> Seq<char> {
    if style == PathStyle::Windows {
        if prefix_len(name, style) > 0 {
            name
        } else if is_verbatim(base, style) && name.len() > 0 {
            verbatim_join(base, name)
        } else if name.len() > 0 && is_slash(name[0]) {
            base.take(prefix_len(base, style)) + name
        } else if base.len() > 0 && !is_slash(base.last()) && !(prefix_of(base, style).0
            == PrefixKind::Disk && prefix_len(base, style) == base.len()) {
            base + seq!['\\'] + name
        } else {
            base + name
        }
    } else {
        if name.len() > 0 && name[0] == '/' {
            name
        } else if base.len() > 0 && base.last() != '/' {
            base + seq!['/'] + name
        } else {
            base + name
        }
    }
}

/// `std::path::is_separator`: whether `c` separates path components on the
/// platform this runs on. Trusted to hold on every platform: `/` separates,
/// and no character but `/` and `\` does. Whether `\` separates is the
/// platform's choice (it does on Windows), and is left unsaid.
#[verifier::external_body]
fn is_separator(c: char) -> (r: bool)
    ensures
        c == '/' ==> r,
        c != '/' && c != '\\' ==> !r,
{
    std::path::is_separator(c)
}

/// The path rules of the platform this runs on: Windows where `\`
/// separates components, Unix otherwise.
pub fn native_style() -> (r: PathStyle) {
    if is_separator('\\') {
        PathStyle::Windows
    } else {
        PathStyle::Posix
    }
}

fn slash(c: char) -> (r: bool)
    ensures
        r == is_slash(c),
{
    c == '/' || c == '\\'
}

fn sep_char(style: PathStyle, verbatim: bool, c: char) -> (r: bool)
    ensures
        r == sep_in(style, verbatim, c),
{
    if verbatim {
        c == '\\'
    } else {
        c == '/' || (style == PathStyle::Windows && c == '\\')
    }
}

fn drive_letter(c: char) -> (r: bool)
    ensures
        r == is_drive_letter(c),
{
    ('a' <= c && c <= 'z') || ('A' <= c && c <= 'Z')
}

fn next_sep_of(v: &Vec<char>, from: usize, verbatim: bool) -> (r: usize)
    requires
        from <= v.len(),
    ensures
        r == next_sep(v@, from as int, verbatim),
        from <= r <= v.len(),
{
    let mut i = from;
    while i < v.len() && !sep_char(PathStyle::Windows, verbatim, v[i])
        invariant
            from <= i <= v.len(),
            next_sep(v@, from as int, verbatim) == next_sep(v@, i as int, verbatim),
        decreases v.len() - i,
    {
        i = i + 1;
    }
    i
}

/// The prefix of `v` under `style` and its length.
fn prefix_of_chars(v: &Vec<char>, style: PathStyle) -> (r: (PrefixKind, usize))
    ensures
        r.0 == prefix_of(v@, style).0,
        r.1 == prefix_of(v@, style).1,
        r.1 <= v.len(),
{
    proof {
        lemma_layout(v@, style);
    }
    if style != PathStyle::Windows {
        return (PrefixKind::Bare, 0);
    }
    let n = v.len();
    if n >= 2 && slash(v[0]) && slash(v[1]) {
        if n >= 4 && v[0] == '\\' && v[1] == '\\' && v[2] == '?' && v[3] == '\\' {
            if n >= 8 && v[4] == 'U' && v[5] == 'N' && v[6] == 'C' && slash(v[7]) {
                let s1 = next_sep_of(v, 8, true);
                if s1 < n {
                    let s2 = next_sep_of(v, s1 + 1, true);
                    if s2 > s1 + 1 {
                        return (PrefixKind::VerbatimUnc, s2);
                    }
                }
                (PrefixKind::VerbatimUnc, s1)
            } else if n >= 6 && drive_letter(v[4]) && v[5] == ':' && (n == 6 || slash(v[6])) {
                (PrefixKind::VerbatimDisk, 6)
            } else {
                (PrefixKind::Verbatim, next_sep_of(v, 4, true))
            }
        } else if n >= 4 && v[2] == '.' && slash(v[3]) {
            (PrefixKind::DeviceNs, next_sep_of(v, 4, false))
        } else {
            let s1 = next_sep_of(v, 2, false);
            if s1 > 2 && s1 < n {
                let s2 = next_sep_of(v, s1 + 1, false);
                if s2 > s1 + 1 {
                    return (PrefixKind::Unc, s2);
                }
            }
            (PrefixKind::Bare, 0)
        }
    } else if n >= 2 && drive_letter(v[0]) && v[1] == ':' {
        (PrefixKind::Disk, 2)
    } else {
        (PrefixKind::Bare, 0)
    }
}

/// The prefix length of `v`, whether it is verbatim, and where its body
/// starts.
fn layout_of(v: &Vec<char>, style: PathStyle) -> (r: (usize, bool, usize))
    ensures
        r.0 == prefix_len(v@, style),
        r.1 == is_verbatim(v@, style),
        r.2 == body_start(v@, style),
        r.0 <= r.2 <= v.len(),
{
    let (kind, k) = prefix_of_chars(v, style);
    let vb = kind == PrefixKind::Verbatim || kind == PrefixKind::VerbatimDisk || kind
        == PrefixKind::VerbatimUnc;
    let root: usize = if k < v.len() && sep_char(style, false, v[k]) {
        1
    } else {
        0
    };
    let rooted = root == 1 || (kind != PrefixKind::Bare && kind != PrefixKind::Disk);
    let cur: usize = if !rooted && k < v.len() && v[k] == '.' && (v.len() == k + 1 || sep_char(
        style,
        vb,
        v[k + 1],
    )) {
        1
    } else {
        0
    };
    (k, vb, k + root + cur)
}

fn component_start_of(v: &Vec<char>, style: PathStyle, vb: bool, bs: usize, end: usize) -> (r:
    usize)
    requires
        vb == is_verbatim(v@, style),
        bs == body_start(v@, style),
        bs <= end <= v.len(),
    ensures
        r == component_start(v@, style, end as int),
{
    let mut k = end;
    while k > bs && !sep_char(style, vb, v[k - 1])
        invariant
            vb == is_verbatim(v@, style),
            bs == body_start(v@, style),
            bs <= k <= end <= v.len(),
            component_start(v@, style, end as int) == component_start(v@, style, k as int),
        decreases k,
    {
        k = k - 1;
    }
    k
}

fn trim_back_of(v: &Vec<char>, style: PathStyle, vb: bool, bs: usize, end: usize) -> (r: usize)
    requires
        vb == is_verbatim(v@, style),
        bs == body_start(v@, style),
        bs <= end <= v.len(),
    ensures
        r == trim_back(v@, style, end as int),
{
    let mut e = end;
    loop
        invariant
            vb == is_verbatim(v@, style),
            bs == body_start(v@, style),
            bs <= e <= end <= v.len(),
            trim_back(v@, style, end as int) == trim_back(v@, style, e as int),
        decreases e,
    {
        if e <= bs {
            return e;
        }
        let start = component_start_of(v, style, vb, bs, e);
        proof {
            lemma_component_start(v@, style, e as int);
        }
        let skipped = start == e || (!vb && start + 1 == e && v[start] == '.');
        assert(skipped == is_skipped(v@.subrange(start as int, e as int), vb));
        if skipped {
            e = if start > bs {
                start - 1
            } else {
                start
            };
        } else {
            return e;
        }
    }
}

/// Bounds of the last component of `v`, with its start: `(start, end)`.
fn last_component_of(v: &Vec<char>, style: PathStyle, vb: bool, bs: usize) -> (r: (usize, usize))
    requires
        vb == is_verbatim(v@, style),
        bs == body_start(v@, style),
        bs <= v.len(),
    ensures
        r.1 == last_end(v@, style),
        r.0 == component_start(v@, style, r.1 as int),
        bs <= r.0 <= r.1 <= v.len(),
        r.1 > bs ==> !is_skipped(v@.subrange(r.0 as int, r.1 as int), vb),
{
    let e = trim_back_of(v, style, vb, bs, v.len());
    proof {
        lemma_trim_back(v@, style, v.len() as int);
        lemma_component_start(v@, style, e as int);
    }
    let s = component_start_of(v, style, vb, bs, e);
    (s, e)
}

/// Bounds of `Path::file_name` of `v`.
pub fn file_name_range(v: &Vec<char>, style: PathStyle) -> (r: Option<(usize, usize)>)
    ensures
        match r {
            Some((a, b)) => a <= b <= v.len() && file_name(v@, style) == Some(
                v@.subrange(a as int, b as int),
            ),
            None => file_name(v@, style) is None,
        },
{
    let (_k, vb, bs) = layout_of(v, style);
    let (s, e) = last_component_of(v, style, vb, bs);
    if e > bs {
        let ghost c = v@.subrange(s as int, e as int);
        if e - s == 2 && v[s] == '.' && v[s + 1] == '.' {
            assert(c =~= seq!['.', '.']);
            None
        } else if vb && e - s == 1 && v[s] == '.' {
            assert(c =~= seq!['.']);
            None
        } else {
            assert(c != seq!['.', '.']) by {
                if c == seq!['.', '.'] {
                    assert(c[0] == v@[s as int]);
                    assert(c[1] == v@[s + 1]);
                }
            }
            assert(!(vb && c == seq!['.'])) by {
                if vb && c == seq!['.'] {
                    assert(c[0] == v@[s as int]);
                }
            }
            Some((s, e))
        }
    } else {
        None
    }
}

/// Length of `Path::parent` of `v`, a prefix of `v`.
pub fn parent_len(v: &Vec<char>, style: PathStyle) -> (r: Option<usize>)
    ensures
        match r {
            Some(k) => k <= v.len() && parent(v@, style) == Some(v@.take(k as int)),
            None => parent(v@, style) is None,
        },
{
    let (k, vb, bs) = layout_of(v, style);
    let (s, e) = last_component_of(v, style, vb, bs);
    if e > bs {
        let b = if s > bs {
            s - 1
        } else {
            s
        };
        let t = trim_back_of(v, style, vb, bs, b);
        proof {
            lemma_trim_back(v@, style, b as int);
        }
        Some(t)
    } else if k == 0 && bs == 1 && v[0] == '.' {
        assert(v@.take(0) =~= Seq::<char>::empty());
        Some(0)
    } else {
        None
    }
}
/// Index of the last `.` in `v[lo..hi]`, if any.
fn last_dot_in(v: &Vec<char>, lo: usize, hi: usize) -> (r: Option<usize>)
    requires
        lo <= hi <= v.len(),
    ensures
        match r {
            Some(k) => lo <= k < hi && last_dot(v@.subrange(lo as int, hi as int), hi - lo) == k
                - lo,
            None => last_dot(v@.subrange(lo as int, hi as int), hi - lo) == -1,
        },
{
    let ghost f = v@.subrange(lo as int, hi as int);
    let mut k = hi;
    while k > lo && v[k - 1] != '.'
        invariant
            lo <= k <= hi <= v.len(),
            f == v@.subrange(lo as int, hi as int),
            last_dot(f, hi - lo) == last_dot(f, k - lo),
        decreases k,
    {
        assert(f[k - 1 - lo] == v@[k - 1]);
        k = k - 1;
    }
    if k > lo {
        assert(f[k - 1 - lo] == v@[k - 1]);
        Some(k - 1)
    } else {
        None
    }
}

/// Bounds of the stem and of the extension (if any) of the file name
/// `v[a..b]`.
pub fn split_name(v: &Vec<char>, a: usize, b: usize) -> (r: (usize, Option<usize>))
    requires
        a <= b <= v.len(),
        v@.subrange(a as int, b as int) != seq!['.', '.'],
    ensures
        a <= r.0 <= b,
        stem_of(v@.subrange(a as int, b as int)) == v@.subrange(a as int, r.0 as int),
        match r.1 {
            Some(x) => r.0 < x <= b && extension_of(v@.subrange(a as int, b as int)) == Some(
                v@.subrange(x as int, b as int),
            ),
            None => extension_of(v@.subrange(a as int, b as int)) is None,
        },
{
    let ghost f = v@.subrange(a as int, b as int);
    match last_dot_in(v, a, b) {
        Some(k) => {
            if k > a {
                assert(f.take(k - a) =~= v@.subrange(a as int, k as int));
                assert(f.skip(k - a + 1) =~= v@.subrange(k + 1, b as int));
                (k, Some(k + 1))
            } else {
                (b, None)
            }
        },
        None => (b, None),
    }
}

/// The texts of the ranges `rs` of `v`.
spec fn range_texts(rs: Seq<(usize, usize)>, v: Seq<char>) -> Seq<Seq<char>> {
    Seq::new(rs.len(), |j: int| v.subrange(rs[j].0 as int, rs[j].1 as int))
}

/// The bounds of the non-empty pieces of `v` from `from` on.
fn split_ranges(v: &Vec<char>, from: usize, verbatim: bool) -> (r: Vec<(usize, usize)>)
    requires
        from <= v.len(),
    ensures
        forall|j: int| 0 <= j < r.len() ==> (#[trigger] r@[j]).0 <= r@[j].1 <= v.len(),
        range_texts(r@, v@) == pieces_from(v@, from as int, verbatim),
{
    let mut r: Vec<(usize, usize)> = Vec::new();
    let mut i = from;
    assert(range_texts(r@, v@) + pieces_from(v@, i as int, verbatim) =~= pieces_from(
        v@,
        from as int,
        verbatim,
    ));
    loop
        invariant
            from <= i <= v.len(),
            forall|j: int| 0 <= j < r.len() ==> (#[trigger] r@[j]).0 <= r@[j].1 <= v.len(),
            range_texts(r@, v@) + pieces_from(v@, i as int, verbatim) == pieces_from(
                v@,
                from as int,
                verbatim,
            ),
        decreases v.len() - i,
    {
        let k = next_sep_of(v, i, verbatim);
        let ghost before = r@;
        let ghost rest = if k < v.len() {
            pieces_from(v@, k + 1, verbatim)
        } else {
            Seq::empty()
        };
        if k > i {
            r.push((i, k));
            assert(range_texts(r@, v@) =~= range_texts(before, v@).push(
                v@.subrange(i as int, k as int),
            ));
            assert(range_texts(r@, v@) + rest =~= range_texts(before, v@) + (seq![
                v@.subrange(i as int, k as int),
            ] + rest));
        } else {
            assert(range_texts(r@, v@) + rest =~= range_texts(before, v@) + rest);
        }
        if k == v.len() {
            assert(range_texts(r@, v@) =~= range_texts(r@, v@) + rest);
            return r;
        }
        i = k + 1;
    }
}

/// A piece of a joined path: from `name` or from `base`, and its bounds.
spec fn piece_text(x: (bool, usize, usize), base: Seq<char>, name: Seq<char>) -> Seq<char> {
    if x.0 {
        name.subrange(x.1 as int, x.2 as int)
    } else {
        base.subrange(x.1 as int, x.2 as int)
    }
}

spec fn piece_texts(xs: Seq<(bool, usize, usize)>, base: Seq<char>, name: Seq<char>) -> Seq<
    Seq<char>,
> {
    Seq::new(xs.len(), |j: int| piece_text(xs[j], base, name))
}

spec fn valid_pieces(xs: Seq<(bool, usize, usize)>, base: Seq<char>, name: Seq<char>) -> bool {
    forall|j: int|
        0 <= j < xs.len() ==> (#[trigger] xs[j]).1 <= xs[j].2 <= (if xs[j].0 {
            name.len()
        } else {
            base.len()
        })
}

fn normal_piece(x: (bool, usize, usize), bv: &Vec<char>, nv: &Vec<char>) -> (r: bool)
    requires
        valid_pieces(seq![x], bv@, nv@),
    ensures
        r == is_normal(piece_text(x, bv@, nv@)),
{
    let v = if x.0 {
        nv
    } else {
        bv
    };
    assert(v@.subrange(x.1 as int, x.2 as int) == piece_text(x, bv@, nv@));
    let ghost c = v@.subrange(x.1 as int, x.2 as int);
    assert(x.1 <= x.2 <= v.len()) by {
        assert(seq![x][0] == x);
    }
    if x.2 - x.1 == 1 && v[x.1] == '.' {
        assert(c =~= seq!['.']);
        false
    } else if x.2 - x.1 == 2 && v[x.1] == '.' && v[x.1 + 1] == '.' {
        assert(c =~= seq!['.', '.']);
        false
    } else {
        assert(c != seq!['.']) by {
            if c == seq!['.'] {
                assert(c[0] == v@[x.1 as int]);
            }
        }
        assert(c != seq!['.', '.']) by {
            if c == seq!['.', '.'] {
                assert(c[0] == v@[x.1 as int]);
                assert(c[1] == v@[x.1 + 1]);
            }
        }
        true
    }
}

/// `name` joined onto the verbatim `base`, rebuilt from components.
fn verbatim_join_names(base: &str, name: &str, bv: &Vec<char>, nv: &Vec<char>, k: usize) -> (r:
    String)
    requires
        bv@ == base@,
        nv@ == name@,
        k == prefix_len(base@, PathStyle::Windows),
        k <= base@.len(),
    ensures
        r@ == verbatim_join(base@, name@),
{
    let base_root = k < bv.len() && slash(bv[k]);
    let name_root = nv.len() > 0 && slash(nv[0]);
    let mut buf: Vec<(bool, usize, usize)> = Vec::new();
    if !name_root {
        let bstart: usize = if base_root {
            k + 1
        } else {
            k
        };
        let bp = split_ranges(bv, bstart, true);
        let mut j: usize = 0;
        while j < bp.len()
            invariant
                j <= bp.len(),
                buf.len() == j,
                forall|i: int| 0 <= i < bp.len() ==> (#[trigger] bp@[i]).0 <= bp@[i].1 <= bv.len(),
                valid_pieces(buf@, bv@, nv@),
                piece_texts(buf@, bv@, nv@) == range_texts(bp@, bv@).take(j as int),
            decreases bp.len() - j,
        {
            let ghost before = buf@;
            let x = (false, bp[j].0, bp[j].1);
            buf.push(x);
            assert forall|i: int| 0 <= i <= j implies #[trigger] piece_texts(buf@, bv@, nv@)[i]
                == range_texts(bp@, bv@).take(j + 1)[i] by {
                if i < j {
                    assert(buf@[i] == before[i]);
                    assert(piece_texts(before, bv@, nv@)[i] == range_texts(bp@, bv@).take(
                        j as int,
                    )[i]);
                } else {
                    assert(buf@[i] == x);
                }
            }
            assert(piece_texts(buf@, bv@, nv@) =~= range_texts(bp@, bv@).take(j + 1));
            j = j + 1;
        }
        assert(range_texts(bp@, bv@).take(bp.len() as int) =~= range_texts(bp@, bv@));
    } else {
        assert(piece_texts(buf@, bv@, nv@) =~= Seq::<Seq<char>>::empty());
    }
    let np = split_ranges(nv, 0, false);
    let ghost start = piece_texts(buf@, bv@, nv@);
    let ghost ps = range_texts(np@, nv@);
    let mut i: usize = 0;
    while i < np.len()
        invariant
            i <= np.len(),
            forall|j: int| 0 <= j < np.len() ==> (#[trigger] np@[j]).0 <= np@[j].1 <= nv.len(),
            ps == range_texts(np@, nv@),
            valid_pieces(buf@, bv@, nv@),
            piece_texts(buf@, bv@, nv@) == push_pieces(start, ps, i as int),
        decreases np.len() - i,
    {
        let a = np[i].0;
        let b = np[i].1;
        let ghost c = nv@.subrange(a as int, b as int);
        assert(ps[i as int] == c);
        let ghost before = buf@;
        if b - a == 1 && nv[a] == '.' {
            assert(c =~= seq!['.']);
        } else if b - a == 2 && nv[a] == '.' && nv[a + 1] == '.' {
            assert(c =~= seq!['.', '.']);
            if buf.len() > 0 {
                let last = buf[buf.len() - 1];
                assert(valid_pieces(seq![last], bv@, nv@)) by {
                    assert(seq![last][0] == buf@[buf.len() - 1]);
                }
                if normal_piece(last, bv, nv) {
                    let _ = buf.pop();
                    assert(piece_texts(buf@, bv@, nv@) =~= piece_texts(before, bv@, nv@).drop_last());
                }
            }
        } else {
            assert(c != seq!['.']) by {
                if c == seq!['.'] {
                    assert(c[0] == nv@[a as int]);
                }
            }
            assert(c != seq!['.', '.']) by {
                if c == seq!['.', '.'] {
                    assert(c[0] == nv@[a as int]);
                    assert(c[1] == nv@[a + 1]);
                }
            }
            buf.push((true, a, b));
            assert(piece_texts(buf@, bv@, nv@) =~= piece_texts(before, bv@, nv@).push(c));
        }
        i = i + 1;
    }
    let ghost cs = piece_texts(buf@, bv@, nv@);
    let mut out = String::from_str(base.substring_char(0, k));
    assert(base@.subrange(0, k as int) =~= base@.take(k as int));
    if base_root || name_root || buf.len() > 0 {
        out.append("\\");
        proof {
            reveal_strlit("\\");
            assert("\\"@ =~= seq!['\\']);
        }
        let mut j: usize = 0;
        assert(cs.take(0) =~= Seq::<Seq<char>>::empty());
        while j < buf.len()
            invariant
                j <= buf.len(),
                cs == piece_texts(buf@, bv@, nv@),
                valid_pieces(buf@, bv@, nv@),
                bv@ == base@,
                nv@ == name@,
                out@ == base@.take(k as int) + seq!['\\'] + joined(cs.take(j as int)),
            decreases buf.len() - j,
        {
            let ghost head = out@;
            if j > 0 {
                out.append("\\");
                proof {
                    reveal_strlit("\\");
                }
                assert(out@ =~= head + seq!['\\']);
            }
            let ghost mid = out@;
            let x = buf[j];
            assert(x == buf@[j as int]);
            if x.0 {
                out.append(name.substring_char(x.1, x.2));
            } else {
                out.append(base.substring_char(x.1, x.2));
            }
            assert(cs[j as int] == piece_text(x, bv@, nv@));
            assert(out@ =~= mid + cs[j as int]);
            let ghost t = cs.take(j + 1);
            assert(t.drop_last() =~= cs.take(j as int));
            assert(t.last() == cs[j as int]);
            if j == 0 {
                assert(t =~= seq![cs[0]]);
            } else {
                assert(joined(t) == joined(cs.take(j as int)) + seq!['\\'] + cs[j as int]);
            }
            assert(out@ =~= base@.take(k as int) + seq!['\\'] + joined(t));
            j = j + 1;
        }
        assert(cs.take(buf.len() as int) =~= cs);
    } else {
        assert(out@ =~= base@.take(k as int));
    }
    assert(start == (if name_root {
        Seq::<Seq<char>>::empty()
    } else {
        pieces_from(base@, k + root_len(base@, PathStyle::Windows), true)
    }));
    out
}

/// `base` joined with `name`, as `Path::join` does it under `style`.
pub fn join_names(base: &str, name: &str, style: PathStyle) -> (r: String)
    ensures
        r@ == join(base@, name@, style),
{
    let n = name.unicode_len();
    if style == PathStyle::Windows {
        let nv = chars_of(name);
        let (_nk, nl) = prefix_of_chars(&nv, style);
        if nl > 0 {
            return String::from_str(name);
        }
        let bv = chars_of(base);
        let (bk, bl) = prefix_of_chars(&bv, style);
        if n > 0 && (bk == PrefixKind::Verbatim || bk == PrefixKind::VerbatimDisk || bk
            == PrefixKind::VerbatimUnc) {
            return verbatim_join_names(base, name, &bv, &nv, bl);
        }
        if n > 0 && slash(nv[0]) {
            let mut out = String::from_str(base.substring_char(0, bl));
            out.append(name);
            assert(base@.subrange(0, bl as int) =~= base@.take(bl as int));
            return out;
        }
        let m = bv.len();
        let mut out = String::from_str(base);
        if m > 0 && !slash(bv[m - 1]) && !(bk == PrefixKind::Disk && bl == m) {
            out.append("\\");
            proof {
                reveal_strlit("\\");
                assert("\\"@ =~= seq!['\\']);
            }
        }
        out.append(name);
        out
    } else {
        if n > 0 && name.get_char(0) == '/' {
            return String::from_str(name);
        }
        let mut out = String::from_str(base);
        let m = base.unicode_len();
        if m > 0 && base.get_char(m - 1) != '/' {
            out.append("/");
            proof {
                reveal_strlit("/");
                assert("/"@ =~= seq!['/']);
            }
        }
        out.append(name);
        out
    }
}

/// A path whose body does not end in a separator or a skipped component:
/// what `parent` gives.
pub open spec fn is_trimmed(q: Seq<char>, style: PathStyle) -> bool {
    trim_back(q, style, q.len() as int) == q.len()
}

/// A single Unix component that is neither `.` nor `..`.
pub open spec fn is_plain_name(n: Seq<char>) -> bool {
    &&& n.len() > 0
    &&& forall|i: int| 0 <= i < n.len() ==> n[i] != '/'
    &&& n != seq!['.']
    &&& n != seq!['.', '.']
}
/// Component bounds up to `m` depend only on the path up to `m`.
proof fn lemma_prefix_local(p: Seq<char>, style: PathStyle, k: int, m: int)
    requires
        0 <= m <= k <= p.len(),
        body_start(p.take(k), style) == body_start(p, style),
        is_verbatim(p.take(k), style) == is_verbatim(p, style),
        body_start(p, style) <= m,
    ensures
        component_start(p.take(k), style, m) == component_start(p, style, m),
        trim_back(p.take(k), style, m) == trim_back(p, style, m),
    decreases m,
{
    lemma_layout(p, style);
    let q = p.take(k);
    if m > body_start(p, style) {
        assert(q[m - 1] == p[m - 1]);
        if !body_sep(p, style, p[m - 1]) {
            lemma_prefix_local(p, style, k, m - 1);
        }
        let start = component_start(p, style, m);
        lemma_component_start(p, style, m);
        assert(q.subrange(start, m) =~= p.subrange(start, m));
        if is_skipped(p.subrange(start, m), is_verbatim(p, style)) {
            lemma_prefix_local(p, style, k, before_component(p, style, start));
        }
    }
}

/// Where `trim_back` stops inside the body, a separator follows.
proof fn lemma_trim_back_sep(p: Seq<char>, style: PathStyle, e: int)
    requires
        body_start(p, style) <= e <= p.len(),
        e == body_start(p, style) || e == p.len() || body_sep(p, style, p[e]),
    ensures
        trim_back(p, style, e) <= body_start(p, style) || trim_back(p, style, e) == p.len()
            || body_sep(p, style, p[trim_back(p, style, e)]),
    decreases e,
{
    lemma_layout(p, style);
    if e > body_start(p, style) {
        let start = component_start(p, style, e);
        lemma_component_start(p, style, e);
        if is_skipped(p.subrange(start, e), is_verbatim(p, style)) {
            lemma_trim_back_sep(p, style, before_component(p, style, start));
        }
    }
}

/// What `parent` gives is trimmed.
pub proof fn lemma_parent_trimmed(p: Seq<char>, style: PathStyle)
    ensures
        parent(p, style) matches Some(q) ==> is_trimmed(q, style),
        parent(p, style) matches Some(q) ==> q.len() == 0 || prefix_of(q, style) == prefix_of(
            p,
            style,
        ),
        parent(p, style) matches Some(q) ==> (style == PathStyle::Windows ==> !is_bare_share(q)),
{
    lemma_layout(p, style);
    let bs = body_start(p, style);
    let pl = prefix_len(p, style);
    lemma_trim_back(p, style, p.len() as int);
    let e = last_end(p, style);
    if e > bs {
        let cs = component_start(p, style, e);
        lemma_component_start(p, style, e);
        let b = before_component(p, style, cs);
        lemma_trim_back(p, style, b);
        lemma_trim_back_sep(p, style, b);
        let k = trim_back(p, style, b);
        let q = p.take(k);
        lemma_prefix_take(p, style, k);
        assert(prefix_len(q, style) == pl);
        assert(is_verbatim(q, style) == is_verbatim(p, style));
        if k > pl {
            assert(q[pl] == p[pl]);
        }
        if k > pl + 1 {
            assert(q[pl + 1] == p[pl + 1]);
        }
        assert(root_len(q, style) == root_len(p, style));
        assert(has_root(q, style) == has_root(p, style));
        if k > bs {
            assert(cur_dir_len(q, style) == cur_dir_len(p, style));
            assert(body_start(q, style) == bs);
            lemma_prefix_local(p, style, k, k);
        } else {
            assert(body_start(q, style) == k);
        }
        if prefix_of(p, style).0 != PrefixKind::Bare && prefix_of(p, style).0 != PrefixKind::Disk {
            assert(is_slash(p[pl]));
            assert(root_len(p, style) == 1 || style == PathStyle::Posix);
        }
    } else {
        lemma_layout(Seq::<char>::empty(), style);
        assert(trim_back(Seq::<char>::empty(), style, 0) == 0);
    }
}

/// On Unix, joining a trimmed directory and a plain name gives a path whose file
/// name is that name and whose parent is that directory.
pub proof fn law_join_then_split(q: Seq<char>, n: Seq<char>)
    requires
        is_trimmed(q, PathStyle::Posix),
        is_plain_name(n),
    ensures
        file_name(join(q, n, PathStyle::Posix), PathStyle::Posix) == Some(n),
        parent(join(q, n, PathStyle::Posix), PathStyle::Posix) == Some(q),
{
    let x = join(q, n, PathStyle::Posix);
    assert(n[0] != '/');
    assert(!is_skipped(n, false)) by {
        if n.len() == 1 && n[0] == '.' {
            assert(n =~= seq!['.']);
        }
    }
    if q.len() == 0 {
        assert(x =~= n);
        assert(body_start(x, PathStyle::Posix) == 0) by {
            if n.len() == 1 && n[0] == '.' {
                assert(n =~= seq!['.']);
            }
        }
        lemma_component_start(x, PathStyle::Posix, x.len() as int);
        assert(x.subrange(0, x.len() as int) =~= n);
        assert(last_end(x, PathStyle::Posix) == x.len());
        assert(x.take(0) =~= q);
    } else if q.last() == '/' {
        lemma_trim_back(q, PathStyle::Posix, q.len() as int);
        if q.len() > body_start(q, PathStyle::Posix) {
            lemma_component_start(q, PathStyle::Posix, q.len() as int);
            lemma_trim_back(q, PathStyle::Posix, before_component(q, PathStyle::Posix, q.len() as int));
        }
        assert(q =~= seq!['/']);
        assert(x =~= q + n);
        assert forall|i: int| 1 <= i < x.len() implies x[i] != '/' by {
            assert(x[i] == n[i - 1]);
        }
        lemma_component_start(x, PathStyle::Posix, x.len() as int);
        assert(x.subrange(1, x.len() as int) =~= n);
        assert(last_end(x, PathStyle::Posix) == x.len());
        assert(x.take(1) =~= q);
    } else {
        let m = q.len() as int;
        assert(x =~= q + seq!['/'] + n);
        assert(x[m] == '/');
        assert forall|i: int| m + 1 <= i < x.len() implies x[i] != '/' by {
            assert(x[i] == n[i - m - 1]);
        }
        if m >= 2 {
            assert(x[1] == q[1]);
        }
        assert(body_start(x, PathStyle::Posix) == body_start(q, PathStyle::Posix));
        assert(x.take(m) =~= q);
        lemma_component_start(x, PathStyle::Posix, x.len() as int);
        assert(component_start(x, PathStyle::Posix, x.len() as int) == m + 1);
        assert(x.subrange(m + 1, x.len() as int) =~= n);
        assert(last_end(x, PathStyle::Posix) == x.len());
        lemma_prefix_local(x, PathStyle::Posix, m, m);
    }
}

proof fn lemma_last_dot(f: Seq<char>, end: int)
    requires
        0 <= end <= f.len(),
    ensures
        -1 <= last_dot(f, end) < end,
    decreases end,
{
    if end > 0 && f[end - 1] != '.' {
        lemma_last_dot(f, end - 1);
    }
}

/// On Unix, a file name is a plain name, and so are its stem and extension (save
/// that the extension may be empty).
pub proof fn lemma_file_name_plain(p: Seq<char>)
    ensures
        file_name(p, PathStyle::Posix) matches Some(f) ==> {
            &&& is_plain_name(f)
            &&& stem_of(f).len() > 0
            &&& forall|i: int| 0 <= i < stem_of(f).len() ==> stem_of(f)[i] != '/'
            &&& extension_of(f) matches Some(x) ==> forall|i: int|
                0 <= i < x.len() ==> x[i] != '/'
        },
{
    lemma_trim_back(p, PathStyle::Posix, p.len() as int);
    let e = last_end(p, PathStyle::Posix);
    if e > body_start(p, PathStyle::Posix) {
        let cs = component_start(p, PathStyle::Posix, e);
        lemma_component_start(p, PathStyle::Posix, e);
        let f = p.subrange(cs, e);
        assert(forall|i: int| 0 <= i < f.len() ==> f[i] == p[cs + i]);
        assert(f != seq!['.']) by {
            if f == seq!['.'] {
                assert(f.len() == 1 && f[0] == '.');
            }
        }
        lemma_last_dot(f, f.len() as int);
        let k = last_dot(f, f.len() as int);
        if k > 0 {
            assert(forall|i: int| 0 <= i < f.take(k).len() ==> f.take(k)[i] == f[i]);
            assert(forall|i: int| 0 <= i < f.skip(k + 1).len() ==> #[trigger] f.skip(k + 1)[i] == f[k + 1 + i]);
        }
    }
}

/// A single component under `style`: no separator, no prefix, and neither
/// `.` nor `..`.
pub open spec fn is_single_name(f: Seq<char>, style: PathStyle) -> bool {
    &&& f.len() > 0
    &&& forall|i: int| 0 <= i < f.len() ==> !is_sep(style, #[trigger] f[i])
    &&& f != seq!['.']
    &&& f != seq!['.', '.']
    &&& prefix_len(f, style) == 0
}

/// A single component is its own file name.
pub proof fn lemma_single_name_file_name(f: Seq<char>, style: PathStyle)
    requires
        is_single_name(f, style),
    ensures
        file_name(f, style) == Some(f),
{
    lemma_layout(f, style);
    assert(!is_sep(style, f[0]));
    assert(root_len(f, style) == 0);
    if f.len() == 1 && f[0] == '.' {
        assert(f =~= seq!['.']);
    }
    if f.len() > 1 {
        assert(!is_sep(style, f[1]));
    }
    assert(!is_verbatim(f, style));
    assert(body_start(f, style) == 0);
    let n = f.len() as int;
    lemma_component_start(f, style, n);
    let cs = component_start(f, style, n);
    if cs > 0 {
        assert(!is_sep(style, f[cs - 1]));
    }
    assert(cs == 0);
    assert(f.subrange(0, n) =~= f);
    assert(!is_skipped(f, false)) by {
        if f.len() == 1 && f[0] == '.' {
            assert(f =~= seq!['.']);
        }
    }
    assert(trim_back(f, style, n) == n);
}

proof fn lemma_next_sep_take(p: Seq<char>, k: int, from: int, verbatim: bool)
    requires
        0 <= from <= k <= p.len(),
    ensures
        next_sep(p.take(k), from, verbatim) == if next_sep(p, from, verbatim) < k {
            next_sep(p, from, verbatim)
        } else {
            k
        },
    decreases k - from,
{
    lemma_next_sep(p, from, verbatim);
    if from < k {
        assert(p.take(k)[from] == p[from]);
        if !sep_in(PathStyle::Windows, verbatim, p[from]) {
            lemma_next_sep_take(p, k, from + 1, verbatim);
        }
    }
}

/// The prefix of a path is read from its first characters alone.
proof fn lemma_prefix_take(p: Seq<char>, style: PathStyle, k: int)
    requires
        prefix_len(p, style) <= k <= p.len(),
    ensures
        prefix_of(p.take(k), style) == prefix_of(p, style),
{
    lemma_layout(p, style);
    let q = p.take(k);
    lemma_layout(q, style);
    if style == PathStyle::Windows && k >= 2 {
        assert(forall|i: int| 0 <= i < k ==> #[trigger] q[i] == p[i]);
        assert(q[0] == p[0] && q[1] == p[1]);
        if is_slash(p[0]) && is_slash(p[1]) {
            if p.len() >= 4 && p[0] == '\\' && p[1] == '\\' && p[2] == '?' && p[3] == '\\' {
                assert(k >= 4);
                assert(q[2] == p[2] && q[3] == p[3]);
                if p.len() >= 8 && p[4] == 'U' && p[5] == 'N' && p[6] == 'C' && is_slash(p[7]) {
                    lemma_next_sep(p, 8, true);
                    let s1 = next_sep(p, 8, true);
                    assert(k >= 8);
                    assert(q[4] == p[4] && q[5] == p[5] && q[6] == p[6] && q[7] == p[7]);
                    lemma_next_sep_take(p, k, 8, true);
                    if s1 < p.len() {
                        lemma_next_sep(p, s1 + 1, true);
                        if s1 < k {
                            lemma_next_sep_take(p, k, s1 + 1, true);
                        }
                    }
                    assert(win_prefix(q) == win_prefix(p));
                } else if p.len() >= 6 && is_drive_letter(p[4]) && p[5] == ':' && (p.len() == 6
                    || is_slash(p[6])) {
                    assert(q[4] == p[4] && q[5] == p[5]);
                    if k > 6 {
                        assert(q[6] == p[6]);
                    }
                    if k >= 8 {
                        assert(q[7] == p[7]);
                    }
                    assert(win_prefix(q) == win_prefix(p));
                } else {
                    lemma_next_sep(p, 4, true);
                    lemma_next_sep_take(p, k, 4, true);
                    if k > 4 {
                        assert(q[4] == p[4]);
                    }
                    if k > 5 {
                        assert(q[5] == p[5]);
                    }
                    if k > 6 {
                        assert(q[6] == p[6]);
                    }
                    if k > 7 {
                        assert(q[7] == p[7]);
                    }
                    assert(win_prefix(q) == win_prefix(p));
                }
            } else if p.len() >= 4 && p[2] == '.' && is_slash(p[3]) {
                lemma_next_sep(p, 4, false);
                assert(k >= 4);
                assert(q[2] == p[2] && q[3] == p[3]);
                lemma_next_sep_take(p, k, 4, false);
                assert(win_prefix(q) == win_prefix(p));
            } else {
                if k > 2 {
                    assert(q[2] == p[2]);
                }
                if k > 3 {
                    assert(q[3] == p[3]);
                }
                lemma_next_sep(p, 2, false);
                lemma_next_sep_take(p, k, 2, false);
                let s1 = next_sep(p, 2, false);
                if s1 < p.len() {
                    lemma_next_sep(p, s1 + 1, false);
                    if s1 < k {
                        lemma_next_sep_take(p, k, s1 + 1, false);
                    }
                }
                assert(win_prefix(q) == win_prefix(p));
            }
        } else {
            assert(win_prefix(q) == win_prefix(p));
        }
    }
}

/// A share or device name with nothing after it, such as `\\server\share`.
pub open spec fn is_bare_share(q: Seq<char>) -> bool {
    let w = PathStyle::Windows;
    &&& prefix_len(q, w) == q.len()
    &&& prefix_of(q, w).0 != PrefixKind::Bare
    &&& prefix_of(q, w).0 != PrefixKind::Disk
}

/// Two separators and a server name with nothing after it, such as
/// `\\server`: a name joined onto it completes a share.
pub open spec fn forms_share(q: Seq<char>) -> bool {
    &&& q.len() > 2
    &&& is_slash(q[0])
    &&& is_slash(q[1])
    &&& next_sep(q, 2, false) == q.len()
}

/// A trimmed path that ends with a separator ends where its body starts.
proof fn lemma_trimmed_slash_end(q: Seq<char>)
    requires
        is_trimmed(q, PathStyle::Windows),
        !is_verbatim(q, PathStyle::Windows),
        q.len() > 0,
        is_slash(q.last()),
    ensures
        q.len() == body_start(q, PathStyle::Windows),
{
    let w = PathStyle::Windows;
    let m = q.len() as int;
    lemma_layout(q, w);
    if m > body_start(q, w) {
        assert(q.last() == q[m - 1]);
        assert(body_sep(q, w, q[m - 1]));
        assert(component_start(q, w, m) == m);
        assert(q.subrange(m, m) =~= Seq::<char>::empty());
        assert(is_skipped(q.subrange(m, m), false));
        lemma_trim_back(q, w, m - 1);
        assert(trim_back(q, w, m) == trim_back(q, w, m - 1));
    }
}

/// Joining a single name onto a trimmed directory that is neither verbatim
/// nor a bare share name keeps the directory's prefix, unless the
/// directory is a lone server name.
proof fn lemma_join_keeps_prefix(q: Seq<char>, n: Seq<char>)
    requires
        is_trimmed(q, PathStyle::Windows),
        !is_verbatim(q, PathStyle::Windows),
        !is_bare_share(q),
        !forms_share(q),
        is_single_name(n, PathStyle::Windows),
    ensures
        prefix_of(join(q, n, PathStyle::Windows), PathStyle::Windows) == prefix_of(
            q,
            PathStyle::Windows,
        ),
{
    let w = PathStyle::Windows;
    let x = join(q, n, w);
    let m = q.len() as int;
    lemma_layout(q, w);
    lemma_layout(x, w);
    assert(!is_slash(n[0]));
    assert(forall|i: int| 0 <= i < n.len() ==> !is_slash(#[trigger] n[i]));
    let sep_added = m > 0 && !is_slash(q.last()) && !(prefix_of(q, w).0 == PrefixKind::Disk
        && prefix_len(q, w) == m);
    if sep_added {
        assert(x =~= q + seq!['\\'] + n);
        assert(x[m] == '\\');
        assert forall|i: int| m + 1 <= i < x.len() implies !is_slash(#[trigger] x[i]) by {
            assert(x[i] == n[i - m - 1]);
        }
    } else {
        assert(x =~= q + n);
        assert forall|i: int| m <= i < x.len() implies !is_slash(#[trigger] x[i]) by {
            assert(x[i] == n[i - m]);
        }
    }
    assert(forall|i: int| 0 <= i < m ==> #[trigger] x[i] == q[i]);
    assert(x.take(m) =~= q);
    if prefix_len(x, w) <= m {
        lemma_prefix_take(x, w, m);
    } else if m == 0 {
        assert(x =~= n);
    } else if m == 1 {
        assert(!(is_slash(x[0]) && is_slash(x[1])));
    } else {
        assert(x[0] == q[0] && x[1] == q[1]);
        if is_slash(q[0]) && is_slash(q[1]) {
            if m == 2 {
                assert(body_start(q, w) == 1);
                lemma_trimmed_slash_end(q);
            } else {
                assert(x[2] == q[2]);
                if m > 3 {
                    assert(x[3] == q[3]);
                }
                lemma_next_sep(x, 2, false);
                lemma_next_sep_take(x, m, 2, false);
                let s1 = next_sep(x, 2, false);
                if s1 < m {
                    lemma_next_sep(x, s1 + 1, false);
                    lemma_next_sep_take(x, m, s1 + 1, false);
                    if s1 + 1 == m {
                        lemma_trimmed_slash_end(q);
                    }
                }
                if m >= 4 {
                    lemma_next_sep(x, 4, false);
                    lemma_next_sep_take(x, m, 4, false);
                    lemma_next_sep(x, 4, true);
                    lemma_next_sep_take(x, m, 4, true);
                }
                if x.len() >= 8 {
                    lemma_next_sep(x, 8, true);
                }
            }
        }
    }
}

/// On Windows, joining a trimmed directory and a single name gives a path
/// whose file name is that name and whose parent is that directory, unless
/// the directory is a share or device name with nothing after it (the join
/// adds a root to it) or a lone server name such as `\\server` (the name
/// completes it to a share). Verbatim directories, which the join rebuilds
/// from their components, are left out.
pub proof fn law_join_then_split_on_windows(q: Seq<char>, n: Seq<char>)
    requires
        is_trimmed(q, PathStyle::Windows),
        !is_verbatim(q, PathStyle::Windows),
        !is_bare_share(q),
        !forms_share(q),
        is_single_name(n, PathStyle::Windows),
    ensures
        file_name(join(q, n, PathStyle::Windows), PathStyle::Windows) == Some(n),
        parent(join(q, n, PathStyle::Windows), PathStyle::Windows) == Some(q),
{
    let w = PathStyle::Windows;
    let x = join(q, n, w);
    let m = q.len() as int;
    let pl = prefix_len(q, w);
    lemma_join_keeps_prefix(q, n);
    lemma_layout(q, w);
    lemma_layout(x, w);
    assert(!is_slash(n[0]));
    assert(!is_verbatim(x, w));
    assert(forall|i: int| 0 <= i < n.len() ==> !is_slash(#[trigger] n[i]));
    assert(!is_skipped(n, false)) by {
        if n.len() == 1 && n[0] == '.' {
            assert(n =~= seq!['.']);
        }
    }
    let sep_added = m > 0 && !is_slash(q.last()) && !(prefix_of(q, w).0 == PrefixKind::Disk && pl
        == m);
    if sep_added {
        assert(x =~= q + seq!['\\'] + n);
        assert(m > pl);
        assert(x[pl] == q[pl]);
        if m > pl + 1 {
            assert(x[pl + 1] == q[pl + 1]);
        } else {
            assert(x[pl + 1] == '\\');
        }
        assert(body_start(x, w) == body_start(q, w));
        assert(x[m] == '\\');
        assert forall|i: int| m + 1 <= i < x.len() implies !is_slash(#[trigger] x[i]) by {
            assert(x[i] == n[i - m - 1]);
        }
        lemma_component_start(x, w, x.len() as int);
        assert(component_start(x, w, x.len() as int) == m + 1);
        assert(x.subrange(m + 1, x.len() as int) =~= n);
        assert(last_end(x, w) == x.len());
        assert(x.take(m) =~= q);
        lemma_prefix_local(x, w, m, m);
    } else {
        assert(x =~= q + n);
        assert forall|i: int| m <= i < x.len() implies !is_slash(#[trigger] x[i]) by {
            assert(x[i] == n[i - m]);
        }
        assert(x.take(m) =~= q);
        if m == 0 {
            assert(x =~= n);
            lemma_single_name_file_name(n, w);
            assert(body_start(x, w) == 0);
            lemma_component_start(x, w, x.len() as int);
        } else {
            if is_slash(q.last()) {
                lemma_trim_back(q, w, m);
                if m > body_start(q, w) {
                    lemma_component_start(q, w, m);
                    assert(q.subrange(m, m) =~= Seq::<char>::empty());
                }
                assert(m == body_start(q, w));
                assert(m > pl);
                assert(x[pl] == q[pl]);
                if m > pl + 1 {
                    assert(x[pl + 1] == q[pl + 1]);
                }
                assert(root_len(q, w) == 1);
                assert(body_start(x, w) == m);
            } else {
                assert(m == 2 && pl == 2);
                assert(x[2] == n[0]);
                if n.len() > 1 {
                    assert(x[3] == n[1]);
                } else {
                    assert(n =~= seq![n[0]]);
                }
                assert(body_start(x, w) == m);
            }
            lemma_component_start(x, w, x.len() as int);
            assert(component_start(x, w, x.len() as int) == m);
            assert(x.subrange(m, x.len() as int) =~= n);
            assert(last_end(x, w) == x.len());
        }
    }
}

/// Outside a verbatim path, a file name holds no separator and is neither
/// `.` nor `..`.
pub proof fn lemma_file_name_no_sep(p: Seq<char>, style: PathStyle)
    ensures
        file_name(p, style) matches Some(f) ==> (!is_verbatim(p, style) ==> {
            &&& f.len() > 0
            &&& f != seq!['.']
            &&& f != seq!['.', '.']
            &&& forall|i: int| 0 <= i < f.len() ==> !is_sep(style, #[trigger] f[i])
        }),
{
    lemma_layout(p, style);
    lemma_trim_back(p, style, p.len() as int);
    let e = last_end(p, style);
    if e > body_start(p, style) && !is_verbatim(p, style) {
        let cs = component_start(p, style, e);
        lemma_component_start(p, style, e);
        let f = p.subrange(cs, e);
        assert forall|i: int| 0 <= i < f.len() implies !is_sep(style, #[trigger] f[i]) by {
            assert(f[i] == p[cs + i]);
        }
        assert(f != seq!['.']) by {
            if f == seq!['.'] {
                assert(f.len() == 1 && f[0] == '.');
            }
        }
    }
}

} // verus!
