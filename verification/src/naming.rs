//! The names of the files a conversion writes beside its input: the
//! converted copy, the log, the renamed original and the staging file.
//!
//! Each name is computed under the path rules of a [`PathStyle`]; the
//! functions without a style take the rules of the platform they run on.
use vstd::prelude::*;

use crate::path::{
    extension_of, file_name, file_name_range, forms_share, is_plain_name, is_single_name,
    is_slash, is_trimmed, is_verbatim, join, join_names, law_join_then_split,
    law_join_then_split_on_windows, lemma_file_name_no_sep, lemma_file_name_plain,
    lemma_parent_trimmed, lemma_single_name_file_name, native_style, parent, parent_len,
    split_name, stem_of, PathStyle,
};
use crate::text::chars_of;

verus! {

/// The directory of `p`: its parent, or the empty path when it has none.
pub open spec fn dir_of(p: Seq<char>, style: PathStyle) -> Seq<char> {
    match parent(p, style) {
        Some(q) => q,
        None => Seq::empty(),
    }
}

/// The stem of `p`, or `output` when `p` has no file name.
pub open spec fn stem_or_output(p: Seq<char>, style: PathStyle) -> Seq<char> {
    match file_name(p, style) {
        Some(f) => stem_of(f),
        None => "output"@,
    }
}

/// The extension of `p`, or `pdf` when `p` has none.
pub open spec fn extension_or_pdf(p: Seq<char>, style: PathStyle) -> Seq<char> {
    match file_name(p, style) {
        Some(f) => match extension_of(f) {
            Some(x) => x,
            None => "pdf"@,
        },
        None => "pdf"@,
    }
}

/// `<dir>/<stem>_rs.<ext>`: where a conversion writes when the original
/// keeps its name.
pub open spec fn output_path(p: Seq<char>, style: PathStyle) -> Seq<char> {
    join(dir_of(p, style), stem_or_output(p, style) + "_rs."@ + extension_or_pdf(p, style), style)
}

/// `<dir>/<stem>.txt`: the conversion log of `p`.
pub open spec fn log_path(p: Seq<char>, style: PathStyle) -> Seq<char> {
    join(dir_of(p, style), stem_or_output(p, style) + ".txt"@, style)
}

/// `<dir>/<stem><suffix>.<ext>`: where the original goes when renamed.
pub open spec fn renamed_path(p: Seq<char>, suffix: Seq<char>, style: PathStyle) -> Seq<char> {
    join(
        dir_of(p, style),
        stem_or_output(p, style) + suffix + "."@ + extension_or_pdf(p, style),
        style,
    )
}

/// `<dir>/.<name>.converting`: the hidden file a conversion is staged in.
pub open spec fn staging_path(p: Seq<char>, style: PathStyle) -> Seq<char> {
    join(
        dir_of(p, style),
        "."@ + match file_name(p, style) {
            Some(f) => f,
            None => Seq::empty(),
        } + ".converting"@,
        style,
    )
}

/// The file name of `p`, or `p` itself when it has none.
pub open spec fn shown_name(p: Seq<char>, style: PathStyle) -> Seq<char> {
    match file_name(p, style) {
        Some(f) => f,
        None => p,
    }
}

/// The renamed original of `input`, or the refusal of an input without a
/// file name.
pub open spec fn rename_outcome(
    r: Result<String, String>,
    input: Seq<char>,
    suffix: Seq<char>,
    style: PathStyle,
) -> bool {
    match r {
        Ok(s) => file_name(input, style) is Some && s@ == renamed_path(input, suffix, style),
        Err(e) => file_name(input, style) is None && e@ == "invalid filename"@,
    }
}

/// The staging file of `input`, or the refusal of an input without a file
/// name.
pub open spec fn staging_outcome(r: Result<String, String>, input: Seq<char>, style: PathStyle) -> bool {
    match r {
        Ok(s) => file_name(input, style) is Some && s@ == staging_path(input, style),
        Err(e) => file_name(input, style) is None && e@ == "invalid filename"@,
    }
}

/// The directory of `input` as text.
fn dir_str<'a>(input: &'a str, v: &Vec<char>, style: PathStyle) -> (r: &'a str)
    requires
        v@ == input@,
    ensures
        r@ == dir_of(input@, style),
{
    match parent_len(v, style) {
        Some(k) => input.substring_char(0, k),
        None => {
            proof {
                reveal_strlit("");
            }
            ""
        },
    }
}

/// Appends the stem of `input` (or `output`) to `out`.
fn push_stem(out: &mut String, input: &str, v: &Vec<char>, style: PathStyle)
    requires
        v@ == input@,
    ensures
        final(out)@ == old(out)@ + stem_or_output(input@, style),
{
    match file_name_range(v, style) {
        Some((a, b)) => {
            let (s, _x) = split_name(v, a, b);
            out.append(input.substring_char(a, s));
        },
        None => out.append("output"),
    }
}

/// Appends the extension of `input` (or `pdf`) to `out`.
fn push_extension(out: &mut String, input: &str, v: &Vec<char>, style: PathStyle)
    requires
        v@ == input@,
    ensures
        final(out)@ == old(out)@ + extension_or_pdf(input@, style),
{
    match file_name_range(v, style) {
        Some((a, b)) => {
            let (_s, x) = split_name(v, a, b);
            match x {
                Some(x) => out.append(input.substring_char(x, b)),
                None => out.append("pdf"),
            }
        },
        None => out.append("pdf"),
    }
}

/// Where the converted copy of `input` is written when the original keeps
/// its name: `<dir>/<stem>_rs.<ext>`, with `output` for a missing stem and
/// `pdf` for a missing extension.
pub fn output_path_in(input: &str, style: PathStyle) -> (r: String)
    ensures
        r@ == output_path(input@, style),
{
    let v = chars_of(input);
    let mut name = String::new();
    push_stem(&mut name, input, &v, style);
    name.append("_rs.");
    push_extension(&mut name, input, &v, style);
    assert(name@ =~= stem_or_output(input@, style) + "_rs."@ + extension_or_pdf(input@, style));
    join_names(dir_str(input, &v, style), name.as_str(), style)
}

/// Where the conversion log of `input` is written: `<dir>/<stem>.txt`.
pub fn log_path_in(input: &str, style: PathStyle) -> (r: String)
    ensures
        r@ == log_path(input@, style),
{
    let v = chars_of(input);
    let mut name = String::new();
    push_stem(&mut name, input, &v, style);
    name.append(".txt");
    assert(name@ =~= stem_or_output(input@, style) + ".txt"@);
    join_names(dir_str(input, &v, style), name.as_str(), style)
}

/// Where the original `input` is moved when it is renamed with `suffix`:
/// `<dir>/<stem><suffix>.<ext>`. An input without a file name is refused.
pub fn rename_target_in(input: &str, suffix: &str, style: PathStyle) -> (r: Result<
    String,
    String,
>)
    ensures
        rename_outcome(r, input@, suffix@, style),
{
    let v = chars_of(input);
    if file_name_range(&v, style).is_none() {
        return Err(String::from_str("invalid filename"));
    }
    let mut name = String::new();
    push_stem(&mut name, input, &v, style);
    name.append(suffix);
    name.append(".");
    push_extension(&mut name, input, &v, style);
    assert(name@ =~= stem_or_output(input@, style) + suffix@ + "."@ + extension_or_pdf(
        input@,
        style,
    ));
    Ok(join_names(dir_str(input, &v, style), name.as_str(), style))
}

/// The hidden file a conversion of `input` is staged in:
/// `<dir>/.<name>.converting`. An input without a file name is refused.
pub fn temp_target_in(input: &str, style: PathStyle) -> (r: Result<String, String>)
    ensures
        staging_outcome(r, input@, style),
{
    let v = chars_of(input);
    match file_name_range(&v, style) {
        None => Err(String::from_str("invalid filename")),
        Some((a, b)) => {
            let mut name = String::from_str(".");
            name.append(input.substring_char(a, b));
            name.append(".converting");
            Ok(join_names(dir_str(input, &v, style), name.as_str(), style))
        },
    }
}

/// The file name of `path`, or `path` itself when it has none.
pub fn basename_in(path: &str, style: PathStyle) -> (r: String)
    ensures
        r@ == shown_name(path@, style),
{
    let v = chars_of(path);
    match file_name_range(&v, style) {
        Some((a, b)) => String::from_str(path.substring_char(a, b)),
        None => String::from_str(path),
    }
}

/// [`output_path_in`] under the rules of this platform, which are those of
/// Unix or those of Windows.
pub fn output_path_for(input: &str) -> (r: String)
    ensures
        r@ == output_path(input@, PathStyle::Posix) || r@ == output_path(
            input@,
            PathStyle::Windows,
        ),
{
    output_path_in(input, native_style())
}

/// [`log_path_in`] under the rules of this platform.
pub fn log_path_for(input: &str) -> (r: String)
    ensures
        r@ == log_path(input@, PathStyle::Posix) || r@ == log_path(input@, PathStyle::Windows),
{
    log_path_in(input, native_style())
}

/// [`rename_target_in`] under the rules of this platform.
pub fn rename_target(input: &str, suffix: &str) -> (r: Result<String, String>)
    ensures
        rename_outcome(r, input@, suffix@, PathStyle::Posix) || rename_outcome(
            r,
            input@,
            suffix@,
            PathStyle::Windows,
        ),
{
    rename_target_in(input, suffix, native_style())
}

/// [`temp_target_in`] under the rules of this platform.
pub fn temp_target(input: &str) -> (r: Result<String, String>)
    ensures
        staging_outcome(r, input@, PathStyle::Posix) || staging_outcome(
            r,
            input@,
            PathStyle::Windows,
        ),
{
    temp_target_in(input, native_style())
}

/// [`basename_in`] under the rules of this platform.
pub fn basename_of(path: &str) -> (r: String)
    ensures
        r@ == shown_name(path@, PathStyle::Posix) || r@ == shown_name(path@, PathStyle::Windows),
{
    basename_in(path, native_style())
}

proof fn lemma_dir_trimmed(p: Seq<char>)
    ensures
        is_trimmed(dir_of(p, PathStyle::Posix), PathStyle::Posix),
{
    lemma_parent_trimmed(p, PathStyle::Posix);
}

proof fn lemma_parts_plain(p: Seq<char>)
    ensures
        stem_or_output(p, PathStyle::Posix).len() > 0,
        forall|i: int| 0 <= i < stem_or_output(p, PathStyle::Posix).len() ==> stem_or_output(p, PathStyle::Posix)[i] != '/',
        forall|i: int| 0 <= i < extension_or_pdf(p, PathStyle::Posix).len() ==> extension_or_pdf(p, PathStyle::Posix)[i] != '/',
{
    lemma_file_name_plain(p);
    reveal_strlit("output");
    reveal_strlit("pdf");
}

proof fn lemma_name_plain(a: Seq<char>, b: Seq<char>, c: Seq<char>)
    requires
        a.len() + b.len() + c.len() >= 3,
        forall|i: int| 0 <= i < a.len() ==> a[i] != '/',
        forall|i: int| 0 <= i < b.len() ==> b[i] != '/',
        forall|i: int| 0 <= i < c.len() ==> c[i] != '/',
    ensures
        is_plain_name(a + b + c),
{
    let n = a + b + c;
    assert forall|i: int| 0 <= i < n.len() implies n[i] != '/' by {
        if i < a.len() {
            assert(n[i] == a[i]);
        } else if i < a.len() + b.len() {
            assert(n[i] == b[i - a.len()]);
        } else {
            assert(n[i] == c[i - a.len() - b.len()]);
        }
    }
    assert(n != seq!['.']) by {
        if n == seq!['.'] {
            assert(n.len() == 1);
        }
    }
    assert(n != seq!['.', '.']) by {
        if n == seq!['.', '.'] {
            assert(n.len() == 2);
        }
    }
}

/// On Unix, the converted copy and the log are written in the input's directory,
/// under `<stem>_rs.<ext>` and `<stem>.txt`.
pub proof fn law_outputs_beside_input(p: Seq<char>)
    ensures
        parent(output_path(p, PathStyle::Posix), PathStyle::Posix) == Some(dir_of(p, PathStyle::Posix)),
        file_name(output_path(p, PathStyle::Posix), PathStyle::Posix) == Some(stem_or_output(p, PathStyle::Posix) + "_rs."@ + extension_or_pdf(p, PathStyle::Posix)),
        parent(log_path(p, PathStyle::Posix), PathStyle::Posix) == Some(dir_of(p, PathStyle::Posix)),
        file_name(log_path(p, PathStyle::Posix), PathStyle::Posix) == Some(stem_or_output(p, PathStyle::Posix) + ".txt"@),
{
    lemma_dir_trimmed(p);
    lemma_parts_plain(p);
    reveal_strlit("_rs.");
    reveal_strlit(".txt");
    lemma_name_plain(stem_or_output(p, PathStyle::Posix), "_rs."@, extension_or_pdf(p, PathStyle::Posix));
    law_join_then_split(dir_of(p, PathStyle::Posix), stem_or_output(p, PathStyle::Posix) + "_rs."@ + extension_or_pdf(p, PathStyle::Posix));
    lemma_name_plain(stem_or_output(p, PathStyle::Posix), ".txt"@, Seq::empty());
    assert(stem_or_output(p, PathStyle::Posix) + ".txt"@ + Seq::<char>::empty() =~= stem_or_output(p, PathStyle::Posix) + ".txt"@);
    law_join_then_split(dir_of(p, PathStyle::Posix), stem_or_output(p, PathStyle::Posix) + ".txt"@);
}

/// On Unix, the staging file and the renamed original (for a suffix without `/`)
/// stay in the input's directory, under `.<name>.converting` and
/// `<stem><suffix>.<ext>`.
pub proof fn law_staging_beside_input(p: Seq<char>, suffix: Seq<char>)
    requires
        file_name(p, PathStyle::Posix) is Some,
        suffix.len() > 0,
        forall|i: int| 0 <= i < suffix.len() ==> suffix[i] != '/',
    ensures
        parent(staging_path(p, PathStyle::Posix), PathStyle::Posix) == Some(dir_of(p, PathStyle::Posix)),
        file_name(staging_path(p, PathStyle::Posix), PathStyle::Posix) == Some("."@ + file_name(p, PathStyle::Posix).unwrap() + ".converting"@),
        parent(renamed_path(p, suffix, PathStyle::Posix), PathStyle::Posix) == Some(dir_of(p, PathStyle::Posix)),
        file_name(renamed_path(p, suffix, PathStyle::Posix), PathStyle::Posix) == Some(
            stem_or_output(p, PathStyle::Posix) + suffix + "."@ + extension_or_pdf(p, PathStyle::Posix),
        ),
{
    lemma_dir_trimmed(p);
    lemma_parts_plain(p);
    lemma_file_name_plain(p);
    reveal_strlit(".");
    reveal_strlit(".converting");
    let f = file_name(p, PathStyle::Posix).unwrap();
    lemma_name_plain("."@, f, ".converting"@);
    law_join_then_split(dir_of(p, PathStyle::Posix), "."@ + f + ".converting"@);
    let s = stem_or_output(p, PathStyle::Posix) + suffix;
    assert forall|i: int| 0 <= i < s.len() implies s[i] != '/' by {
        if i < stem_or_output(p, PathStyle::Posix).len() {
            assert(s[i] == stem_or_output(p, PathStyle::Posix)[i]);
        } else {
            assert(s[i] == suffix[i - stem_or_output(p, PathStyle::Posix).len()]);
        }
    }
    lemma_name_plain(s, "."@, extension_or_pdf(p, PathStyle::Posix));
    law_join_then_split(dir_of(p, PathStyle::Posix), s + "."@ + extension_or_pdf(p, PathStyle::Posix));
}

/// The name shown for a path is its own shown name. Under Unix rules this
/// holds of every path; under Windows rules it fails exactly where the file
/// name of `p` is itself read as a path with another last component: a
/// drive-relative name such as `C:x.pdf`, or a verbatim path's name that
/// holds `/`.
pub proof fn law_shown_name_is_stable(p: Seq<char>, style: PathStyle)
    requires
        style == PathStyle::Windows ==> (file_name(p, style) matches Some(f) ==> (is_single_name(
            f,
            style,
        ) || file_name(f, style) is None)),
    ensures
        shown_name(shown_name(p, style), style) == shown_name(p, style),
{
    if style == PathStyle::Posix {
        lemma_file_name_plain(p);
        if let Some(f) = file_name(p, style) {
            lemma_single_name_file_name(f, style);
        }
    } else {
        if let Some(f) = file_name(p, style) {
            if is_single_name(f, style) {
                lemma_single_name_file_name(f, style);
            }
        }
    }
}

/// On Windows, the converted copy and the log of a path that is not
/// verbatim are written in its directory, under `<stem>_rs.<ext>` and
/// `<stem>.txt`, unless the directory is a lone server name such as
/// `\\server` (the new name completes it to a share) or the new name reads
/// as a drive-relative path, as `C:x_rs.pdf` does.
pub proof fn law_outputs_beside_input_on_windows(p: Seq<char>)
    requires
        !is_verbatim(p, PathStyle::Windows),
        !forms_share(dir_of(p, PathStyle::Windows)),
    ensures
        is_single_name(
            stem_or_output(p, PathStyle::Windows) + "_rs."@ + extension_or_pdf(
                p,
                PathStyle::Windows,
            ),
            PathStyle::Windows,
        ) ==> {
            &&& parent(output_path(p, PathStyle::Windows), PathStyle::Windows) == Some(
                dir_of(p, PathStyle::Windows),
            )
            &&& file_name(output_path(p, PathStyle::Windows), PathStyle::Windows) == Some(
                stem_or_output(p, PathStyle::Windows) + "_rs."@ + extension_or_pdf(
                    p,
                    PathStyle::Windows,
                ),
            )
        },
        is_single_name(stem_or_output(p, PathStyle::Windows) + ".txt"@, PathStyle::Windows) ==> {
            &&& parent(log_path(p, PathStyle::Windows), PathStyle::Windows) == Some(
                dir_of(p, PathStyle::Windows),
            )
            &&& file_name(log_path(p, PathStyle::Windows), PathStyle::Windows) == Some(
                stem_or_output(p, PathStyle::Windows) + ".txt"@,
            )
        },
{
    let w = PathStyle::Windows;
    lemma_parent_trimmed(p, w);
    let d = dir_of(p, w);
    let a = stem_or_output(p, w) + "_rs."@ + extension_or_pdf(p, w);
    let b = stem_or_output(p, w) + ".txt"@;
    if is_single_name(a, w) {
        law_join_then_split_on_windows(d, a);
    }
    if is_single_name(b, w) {
        law_join_then_split_on_windows(d, b);
    }
}

/// On Windows, the staging file of a path that is not verbatim stays in its
/// directory under `.<name>.converting`, and so does the renamed original
/// under `<stem><suffix>.<ext>`, unless the directory is a lone server name
/// such as `\\server`, or the renamed original's name holds a separator
/// or reads as a drive-relative path.
pub proof fn law_staging_beside_input_on_windows(p: Seq<char>, suffix: Seq<char>)
    requires
        file_name(p, PathStyle::Windows) is Some,
        !is_verbatim(p, PathStyle::Windows),
        !forms_share(dir_of(p, PathStyle::Windows)),
    ensures
        parent(staging_path(p, PathStyle::Windows), PathStyle::Windows) == Some(
            dir_of(p, PathStyle::Windows),
        ),
        file_name(staging_path(p, PathStyle::Windows), PathStyle::Windows) == Some(
            "."@ + file_name(p, PathStyle::Windows).unwrap() + ".converting"@,
        ),
        is_single_name(
            stem_or_output(p, PathStyle::Windows) + suffix + "."@ + extension_or_pdf(
                p,
                PathStyle::Windows,
            ),
            PathStyle::Windows,
        ) ==> {
            &&& parent(renamed_path(p, suffix, PathStyle::Windows), PathStyle::Windows) == Some(
                dir_of(p, PathStyle::Windows),
            )
            &&& file_name(renamed_path(p, suffix, PathStyle::Windows), PathStyle::Windows)
                == Some(
                stem_or_output(p, PathStyle::Windows) + suffix + "."@ + extension_or_pdf(
                    p,
                    PathStyle::Windows,
                ),
            )
        },
{
    let w = PathStyle::Windows;
    lemma_parent_trimmed(p, w);
    lemma_file_name_no_sep(p, w);
    let d = dir_of(p, w);
    let f = file_name(p, w).unwrap();
    let n = "."@ + f + ".converting"@;
    reveal_strlit(".");
    reveal_strlit(".converting");
    assert forall|i: int| 0 <= i < n.len() implies !is_slash(#[trigger] n[i]) by {
        if i == 0 {
        } else if i < 1 + f.len() {
            assert(n[i] == f[i - 1]);
        } else {
            assert(n[i] == ".converting"@[i - 1 - f.len()]);
        }
    }
    assert(n[0] == '.');
    assert(n != seq!['.']) by {
        if n == seq!['.'] {
            assert(n.len() == 1);
        }
    }
    assert(n != seq!['.', '.']) by {
        if n == seq!['.', '.'] {
            assert(n.len() == 2);
        }
    }
    assert(is_single_name(n, w));
    law_join_then_split_on_windows(d, n);
    let r = stem_or_output(p, w) + suffix + "."@ + extension_or_pdf(p, w);
    if is_single_name(r, w) {
        law_join_then_split_on_windows(d, r);
    }
}

} // verus!
