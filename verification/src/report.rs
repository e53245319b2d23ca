//! The lines of a conversion log that hold no measurement: decimal
//! numbers, the opening of the header, its page-mode, colour and
//! filled-shape lines, and the totals line.
use vstd::prelude::*;

use crate::counters::PageCounters;
use crate::rules::{all_digits, decimal_value, digit_value, is_digit, parse_u32};
use crate::text::same_text;

verus! {

/// The digit character for `d` (below 10).
pub open spec fn digit_char(d: nat) -> char {
    (d + 48) as char
}

/// `n` written in decimal, without leading zeros.
pub open spec fn decimal(n: nat) -> Seq<char>
    decreases n,
{
    if n < 10 {
        seq![digit_char(n)]
    } else {
        decimal(n / 10).push(digit_char(n % 10))
    }
}

/// The one-character text of the digit `d`.
fn digit_text(d: u64) -> (s: &'static str)
    requires
        d < 10,
    ensures
        s@ == seq![digit_char(d as nat)],
{
    proof {
        reveal_strlit("0");
        reveal_strlit("1");
        reveal_strlit("2");
        reveal_strlit("3");
        reveal_strlit("4");
        reveal_strlit("5");
        reveal_strlit("6");
        reveal_strlit("7");
        reveal_strlit("8");
        reveal_strlit("9");
    }
    let s = match d {
        0 => "0",
        1 => "1",
        2 => "2",
        3 => "3",
        4 => "4",
        5 => "5",
        6 => "6",
        7 => "7",
        8 => "8",
        _ => "9",
    };
    assert(s@ =~= seq![digit_char(d as nat)]);
    s
}

/// Appends `n` in decimal to `out`.
fn push_decimal(out: &mut String, n: u64)
    ensures
        final(out)@ == old(out)@ + decimal(n as nat),
    decreases n,
{
    if n >= 10 {
        push_decimal(out, n / 10);
    }
    out.append(digit_text(n % 10));
    proof {
        if n >= 10 {
            assert(old(out)@ + decimal((n / 10) as nat) + seq![digit_char((n % 10) as nat)]
                =~= old(out)@ + decimal(n as nat));
        } else {
            assert(old(out)@ + seq![digit_char((n % 10) as nat)] =~= old(out)@ + decimal(
                n as nat,
            ));
        }
    }
}

/// `n` written in decimal.
pub fn decimal_string(n: u64) -> (r: String)
    ensures
        r@ == decimal(n as nat),
{
    let mut r = String::new();
    push_decimal(&mut r, n);
    assert(Seq::<char>::empty() + decimal(n as nat) =~= decimal(n as nat));
    r
}

/// Reading a number back gives the number that was written: decimal
/// writing and the page-rule number grammar agree.
pub proof fn law_decimal_reads_back(n: u32)
    ensures
        parse_u32(decimal(n as nat)) == Some(n),
{
    lemma_decimal(n as nat);
    assert(decimal(n as nat)[0] != '+') by {
        assert(is_digit(decimal(n as nat)[0]));
    }
}

proof fn lemma_decimal(n: nat)
    ensures
        decimal(n).len() > 0,
        all_digits(decimal(n)),
        decimal_value(decimal(n)) == n,
    decreases n,
{
    if n >= 10 {
        lemma_decimal(n / 10);
        let p = decimal(n / 10);
        let d = digit_char(n % 10);
        assert(p.push(d).drop_last() =~= p);
        assert(digit_value(d) == n % 10);
        assert(all_digits(p.push(d))) by {
            assert forall|i: int| 0 <= i < p.push(d).len() implies is_digit(
                #[trigger] p.push(d)[i],
            ) by {
                if i < p.len() {
                    assert(p.push(d)[i] == p[i]);
                }
            }
        }
        assert((n / 10) * 10 + n % 10 == n) by (nonlinear_arith);
    } else {
        let d = digit_char(n);
        assert(seq![d].drop_last() =~= Seq::<char>::empty());
        assert(decimal_value(Seq::<char>::empty()) == 0);
        assert(digit_value(d) == n);
    }
}

/// What follows the page mode in the header line: the range (`end` for an
/// open end), the number of rules and their units, or the current page.
pub open spec fn page_mode_detail(
    page_mode: Seq<char>,
    range_from: Option<u32>,
    range_to: Option<u32>,
    rule_count: usize,
    units: Seq<char>,
    current_page: Option<u32>,
) -> Seq<char> {
    if page_mode == "range"@ {
        " ["@ + decimal(
            match range_from {
                Some(x) => x as nat,
                None => 1,
            },
        ) + "..="@ + match range_to {
            Some(x) => decimal(x as nat),
            None => "end"@,
        } + "]"@
    } else if page_mode == "rule"@ {
        " ("@ + decimal(rule_count as nat) + " rules in "@ + units + ")"@
    } else if page_mode == "current"@ {
        " [page "@ + decimal(
            match current_page {
                Some(x) => x as nat,
                None => 1,
            },
        ) + "]"@
    } else {
        Seq::empty()
    }
}

/// The page-mode line of a log header, such as `  page-mode : range [1..=end]`.
pub fn page_mode_line(
    page_mode: &str,
    range_from: Option<u32>,
    range_to: Option<u32>,
    rule_count: usize,
    units: &str,
    current_page: Option<u32>,
) -> (r: String)
    ensures
        r@ == "  page-mode : "@ + page_mode@ + page_mode_detail(
            page_mode@,
            range_from,
            range_to,
            rule_count,
            units@,
            current_page,
        ),
{
    let mut r = String::from_str("  page-mode : ");
    r.append(page_mode);
    let ghost head = r@;
    if same_text(page_mode, "range") {
        let from = match range_from {
            Some(x) => x,
            None => 1,
        };
        r.append(" [");
        r.append(decimal_string(from as u64).as_str());
        r.append("..=");
        match range_to {
            Some(x) => r.append(decimal_string(x as u64).as_str()),
            None => r.append("end"),
        }
        r.append("]");
    } else if same_text(page_mode, "rule") {
        r.append(" (");
        r.append(decimal_string(rule_count as u64).as_str());
        r.append(" rules in ");
        r.append(units);
        r.append(")");
    } else if same_text(page_mode, "current") {
        let page = match current_page {
            Some(x) => x,
            None => 1,
        };
        r.append(" [page ");
        r.append(decimal_string(page as u64).as_str());
        r.append("]");
    }
    assert(r@ =~= head + page_mode_detail(
        page_mode@,
        range_from,
        range_to,
        rule_count,
        units@,
        current_page,
    ));
    r
}

/// The last line of a log: `Totals: pages=.. strokes=.. fills=.. strokes-substituted=..`.
pub fn totals_line(pages: u32, totals: &PageCounters) -> (r: String)
    ensures
        r@ == "Totals: pages="@ + decimal(pages as nat) + " strokes="@ + decimal(totals@.1 as nat)
            + " fills="@ + decimal(totals@.0 as nat) + " strokes-substituted="@ + decimal(
            totals@.2 as nat,
        ),
{
    let mut r = String::from_str("Totals: pages=");
    r.append(decimal_string(pages as u64).as_str());
    r.append(" strokes=");
    r.append(decimal_string(totals.strokes()).as_str());
    r.append(" fills=");
    r.append(decimal_string(totals.fills()).as_str());
    r.append(" strokes-substituted=");
    r.append(decimal_string(totals.substituted()).as_str());
    r
}

/// The first lines of a log header: the title, the input and the output,
/// one per line.
pub fn log_opening(input: &str, output: &str) -> (r: String)
    ensures
        r@ == "Conversion log\n  input : "@ + input@ + "\n  output: "@ + output@,
{
    let mut r = String::from_str("Conversion log\n  input : ");
    r.append(input);
    r.append("\n  output: ");
    r.append(output);
    r
}

/// The colour line of a log header: random colours per path, or black.
pub fn color_line(random_colors: bool) -> (r: String)
    ensures
        r@ == "  color : "@ + (if random_colors {
            "RANDOM (per path)"@
        } else {
            "BLACK"@
        }) + ", lineCap=Round, lineJoin=Round, alpha=1.000"@,
{
    let mut r = String::from_str("  color : ");
    if random_colors {
        r.append("RANDOM (per path)");
    } else {
        r.append("BLACK");
    }
    r.append(", lineCap=Round, lineJoin=Round, alpha=1.000");
    r
}

/// The filled-shape line of a log header.
pub fn filled_shapes_line(ignore_filled_shapes: bool) -> (r: String)
    ensures
        r@ == "  ignoreFilledShapes : "@ + (if ignore_filled_shapes {
            "true"@
        } else {
            "false"@
        }),
{
    let mut r = String::from_str("  ignoreFilledShapes : ");
    if ignore_filled_shapes {
        r.append("true");
    } else {
        r.append("false");
    }
    r
}

/// What follows the page mode in the log header: in range mode the first
/// page of the range (`range_from`, or 1, whatever `range_to` is) and its
/// last page (`range_to`, or `end`); in rule mode the number of rules and
/// their unit; in current-page mode the page (`current_page`, or 1); in any
/// other mode nothing.
pub proof fn law_page_mode_details(
    range_from: Option<u32>,
    range_to: Option<u32>,
    rule_count: usize,
    units: Seq<char>,
    current_page: Option<u32>,
    other: Seq<char>,
)
    requires
        other != "range"@,
        other != "rule"@,
        other != "current"@,
    ensures
        page_mode_detail("range"@, range_from, range_to, rule_count, units, current_page) == " ["@
            + decimal(
            match range_from {
                Some(a) => a as nat,
                None => 1,
            },
        ) + "..="@ + match range_to {
            Some(b) => decimal(b as nat),
            None => "end"@,
        } + "]"@,
        page_mode_detail("rule"@, range_from, range_to, rule_count, units, current_page) == " ("@
            + decimal(rule_count as nat) + " rules in "@ + units + ")"@,
        page_mode_detail("current"@, range_from, range_to, rule_count, units, current_page)
            == " [page "@ + decimal(
            match current_page {
                Some(c) => c as nat,
                None => 1,
            },
        ) + "]"@,
        page_mode_detail(other, range_from, range_to, rule_count, units, current_page)
            == Seq::<char>::empty(),
{
    reveal_strlit("range");
    reveal_strlit("rule");
    reveal_strlit("current");
    assert("rule"@ != "range"@) by {
        assert("rule"@.len() != "range"@.len());
    }
    assert("current"@ != "range"@) by {
        assert("current"@.len() != "range"@.len());
    }
    assert("current"@ != "rule"@) by {
        assert("current"@.len() != "rule"@.len());
    }
}

} // verus!
