//! Which pages of a document get their hairlines replaced, and by which
//! width: every page, a range of pages, the current page, or the pages that
//! a list of page rules selects.
use vstd::prelude::*;

use crate::rules::{rule_matches, rule_selects};
use crate::text::same_text;

verus! {

/// How the pages to work on are chosen.
#[derive(Clone, Copy, Debug, PartialEq, Eq, Structural)]
pub enum PageMode {
    /// Every page.
    All,
    /// The pages `from..=to`.
    Range,
    /// One page.
    Current,
    /// The pages that some page rule selects, each with its rule's width.
    Rule,
}

/// The page mode a settings string names; anything unknown means every page.
pub open spec fn page_mode_named(name: Seq<char>) -> PageMode {
    if name == "rule"@ {
        PageMode::Rule
    } else if name == "range"@ {
        PageMode::Range
    } else if name == "current"@ {
        PageMode::Current
    } else {
        PageMode::All
    }
}

/// Reads a page mode (`"rule"`, `"range"`, `"current"`, anything else is
/// `"all"`).
pub fn page_mode_of(name: &str) -> (r: PageMode)
    ensures
        r == page_mode_named(name@),
{
    if same_text(name, "rule") {
        PageMode::Rule
    } else if same_text(name, "range") {
        PageMode::Range
    } else if same_text(name, "current") {
        PageMode::Current
    } else {
        PageMode::All
    }
}

/// What happens to the hairlines of one page.
#[derive(Clone, Copy, Debug, PartialEq, Eq, Structural)]
pub enum PageReplacement {
    /// Strokes pass through unchanged.
    Passthrough,
    /// Hairlines get the default replacement width.
    Default,
    /// Hairlines get the width of the page rule with this index.
    Rule(usize),
}

/// The page options of a conversion.
pub struct PageSelection {
    pub mode: PageMode,
    /// The page of `Current` mode (1 when absent).
    pub current_page: Option<u32>,
    /// The first page of `Range` mode (1 when absent).
    pub range_from: Option<u32>,
    /// The last page of `Range` mode (the last page of the document when absent).
    pub range_to: Option<u32>,
    /// The page rules of `Rule` mode, in order.
    pub rule_pages: Vec<String>,
}

/// The page rules of a selection as character sequences.
pub open spec fn rule_texts(sel: &PageSelection) -> Seq<Seq<char>> {
    sel.rule_pages@.map_values(|s: String| s@)
}

/// The first rule at index `i` or later that selects `page`.
pub open spec fn first_selecting(rules: Seq<Seq<char>>, page: u32, i: int) -> Option<int>
    decreases rules.len() - i,
{
    if i < 0 || i >= rules.len() {
        None
    } else if rule_selects(rules[i], page) {
        Some(i)
    } else {
        first_selecting(rules, page, i + 1)
    }
}

/// What happens to page `page` (counted from 1) of a `total`-page document.
pub open spec fn replacement_for(sel: &PageSelection, page: u32, total: u32) -> PageReplacement {
    match sel.mode {
        PageMode::Rule => match first_selecting(rule_texts(sel), page, 0) {
            Some(i) => PageReplacement::Rule(i as usize),
            None => PageReplacement::Passthrough,
        },
        PageMode::Range => {
            let lo = match sel.range_from {
                Some(x) => x,
                None => 1,
            };
            let hi = match sel.range_to {
                Some(x) => x,
                None => total,
            };
            if lo <= page <= hi {
                PageReplacement::Default
            } else {
                PageReplacement::Passthrough
            }
        },
        PageMode::Current => {
            if page == (match sel.current_page {
                Some(x) => x,
                None => 1,
            }) {
                PageReplacement::Default
            } else {
                PageReplacement::Passthrough
            }
        },
        PageMode::All => PageReplacement::Default,
    }
}

/// What happens to page `page` (counted from 1) of a `total`-page document:
/// in `Rule` mode the first rule that selects the page gives its width.
pub fn page_replacement(sel: &PageSelection, page: u32, total: u32) -> (r: PageReplacement)
    ensures
        r == replacement_for(sel, page, total),
{
    match sel.mode {
        PageMode::Rule => {
            let n = sel.rule_pages.len();
            let ghost rules = rule_texts(sel);
            let mut i: usize = 0;
            while i < n
                invariant
                    n == sel.rule_pages.len(),
                    rules == rule_texts(sel),
                    sel.mode == PageMode::Rule,
                    0 <= i <= n,
                    first_selecting(rules, page, 0) == first_selecting(rules, page, i as int),
                decreases n - i,
            {
                if rule_matches(sel.rule_pages[i].as_str(), page) {
                    return PageReplacement::Rule(i);
                }
                i = i + 1;
            }
            PageReplacement::Passthrough
        },
        PageMode::Range => {
            let lo = match sel.range_from {
                Some(x) => x,
                None => 1,
            };
            let hi = match sel.range_to {
                Some(x) => x,
                None => total,
            };
            if lo <= page && page <= hi {
                PageReplacement::Default
            } else {
                PageReplacement::Passthrough
            }
        },
        PageMode::Current => {
            let cur = match sel.current_page {
                Some(x) => x,
                None => 1,
            };
            if page == cur {
                PageReplacement::Default
            } else {
                PageReplacement::Passthrough
            }
        },
        PageMode::All => PageReplacement::Default,
    }
}

/// What happens to each page of a `total`-page document, page 1 first.
pub fn page_plan(sel: &PageSelection, total: u32) -> (r: Vec<PageReplacement>)
    ensures
        r.len() == total,
        forall|i: int| 0 <= i < total ==> r@[i] == replacement_for(sel, (i + 1) as u32, total),
{
    let mut r: Vec<PageReplacement> = Vec::new();
    let mut i: u32 = 0;
    while i < total
        invariant
            0 <= i <= total,
            r.len() == i,
            forall|k: int| 0 <= k < i ==> r@[k] == replacement_for(sel, (k + 1) as u32, total),
        decreases total - i,
    {
        r.push(page_replacement(sel, i + 1, total));
        i = i + 1;
    }
    r
}

proof fn lemma_first_selecting(rules: Seq<Seq<char>>, page: u32, i: int)
    requires
        0 <= i,
    ensures
        match first_selecting(rules, page, i) {
            Some(k) => {
                &&& i <= k < rules.len()
                &&& rule_selects(rules[k], page)
                &&& forall|j: int| i <= j < k ==> !rule_selects(#[trigger] rules[j], page)
            },
            None => forall|j: int| i <= j < rules.len() ==> !rule_selects(#[trigger] rules[j], page),
        },
    decreases rules.len() - i,
{
    if i < rules.len() && !rule_selects(rules[i], page) {
        lemma_first_selecting(rules, page, i + 1);
    }
}

/// In range mode a page is rewritten with the default width exactly when
/// it is at least `range_from` (page 1 when absent) and at most `range_to`
/// (the last page when absent); every other page passes through.
pub proof fn law_range_mode(sel: &PageSelection, page: u32, total: u32)
    requires
        sel.mode == PageMode::Range,
    ensures
        replacement_for(sel, page, total) == PageReplacement::Default || replacement_for(
            sel,
            page,
            total,
        ) == PageReplacement::Passthrough,
        replacement_for(sel, page, total) == PageReplacement::Default ==> (sel.range_from matches Some(
            a,
        ) ==> a <= page),
        replacement_for(sel, page, total) == PageReplacement::Default ==> (sel.range_to matches Some(
            b,
        ) ==> page <= b),
        replacement_for(sel, page, total) == PageReplacement::Default ==> (sel.range_to is None
            ==> page <= total),
        (match sel.range_from {
            Some(a) => a <= page,
            None => 1 <= page,
        }) && (match sel.range_to {
            Some(b) => page <= b,
            None => page <= total,
        }) ==> replacement_for(sel, page, total) == PageReplacement::Default,
{
}

/// In current-page mode only the current page (page 1 when none is given)
/// is rewritten; in all-pages mode every page is.
pub proof fn law_current_and_all_modes(sel: &PageSelection, page: u32, total: u32)
    ensures
        sel.mode == PageMode::Current ==> ((replacement_for(sel, page, total)
            == PageReplacement::Default) == (page == match sel.current_page {
            Some(c) => c,
            None => 1,
        }) && replacement_for(sel, page, total) != PageReplacement::Default ==> replacement_for(
            sel,
            page,
            total,
        ) == PageReplacement::Passthrough),
        sel.mode == PageMode::All ==> replacement_for(sel, page, total) == PageReplacement::Default,
{
}

/// In rule mode a page takes the width of the first rule that selects it,
/// and passes through when no rule does; it never takes the default width.
pub proof fn law_rule_mode(sel: &PageSelection, page: u32, total: u32)
    requires
        sel.mode == PageMode::Rule,
    ensures
        replacement_for(sel, page, total) != PageReplacement::Default,
        replacement_for(sel, page, total) matches PageReplacement::Rule(k) ==> {
            &&& k < sel.rule_pages.len()
            &&& rule_selects(sel.rule_pages@[k as int]@, page)
            &&& forall|j: int| 0 <= j < k ==> !rule_selects(#[trigger] sel.rule_pages@[j]@, page)
        },
        replacement_for(sel, page, total) == PageReplacement::Passthrough ==> forall|j: int|
            0 <= j < sel.rule_pages.len() ==> !rule_selects(#[trigger] sel.rule_pages@[j]@, page),
{
    let rules = rule_texts(sel);
    lemma_first_selecting(rules, page, 0);
    assert(rules.len() == sel.rule_pages.len());
    match first_selecting(rules, page, 0) {
        Some(i) => {
            assert((i as usize) as int == i);
            assert(rules[i] == sel.rule_pages@[i]@);
            assert forall|j: int| 0 <= j < i implies !rule_selects(
                #[trigger] sel.rule_pages@[j]@,
                page,
            ) by {
                assert(rules[j] == sel.rule_pages@[j]@);
            }
        },
        None => {
            assert forall|j: int| 0 <= j < sel.rule_pages.len() implies !rule_selects(
                #[trigger] sel.rule_pages@[j]@,
                page,
            ) by {
                assert(rules[j] == sel.rule_pages@[j]@);
            }
        },
    }
}

} // verus!
