use pdfix::rules::{rule_matches, rule_token_matches};

#[test]
fn rule_matches_basic() {
    assert!(rule_matches("3", 3));
    assert!(!rule_matches("3", 2));
    assert!(rule_matches("=3", 3));
    assert!(!rule_matches("=3", 4));
}

#[test]
fn rule_matches_inequalities() {
    assert!(rule_matches(">3", 4));
    assert!(!rule_matches(">3", 3));
    assert!(rule_matches(">=3", 3));
    assert!(rule_matches(">=3", 4));
    assert!(rule_matches("<3", 2));
    assert!(!rule_matches("<3", 3));
    assert!(rule_matches("<=3", 3));
    assert!(rule_matches("<=3", 2));
}

#[test]
fn rule_matches_whitespace_and_garbage() {
    assert!(rule_matches("  >= 5  ", 7));
    assert!(!rule_matches("", 1));
    assert!(!rule_matches("not-a-number", 1));
    assert!(!rule_matches(">=abc", 1));
}

#[test]
fn rule_matches_comma_list() {
    assert!(rule_matches("1, 2, 3", 1));
    assert!(rule_matches("1, 2, 3", 2));
    assert!(rule_matches("1, 2, 3", 3));
    assert!(!rule_matches("1, 2, 3", 4));
    assert!(rule_matches("1, >=10", 1));
    assert!(rule_matches("1, >=10", 10));
    assert!(rule_matches("1, >=10", 99));
    assert!(!rule_matches("1, >=10", 5));
    assert!(rule_matches(" 1 ,  2 ", 2));
    assert!(rule_matches("1,,2", 2));
    assert!(!rule_matches(",,", 1));
}

#[test]
fn rule_token_numbers_as_std_reads_them() {
    assert!(rule_token_matches("+5", 5));
    assert!(!rule_token_matches("+", 0));
    assert!(!rule_token_matches("-5", 5));
    assert!(rule_token_matches("0005", 5));
    assert!(rule_token_matches("4294967295", u32::MAX));
    assert!(!rule_token_matches("4294967296", 0));
    assert!(!rule_token_matches("<4294967296", 1));
    assert!(!rule_token_matches("> =3", 4));
    assert!(rule_token_matches("\u{3000}>=\u{a0}3\t", 3));
    assert!(!rule_token_matches("\u{663}", 3));
}

#[test]
fn rule_or_law_on_values() {
    // "a,b" selects a page exactly when "a" or "b" does.
    for a in ["1", ">=10", "", "x", "<3"] {
        for b in ["2", "<=0", " ", "7", ">99"] {
            for page in 0..15u32 {
                let joined = format!("{a},{b}");
                assert_eq!(rule_matches(&joined, page), rule_matches(a, page) || rule_matches(b, page));
            }
        }
    }
}

// A token matched with std's trim, strip_prefix and parse, for comparison.
fn std_token_matches(token: &str, page: u32) -> bool {
    let s = token.trim();
    if s.is_empty() {
        return false;
    }
    let (rel, rest): (u8, &str) = if let Some(r) = s.strip_prefix(">=") {
        (0, r)
    } else if let Some(r) = s.strip_prefix("<=") {
        (1, r)
    } else if let Some(r) = s.strip_prefix('>') {
        (2, r)
    } else if let Some(r) = s.strip_prefix('<') {
        (3, r)
    } else if let Some(r) = s.strip_prefix('=') {
        (4, r)
    } else {
        (4, s)
    };
    match rest.trim().parse::<u32>() {
        Ok(n) => match rel {
            0 => page >= n,
            1 => page <= n,
            2 => page > n,
            3 => page < n,
            _ => page == n,
        },
        Err(_) => false,
    }
}

#[test]
fn rule_tokens_agree_with_std() {
    let tokens = [
        "", " ", "3", " 3 ", "=3", "==3", ">3", ">=3", "<3", "<=3", "=>3", "> 3", ">= 3", "3 ", "+3",
        "++3", "+", "-3", "3a", "a3", "3.0", "03", "4294967295", "4294967296", "99999999999",
        ">=4294967295", "\u{2003}7\u{2028}", "\u{85}<\u{85}8", "\u{200b}3", "٣", "３", ">", "<=",
        "=", "= ", " >=  10 ",
    ];
    let pages = [0u32, 1, 2, 3, 4, 7, 8, 9, 10, 11, 4294967295];
    for t in tokens {
        for p in pages {
            assert_eq!(rule_token_matches(t, p), std_token_matches(t, p), "token {t:?} page {p}");
            let rule = format!("{t},{t}");
            assert_eq!(rule_matches(&rule, p), std_token_matches(t, p), "rule {rule:?} page {p}");
        }
    }
}

#[test]
fn white_space_around_and_inside_a_token_is_ignored() {
    for page in [1u32, 3, 4, 9] {
        for (op, n) in [("", 3u32), ("=", 3), (">", 3), ("<", 4), (">=", 4), ("<=", 3)] {
            let plain = format!("{op}{n}");
            let spaced = format!(" \t{op}  {n}\u{3000} ");
            assert_eq!(rule_token_matches(&spaced, page), rule_token_matches(&plain, page), "{spaced:?} on page {page}");
        }
    }
}
