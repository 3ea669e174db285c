use jj_bench::text::{format_decimal, is_whitespace, parse_revset_file};

/// What the standard library makes of a file of revsets.
fn by_the_standard_library(text: &str) -> Vec<String> {
    text.lines()
        .map(|line| line.trim().to_owned())
        .filter(|line| !line.is_empty() && !line.starts_with('#'))
        .collect()
}

#[test]
fn blank_lines_and_comments_are_passed_over() {
    assert_eq!(
        parse_revset_file(" a \n\n# b\n\tc\r\n   # d\n   \n"),
        vec!["a", "c"]
    );
}

#[test]
fn empty_file_lists_nothing() {
    assert!(parse_revset_file("").is_empty());
    assert!(parse_revset_file("\n").is_empty());
    assert!(parse_revset_file("#").is_empty());
    assert!(parse_revset_file(" \r\n\t\r\n").is_empty());
}

#[test]
fn last_line_needs_no_end() {
    assert_eq!(parse_revset_file("a\nb"), vec!["a", "b"]);
    assert_eq!(parse_revset_file("a\nb\n"), vec!["a", "b"]);
    assert_eq!(parse_revset_file("a\nb\r"), vec!["a", "b"]);
}

#[test]
fn white_space_and_number_signs_within_a_revset_stay() {
    assert_eq!(
        parse_revset_file("\u{3000}heads( all() ) # all\u{a0}\n"),
        vec!["heads( all() ) # all"]
    );
    assert_eq!(parse_revset_file("a\rb\r\nc"), vec!["a\rb", "c"]);
}

#[test]
fn order_and_duplicates_are_kept() {
    assert_eq!(parse_revset_file("b\na\nb\n"), vec!["b", "a", "b"]);
}

#[test]
fn files_are_read_as_by_the_standard_library() {
    let pieces = ["", "a", " ", "#", "\r", "\n", "\r\n", "\u{2028}", "\u{85}", "é"];
    for first in pieces {
        for second in pieces {
            for third in pieces {
                for fourth in pieces {
                    let text = format!("{first}{second}{third}{fourth}");
                    assert_eq!(parse_revset_file(&text), by_the_standard_library(&text));
                }
            }
        }
    }
}

#[test]
fn white_space_is_that_of_unicode() {
    for c in '\u{0}'..=char::MAX {
        assert_eq!(is_whitespace(c), c.is_whitespace(), "{c:?}");
    }
}

#[test]
fn revsets_stand_on_one_line_and_are_trimmed() {
    for revset in parse_revset_file("  x | y \n#\n\u{2003}z\u{2003}\r\n") {
        assert!(!revset.is_empty());
        assert!(!revset.starts_with('#'));
        assert!(!revset.contains('\n'));
        assert_eq!(revset.trim(), revset);
    }
}

#[test]
fn parts_of_a_file_are_read_alone() {
    let a = "x\n# y\r";
    let b = "  z\n";
    let mut parts = parse_revset_file(a);
    parts.extend(parse_revset_file(b));
    assert_eq!(parse_revset_file(&format!("{a}\n{b}")), parts);
    assert_eq!(parts, vec!["x", "z"]);
}

#[test]
fn comment_between_lines_changes_nothing() {
    assert_eq!(
        parse_revset_file("x\n  # y\nz"),
        parse_revset_file("x\nz")
    );
}

#[test]
fn listed_revsets_are_read_back() {
    let revsets = vec!["all()", "@ | main", "x#y"];
    let mut listing = String::new();
    for revset in &revsets {
        listing.push_str(revset);
        listing.push('\n');
    }
    assert_eq!(parse_revset_file(&listing), revsets);
}

#[test]
fn numbers_are_decimal() {
    assert_eq!(format_decimal(0), "0");
    assert_eq!(format_decimal(9), "9");
    assert_eq!(format_decimal(10), "10");
    assert_eq!(format_decimal(1203), "1203");
    assert_eq!(format_decimal(usize::MAX), format!("{}", usize::MAX));
}
