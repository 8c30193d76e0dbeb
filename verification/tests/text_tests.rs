use hbs_helpers::text::{
    abbrev, chars_of, find, join, plural, same_text, sort_alpha, split, splitn, text_le, trim,
    trim_all, trim_prefix, trim_suffix, trunc,
};

fn strings(items: &[&str]) -> Vec<String> {
    items.iter().map(|s| s.to_string()).collect()
}

#[test]
fn trunc_cuts_to_the_limit() {
    assert_eq!(trunc(3, "hello"), "hel");
    assert_eq!(trunc(0, "hello"), "");
    assert_eq!(trunc(5, "hello"), "hello");
    assert_eq!(trunc(9, "hello"), "hello");
    assert_eq!(trunc(usize::MAX, ""), "");
}

#[test]
fn trunc_counts_characters() {
    assert_eq!(trunc(2, "áéíóú"), "áé");
    assert_eq!(trunc(1, "日本語"), "日");
}

#[test]
fn abbrev_with_a_small_limit_only_truncates() {
    assert_eq!(abbrev(3, "hello"), "hel");
    assert_eq!(abbrev(2, "hello"), "he");
    assert_eq!(abbrev(0, "hello"), "");
    assert_eq!(abbrev(3, "hi"), "hi");
}

#[test]
fn abbrev_leaves_a_short_string_alone() {
    assert_eq!(abbrev(8, "hello"), "hello");
    assert_eq!(abbrev(5, "hello"), "hello");
    assert_eq!(abbrev(4, ""), "");
}

#[test]
fn abbrev_marks_what_it_cut() {
    assert_eq!(abbrev(5, "helloworld"), "he...");
    assert_eq!(abbrev(4, "hello"), "h...");
    assert_eq!(abbrev(9, "helloworld"), "hellow...");
    let r = abbrev(5, "helloworld");
    assert_eq!(r.chars().count(), 5);
    assert!(r.ends_with("..."));
}

#[test]
fn trim_removes_white_space_at_both_ends() {
    assert_eq!(trim("  hello  "), "hello");
    assert_eq!(trim("\t\n a b \r\n"), "a b");
    assert_eq!(trim("hello"), "hello");
    assert_eq!(trim("   "), "");
    assert_eq!(trim(""), "");
    assert_eq!(trim("\u{a0}x\u{3000}"), "x");
}

#[test]
fn trim_agrees_with_the_standard_library() {
    for s in ["", " ", "a", " a", "a ", "  a  b  ", "\u{2003}é \u{85}", "\u{200b}x\u{200b}", "\n\n"] {
        assert_eq!(trim(s), s.trim());
    }
}

#[test]
fn plural_picks_by_count() {
    assert_eq!(plural(1, "apple", "apples"), "apple");
    assert_eq!(plural(0, "apple", "apples"), "apples");
    assert_eq!(plural(2, "apple", "apples"), "apples");
}

#[test]
fn join_puts_the_delimiter_between() {
    assert_eq!(join(", ", &strings(&["a", "b", "c"])), "a, b, c");
    assert_eq!(join(", ", &strings(&["a"])), "a");
    assert_eq!(join(", ", &strings(&[])), "");
    assert_eq!(join("", &strings(&["a", "b"])), "ab");
    assert_eq!(join("-", &strings(&["", ""])), "-");
}

#[test]
fn split_cuts_at_each_delimiter() {
    assert_eq!(split(",", "a,b,c"), strings(&["a", "b", "c"]));
    assert_eq!(split(",", "abc"), strings(&["abc"]));
    assert_eq!(split(",", ""), strings(&[""]));
    assert_eq!(split(",", ",a,"), strings(&["", "a", ""]));
    assert_eq!(split("ab", "xabyabz"), strings(&["x", "y", "z"]));
    assert_eq!(split("aa", "aaa"), strings(&["", "a"]));
}

#[test]
fn split_on_the_empty_delimiter_gives_each_character() {
    assert_eq!(split("", "abc"), strings(&["", "a", "b", "c", ""]));
    assert_eq!(split("", ""), strings(&["", ""]));
}

#[test]
fn split_agrees_with_the_standard_library() {
    let inputs = ["", "a", "a,b", ",,", "a,,b,", "aaaa", "abcabc", "日,本,語", "x--y---z"];
    let delimiters = ["", ",", "a", "aa", "bc", "--", "語", "zzzzzzzzzz"];
    for input in inputs {
        for delimiter in delimiters {
            let expected: Vec<String> = input.split(delimiter).map(|s| s.to_string()).collect();
            assert_eq!(split(delimiter, input), expected, "{:?} by {:?}", input, delimiter);
        }
    }
}

#[test]
fn splitn_stops_at_the_count() {
    assert_eq!(splitn(",", 2, "a,b,c"), strings(&["a", "b,c"]));
    assert_eq!(splitn(",", 3, "a,b,c"), strings(&["a", "b", "c"]));
    assert_eq!(splitn(",", 9, "a,b,c"), strings(&["a", "b", "c"]));
    assert_eq!(splitn(",", 1, "a,b,c"), strings(&["a,b,c"]));
    assert_eq!(splitn(",", 0, "a,b,c"), strings(&[]));
    assert_eq!(splitn("", 3, "abc"), strings(&["", "a", "bc"]));
}

#[test]
fn splitn_agrees_with_the_standard_library() {
    let inputs = ["", "a", "a,b", ",,", "a,,b,", "aaaa", "abcabc", "日,本,語"];
    let delimiters = ["", ",", "a", "aa", "bc", "語"];
    for input in inputs {
        for delimiter in delimiters {
            for count in 0..8usize {
                let expected: Vec<String> =
                    input.splitn(count, delimiter).map(|s| s.to_string()).collect();
                assert_eq!(
                    splitn(delimiter, count, input),
                    expected,
                    "{:?} by {:?} into {}",
                    input,
                    delimiter,
                    count
                );
            }
        }
    }
}

#[test]
fn sort_alpha_orders_lexically() {
    assert_eq!(sort_alpha(&strings(&["pear", "apple", "fig"])), strings(&["apple", "fig", "pear"]));
    assert_eq!(sort_alpha(&strings(&["b", "a", "b", ""])), strings(&["", "a", "b", "b"]));
    assert_eq!(sort_alpha(&strings(&["ab", "a", "B", "abc"])), strings(&["B", "a", "ab", "abc"]));
    assert_eq!(sort_alpha(&strings(&[])), strings(&[]));
}

#[test]
fn sort_alpha_agrees_with_the_standard_library() {
    let input = strings(&["é", "e", "z", "Z", "", "10", "9", "日本", "日", "~", "ez", "e"]);
    let mut expected = input.clone();
    expected.sort();
    assert_eq!(sort_alpha(&input), expected);
}

#[test]
fn text_le_is_the_lexical_order() {
    let le = |a: &str, b: &str| text_le(&chars_of(a), &chars_of(b));
    assert!(le("", ""));
    assert!(le("", "a"));
    assert!(!le("a", ""));
    assert!(le("a", "a"));
    assert!(le("a", "ab"));
    assert!(!le("ab", "a"));
    assert!(le("ab", "b"));
    assert!(!le("b", "ab"));
    assert!(le("Z", "a"));
}

#[test]
fn trim_suffix_removes_one_exact_suffix() {
    assert_eq!(trim_suffix(".rs", "main.rs"), "main");
    assert_eq!(trim_suffix(".rs", "main.rs.rs"), "main.rs");
    assert_eq!(trim_suffix(".rs", "main.py"), "main.py");
    assert_eq!(trim_suffix("", "main"), "main");
    assert_eq!(trim_suffix("main", "main"), "");
    assert_eq!(trim_suffix("longer than input", "in"), "in");
    assert_eq!(trim_suffix(".*", "a.*"), "a");
    assert_eq!(trim_suffix(".*", "abc"), "abc");
}

#[test]
fn trim_prefix_removes_one_exact_prefix() {
    assert_eq!(trim_prefix("un", "undo"), "do");
    assert_eq!(trim_prefix("un", "ununfold"), "unfold");
    assert_eq!(trim_prefix("un", "redo"), "redo");
    assert_eq!(trim_prefix("un", "sun"), "sun");
    assert_eq!(trim_prefix("", "x"), "x");
    assert_eq!(trim_prefix("^a", "^ab"), "b");
}

#[test]
fn trim_all_removes_from_both_ends() {
    assert_eq!(trim_all("--", "--a--"), "a");
    assert_eq!(trim_all("--", "a--"), "a");
    assert_eq!(trim_all("--", "--a"), "a");
    assert_eq!(trim_all("--", "a"), "a");
    assert_eq!(trim_all("--", "--"), "");
    assert_eq!(trim_all("--", "---"), "-");
    assert_eq!(trim_all("--", "----a----"), "--a--");
}

#[test]
fn find_gives_the_first_position() {
    assert_eq!(find("hello", "l", 0), Some(2));
    assert_eq!(find("hello", "l", 3), Some(3));
    assert_eq!(find("hello", "l", 4), None);
    assert_eq!(find("hello", "lo", 0), Some(3));
    assert_eq!(find("hello", "x", 0), None);
    assert_eq!(find("hello", "", 5), Some(5));
    assert_eq!(find("hello", "", 6), None);
    assert_eq!(find("héllo", "l", 0), Some(2));
    assert_eq!(find("", "a", 0), None);
}

#[test]
fn same_text_compares_characters() {
    assert!(same_text("abc", "abc"));
    assert!(same_text("", ""));
    assert!(!same_text("abc", "abd"));
    assert!(!same_text("abc", "ab"));
}

#[test]
fn chars_of_lists_the_characters() {
    assert_eq!(chars_of("héy"), vec!['h', 'é', 'y']);
    assert_eq!(chars_of(""), Vec::<char>::new());
}

#[test]
fn join_undoes_split() {
    let inputs = ["", "a", "a,b", ",,", "a,,b,", "aaaa", "abcabc", "日,本,語"];
    let delimiters = ["", ",", "a", "aa", "bc", "語"];
    for input in inputs {
        for delimiter in delimiters {
            assert_eq!(join(delimiter, &split(delimiter, input)), input);
        }
    }
}

#[test]
fn sorting_twice_changes_nothing() {
    let once = sort_alpha(&strings(&["b", "c", "a", "b"]));
    assert_eq!(sort_alpha(&once), once);
    let mut reversed = once.clone();
    reversed.reverse();
    assert_eq!(sort_alpha(&reversed), once);
}
