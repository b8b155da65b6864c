use llama_launch::launch::parse_args;

fn strs(v: &[&str]) -> Vec<String> {
    v.iter().map(|s| s.to_string()).collect()
}

#[test]
fn plain_arguments_split_on_whitespace() {
    assert_eq!(
        parse_args("--model models/m.gguf --ctx-size 4096"),
        strs(&["--model", "models/m.gguf", "--ctx-size", "4096"])
    );
}

#[test]
fn tabs_newlines_and_repeated_spaces_separate() {
    assert_eq!(parse_args("  -c\t2048\r\n\n--ngl   99  "), strs(&["-c", "2048", "--ngl", "99"]));
}

#[test]
fn empty_and_blank_lines_give_no_arguments() {
    assert_eq!(parse_args(""), Vec::<String>::new());
    assert_eq!(parse_args(" \t \n "), Vec::<String>::new());
}

#[test]
fn quoted_argument_keeps_its_spaces() {
    assert_eq!(
        parse_args("--model \"my models/big model.gguf\" -c 2048"),
        strs(&["--model", "my models/big model.gguf", "-c", "2048"])
    );
}

#[test]
fn quote_inside_a_word_joins_with_it() {
    assert_eq!(parse_args("a\"b c\" d"), strs(&["ab c", "d"]));
}

#[test]
fn empty_quotes_give_an_empty_argument() {
    assert_eq!(parse_args("x \"\" y"), strs(&["x", "", "y"]));
}

#[test]
fn separators_inside_quotes_are_all_kept() {
    assert_eq!(parse_args("\"  a b \""), strs(&["  a b "]));
    assert_eq!(parse_args("--prompt \" a\""), strs(&["--prompt", " a"]));
}

#[test]
fn unclosed_quote_still_yields_its_argument() {
    assert_eq!(parse_args("--prompt \"hello world"), strs(&["--prompt", "hello world"]));
}

#[test]
fn closing_quote_does_not_end_the_word() {
    assert_eq!(parse_args("\"a\"b"), strs(&["ab"]));
    assert_eq!(parse_args("\"a b\"c d"), strs(&["a bc", "d"]));
    assert_eq!(parse_args("--n=\"x y\"z"), strs(&["--n=x yz"]));
}

#[test]
fn a_line_cut_at_an_unquoted_separator_parses_as_its_parts() {
    let a = "--model \"my m.gguf\" -c";
    let b = "2048 \"x\"y";
    let whole = parse_args(&format!("{}\t{}", a, b));
    let mut parts = parse_args(a);
    parts.extend(parse_args(b));
    assert_eq!(whole, parts);
    assert_eq!(whole, strs(&["--model", "my m.gguf", "-c", "2048", "xy"]));
}

#[test]
fn joined_plain_words_read_back() {
    let words = strs(&["--model", "x.gguf", "-ngl", "99", "--temp", "0.7"]);
    assert_eq!(parse_args(&words.join(" ")), words);
}

#[test]
fn quoted_text_reads_back_as_one_argument() {
    for w in ["C:/Program Files/models/a b.gguf", "  leading and trailing  ", ""] {
        assert_eq!(parse_args(&format!("\"{}\"", w)), strs(&[w]));
    }
    let w = "plain";
    assert_eq!(parse_args(&format!("\"{}\"", w)), strs(&[w]));
}

#[test]
fn parsed_arguments_hold_no_quotes() {
    for line in ["\"a\" \"b\"c\"", "x\"\"\"y", "\"\"\"\""] {
        for a in parse_args(line) {
            assert!(!a.contains('"'));
        }
    }
}

#[test]
fn a_lone_unclosed_quote_gives_no_argument() {
    assert_eq!(parse_args("\""), Vec::<String>::new());
    assert_eq!(parse_args("-x \""), strs(&["-x"]));
    assert_eq!(parse_args("\"   "), strs(&["   "]));
}
