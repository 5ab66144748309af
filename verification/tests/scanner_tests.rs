use tex2typ::scanner::Scanner;

#[test]
fn next_word_test() {
    let mut scanner = Scanner::new("\n\\frac\t\\land\\abc");
    let mut count = 0;
    let expected = ["frac", "land", "abc"];
    while let Some(c) = scanner.next() {
        if c == '\\' {
            let word = scanner.next_word();
            assert_eq!(word, expected[count]);
            count += 1;
        }
    }
    assert_eq!(count, 3);
}

#[test]
fn next_param_test() {
    let mut scanner = Scanner::new("\n\t\\land\\%=3aa\\\\");
    let mut count = 0;
    let expected = ["\\land", "\\%", "=", "3", "a", "a", "\\\\"];
    while let Ok(c) = scanner.next_param() {
        assert_eq!(c, expected[count]);
        count += 1;
    }
    assert_eq!(count, 7);
}

#[test]
fn next_param_brace_group_keeps_nested_braces() {
    let mut scanner = Scanner::new("{a{b}c} rest");
    assert_eq!(scanner.next_param().unwrap(), "a{b}c");
    assert_eq!(scanner.peek(), Some(' '));
}

#[test]
fn next_param_chains_subscripts() {
    let mut scanner = Scanner::new("\\sum _ 0 ^n!");
    assert_eq!(scanner.next_param().unwrap(), "\\sum_0^n");
    assert_eq!(scanner.peek(), Some('!'));
}

#[test]
fn next_param_end_of_input() {
    let mut scanner = Scanner::new("   ");
    let e = scanner.next_param().unwrap_err();
    assert_eq!(e.describe(), "Unexpected end of input in ");
}

#[test]
fn next_param_lone_backslash() {
    let mut scanner = Scanner::new("\\");
    let e = scanner.next_param().unwrap_err();
    assert_eq!(e.describe(), "Expected a character after '\\' in ");
}

#[test]
fn next_param_optional_present_and_absent() {
    let mut scanner = Scanner::new(" [3]{2}");
    assert_eq!(scanner.next_param_optional(), "3");
    assert_eq!(scanner.next_param().unwrap(), "2");
    let mut scanner2 = Scanner::new("{2}");
    assert_eq!(scanner2.next_param_optional(), "");
    assert_eq!(scanner2.next_param().unwrap(), "2");
}

#[test]
fn until_chars_consumes_terminator() {
    let mut scanner = Scanner::new("abc\ndef");
    assert_eq!(scanner.until_chars("\n"), "abc");
    assert_eq!(scanner.peek(), Some('d'));
}

#[test]
fn until_chars_not_collects_run() {
    let mut scanner = Scanner::new("5381x");
    assert_eq!(scanner.until_chars_not("0123456789"), "5381");
    // the first character outside the set is consumed as well
    assert_eq!(scanner.peek(), None);
    let mut scanner2 = Scanner::new("42x7");
    assert_eq!(scanner2.until_chars_not("0123456789"), "42");
    assert_eq!(scanner2.peek(), Some('7'));
}

#[test]
fn until_string_consumes_pattern() {
    let mut scanner = Scanner::new("xy\\endz");
    assert_eq!(scanner.until_string("\\end"), "xy");
    assert_eq!(scanner.peek(), Some('z'));
}

#[test]
fn until_string_without_match_takes_all() {
    let mut scanner = Scanner::new("abc");
    assert_eq!(scanner.until_string("\\end"), "abc");
    assert_eq!(scanner.peek(), None);
}

#[test]
fn operatorname_star_is_one_word() {
    let mut scanner = Scanner::new("operatorname*x");
    assert_eq!(scanner.next_word(), "operatorname*");
    assert_eq!(scanner.peek(), Some('x'));
}
