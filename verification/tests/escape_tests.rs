use tex2typ::md::{code_parse, html_to_typst, sha1};
use tex2typ::typ::{escape_content, escape_string};

#[test]
fn escape_string_quotes_and_backslashes() {
    assert_eq!(escape_string("a\"b\\c"), "a\\\"b\\\\c");
    assert_eq!(escape_string("plain"), "plain");
    assert_eq!(escape_string(""), "");
}

#[test]
fn escape_content_markup_syntax() {
    assert_eq!(escape_content("*a*"), "\\*a\\*");
    assert_eq!(escape_content("x_y#z"), "x\\_y\\#z");
    assert_eq!(escape_content("plain text"), "plain text");
}

#[test]
fn html_is_escaped_content() {
    assert_eq!(html_to_typst("<b>hi</b>"), "\\<b\\>hi\\<\\/b\\>");
}

#[test]
fn sha1_known_digests() {
    assert_eq!(sha1(""), "da39a3ee5e6b4b0d3255bfef95601890afd80709");
    assert_eq!(sha1("abc"), "a9993e364706816aba3e25717850c26c9cd0d89d");
    assert_eq!(sha1("abc").len(), 40);
}

#[test]
fn code_cell_header() {
    assert_eq!(
        code_parse("print(\"hi\")", 3, "python"),
        "#code-block(\"print(\\\"hi\\\")\"\n, lang: \"python\", count: 3)\n"
    );
    assert_eq!(
        code_parse("x", -7, "rust"),
        "#code-block(\"x\"\n, lang: \"rust\", count: -7)\n"
    );
    assert_eq!(
        code_parse("", 0, ""),
        "#code-block(\"\"\n, lang: \"\", count: 0)\n"
    );
}
