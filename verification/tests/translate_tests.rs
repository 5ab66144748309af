use tex2typ::translate::{color_to_typst, latex_to_typst, matrix_to_typst, text_to_typst};

#[test]
fn color_test() {
    assert_eq!(color_to_typst("#00ff00"), "rgb(\"#00ff00\")");
    assert_eq!(color_to_typst("red"), "red");
}

#[test]
fn matrix_test1() {
    assert_eq!(matrix_to_typst("a& b\\\\\nc& d".to_string()).unwrap(), "a, b;\nc, d")
}

#[test]
fn matrix_test2() {
    assert_eq!(matrix_to_typst("a& b\\cr\nc& d".to_string()).unwrap(), "a, b;\nc, d")
}

#[test]
fn test_parse_typ() {
    assert_eq!(
        latex_to_typst("\\bcancel{N = N_oe^{ln2(t/t_2)}}").unwrap(),
        "cancel(inverted: #true, N = N_o e^(l n 2(t\\/t_2)))"
    );
    assert_eq!(latex_to_typst("hello").unwrap(), "h e l l o");
    assert_eq!(latex_to_typst("\\binom {asdf}  {aas}").unwrap(), "binom(a s d f, a a s)");
    assert_eq!(
        latex_to_typst("\\overbrace{x+⋯+x}^{n\\text{ times$\\int$}}").unwrap(),
        "overbrace(x+⋯+x, n#[ times$integral$])"
    );
    assert_eq!(latex_to_typst("\\dot\\sum _ 0 ^n").unwrap(), "dot(sum_0^n)");
    assert_eq!(
        latex_to_typst("\\frac54 = 1\\tfrac   {1}   {4}\\\\").unwrap(),
        "frac(5, 4) = 1inline(frac(1, 4))\\"
    );
    assert_eq!(
        latex_to_typst("h\\raisebox{2pt}{$\\psi ighe$}r").unwrap(),
        "h#text(baseline: -2pt)[$psi i g h e$]r"
    );
    assert_eq!(
        latex_to_typst("\\left(\\frac{3}{2}\\middle| B\\right)").unwrap(),
        "lr((frac(3, 2)mid(|) B))"
    )
}

#[test]
fn matrix() {
    assert_eq!(
        latex_to_typst("\\begin{array}{cc}\na& b\\\\\nc& d\n\\end{array}").unwrap(),
        "mat(delim: #none, \na, b;\nc, d\n)"
    );
    assert_eq!(
        latex_to_typst("\\begin{matrix}\na& b\\\\\nc& d\n\\end{matrix}").unwrap(),
        "mat(delim: #none, \na, b;\nc, d\n)"
    );
}

// --- the end-to-end scenarios ---

#[test]
fn scenario_frac() {
    assert_eq!(latex_to_typst("\\frac{1}{2}").unwrap(), "frac(1, 2)");
}

#[test]
fn scenario_sqrt() {
    assert_eq!(latex_to_typst("\\sqrt{2}").unwrap(), "sqrt(2)");
    assert_eq!(latex_to_typst("\\sqrt[3]{2}").unwrap(), "root(3, 2)");
}

#[test]
fn scenario_pmatrix() {
    assert_eq!(
        latex_to_typst("\\begin{pmatrix}a&b\\\\c&d\\end{pmatrix}").unwrap(),
        "mat(delim: \"(\", a,b;c,d)"
    );
}

#[test]
fn scenario_unknown_command_passes_through() {
    assert_eq!(latex_to_typst("\\unknowncommand{x}").unwrap(), "unknowncommand x");
}

// --- the spacing rule ---

#[test]
fn spacing_between_letters() {
    assert_eq!(latex_to_typst("ab").unwrap(), "a b");
}

#[test]
fn spacing_not_after_symbol() {
    assert_eq!(latex_to_typst("+b").unwrap(), "+b");
    assert_eq!(latex_to_typst("a+").unwrap(), "a+");
}

#[test]
fn spacing_letter_then_digit() {
    assert_eq!(latex_to_typst("\\alpha 3").unwrap(), "alpha 3");
}

// --- determinism ---

#[test]
fn same_input_same_output() {
    let a = latex_to_typst("\\frac{x}{y} + \\sqrt{z}").unwrap();
    let b = latex_to_typst("\\frac{x}{y} + \\sqrt{z}").unwrap();
    assert_eq!(a, b);
}

// --- the escaped-ampersand repair ---

#[test]
fn matrix_escaped_ampersand() {
    assert_eq!(matrix_to_typst("a\\&b".to_string()).unwrap(), "a\\&b");
    assert_eq!(matrix_to_typst("a\\&b&c".to_string()).unwrap(), "a\\&b,c");
}

// --- environments ---

#[test]
fn equation_environment() {
    assert_eq!(latex_to_typst("\\begin{equation}x\\end{equation}").unwrap(), "$$x$$");
}

#[test]
fn cases_environment() {
    assert_eq!(latex_to_typst("\\begin{cases}a\\\\b\\end{cases}").unwrap(), "cases(a,b)");
    assert_eq!(
        latex_to_typst("\\begin{rcases}a\\\\b\\end{rcases}").unwrap(),
        "cases(reverse: #true, a,b)"
    );
}

#[test]
fn smallmatrix_environment() {
    assert_eq!(
        latex_to_typst("\\begin{smallmatrix}a&b\\end{smallmatrix}").unwrap(),
        "inline(mat(delim: #none, a,b))"
    );
}

#[test]
fn unknown_environment_fails() {
    let e = latex_to_typst("\\begin{foo}x\\end{foo}").unwrap_err();
    assert_eq!(e.describe(), "Unknown environment in x\\end{foo}");
}

// --- character codes ---

#[test]
fn char_decimal() {
    assert_eq!(latex_to_typst("\\char65").unwrap(), "\\u{41}");
}

#[test]
fn char_octal() {
    assert_eq!(latex_to_typst("\\char'101").unwrap(), "\\u{41}");
}

#[test]
fn char_hex_kept_raw() {
    assert_eq!(latex_to_typst("\\char\"4A").unwrap(), "\\u{4A}");
}

#[test]
fn char_invalid() {
    let e = latex_to_typst("\\char x").unwrap_err();
    assert_eq!(e.describe(), "Invalid character code in x");
}

// --- errors ---

#[test]
fn missing_argument_fails() {
    let e = latex_to_typst("\\frac").unwrap_err();
    assert_eq!(e.describe(), "Unexpected end of input in ");
}

#[test]
fn trailing_backslash_fails() {
    let e = latex_to_typst("x\\").unwrap_err();
    assert_eq!(e.describe(), "Unexpected end of input in ");
}

// --- text mode ---

#[test]
fn text_mode_symbols() {
    assert_eq!(text_to_typst("\\textemdash").unwrap(), "---");
    assert_eq!(text_to_typst("a~b").unwrap(), "a~b");
}

#[test]
fn text_mode_embedded_math() {
    assert_eq!(text_to_typst("a $xy$ b").unwrap(), "a $x y$ b");
}

#[test]
fn text_mode_unknown_command_fails() {
    // unlike math mode, text mode treats an unknown command as fatal
    let e = text_to_typst("\\foo").unwrap_err();
    assert_eq!(e.describe(), "Unknown command in text mode in ");
    assert!(latex_to_typst("\\text{\\foo}").is_err());
}

#[test]
fn text_mode_through_math() {
    assert_eq!(latex_to_typst("\\text{hi}").unwrap(), "#[hi]");
    assert_eq!(latex_to_typst("\\textbf{hi}").unwrap(), "bold(#[hi])");
}

// --- assorted commands ---

#[test]
fn operatorname_star() {
    assert_eq!(
        latex_to_typst("\\operatorname*{foo}").unwrap(),
        "#math.op(\"foo\", limits: true)"
    );
    assert_eq!(latex_to_typst("\\operatorname{a\"b}").unwrap(), "#math.op(\"a\\\"b\")");
}

#[test]
fn comment_line() {
    assert_eq!(latex_to_typst("%hi\nx").unwrap(), "//hi\nx");
}

#[test]
fn colorbox_named_and_rgb() {
    assert_eq!(
        latex_to_typst("\\textcolor{red}{x}").unwrap(),
        "#text(fill: red)[x]"
    );
    assert_eq!(
        latex_to_typst("\\textcolor{#00ff00}{x}").unwrap(),
        "#text(fill: rgb(\"#00ff00\"))[x]"
    );
}

#[test]
fn braket_bars() {
    assert_eq!(latex_to_typst("\\braket{a|b}").unwrap(), "lr(angle.l amid(|)b angle.r)");
}

#[test]
fn literal_symbols() {
    assert_eq!(latex_to_typst("\\alpha\\to\\infty").unwrap(), "alpha->infinity");
    assert_eq!(latex_to_typst("\\AA").unwrap(), "circle(A)");
    assert_eq!(latex_to_typst("\\And").unwrap(), "\\&");
}

#[test]
fn rule_with_and_without_offset() {
    assert_eq!(
        latex_to_typst("\\rule{1pt}{2pt}").unwrap(),
        "#box(fill: black, width: 1pt, height: 2pt)"
    );
    assert_eq!(
        latex_to_typst("\\rule[1pt]{2pt}{3pt}").unwrap(),
        "#box(inset: (bottom: 1pt), box(fill: black, width: 2pt, height: 3pt))"
    );
}

#[test]
fn accent_composer() {
    assert_eq!(latex_to_typst("\\overgroup{x}").unwrap(), "accent(x, \\u{0311})");
}

#[test]
fn phantom_boxes() {
    assert_eq!(latex_to_typst("\\phantom{x}").unwrap(), "#hide[$x$]");
    assert_eq!(
        latex_to_typst("\\hphantom{x}").unwrap(),
        "#box(height: 0pt, hide[$x$])"
    );
}

#[test]
fn subscript_forms() {
    assert_eq!(latex_to_typst("x_2").unwrap(), "x_2");
    assert_eq!(latex_to_typst("x^{ab}").unwrap(), "x^(a b)");
}
