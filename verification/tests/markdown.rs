use devzat_forth::md_spaces;

#[test]
fn md_spaces_escapes_a_newline() {
    assert_eq!(md_spaces("a\nb"), "a  \\nb");
}

#[test]
fn md_spaces_escapes_every_newline() {
    assert_eq!(md_spaces("1\n2\n\n3\n"), "1  \\n2  \\n  \\n3  \\n");
}

#[test]
fn md_spaces_keeps_single_lines() {
    assert_eq!(md_spaces("2 3 + . ok"), "2 3 + . ok");
    assert_eq!(md_spaces(""), "");
}

#[test]
fn md_spaces_keeps_other_characters() {
    assert_eq!(md_spaces("\u{1F955}\r\t\\n"), "\u{1F955}\r\t\\n");
    assert_eq!(md_spaces("é\nü"), "é  \\nü");
}

#[test]
fn md_spaces_output_has_no_newline_and_grows_by_three_per_newline() {
    let input = "Hello Devzat!\nHello Devzat!\nHello Devzat!\n";
    let out = md_spaces(input);
    assert!(!out.contains('\n'));
    assert_eq!(out.chars().count(), input.chars().count() + 3 * 3);
}

#[test]
fn md_spaces_distributes_over_concatenation() {
    let a = "x\ny";
    let b = "\nz";
    assert_eq!(md_spaces(&format!("{}{}", a, b)), format!("{}{}", md_spaces(a), md_spaces(b)));
}

#[test]
fn md_spaces_can_be_undone_without_backslashes() {
    for s in ["a\nb", "  \n \n\n", "Hello Devzat!\n", ""] {
        assert_eq!(md_spaces(s).replace("  \\n", "\n"), s);
    }
}
