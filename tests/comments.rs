use qasm::strip_comments;

#[test]
fn removes_line_comments() {
    assert_eq!(
        strip_comments("OPENQASM 2.0;\n// Here is a comment\nqreg a[3]; // trailing\n"),
        "OPENQASM 2.0;\n\nqreg a[3]; \n"
    );
}

#[test]
fn single_slash_is_kept() {
    assert_eq!(strip_comments("u1(pi/2) q;"), "u1(pi/2) q;");
}

#[test]
fn comment_at_end_without_line_break() {
    assert_eq!(strip_comments("h q; //done"), "h q; ");
    assert_eq!(strip_comments("///"), "");
    assert_eq!(strip_comments(""), "");
}
