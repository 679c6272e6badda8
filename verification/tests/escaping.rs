use kiwi::conf::Format;
use kiwi::inject::custom_escape;

#[test]
fn escape_specials_under_latex() {
    assert_eq!(custom_escape("A&B", &Format::LaTeX), "A\\&B");
    assert_eq!(custom_escape("100$", &Format::LaTeX), "100\\$");
    assert_eq!(custom_escape("#1", &Format::LaTeX), "\\#1");
    assert_eq!(custom_escape("50%", &Format::LaTeX), "50\\%");
    assert_eq!(custom_escape("a & b % c", &Format::LaTeX), "a \\& b \\% c");
}

#[test]
fn escape_leaves_preescaped_alone() {
    // a special character already preceded by a backslash is kept as is
    assert_eq!(custom_escape("\\&", &Format::LaTeX), "\\&");
    assert_eq!(custom_escape("a\\%b", &Format::LaTeX), "a\\%b");
}

#[test]
fn escape_is_idempotent_under_latex() {
    for s in ["A&B", "\\&", "&&", "a$b#c%d", "plain", "\\\\&"] {
        let once = custom_escape(s, &Format::LaTeX);
        let twice = custom_escape(&once, &Format::LaTeX);
        assert_eq!(once, twice);
    }
}

#[test]
fn escape_is_identity_under_markdown() {
    for s in ["A&B", "\\&", "50%", "plain"] {
        assert_eq!(custom_escape(s, &Format::Markdown), s);
    }
}

#[test]
fn escape_plain_text_unchanged() {
    assert_eq!(custom_escape("Momentum and Impulse", &Format::LaTeX), "Momentum and Impulse");
}
