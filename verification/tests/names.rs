use widget_tree::ast::{Ident, Path};
use widget_tree::diagnostic::{Diagnostic, DiagnosticKind};
use widget_tree::names::{
    checked_name, is_valid_name, name_verdicts, snake_case_name, to_snake_case, unquote,
};
use widget_tree::token::{Delimiter, Token};
use widget_tree::top_level::fallback_widget;

#[test]
fn identifiers_are_names() {
    assert!(is_valid_name("label"));
    assert!(is_valid_name("main_window2"));
    assert!(is_valid_name("_private"));
    assert!(is_valid_name("Größe"));
    assert!(is_valid_name("r#type"));
}

#[test]
fn keywords_and_other_text_are_no_names() {
    assert!(!is_valid_name("mut"));
    assert!(!is_valid_name("fn"));
    assert!(!is_valid_name("self"));
    assert!(!is_valid_name("_"));
    assert!(!is_valid_name(""));
    assert!(!is_valid_name("two words"));
    assert!(!is_valid_name("1a"));
    assert!(!is_valid_name("a-b"));
    assert!(!is_valid_name("a::b"));
    assert!(!is_valid_name("\"text\""));
}

#[test]
fn text_with_brackets_is_no_name() {
    assert!(!is_valid_name("(a)"));
    assert!(!is_valid_name("a["));
    assert!(!is_valid_name("{"));
    assert!(!is_valid_name(&"(".repeat(100_000)));
}

#[test]
fn checked_name_hands_on_or_reports() {
    let name = Ident { name: "button".to_string(), at: 7 };
    assert_eq!(checked_name(name.clone(), true), Ok(name.clone()));
    assert_eq!(
        checked_name(name, false),
        Err(Diagnostic { kind: DiagnosticKind::ExpectedName, at: 7 })
    );
}

#[test]
fn snake_case_of_words() {
    assert_eq!(to_snake_case("MyWidget"), "my_widget");
    assert_eq!(to_snake_case("Box"), "box");
    assert_eq!(to_snake_case("GLArea"), "glarea");
    assert_eq!(to_snake_case("gtkBox2D"), "gtk_box2_d");
    assert_eq!(to_snake_case("already_snake"), "already_snake");
    assert_eq!(to_snake_case(""), "");
    assert_eq!(to_snake_case("ÄpfelBaum"), "Äpfel_baum");
}

#[test]
fn placeholder_names_are_in_snake_case() {
    assert_eq!(to_snake_case("incorrect_top_level_widget"), "incorrect_top_level_widget");
    assert_eq!(to_snake_case("invalid_property"), "invalid_property");
    let widget = fallback_widget(Diagnostic { kind: DiagnosticKind::ExpectedBody, at: 3 });
    assert_eq!(to_snake_case(&widget.name.name), widget.name.name);
}

#[test]
fn snake_case_of_paths() {
    let path = Path {
        segments: vec![
            Ident { name: "gtk".to_string(), at: 0 },
            Ident { name: "ApplicationWindow".to_string(), at: 3 },
            Ident { name: "new".to_string(), at: 6 },
        ],
    };
    assert_eq!(snake_case_name(&path), "gtk_application_window_new");
    assert_eq!(snake_case_name(&Path { segments: Vec::new() }), "");
}

#[test]
fn each_kind_has_its_message() {
    let kinds = [
        (DiagnosticKind::ExpectedPath, "expected a path"),
        (DiagnosticKind::ExpectedName, "expected a name that is an identifier"),
        (DiagnosticKind::ExpectedBody, "expected `{`"),
        (DiagnosticKind::ExpectedValue, "expected a value"),
        (DiagnosticKind::ExpectedAssignment, "expected `:`, `=>` or `=`"),
        (DiagnosticKind::ExpectedMethodCall, "expected a method call"),
        (DiagnosticKind::UnclosedDelimiter, "this bracket is never closed"),
        (DiagnosticKind::UnexpectedToken, "unexpected token"),
        (DiagnosticKind::AttributeNotAllowed, "this attribute is not allowed here"),
        (DiagnosticKind::InvalidAttribute, "this attribute is not valid"),
        (DiagnosticKind::DuplicateName, "this widget has a name already"),
    ];
    for (kind, text) in kinds {
        assert_eq!(Diagnostic::new(kind, 4).message(), text);
        assert_eq!(Diagnostic::new(kind, 4), Diagnostic { kind, at: 4 });
    }
}

#[test]
fn empty_label_is_no_label() {
    assert_eq!(widget_tree::actions::section_label(""), None);
    assert_eq!(widget_tree::actions::section_label("File"), Some("File"));
    assert_eq!(widget_tree::actions::section_label(" "), Some(" "));
}

#[test]
fn text_with_blanks_or_comments_is_no_name() {
    assert!(!is_valid_name(" a"));
    assert!(!is_valid_name("a "));
    assert!(!is_valid_name("a\tb"));
    assert!(!is_valid_name("a\n"));
    assert!(!is_valid_name("a // x"));
    assert!(!is_valid_name("a//x"));
    assert!(!is_valid_name("a/**/"));
    assert!(!is_valid_name("/**/a"));
    assert!(!is_valid_name("\u{feff}a"));
    assert!(!is_valid_name("\u{a0}a"));
    assert!(!is_valid_name("a\u{200e}"));
    assert!(!is_valid_name("a\u{2028}"));
    assert!(!is_valid_name("a\u{3000}"));
}

#[test]
fn quotes_are_taken_away() {
    assert_eq!(unquote("\"w\""), Some("w"));
    assert_eq!(unquote("\"two words\""), Some("two words"));
    assert_eq!(unquote("\"\""), Some(""));
    assert_eq!(unquote("\"äö\""), Some("äö"));
    assert_eq!(unquote("w"), None);
    assert_eq!(unquote("\""), None);
    assert_eq!(unquote(""), None);
    assert_eq!(unquote("r\"w\""), None);
    assert_eq!(unquote("\"w"), None);
}

#[test]
fn one_verdict_for_each_token() {
    let tokens = vec![
        Token::Ident("mut".to_string()),
        Token::Ident("a".to_string()),
        Token::Literal("\"b\"".to_string()),
        Token::Literal("\"two words\"".to_string()),
        Token::Literal("\"fn\"".to_string()),
        Token::Literal("1".to_string()),
        Token::Punct('=', false),
        Token::Open(Delimiter::Brace),
        Token::Close(Delimiter::Brace),
        Token::Ident(" a".to_string()),
        Token::Ident("(a)".to_string()),
    ];
    assert_eq!(
        name_verdicts(&tokens),
        vec![false, true, true, false, false, false, false, false, false, false, false]
    );
    assert_eq!(name_verdicts(&Vec::new()), Vec::<bool>::new());
}
