use proc_macro2::{Spacing, TokenStream, TokenTree};
use widget_tree::ast::{
    Ident, Path, PropertyName, PropertyType, Span, TopLevelWidget, Widget, WidgetAttr,
};
use widget_tree::diagnostic::{Diagnostic, DiagnosticKind};
use widget_tree::token::{Delimiter, Token};
use widget_tree::top_level::TokenCursor;

fn flatten(stream: TokenStream, out: &mut Vec<Token>) {
    for tree in stream {
        match tree {
            TokenTree::Group(group) => {
                let delimiter = match group.delimiter() {
                    proc_macro2::Delimiter::Parenthesis => Some(Delimiter::Parenthesis),
                    proc_macro2::Delimiter::Brace => Some(Delimiter::Brace),
                    proc_macro2::Delimiter::Bracket => Some(Delimiter::Bracket),
                    proc_macro2::Delimiter::None => None,
                };
                if let Some(d) = delimiter {
                    out.push(Token::Open(d));
                }
                flatten(group.stream(), out);
                if let Some(d) = delimiter {
                    out.push(Token::Close(d));
                }
            }
            TokenTree::Ident(ident) => out.push(Token::Ident(ident.to_string())),
            TokenTree::Punct(punct) => {
                out.push(Token::Punct(punct.as_char(), punct.spacing() == Spacing::Joint))
            }
            TokenTree::Literal(literal) => out.push(Token::Literal(literal.to_string())),
        }
    }
}

fn lex(source: &str) -> Vec<Token> {
    let stream: TokenStream = source.parse().unwrap();
    let mut out = Vec::new();
    flatten(stream, &mut out);
    out
}

fn read(source: &str) -> TopLevelWidget {
    let mut cursor = TokenCursor::new(lex(source));
    TopLevelWidget::parse(&mut cursor)
}

fn ident(name: &str, at: usize) -> Ident {
    Ident { name: name.to_string(), at }
}

fn path(segments: &[(&str, usize)]) -> Path {
    Path { segments: segments.iter().map(|(name, at)| ident(name, *at)).collect() }
}

fn failure(widget: &Widget) -> Diagnostic {
    assert_eq!(widget.properties.properties.len(), 1);
    match &widget.properties.properties[0].ty {
        PropertyType::ParseError(d) => *d,
        other => panic!("no failure: {:?}", other),
    }
}

fn assert_fallback(widget: &Widget, kind: DiagnosticKind, at: usize) {
    let d = failure(widget);
    assert_eq!(d, Diagnostic { kind, at });
    assert_eq!(widget.name, ident("incorrect_top_level_widget", at));
    assert_eq!(widget.func.path, path(&[("gtk", at), ("Box", at)]));
    assert_eq!(widget.func.args, None);
    assert!(widget.func.method_chain.is_empty());
    assert_eq!(widget.func.ty, None);
    assert_eq!(
        widget.properties.properties[0].name,
        PropertyName::Ident(ident("invalid_property", at))
    );
    assert_eq!(widget.doc_attr, None);
    assert_eq!(widget.attr, WidgetAttr::Absent);
    assert!(!widget.mutable);
    assert_eq!(widget.args, None);
    assert_eq!(widget.wrapper, None);
    assert!(!widget.ref_token);
    assert!(!widget.deref_token);
    assert_eq!(widget.returned_widget, None);
}

#[test]
fn root_widget_with_one_property() {
    let top = read("#[root] MyWidget { visible: true }");
    assert_eq!(top.root_attr, Some(ident("root", 2)));
    assert_eq!(top.inner.name, ident("my_widget", 4));
    assert_eq!(top.inner.func.path, path(&[("MyWidget", 4)]));
    assert_eq!(top.inner.properties.properties.len(), 1);
    let property = &top.inner.properties.properties[0];
    assert_eq!(property.name, PropertyName::Ident(ident("visible", 6)));
    assert_eq!(property.ty, PropertyType::Assign(Span { start: 8, end: 9 }));
    assert_eq!(top.inner.attr, WidgetAttr::Absent);
    assert_eq!(top.inner.doc_attr, None);
    assert_eq!(top.inner.returned_widget, None);
}

#[test]
fn unbalanced_braces_give_the_placeholder() {
    let tokens = vec![
        Token::Punct('#', false),
        Token::Open(Delimiter::Bracket),
        Token::Ident("root".to_string()),
        Token::Close(Delimiter::Bracket),
        Token::Ident("MyWidget".to_string()),
        Token::Open(Delimiter::Brace),
        Token::Ident("visible".to_string()),
        Token::Punct(':', false),
        Token::Ident("true".to_string()),
    ];
    let mut cursor = TokenCursor::new(tokens);
    let top = TopLevelWidget::parse(&mut cursor);
    assert_eq!(top.root_attr, Some(ident("root", 2)));
    assert_fallback(&top.inner, DiagnosticKind::UnclosedDelimiter, 5);
    assert_eq!(cursor.position(), 9);
    assert!(cursor.is_empty());
}

#[test]
fn mismatched_brackets_give_the_placeholder() {
    let tokens = vec![
        Token::Ident("W".to_string()),
        Token::Open(Delimiter::Brace),
        Token::Ident("a".to_string()),
        Token::Punct(':', false),
        Token::Open(Delimiter::Parenthesis),
        Token::Close(Delimiter::Brace),
    ];
    let mut cursor = TokenCursor::new(tokens);
    let top = TopLevelWidget::parse(&mut cursor);
    assert_eq!(top.root_attr, None);
    assert_fallback(&top.inner, DiagnosticKind::UnclosedDelimiter, 1);
    assert_eq!(cursor.position(), 6);
}

#[test]
fn no_attributes_no_root() {
    let top = read("gtk::Box { }");
    assert_eq!(top.root_attr, None);
    assert_eq!(top.inner.name, ident("gtk_box", 0));
    assert_eq!(top.inner.func.path, path(&[("gtk", 0), ("Box", 3)]));
    assert_eq!(top.inner.attr, WidgetAttr::Absent);
    assert_eq!(top.inner.doc_attr, None);
    assert_eq!(top.inner.wrapper, None);
    assert!(top.inner.properties.properties.is_empty());
}

#[test]
fn empty_input_gives_the_placeholder() {
    let mut cursor = TokenCursor::new(Vec::new());
    let top = TopLevelWidget::parse(&mut cursor);
    assert_eq!(top.root_attr, None);
    assert_fallback(&top.inner, DiagnosticKind::ExpectedPath, 0);
    assert_eq!(cursor.position(), 0);
}

#[test]
fn last_root_marker_counts() {
    let top = read("#[root] #[local] #[root] W { }");
    assert_eq!(top.root_attr, Some(ident("root", 10)));
    assert_eq!(top.inner.attr, WidgetAttr::Local);
    assert_eq!(top.inner.name, ident("w", 12));
}

#[test]
fn attributes_that_are_not_understood_count_as_none() {
    let top = read("#[root] #[sparkling] #[local] W { }");
    assert_eq!(top.root_attr, None);
    assert_eq!(top.inner.attr, WidgetAttr::Absent);
    assert_eq!(top.inner.name, ident("w", 12));
    assert!(top.inner.properties.properties.is_empty());
}

#[test]
fn attributes_set_the_fields_of_a_widget() {
    let top = read("#[doc = \"The window.\"] #[local_ref] #[name = main] #[wrap(Some)] W { }");
    assert_eq!(top.root_attr, None);
    assert_eq!(top.inner.doc_attr, Some("\"The window.\"".to_string()));
    assert_eq!(top.inner.attr, WidgetAttr::LocalRef);
    assert_eq!(top.inner.name, ident("main", 14));
    assert_eq!(top.inner.wrapper, Some(path(&[("Some", 20)])));
}

#[test]
fn later_attribute_overwrites_earlier_one() {
    let top = read("#[local] #[local_ref] #[name = a] #[name = b] W { }");
    assert_eq!(top.inner.attr, WidgetAttr::LocalRef);
    assert_eq!(top.inner.name, ident("b", 18));
}

#[test]
fn keyword_in_name_attribute_is_not_understood() {
    let top = read("#[root] #[name = match] W { }");
    assert_eq!(top.root_attr, None);
    assert_eq!(top.inner.name, ident("w", 10));
}

#[test]
fn widget_prefixes() {
    let top = read("mut button = &*gtk::Button { }");
    assert!(top.inner.mutable);
    assert!(top.inner.ref_token);
    assert!(top.inner.deref_token);
    assert_eq!(top.inner.name, ident("button", 1));
    assert_eq!(top.inner.func.path, path(&[("gtk", 5), ("Button", 8)]));
}

#[test]
fn function_with_arguments_chain_and_type() {
    let top = read("gtk::Button::builder(1, 2).label(\"x\").build() -> gtk::Button { }");
    let func = &top.inner.func;
    assert_eq!(func.path, path(&[("gtk", 0), ("Button", 3), ("builder", 6)]));
    assert_eq!(func.args, Some(Span { start: 8, end: 11 }));
    assert_eq!(func.method_chain.len(), 2);
    assert_eq!(func.method_chain[0].name, ident("label", 13));
    assert_eq!(func.method_chain[0].args, Span { start: 15, end: 16 });
    assert_eq!(func.method_chain[1].name, ident("build", 18));
    assert_eq!(func.method_chain[1].args, Span { start: 20, end: 20 });
    assert_eq!(func.ty, Some(path(&[("gtk", 23), ("Button", 26)])));
    assert_eq!(top.inner.name, ident("gtk_button_builder", 0));
}

#[test]
fn three_kinds_of_property() {
    let top = read("W { set_label: \"hi\", connect_clicked => move |_| { go(1, 2) }, append = X { } }");
    let properties = &top.inner.properties.properties;
    assert_eq!(properties.len(), 3);
    assert_eq!(properties[0].name, PropertyName::Ident(ident("set_label", 2)));
    assert_eq!(properties[0].ty, PropertyType::Assign(Span { start: 4, end: 5 }));
    assert_eq!(properties[1].name, PropertyName::Ident(ident("connect_clicked", 6)));
    assert_eq!(properties[1].ty, PropertyType::SignalHandler(Span { start: 9, end: 21 }));
    assert_eq!(properties[2].name, PropertyName::Ident(ident("append", 22)));
    match &properties[2].ty {
        PropertyType::Widget(child) => {
            assert_eq!(child.name, ident("x", 24));
            assert!(child.properties.properties.is_empty());
            assert_eq!(child.args, None);
        }
        other => panic!("no widget: {:?}", other),
    }
}

#[test]
fn property_named_by_a_path() {
    let top = read("W { a::b::c: 1 }");
    let properties = &top.inner.properties.properties;
    assert_eq!(properties.len(), 1);
    assert_eq!(properties[0].name, PropertyName::Path(path(&[("a", 2), ("b", 5), ("c", 8)])));
    assert_eq!(properties[0].ty, PropertyType::Assign(Span { start: 10, end: 11 }));
}

#[test]
fn nested_widgets_with_attributes_and_arguments() {
    let top = read("Outer { #[name = inner] #[local] put[0, 1] = mut Inner { deep = Leaf { x: 1, }, }, last: 2 }");
    let properties = &top.inner.properties.properties;
    assert_eq!(properties.len(), 2);
    assert_eq!(properties[0].name, PropertyName::Ident(ident("put", 12)));
    match &properties[0].ty {
        PropertyType::Widget(inner) => {
            assert_eq!(inner.name, ident("inner", 6));
            assert_eq!(inner.attr, WidgetAttr::Local);
            assert!(inner.mutable);
            assert_eq!(inner.args, Some(Span { start: 14, end: 17 }));
            assert_eq!(inner.properties.properties.len(), 1);
            match &inner.properties.properties[0].ty {
                PropertyType::Widget(leaf) => {
                    assert_eq!(leaf.name, ident("leaf", 24));
                    assert_eq!(leaf.properties.properties.len(), 1);
                    assert_eq!(
                        leaf.properties.properties[0].ty,
                        PropertyType::Assign(Span { start: 28, end: 29 })
                    );
                }
                other => panic!("no widget: {:?}", other),
            }
        }
        other => panic!("no widget: {:?}", other),
    }
    assert_eq!(properties[1].name, PropertyName::Ident(ident("last", 34)));
    assert_eq!(properties[1].ty, PropertyType::Assign(Span { start: 36, end: 37 }));
}

#[test]
fn returned_widget() {
    let top = read("Stack { add = Page { } -> page { title: \"t\" } }");
    let properties = &top.inner.properties.properties;
    assert_eq!(properties.len(), 1);
    match &properties[0].ty {
        PropertyType::Widget(page) => {
            let returned = page.returned_widget.as_ref().unwrap();
            assert_eq!(returned.name, Some(ident("page", 9)));
            assert_eq!(returned.properties.properties.len(), 1);
            assert_eq!(
                returned.properties.properties[0].name,
                PropertyName::Ident(ident("title", 11))
            );
        }
        other => panic!("no widget: {:?}", other),
    }
    let top = read("Page { } -> { a: 1 }");
    let returned = top.inner.returned_widget.as_ref().unwrap();
    assert_eq!(returned.name, None);
    assert_eq!(returned.properties.properties.len(), 1);
}

#[test]
fn a_property_that_cannot_be_read_does_not_stop_the_others() {
    let top = read("W { a: 1, b, c: 3, d = , e = X { y } }");
    assert_eq!(top.inner.name, ident("w", 0));
    let properties = &top.inner.properties.properties;
    assert_eq!(properties.len(), 5);
    assert_eq!(properties[0].ty, PropertyType::Assign(Span { start: 4, end: 5 }));
    assert_eq!(properties[1].name, PropertyName::Ident(ident("invalid_property", 7)));
    assert_eq!(
        properties[1].ty,
        PropertyType::ParseError(Diagnostic { kind: DiagnosticKind::ExpectedAssignment, at: 7 })
    );
    assert_eq!(properties[2].ty, PropertyType::Assign(Span { start: 10, end: 11 }));
    assert_eq!(
        properties[3].ty,
        PropertyType::ParseError(Diagnostic { kind: DiagnosticKind::ExpectedPath, at: 14 })
    );
    match &properties[4].ty {
        PropertyType::Widget(x) => {
            assert_eq!(x.properties.properties.len(), 1);
            assert_eq!(
                x.properties.properties[0].ty,
                PropertyType::ParseError(Diagnostic {
                    kind: DiagnosticKind::ExpectedAssignment,
                    at: 20
                })
            );
        }
        other => panic!("no widget: {:?}", other),
    }
}

#[test]
fn empty_item_between_commas_is_a_failure() {
    let top = read("W { a: 1,, b: 2, }");
    let properties = &top.inner.properties.properties;
    assert_eq!(properties.len(), 3);
    assert_eq!(
        properties[1].ty,
        PropertyType::ParseError(Diagnostic { kind: DiagnosticKind::ExpectedPath, at: 6 })
    );
    assert_eq!(properties[2].ty, PropertyType::Assign(Span { start: 9, end: 10 }));
}

#[test]
fn each_failure_of_a_property() {
    let top = read(
        "W { a: , b => , #[local] c: 1, #[sparkling] d = X { }, #[root] e = X { }, f[1] X { } }",
    );
    let found: Vec<Diagnostic> = top
        .inner
        .properties
        .properties
        .iter()
        .map(|p| match &p.ty {
            PropertyType::ParseError(d) => *d,
            other => panic!("no failure: {:?}", other),
        })
        .collect();
    assert_eq!(
        found,
        vec![
            Diagnostic { kind: DiagnosticKind::ExpectedValue, at: 4 },
            Diagnostic { kind: DiagnosticKind::ExpectedValue, at: 8 },
            Diagnostic { kind: DiagnosticKind::AttributeNotAllowed, at: 9 },
            Diagnostic { kind: DiagnosticKind::InvalidAttribute, at: 17 },
            Diagnostic { kind: DiagnosticKind::AttributeNotAllowed, at: 29 },
            Diagnostic { kind: DiagnosticKind::ExpectedAssignment, at: 41 },
        ]
    );
    for (property, d) in top.inner.properties.properties.iter().zip(found.iter()) {
        assert_eq!(property.name, PropertyName::Ident(ident("invalid_property", d.at)));
    }
}

#[test]
fn each_failure_of_a_widget() {
    assert_fallback(&read("\"text\" { }").inner, DiagnosticKind::ExpectedPath, 0);
    assert_fallback(&read("W").inner, DiagnosticKind::ExpectedBody, 1);
    assert_fallback(&read("W [ ]").inner, DiagnosticKind::ExpectedBody, 1);
    assert_fallback(&read("W { } extra").inner, DiagnosticKind::UnexpectedToken, 3);
    assert_fallback(&read("W { } -> { } extra").inner, DiagnosticKind::UnexpectedToken, 7);
    assert_fallback(&read("W { } -> page").inner, DiagnosticKind::ExpectedBody, 6);
    assert_fallback(&read("W { } -> type { }").inner, DiagnosticKind::ExpectedName, 5);
    assert_fallback(&read("fn = W { }").inner, DiagnosticKind::ExpectedName, 0);
    assert_fallback(&read("W.x { }").inner, DiagnosticKind::ExpectedMethodCall, 2);
    assert_fallback(&read("W.x() -> { }").inner, DiagnosticKind::ExpectedPath, 7);
    assert_fallback(&read("#[name = a] b = W { }").inner, DiagnosticKind::DuplicateName, 4);
}

#[test]
fn failure_keeps_the_root_marker() {
    let top = read("#[root] W");
    assert_eq!(top.root_attr, Some(ident("root", 2)));
    assert_fallback(&top.inner, DiagnosticKind::ExpectedBody, 5);
}

#[test]
fn several_widgets_one_after_another() {
    let mut cursor = TokenCursor::new(lex("#[root] A { x: f(1, 2) }, B, C { }"));
    let a = TopLevelWidget::parse(&mut cursor);
    assert_eq!(a.root_attr, Some(ident("root", 2)));
    assert_eq!(a.inner.name, ident("a", 4));
    assert_eq!(cursor.position(), 15);
    assert!(cursor.skip_comma());
    assert!(!cursor.skip_comma());
    let b = TopLevelWidget::parse(&mut cursor);
    assert_fallback(&b.inner, DiagnosticKind::ExpectedBody, 17);
    assert_eq!(cursor.position(), 17);
    assert!(cursor.skip_comma());
    let c = TopLevelWidget::parse(&mut cursor);
    assert_eq!(c.root_attr, None);
    assert_eq!(c.inner.name, ident("c", 18));
    assert!(cursor.is_empty());
    assert_eq!(cursor.position(), 21);
}

#[test]
fn stray_closing_bracket_ends_the_widget() {
    let tokens = vec![
        Token::Ident("W".to_string()),
        Token::Open(Delimiter::Brace),
        Token::Close(Delimiter::Brace),
        Token::Close(Delimiter::Brace),
        Token::Ident("X".to_string()),
    ];
    let mut cursor = TokenCursor::new(tokens);
    let top = TopLevelWidget::parse(&mut cursor);
    assert_eq!(top.inner.name, ident("w", 0));
    assert_eq!(cursor.position(), 3);
    assert!(!cursor.is_empty());
    assert!(!cursor.skip_comma());
}

#[test]
fn every_input_gives_a_widget() {
    let alphabet = vec![
        Token::Ident("a".to_string()),
        Token::Ident("mut".to_string()),
        Token::Ident("root".to_string()),
        Token::Punct('#', false),
        Token::Punct(':', true),
        Token::Punct(':', false),
        Token::Punct('=', false),
        Token::Punct('=', true),
        Token::Punct('>', false),
        Token::Punct('-', true),
        Token::Punct(',', false),
        Token::Punct('.', false),
        Token::Punct('&', false),
        Token::Literal("1".to_string()),
        Token::Open(Delimiter::Brace),
        Token::Close(Delimiter::Brace),
        Token::Open(Delimiter::Bracket),
        Token::Close(Delimiter::Bracket),
        Token::Open(Delimiter::Parenthesis),
        Token::Close(Delimiter::Parenthesis),
    ];
    let mut state: u64 = 0x2545_f491_4f6c_dd1d;
    for round in 0..4000usize {
        let length = round % 13;
        let mut tokens = Vec::new();
        for _ in 0..length {
            state ^= state << 13;
            state ^= state >> 7;
            state ^= state << 17;
            tokens.push(alphabet[(state % alphabet.len() as u64) as usize].clone());
        }
        let mut cursor = TokenCursor::new(tokens);
        let mut steps = 0;
        loop {
            let before = cursor.position();
            let top = TopLevelWidget::parse(&mut cursor);
            assert!(cursor.position() >= before);
            assert!(cursor.position() <= length);
            if top.inner.name.name == "incorrect_top_level_widget" {
                assert_eq!(top.inner.properties.properties.len(), 1);
                assert!(matches!(
                    top.inner.properties.properties[0].ty,
                    PropertyType::ParseError(_)
                ));
            }
            let skipped = cursor.skip_comma();
            steps += 1;
            if cursor.is_empty() || (!skipped && cursor.position() == before) || steps > length {
                break;
            }
        }
    }
}

#[test]
fn failures_are_gathered_in_their_order() {
    let top = read("W { a, b = X { c, d: 1 } -> { e = }, f: 2, g => }");
    assert_eq!(
        top.inner.diagnostics(),
        vec![
            Diagnostic { kind: DiagnosticKind::ExpectedAssignment, at: 3 },
            Diagnostic { kind: DiagnosticKind::ExpectedAssignment, at: 9 },
            Diagnostic { kind: DiagnosticKind::ExpectedPath, at: 19 },
            Diagnostic { kind: DiagnosticKind::ExpectedValue, at: 28 },
        ]
    );
    assert!(read("W { a: 1, b = X { } }").inner.diagnostics().is_empty());
    let mut cursor =
        TokenCursor::new(vec![Token::Ident("W".to_string()), Token::Open(Delimiter::Brace)]);
    let failed = TopLevelWidget::parse(&mut cursor);
    assert_eq!(
        failed.inner.diagnostics(),
        vec![Diagnostic { kind: DiagnosticKind::UnclosedDelimiter, at: 1 }]
    );
}

#[test]
fn cursor_keeps_its_tokens() {
    let tokens = lex("A { }, B { }");
    let mut cursor = TokenCursor::new(tokens.clone());
    assert_eq!(cursor.tokens(), &tokens);
    assert_eq!(cursor.position(), 0);
    assert!(!cursor.is_empty());
    TopLevelWidget::parse(&mut cursor);
    assert_eq!(cursor.tokens(), &tokens);
    assert_eq!(cursor.position(), 3);
}

fn spans_in_range(widget: &Widget, lo: usize, hi: usize) {
    let inside = |at: usize| lo <= at && at <= hi;
    assert!(inside(widget.name.at));
    for segment in &widget.func.path.segments {
        assert!(inside(segment.at));
    }
    if let Some(args) = widget.func.args {
        assert!(lo <= args.start && args.start <= args.end && args.end <= hi);
    }
    for call in &widget.func.method_chain {
        assert!(inside(call.name.at));
        assert!(lo <= call.args.start && call.args.start <= call.args.end && call.args.end <= hi);
    }
    let lists = std::iter::once(&widget.properties)
        .chain(widget.returned_widget.iter().map(|r| &r.properties));
    for list in lists {
        for property in &list.properties {
            match &property.ty {
                PropertyType::Assign(s) | PropertyType::SignalHandler(s) => {
                    assert!(lo <= s.start && s.start < s.end && s.end <= hi)
                }
                PropertyType::Widget(w) => spans_in_range(w, lo, hi),
                PropertyType::ParseError(d) => assert!(inside(d.at)),
            }
        }
    }
}

#[test]
fn positions_stay_in_the_widget() {
    let sources = [
        "#[root] A { x: f(1, 2), y = B.c(1).d() -> T { z => g } -> r { q: 1 } }, C { }",
        "A { x: , y = , = }, B, #[local] mut c = &*D::e(1) { f[2] = G { } }",
        "a.b { }, C",
    ];
    for source in sources {
        let mut cursor = TokenCursor::new(lex(source));
        while !cursor.is_empty() {
            let before = cursor.position();
            let top = TopLevelWidget::parse(&mut cursor);
            spans_in_range(&top.inner, before, cursor.position());
            if let Some(root) = &top.root_attr {
                assert!(before <= root.at && root.at <= cursor.position());
            }
            cursor.skip_comma();
        }
    }
}

#[test]
fn property_named_by_a_dotted_path() {
    let top = read("W { a.b.c: 1, x::y.z => f }");
    let properties = &top.inner.properties.properties;
    assert_eq!(properties.len(), 2);
    assert_eq!(properties[0].name, PropertyName::Path(path(&[("a", 2), ("b", 4), ("c", 6)])));
    assert_eq!(properties[0].ty, PropertyType::Assign(Span { start: 8, end: 9 }));
    assert_eq!(properties[1].name, PropertyName::Path(path(&[("x", 10), ("y", 13), ("z", 15)])));
    assert_eq!(properties[1].ty, PropertyType::SignalHandler(Span { start: 18, end: 19 }));
}

#[test]
fn name_attribute_with_a_quoted_name() {
    let top = read("#[root] #[name = \"w\"] W { }");
    assert_eq!(top.root_attr, Some(ident("root", 2)));
    assert_eq!(top.inner.name, ident("w", 8));
    let top = read("#[root] #[name = \"two words\"] W { }");
    assert_eq!(top.root_attr, None);
    assert_eq!(top.inner.name, ident("w", 10));
    let top = read("#[root] #[name = 7] W { }");
    assert_eq!(top.root_attr, None);
    assert_eq!(top.inner.name, ident("w", 10));
}

#[test]
fn verdicts_decide_what_is_a_name() {
    let tokens = lex("#[name = b] fn = W { } -> c { }");
    let all = vec![true; tokens.len()];
    let none = vec![false; tokens.len()];

    let mut cursor = TokenCursor::new(tokens.clone());
    let top = TopLevelWidget::parse_with(&mut cursor, &all);
    assert_fallback(&top.inner, DiagnosticKind::DuplicateName, 4);
    assert_eq!(cursor.position(), tokens.len());

    let mut cursor = TokenCursor::new(tokens.clone());
    let top = TopLevelWidget::parse_with(&mut cursor, &none);
    assert_fallback(&top.inner, DiagnosticKind::ExpectedName, 6);

    let mut only_given = none.clone();
    only_given[6] = true;
    let mut cursor = TokenCursor::new(tokens.clone());
    let top = TopLevelWidget::parse_with(&mut cursor, &only_given);
    assert_fallback(&top.inner, DiagnosticKind::ExpectedName, 13);

    only_given[13] = true;
    let mut cursor = TokenCursor::new(tokens.clone());
    let top = TopLevelWidget::parse_with(&mut cursor, &only_given);
    assert_eq!(top.inner.name, ident("fn", 6));
    assert_eq!(top.inner.returned_widget.as_ref().unwrap().name, Some(ident("c", 13)));

    let mut cursor = TokenCursor::new(tokens.clone());
    let top = TopLevelWidget::parse_with(&mut cursor, &Vec::new());
    assert_fallback(&top.inner, DiagnosticKind::ExpectedName, 6);
}

#[test]
fn reading_with_the_verdicts_of_the_tokens_is_reading() {
    let sources = [
        "#[root] #[name = \"w\"] a = W { x = fn = Y { } } -> r { }",
        "#[name = fn] W { }, mut = X { }, b = X { } -> type { }",
    ];
    for source in sources {
        let tokens = lex(source);
        let verdicts = widget_tree::names::name_verdicts(&tokens);
        let mut one = TokenCursor::new(tokens.clone());
        let mut other = TokenCursor::new(tokens);
        while !one.is_empty() {
            assert_eq!(
                TopLevelWidget::parse(&mut one),
                TopLevelWidget::parse_with(&mut other, &verdicts)
            );
            assert_eq!(one.position(), other.position());
            assert_eq!(one.skip_comma(), other.skip_comma());
        }
    }
}
