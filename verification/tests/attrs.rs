use widget_tree::ast::{Attr, Attrs, Ident, Path, WidgetAttr};
use widget_tree::attr::split_root;
use widget_tree::diagnostic::{Diagnostic, DiagnosticKind};
use widget_tree::widget::read_settings;

fn named(name: &str, at: usize) -> Ident {
    Ident { name: name.to_string(), at }
}

fn others() -> Vec<Attr> {
    vec![
        Attr::Local(named("local", 2)),
        Attr::Doc("\"text\"".to_string()),
        Attr::Name(named("main", 14)),
        Attr::Wrap(Path { segments: vec![named("Some", 20)] }),
        Attr::LocalRef(named("local_ref", 25)),
    ]
}

#[test]
fn root_is_taken_out_at_every_position() {
    let rest = others();
    for i in 0..=rest.len() {
        let mut list = rest.clone();
        list.insert(i, Attr::Root(named("root", 100 + i)));
        let (left, root) = split_root(Attrs { inner: list });
        assert_eq!(left.inner.len(), rest.len());
        assert_eq!(left.inner, rest);
        assert_eq!(root, Some(named("root", 100 + i)));
    }
}

#[test]
fn list_without_root_stays() {
    let (left, root) = split_root(Attrs { inner: others() });
    assert_eq!(left.inner, others());
    assert_eq!(root, None);
}

#[test]
fn empty_list_has_no_root() {
    let (left, root) = split_root(Attrs { inner: Vec::new() });
    assert_eq!(left.inner.len(), 0);
    assert_eq!(root, None);
}

#[test]
fn of_several_roots_the_last_is_kept() {
    let list = vec![
        Attr::Root(named("root", 1)),
        Attr::Local(named("local", 2)),
        Attr::Root(named("root", 3)),
        Attr::Doc("\"d\"".to_string()),
        Attr::Root(named("root", 5)),
    ];
    let (left, root) = split_root(Attrs { inner: list });
    assert_eq!(left.inner, vec![Attr::Local(named("local", 2)), Attr::Doc("\"d\"".to_string())]);
    assert_eq!(root, Some(named("root", 5)));
}

#[test]
fn only_roots_leave_nothing() {
    let list = vec![Attr::Root(named("root", 1)), Attr::Root(named("root", 2))];
    let (left, root) = split_root(Attrs { inner: list });
    assert!(left.inner.is_empty());
    assert_eq!(root, Some(named("root", 2)));
}

#[test]
fn settings_of_a_list_of_attributes() {
    let settings = read_settings(Attrs { inner: others() }).ok().unwrap();
    assert_eq!(settings.attr, WidgetAttr::LocalRef);
    assert_eq!(settings.doc, Some("\"text\"".to_string()));
    assert_eq!(settings.name, Some(named("main", 14)));
    assert_eq!(settings.wrapper, Some(Path { segments: vec![named("Some", 20)] }));
    let mut list = others();
    list.insert(2, Attr::Root(named("root", 9)));
    let failed = read_settings(Attrs { inner: list }).err();
    assert_eq!(failed, Some(Diagnostic { kind: DiagnosticKind::AttributeNotAllowed, at: 9 }));
    let plain = read_settings(Attrs { inner: Vec::new() }).ok().unwrap();
    assert_eq!(plain.attr, WidgetAttr::Absent);
    assert_eq!(plain.doc, None);
    assert_eq!(plain.name, None);
    assert_eq!(plain.wrapper, None);
}
