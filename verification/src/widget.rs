//! Widgets: the grammar of a widget with its properties, and the functions
//! that read it.
//!
//! A widget is written as
//!
//! ```text
//! [mut] [name =] [&] [*] function { property, ... } [-> [name] { property, ... }]
//! ```
//!
//! and a property as one of
//!
//! ```text
//! name: value
//! name => handler
//! [#[...]]... name [[arguments]] = widget
//! ```
//!
//! where the name is one word, or several separated by `::` or by `.`.
//! The properties of a widget are separated by commas. Each is read on its
//! own: one that cannot be read stays in the list as a diagnostic, and
//! the others are read all the same.
//!
//! Which words are names is not decided here: every function takes the
//! verdicts on the tokens, one for each, and reads them where the grammar
//! asks for a name. The reader descends once for each level of nested
//! widgets.

use vstd::prelude::*;
use crate::ast::{
    Attr,
    AttrView,
    Attrs,
    Ident,
    IdentView,
    Path,
    Properties,
    Property,
    PropertyName,
    PropertyNameView,
    PropertyType,
    PropertyTypeView,
    PropertyView,
    ReturnedWidget,
    ReturnedWidgetView,
    Span,
    SpanView,
    Widget,
    WidgetAttr,
    WidgetView,
    ident_option_view,
    path_option_view,
    property_views,
    span_option_view,
    text_option_view,
};
use crate::attr::{attrs_option_view, lemma_attrs_bounds, parse_attrs, spec_attrs};
use crate::diagnostic::{Diagnostic, DiagnosticKind, DiagnosticView};
use crate::func::{lemma_func_bounds, lemma_group_bounds, parse_func, parse_group, spec_func, spec_group};
use crate::names::{accepted, checked_name, name_at, snake_case_name, snake_path, spec_checked_name};
use crate::nesting::{
    find_group_close,
    find_item_end,
    group_close,
    item_end,
    lemma_group_close_bounds,
    lemma_item_end_bounds,
};
use crate::path::{ident_of, lemma_name_path_bounds, parse_name_path, read_ident, spec_name_path};
use crate::token::{
    Delimiter,
    Token,
    TokenView,
    ident_at,
    is_ident,
    is_joint,
    is_open,
    is_punct,
    is_word,
    joint_at,
    open_at,
    punct_at,
    token_views,
    word_at,
};

verus! {

/// What the attributes of a widget say of it.
pub struct SettingsView {
    pub attr: WidgetAttr,
    pub doc: Option<Seq<char>>,
    pub name: Option<IdentView>,
    pub wrapper: Option<Seq<IdentView>>,
}

/// A widget without attributes.
pub open spec fn no_settings() -> SettingsView {
    SettingsView { attr: WidgetAttr::Absent, doc: None, name: None, wrapper: None }
}

/// Goes through the attributes from the one at `i` on and lets each
/// overwrite what an earlier one of its kind said. A root marker has no
/// place on a widget that is read here, and is a failure.
pub open spec fn settings_from(attrs: Seq<AttrView>, i: int, so_far: SettingsView) -> Result<
    SettingsView,
    DiagnosticView,
>
    decreases attrs.len() - i,
{
    if i < 0 || i >= attrs.len() {
        Ok(so_far)
    } else {
        match attrs[i] {
            AttrView::Root(ident) => Err(
                DiagnosticView { kind: DiagnosticKind::AttributeNotAllowed, at: ident.at },
            ),
            AttrView::Local(_) => settings_from(
                attrs,
                i + 1,
                SettingsView { attr: WidgetAttr::Local, ..so_far },
            ),
            AttrView::LocalRef(_) => settings_from(
                attrs,
                i + 1,
                SettingsView { attr: WidgetAttr::LocalRef, ..so_far },
            ),
            AttrView::Doc(text) => settings_from(
                attrs,
                i + 1,
                SettingsView { doc: Some(text), ..so_far },
            ),
            AttrView::Name(name) => settings_from(
                attrs,
                i + 1,
                SettingsView { name: Some(name), ..so_far },
            ),
            AttrView::Wrap(path) => settings_from(
                attrs,
                i + 1,
                SettingsView { wrapper: Some(path), ..so_far },
            ),
        }
    }
}

/// What a list of attributes says of the widget that it stands before.
pub open spec fn spec_settings(attrs: Seq<AttrView>) -> Result<SettingsView, DiagnosticView> {
    settings_from(attrs, 0, no_settings())
}

/// The word `w` at `pos`, if it stands there: whether it does, and the
/// position after it.
pub open spec fn spec_word_flag(ts: Seq<TokenView>, pos: int, end: int, w: Seq<char>) -> (
    bool,
    int,
) {
    if pos < end && is_word(ts, pos, w) {
        (true, pos + 1)
    } else {
        (false, pos)
    }
}

/// The punctuation character `c` at `pos`, if it stands there: whether it
/// does, and the position after it.
pub open spec fn spec_punct_flag(ts: Seq<TokenView>, pos: int, end: int, c: char) -> (bool, int) {
    if pos < end && is_punct(ts, pos, c) {
        (true, pos + 1)
    } else {
        (false, pos)
    }
}

/// The name that a widget is given by `name =`, if a word and `=` stand at
/// `pos`; the verdicts have to take the word for a name.
pub open spec fn spec_given_name(ts: Seq<TokenView>, names: Seq<bool>, pos: int, end: int) -> Result<
    (Option<IdentView>, int),
    DiagnosticView,
> {
    if pos + 1 < end && is_ident(ts, pos) && is_punct(ts, pos + 1, '=') {
        match spec_checked_name(ident_of(ts, pos), name_at(names, pos)) {
            Ok(name) => Ok((Some(name), pos + 2)),
            Err(d) => Err(d),
        }
    } else {
        Ok((None, pos))
    }
}

/// The name of what a function hands back, if a word stands at `pos`; the
/// verdicts have to take the word for a name.
pub open spec fn spec_returned_name(ts: Seq<TokenView>, names: Seq<bool>, pos: int, end: int) -> Result<
    (Option<IdentView>, int),
    DiagnosticView,
> {
    if pos < end && is_ident(ts, pos) {
        match spec_checked_name(ident_of(ts, pos), name_at(names, pos)) {
            Ok(name) => Ok((Some(name), pos + 1)),
            Err(d) => Err(d),
        }
    } else {
        Ok((None, pos))
    }
}

/// The name of a widget: the one it was given before its function or in an
/// attribute, as it was written; without either, the snake-case form of the
/// path of its function. A name in both places is a failure.
pub open spec fn spec_widget_name(
    given: Option<IdentView>,
    in_attr: Option<IdentView>,
    path: Seq<IdentView>,
) -> Result<IdentView, DiagnosticView> {
    match (given, in_attr) {
        (Some(_), Some(second)) => Err(
            DiagnosticView { kind: DiagnosticKind::DuplicateName, at: second.at },
        ),
        (Some(name), None) => Ok(name),
        (None, Some(name)) => Ok(name),
        (None, None) => Ok(IdentView { name: snake_path(path), at: path[0].at }),
    }
}

/// The name of a property: a single name, or a path of several.
pub open spec fn spec_property_name(path: Seq<IdentView>) -> PropertyNameView {
    if path.len() == 1 {
        PropertyNameView::Ident(path[0])
    } else {
        PropertyNameView::Path(path)
    }
}

/// The list is there and empty.
pub open spec fn no_attrs(attrs: Option<Seq<AttrView>>) -> bool {
    match attrs {
        Some(list) => list.len() == 0,
        None => false,
    }
}

/// A property that holds a value or a handler: the tokens from `from` to
/// `end`. It takes no attributes, and there has to be a token at least.
pub open spec fn spec_value(
    attrs: Option<Seq<AttrView>>,
    name: PropertyNameView,
    start: int,
    from: int,
    end: int,
    handler: bool,
) -> Result<PropertyView, DiagnosticView> {
    if !no_attrs(attrs) {
        Err(DiagnosticView { kind: DiagnosticKind::AttributeNotAllowed, at: start })
    } else if from >= end {
        Err(DiagnosticView { kind: DiagnosticKind::ExpectedValue, at: from })
    } else {
        let span = SpanView { start: from, end };
        Ok(
            PropertyView {
                name,
                ty: if handler {
                    PropertyTypeView::SignalHandler(span)
                } else {
                    PropertyTypeView::Assign(span)
                },
            },
        )
    }
}

/// The property that stands for one that could not be read.
pub open spec fn placeholder_property(d: DiagnosticView) -> PropertyView {
    PropertyView {
        name: PropertyNameView::Ident(IdentView { name: "invalid_property"@, at: d.at }),
        ty: PropertyTypeView::ParseError(d),
    }
}

/// The properties written from `start` to `end`: the items between the
/// commas there, each read on its own. Nothing follows the last comma.
pub open spec fn spec_properties(ts: Seq<TokenView>, names: Seq<bool>, start: int, end: int) -> Seq<PropertyView>
    decreases end - start, 4int,
{
    if start >= end {
        Seq::empty()
    } else {
        let stop = item_end(ts, start, end);
        proof {
            lemma_item_end_bounds(ts, start, end);
        }
        seq![spec_property(ts, names, start, stop)] + (if stop < end {
            spec_properties(ts, names, stop + 1, end)
        } else {
            Seq::empty()
        })
    }
}

/// The property that the tokens from `start` to `end` stand for. Where they
/// stand for none, it is the placeholder with the reason.
pub open spec fn spec_property(ts: Seq<TokenView>, names: Seq<bool>, start: int, end: int) -> PropertyView
    decreases end - start, 3int,
{
    if start > end {
        placeholder_property(DiagnosticView { kind: DiagnosticKind::ExpectedPath, at: start })
    } else {
        match spec_property_result(ts, names, start, end) {
            Ok(property) => property,
            Err(d) => placeholder_property(d),
        }
    }
}

/// The property that the tokens from `start` to `end` stand for, or why
/// they stand for none.
pub open spec fn spec_property_result(ts: Seq<TokenView>, names: Seq<bool>, start: int, end: int) -> Result<
    PropertyView,
    DiagnosticView,
>
    decreases end - start, 2int,
{
    if start > end {
        Err(DiagnosticView { kind: DiagnosticKind::ExpectedPath, at: start })
    } else {
        let (attrs, after_attrs) = spec_attrs(ts, names, start, end);
        match spec_name_path(ts, after_attrs, end) {
            Err(d) => Err(d),
            Ok((path, after_name)) => {
                let name = spec_property_name(path);
                if after_name < end && is_punct(ts, after_name, ':') {
                    spec_value(attrs, name, start, after_name + 1, end, false)
                } else if after_name + 1 < end && is_joint(ts, after_name, '=') && is_punct(
                    ts,
                    after_name + 1,
                    '>',
                ) {
                    spec_value(attrs, name, start, after_name + 2, end, true)
                } else {
                    match spec_group(ts, after_name, end, Delimiter::Bracket) {
                        Err(d) => Err(d),
                        Ok((args, after_args)) => if !(after_args < end && is_punct(
                            ts,
                            after_args,
                            '=',
                        )) {
                            Err(
                                DiagnosticView {
                                    kind: DiagnosticKind::ExpectedAssignment,
                                    at: after_args,
                                },
                            )
                        } else {
                            match attrs {
                                None => Err(
                                    DiagnosticView {
                                        kind: DiagnosticKind::InvalidAttribute,
                                        at: start,
                                    },
                                ),
                                Some(list) => {
                                    proof {
                                        lemma_attrs_bounds(ts, names, start, end, Some(Seq::empty()));
                                        lemma_name_path_bounds(ts, after_attrs, end);
                                        lemma_group_bounds(
                                            ts,
                                            after_name,
                                            end,
                                            Delimiter::Bracket,
                                        );
                                    }
                                    match spec_widget(ts, names, after_args + 1, end, list, args) {
                                        Ok(widget) => Ok(
                                            PropertyView {
                                                name,
                                                ty: PropertyTypeView::Widget(widget),
                                            },
                                        ),
                                        Err(d) => Err(d),
                                    }
                                },
                            }
                        },
                    }
                }
            },
        }
    }
}

/// The widget that the tokens from `start` to `end` stand for, all of them,
/// with the attributes `attrs` before it and the arguments `args` for its
/// parent; or why they stand for none.
pub open spec fn spec_widget(
    ts: Seq<TokenView>, names: Seq<bool>,
    start: int,
    end: int,
    attrs: Seq<AttrView>,
    args: Option<SpanView>,
) -> Result<WidgetView, DiagnosticView>
    decreases end - start, 1int,
{
    if start > end {
        Err(DiagnosticView { kind: DiagnosticKind::ExpectedPath, at: start })
    } else {
        match spec_settings(attrs) {
            Err(d) => Err(d),
            Ok(settings) => {
                let (mutable, after_mut) = spec_word_flag(ts, start, end, "mut"@);
                match spec_given_name(ts, names, after_mut, end) {
                    Err(d) => Err(d),
                    Ok((given, after_name)) => {
                        let (ref_token, after_ref) = spec_punct_flag(ts, after_name, end, '&');
                        let (deref_token, after_deref) = spec_punct_flag(ts, after_ref, end, '*');
                        match spec_func(ts, after_deref, end) {
                            Err(d) => Err(d),
                            Ok((func, open)) => if !(open < end && is_open(
                                ts,
                                open,
                                Delimiter::Brace,
                            )) {
                                Err(DiagnosticView { kind: DiagnosticKind::ExpectedBody, at: open })
                            } else {
                                match group_close(ts, open, end) {
                                    None => Err(
                                        DiagnosticView {
                                            kind: DiagnosticKind::UnclosedDelimiter,
                                            at: open,
                                        },
                                    ),
                                    Some(close) => {
                                        proof {
                                            lemma_func_bounds(ts, after_deref, end);
                                            lemma_group_close_bounds(ts, open, end);
                                        }
                                        match spec_returned(ts, names, close + 1, end) {
                                            Err(d) => Err(d),
                                            Ok(returned_widget) => match spec_widget_name(
                                                given,
                                                settings.name,
                                                func.path,
                                            ) {
                                                Err(d) => Err(d),
                                                Ok(name) => Ok(
                                                    WidgetView {
                                                        doc_attr: settings.doc,
                                                        attr: settings.attr,
                                                        mutable,
                                                        name,
                                                        func,
                                                        args,
                                                        properties: spec_properties(
                                                            ts, names,
                                                            open + 1,
                                                            close,
                                                        ),
                                                        wrapper: settings.wrapper,
                                                        ref_token,
                                                        deref_token,
                                                        returned_widget,
                                                    },
                                                ),
                                            },
                                        }
                                    },
                                }
                            },
                        }
                    },
                }
            },
        }
    }
}

/// What follows the properties of a widget, from `pos` to `end`: nothing,
/// or `->`, a name if there is one, and properties in braces.
pub open spec fn spec_returned(ts: Seq<TokenView>, names: Seq<bool>, pos: int, end: int) -> Result<
    Option<ReturnedWidgetView>,
    DiagnosticView,
>
    decreases end - pos, 0int,
{
    if pos >= end {
        Ok(None)
    } else if pos + 1 < end && is_joint(ts, pos, '-') && is_punct(ts, pos + 1, '>') {
        match spec_returned_name(ts, names, pos + 2, end) {
            Err(d) => Err(d),
            Ok((name, open)) => if !(open < end && is_open(ts, open, Delimiter::Brace)) {
                Err(DiagnosticView { kind: DiagnosticKind::ExpectedBody, at: open })
            } else {
                match group_close(ts, open, end) {
                    None => Err(
                        DiagnosticView { kind: DiagnosticKind::UnclosedDelimiter, at: open },
                    ),
                    Some(close) => {
                        proof {
                            lemma_group_close_bounds(ts, open, end);
                        }
                        if close + 1 != end {
                            Err(
                                DiagnosticView {
                                    kind: DiagnosticKind::UnexpectedToken,
                                    at: close + 1,
                                },
                            )
                        } else {
                            Ok(
                                Some(
                                    ReturnedWidgetView {
                                        name,
                                        properties: spec_properties(ts, names, open + 1, close),
                                    },
                                ),
                            )
                        }
                    },
                }
            },
        }
    } else {
        Err(DiagnosticView { kind: DiagnosticKind::UnexpectedToken, at: pos })
    }
}

/// What the attributes of a widget say of it, as read so far.
pub struct Settings {
    pub attr: WidgetAttr,
    pub doc: Option<String>,
    pub name: Option<Ident>,
    pub wrapper: Option<Path>,
}

impl View for Settings {
    type V = SettingsView;

    open spec fn view(&self) -> SettingsView {
        SettingsView {
            attr: self.attr,
            doc: text_option_view(self.doc),
            name: ident_option_view(self.name),
            wrapper: path_option_view(self.wrapper),
        }
    }
}

/// Gathers what a list of attributes says of the widget that it stands
/// before. A root marker in the list is a failure.
pub fn read_settings(attrs: Attrs) -> (r: Result<Settings, Diagnostic>)
    ensures
        match r {
            Ok(s) => spec_settings(attrs@) == Ok::<SettingsView, DiagnosticView>(s@),
            Err(d) => spec_settings(attrs@) == Err::<SettingsView, DiagnosticView>(d@),
        },
{
    let ghost all = attrs@;
    let mut settings = Settings { attr: WidgetAttr::Absent, doc: None, name: None, wrapper: None };
    for attr in it: attrs.inner
        invariant
            it.seq() == attrs.inner@,
            all == attrs@,
            spec_settings(all) == settings_from(all, it.index() as int, settings@),
    {
        assert(all[it.index() as int] == attr@);
        match attr {
            Attr::Root(ident) => {
                return Err(Diagnostic { kind: DiagnosticKind::AttributeNotAllowed, at: ident.at });
            },
            Attr::Local(_) => {
                settings.attr = WidgetAttr::Local;
            },
            Attr::LocalRef(_) => {
                settings.attr = WidgetAttr::LocalRef;
            },
            Attr::Doc(text) => {
                settings.doc = Some(text);
            },
            Attr::Name(name) => {
                settings.name = Some(name);
            },
            Attr::Wrap(path) => {
                settings.wrapper = Some(path);
            },
        }
    }
    Ok(settings)
}

/// Computes [`spec_given_name`].
pub(crate) fn parse_given_name(tokens: &Vec<Token>, verdicts: &Vec<bool>, pos: usize, end: usize) -> (r: Result<
    (Option<Ident>, usize),
    Diagnostic,
>)
    requires
        pos <= end <= tokens.len(),
    ensures
        match r {
            Ok((name, next)) => spec_given_name(token_views(tokens@), verdicts@, pos as int, end as int)
                == Ok::<(Option<IdentView>, int), DiagnosticView>(
                (ident_option_view(name), next as int),
            ) && pos <= next <= end,
            Err(d) => spec_given_name(token_views(tokens@), verdicts@, pos as int, end as int) == Err::<
                (Option<IdentView>, int),
                DiagnosticView,
            >(d@),
        },
{
    if end - pos > 1 && ident_at(tokens, pos) && punct_at(tokens, pos + 1, '=') {
        let name = read_ident(tokens, pos);
        let acceptable = accepted(verdicts, pos);
        match checked_name(name, acceptable) {
            Ok(n) => Ok((Some(n), pos + 2)),
            Err(d) => Err(d),
        }
    } else {
        Ok((None, pos))
    }
}

/// Computes [`spec_returned_name`].
pub(crate) fn parse_returned_name(tokens: &Vec<Token>, verdicts: &Vec<bool>, pos: usize, end: usize) -> (r: Result<
    (Option<Ident>, usize),
    Diagnostic,
>)
    requires
        pos <= end <= tokens.len(),
    ensures
        match r {
            Ok((name, next)) => spec_returned_name(token_views(tokens@), verdicts@, pos as int, end as int)
                == Ok::<(Option<IdentView>, int), DiagnosticView>(
                (ident_option_view(name), next as int),
            ) && pos <= next <= end,
            Err(d) => spec_returned_name(token_views(tokens@), verdicts@, pos as int, end as int) == Err::<
                (Option<IdentView>, int),
                DiagnosticView,
            >(d@),
        },
{
    if pos < end && ident_at(tokens, pos) {
        let name = read_ident(tokens, pos);
        let acceptable = accepted(verdicts, pos);
        match checked_name(name, acceptable) {
            Ok(n) => Ok((Some(n), pos + 1)),
            Err(d) => Err(d),
        }
    } else {
        Ok((None, pos))
    }
}

/// Computes [`spec_widget_name`].
pub(crate) fn widget_name(given: Option<Ident>, in_attr: Option<Ident>, path: &Path) -> (r: Result<
    Ident,
    Diagnostic,
>)
    requires
        path@.len() >= 1,
    ensures
        match r {
            Ok(name) => spec_widget_name(
                ident_option_view(given),
                ident_option_view(in_attr),
                path@,
            ) == Ok::<IdentView, DiagnosticView>(name@),
            Err(d) => spec_widget_name(ident_option_view(given), ident_option_view(in_attr), path@)
                == Err::<IdentView, DiagnosticView>(d@),
        },
{
    match (given, in_attr) {
        (Some(_), Some(second)) => Err(
            Diagnostic { kind: DiagnosticKind::DuplicateName, at: second.at },
        ),
        (Some(name), None) => Ok(name),
        (None, Some(name)) => Ok(name),
        (None, None) => Ok(Ident { name: snake_case_name(path), at: path.segments[0].at }),
    }
}

/// Computes [`spec_property_name`].
pub(crate) fn property_name(path: Path) -> (r: PropertyName)
    requires
        path@.len() >= 1,
    ensures
        r@ == spec_property_name(path@),
{
    let mut path = path;
    if path.segments.len() == 1 {
        match path.segments.pop() {
            Some(only) => PropertyName::Ident(only),
            None => PropertyName::Path(path),
        }
    } else {
        PropertyName::Path(path)
    }
}

/// Computes [`placeholder_property`].
pub(crate) fn invalid_property(d: Diagnostic) -> (r: Property)
    ensures
        r@ == placeholder_property(d@),
{
    Property {
        name: PropertyName::Ident(Ident { name: String::from_str("invalid_property"), at: d.at }),
        ty: PropertyType::ParseError(d),
    }
}

/// Computes [`spec_value`].
pub(crate) fn value_property(
    attrs: &Option<Attrs>,
    name: PropertyName,
    start: usize,
    from: usize,
    end: usize,
    handler: bool,
) -> (r: Result<Property, Diagnostic>)
    ensures
        match r {
            Ok(p) => spec_value(
                attrs_option_view(*attrs),
                name@,
                start as int,
                from as int,
                end as int,
                handler,
            ) == Ok::<PropertyView, DiagnosticView>(p@),
            Err(d) => spec_value(
                attrs_option_view(*attrs),
                name@,
                start as int,
                from as int,
                end as int,
                handler,
            ) == Err::<PropertyView, DiagnosticView>(d@),
        },
{
    let plain = match attrs {
        Some(list) => list.inner.len() == 0,
        None => false,
    };
    if !plain {
        Err(Diagnostic { kind: DiagnosticKind::AttributeNotAllowed, at: start })
    } else if from >= end {
        Err(Diagnostic { kind: DiagnosticKind::ExpectedValue, at: from })
    } else {
        let span = Span { start: from, end };
        if handler {
            Ok(Property { name, ty: PropertyType::SignalHandler(span) })
        } else {
            Ok(Property { name, ty: PropertyType::Assign(span) })
        }
    }
}

/// Reads the properties written from `start` to `end`.
pub(crate) fn parse_properties(tokens: &Vec<Token>, verdicts: &Vec<bool>, start: usize, end: usize) -> (r: Properties)
    requires
        start <= end <= tokens.len(),
    ensures
        r@ == spec_properties(token_views(tokens@), verdicts@, start as int, end as int),
    decreases end - start, 4int,
{
    let ghost ts = token_views(tokens@);
    let ghost names = verdicts@;
    let mut list: Vec<Property> = Vec::new();
    let mut pos: usize = start;
    assert(property_views(list@) + spec_properties(ts, names, start as int, end as int)
        =~= spec_properties(ts, names, start as int, end as int));
    while pos < end
        invariant
            start <= pos <= end <= tokens.len(),
            ts == token_views(tokens@),
            names == verdicts@,
            spec_properties(ts, names, start as int, end as int) == property_views(list@)
                + spec_properties(ts, names, pos as int, end as int),
        decreases end - pos,
    {
        let stop = find_item_end(tokens, pos, end);
        let property = parse_property(tokens, verdicts, pos, stop);
        let ghost before = property_views(list@);
        let ghost one = property@;
        list.push(property);
        let next: usize = if stop < end {
            stop + 1
        } else {
            end
        };
        proof {
            assert(property_views(list@) =~= before.push(one));
            assert(spec_properties(ts, names, end as int, end as int) =~= Seq::<PropertyView>::empty());
            assert(before + spec_properties(ts, names, pos as int, end as int) =~= property_views(list@)
                + spec_properties(ts, names, next as int, end as int));
        }
        pos = next;
    }
    assert(property_views(list@) + spec_properties(ts, names, end as int, end as int) =~= property_views(
        list@,
    ));
    Properties { properties: list }
}

/// Reads the property that the tokens from `start` to `end` stand for.
pub(crate) fn parse_property(tokens: &Vec<Token>, verdicts: &Vec<bool>, start: usize, end: usize) -> (r: Property)
    requires
        start <= end <= tokens.len(),
    ensures
        r@ == spec_property(token_views(tokens@), verdicts@, start as int, end as int),
    decreases end - start, 3int,
{
    match parse_property_result(tokens, verdicts, start, end) {
        Ok(property) => property,
        Err(d) => invalid_property(d),
    }
}

/// Computes [`spec_property_result`].
pub(crate) fn parse_property_result(tokens: &Vec<Token>, verdicts: &Vec<bool>, start: usize, end: usize) -> (r: Result<
    Property,
    Diagnostic,
>)
    requires
        start <= end <= tokens.len(),
    ensures
        match r {
            Ok(p) => spec_property_result(token_views(tokens@), verdicts@, start as int, end as int) == Ok::<
                PropertyView,
                DiagnosticView,
            >(p@),
            Err(d) => spec_property_result(token_views(tokens@), verdicts@, start as int, end as int)
                == Err::<PropertyView, DiagnosticView>(d@),
        },
    decreases end - start, 2int,
{
    let (attrs, after_attrs) = parse_attrs(tokens, verdicts, start, end);
    let (path, after_name) = match parse_name_path(tokens, after_attrs, end) {
        Ok(found) => found,
        Err(d) => {
            return Err(d);
        },
    };
    let name = property_name(path);
    if after_name < end && punct_at(tokens, after_name, ':') {
        value_property(&attrs, name, start, after_name + 1, end, false)
    } else if end - after_name > 1 && joint_at(tokens, after_name, '=') && punct_at(
        tokens,
        after_name + 1,
        '>',
    ) {
        value_property(&attrs, name, start, after_name + 2, end, true)
    } else {
        let (args, after_args) = match parse_group(tokens, after_name, end, Delimiter::Bracket) {
            Ok(found) => found,
            Err(d) => {
                return Err(d);
            },
        };
        if !(after_args < end && punct_at(tokens, after_args, '=')) {
            return Err(Diagnostic { kind: DiagnosticKind::ExpectedAssignment, at: after_args });
        }
        match attrs {
            None => Err(Diagnostic { kind: DiagnosticKind::InvalidAttribute, at: start }),
            Some(list) => match parse_widget(tokens, verdicts, after_args + 1, end, list, args) {
                Ok(widget) => Ok(Property { name, ty: PropertyType::Widget(widget) }),
                Err(d) => Err(d),
            },
        }
    }
}

/// Reads the widget that the tokens from `start` to `end` stand for.
pub(crate) fn parse_widget(
    tokens: &Vec<Token>, verdicts: &Vec<bool>,
    start: usize,
    end: usize,
    attrs: Attrs,
    args: Option<Span>,
) -> (r: Result<Widget, Diagnostic>)
    requires
        start <= end <= tokens.len(),
    ensures
        match r {
            Ok(w) => spec_widget(
                token_views(tokens@), verdicts@,
                start as int,
                end as int,
                attrs@,
                span_option_view(args),
            ) == Ok::<WidgetView, DiagnosticView>(w@),
            Err(d) => spec_widget(
                token_views(tokens@), verdicts@,
                start as int,
                end as int,
                attrs@,
                span_option_view(args),
            ) == Err::<WidgetView, DiagnosticView>(d@),
        },
    decreases end - start, 1int,
{
    let settings = match read_settings(attrs) {
        Ok(s) => s,
        Err(d) => {
            return Err(d);
        },
    };
    let mut pos: usize = start;
    let mutable = pos < end && word_at(tokens, pos, "mut");
    if mutable {
        pos = pos + 1;
    }
    let (given, after_name) = match parse_given_name(tokens, verdicts, pos, end) {
        Ok(found) => found,
        Err(d) => {
            return Err(d);
        },
    };
    pos = after_name;
    let ref_token = pos < end && punct_at(tokens, pos, '&');
    if ref_token {
        pos = pos + 1;
    }
    let deref_token = pos < end && punct_at(tokens, pos, '*');
    if deref_token {
        pos = pos + 1;
    }
    let (func, open) = match parse_func(tokens, pos, end) {
        Ok(found) => found,
        Err(d) => {
            return Err(d);
        },
    };
    if !(open < end && open_at(tokens, open, Delimiter::Brace)) {
        return Err(Diagnostic { kind: DiagnosticKind::ExpectedBody, at: open });
    }
    let close = match find_group_close(tokens, open, end) {
        Some(c) => c,
        None => {
            return Err(Diagnostic { kind: DiagnosticKind::UnclosedDelimiter, at: open });
        },
    };
    let returned_widget = match parse_returned(tokens, verdicts, close + 1, end) {
        Ok(r) => r,
        Err(d) => {
            return Err(d);
        },
    };
    let name = match widget_name(given, settings.name, &func.path) {
        Ok(n) => n,
        Err(d) => {
            return Err(d);
        },
    };
    let properties = parse_properties(tokens, verdicts, open + 1, close);
    Ok(
        Widget {
            doc_attr: settings.doc,
            attr: settings.attr,
            mutable,
            name,
            func,
            args,
            properties,
            wrapper: settings.wrapper,
            ref_token,
            deref_token,
            returned_widget,
        },
    )
}

/// The value of what a function hands back, if it hands anything back.
pub open spec fn returned_option_view(r: Option<ReturnedWidget>) -> Option<ReturnedWidgetView> {
    match r {
        Some(w) => Some(w@),
        None => None,
    }
}

/// Computes [`spec_returned`].
pub(crate) fn parse_returned(tokens: &Vec<Token>, verdicts: &Vec<bool>, pos: usize, end: usize) -> (r: Result<
    Option<ReturnedWidget>,
    Diagnostic,
>)
    requires
        pos <= end <= tokens.len(),
    ensures
        match r {
            Ok(w) => spec_returned(token_views(tokens@), verdicts@, pos as int, end as int) == Ok::<
                Option<ReturnedWidgetView>,
                DiagnosticView,
            >(returned_option_view(w)),
            Err(d) => spec_returned(token_views(tokens@), verdicts@, pos as int, end as int) == Err::<
                Option<ReturnedWidgetView>,
                DiagnosticView,
            >(d@),
        },
    decreases end - pos, 0int,
{
    if pos >= end {
        return Ok(None);
    }
    if !(end - pos > 1 && joint_at(tokens, pos, '-') && punct_at(tokens, pos + 1, '>')) {
        return Err(Diagnostic { kind: DiagnosticKind::UnexpectedToken, at: pos });
    }
    let (name, open) = match parse_returned_name(tokens, verdicts, pos + 2, end) {
        Ok(found) => found,
        Err(d) => {
            return Err(d);
        },
    };
    if !(open < end && open_at(tokens, open, Delimiter::Brace)) {
        return Err(Diagnostic { kind: DiagnosticKind::ExpectedBody, at: open });
    }
    let close = match find_group_close(tokens, open, end) {
        Some(c) => c,
        None => {
            return Err(Diagnostic { kind: DiagnosticKind::UnclosedDelimiter, at: open });
        },
    };
    if close + 1 != end {
        return Err(Diagnostic { kind: DiagnosticKind::UnexpectedToken, at: close + 1 });
    }
    let properties = parse_properties(tokens, verdicts, open + 1, close);
    Ok(Some(ReturnedWidget { name, properties }))
}

} // verus!
