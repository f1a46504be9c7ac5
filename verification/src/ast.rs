//! The tree that a parse produces, and the mathematical value of each of its
//! nodes.
//!
//! Positions and spans count tokens of the input. Text that the tree holds
//! is copied from the tokens; the value of a node (its view) holds the same
//! text as a sequence of characters.

use vstd::prelude::*;
use crate::diagnostic::{Diagnostic, DiagnosticView};

verus! {

/// A half-open range of token positions.
#[derive(Clone, Copy, Debug, PartialEq, Eq, Structural)]
pub struct Span {
    pub start: usize,
    pub end: usize,
}

pub struct SpanView {
    pub start: int,
    pub end: int,
}

impl View for Span {
    type V = SpanView;

    open spec fn view(&self) -> SpanView {
        SpanView { start: self.start as int, end: self.end as int }
    }
}

/// A name, and the position of the token that gave rise to it.
#[derive(Clone, Debug, PartialEq, Eq)]
pub struct Ident {
    pub name: String,
    pub at: usize,
}

pub struct IdentView {
    pub name: Seq<char>,
    pub at: int,
}

impl View for Ident {
    type V = IdentView;

    open spec fn view(&self) -> IdentView {
        IdentView { name: self.name@, at: self.at as int }
    }
}

/// The values of a sequence of names, one for one.
pub open spec fn ident_views(idents: Seq<Ident>) -> Seq<IdentView> {
    idents.map_values(|i: Ident| i@)
}

/// Names separated by `::`; never empty where a parse produced it.
#[derive(Clone, Debug, PartialEq, Eq)]
pub struct Path {
    pub segments: Vec<Ident>,
}

impl View for Path {
    type V = Seq<IdentView>;

    open spec fn view(&self) -> Seq<IdentView> {
        ident_views(self.segments@)
    }
}

/// The value of an optional path.
pub open spec fn path_option_view(path: Option<Path>) -> Option<Seq<IdentView>> {
    match path {
        Some(p) => Some(p@),
        None => None,
    }
}

/// The value of an optional name.
pub open spec fn ident_option_view(ident: Option<Ident>) -> Option<IdentView> {
    match ident {
        Some(i) => Some(i@),
        None => None,
    }
}

/// The value of an optional span.
pub open spec fn span_option_view(span: Option<Span>) -> Option<SpanView> {
    match span {
        Some(s) => Some(s@),
        None => None,
    }
}

/// The value of an optional text.
pub open spec fn text_option_view(text: Option<String>) -> Option<Seq<char>> {
    match text {
        Some(s) => Some(s@),
        None => None,
    }
}

/// An attribute: a marker in `#[...]` before a widget.
#[derive(Clone, Debug, PartialEq, Eq)]
pub enum Attr {
    /// `#[doc = "..."]`: documentation, as the literal was written.
    Doc(String),
    /// `#[local]`: the widget exists already and is owned.
    Local(Ident),
    /// `#[local_ref]`: the widget exists already and is borrowed.
    LocalRef(Ident),
    /// `#[root]`: the widget is the root of its tree.
    Root(Ident),
    /// `#[name = n]`: the widget is called `n`.
    Name(Ident),
    /// `#[wrap(p)]`: the widget is handed on wrapped in a call of `p`.
    Wrap(Path),
}

pub enum AttrView {
    Doc(Seq<char>),
    Local(IdentView),
    LocalRef(IdentView),
    Root(IdentView),
    Name(IdentView),
    Wrap(Seq<IdentView>),
}

impl View for Attr {
    type V = AttrView;

    open spec fn view(&self) -> AttrView {
        match *self {
            Attr::Doc(s) => AttrView::Doc(s@),
            Attr::Local(i) => AttrView::Local(i@),
            Attr::LocalRef(i) => AttrView::LocalRef(i@),
            Attr::Root(i) => AttrView::Root(i@),
            Attr::Name(i) => AttrView::Name(i@),
            Attr::Wrap(p) => AttrView::Wrap(p@),
        }
    }
}

/// The values of a sequence of attributes, one for one.
pub open spec fn attr_views(attrs: Seq<Attr>) -> Seq<AttrView> {
    attrs.map_values(|a: Attr| a@)
}

/// An ordered list of attributes.
#[derive(Clone, Debug, PartialEq, Eq)]
pub struct Attrs {
    pub inner: Vec<Attr>,
}

impl View for Attrs {
    type V = Seq<AttrView>;

    open spec fn view(&self) -> Seq<AttrView> {
        attr_views(self.inner@)
    }
}

/// Whether a widget is built anew or exists already.
#[derive(Clone, Copy, Debug, PartialEq, Eq, Structural)]
pub enum WidgetAttr {
    /// No such attribute: the widget is built by its function.
    Absent,
    /// `#[local]`
    Local,
    /// `#[local_ref]`
    LocalRef,
}

/// One call in a method chain: `.name(args)`.
#[derive(Clone, Debug, PartialEq, Eq)]
pub struct MethodCall {
    pub name: Ident,
    /// The tokens between the parentheses.
    pub args: Span,
}

pub struct MethodCallView {
    pub name: IdentView,
    pub args: SpanView,
}

impl View for MethodCall {
    type V = MethodCallView;

    open spec fn view(&self) -> MethodCallView {
        MethodCallView { name: self.name@, args: self.args@ }
    }
}

/// The values of a method chain, one for one.
pub open spec fn chain_views(chain: Seq<MethodCall>) -> Seq<MethodCallView> {
    chain.map_values(|c: MethodCall| c@)
}

/// How the object behind a widget is made: a path, its arguments, the
/// methods called on the result in turn, and the type of what comes out.
#[derive(Clone, Debug, PartialEq, Eq)]
pub struct WidgetFunc {
    pub path: Path,
    /// The tokens between the parentheses after the path, if there are any.
    pub args: Option<Span>,
    pub method_chain: Vec<MethodCall>,
    pub ty: Option<Path>,
}

pub struct WidgetFuncView {
    pub path: Seq<IdentView>,
    pub args: Option<SpanView>,
    pub method_chain: Seq<MethodCallView>,
    pub ty: Option<Seq<IdentView>>,
}

impl View for WidgetFunc {
    type V = WidgetFuncView;

    open spec fn view(&self) -> WidgetFuncView {
        WidgetFuncView {
            path: self.path@,
            args: span_option_view(self.args),
            method_chain: chain_views(self.method_chain@),
            ty: path_option_view(self.ty),
        }
    }
}

/// The name of a property: one name, or a path of several.
#[derive(Clone, Debug, PartialEq, Eq)]
pub enum PropertyName {
    Ident(Ident),
    Path(Path),
}

pub enum PropertyNameView {
    Ident(IdentView),
    Path(Seq<IdentView>),
}

impl View for PropertyName {
    type V = PropertyNameView;

    open spec fn view(&self) -> PropertyNameView {
        match *self {
            PropertyName::Ident(i) => PropertyNameView::Ident(i@),
            PropertyName::Path(p) => PropertyNameView::Path(p@),
        }
    }
}

/// What a property holds.
#[derive(Debug, PartialEq, Eq)]
pub enum PropertyType {
    /// `name: value`; the span is that of the value.
    Assign(Span),
    /// `name => handler`; the span is that of the handler.
    SignalHandler(Span),
    /// `name = widget`: a widget nested in this one.
    Widget(Widget),
    /// The property could not be read; this is why.
    ParseError(Diagnostic),
}

pub enum PropertyTypeView {
    Assign(SpanView),
    SignalHandler(SpanView),
    Widget(WidgetView),
    ParseError(DiagnosticView),
}

/// A named setting of a widget.
#[derive(Debug, PartialEq, Eq)]
pub struct Property {
    pub name: PropertyName,
    pub ty: PropertyType,
}

pub struct PropertyView {
    pub name: PropertyNameView,
    pub ty: PropertyTypeView,
}

/// The properties of a widget, in the order in which they were written.
#[derive(Debug, PartialEq, Eq)]
pub struct Properties {
    pub properties: Vec<Property>,
}

/// What the function of a widget hands back where that is another object
/// than the widget: its name, if it has one, and its properties.
#[derive(Debug, PartialEq, Eq)]
pub struct ReturnedWidget {
    pub name: Option<Ident>,
    pub properties: Properties,
}

pub struct ReturnedWidgetView {
    pub name: Option<IdentView>,
    pub properties: Seq<PropertyView>,
}

/// One node of the tree.
#[derive(Debug, PartialEq, Eq)]
pub struct Widget {
    pub doc_attr: Option<String>,
    pub attr: WidgetAttr,
    pub mutable: bool,
    pub name: Ident,
    pub func: WidgetFunc,
    /// The arguments with which the widget is handed to its parent.
    pub args: Option<Span>,
    pub properties: Properties,
    pub wrapper: Option<Path>,
    pub ref_token: bool,
    pub deref_token: bool,
    pub returned_widget: Option<ReturnedWidget>,
}

pub struct WidgetView {
    pub doc_attr: Option<Seq<char>>,
    pub attr: WidgetAttr,
    pub mutable: bool,
    pub name: IdentView,
    pub func: WidgetFuncView,
    pub args: Option<SpanView>,
    pub properties: Seq<PropertyView>,
    pub wrapper: Option<Seq<IdentView>>,
    pub ref_token: bool,
    pub deref_token: bool,
    pub returned_widget: Option<ReturnedWidgetView>,
}

impl View for Widget {
    type V = WidgetView;

    open spec fn view(&self) -> WidgetView
        decreases self,
    {
        WidgetView {
            doc_attr: text_option_view(self.doc_attr),
            attr: self.attr,
            mutable: self.mutable,
            name: self.name@,
            func: self.func@,
            args: span_option_view(self.args),
            properties: self.properties@,
            wrapper: path_option_view(self.wrapper),
            ref_token: self.ref_token,
            deref_token: self.deref_token,
            returned_widget: match self.returned_widget {
                Some(r) => Some(r@),
                None => None,
            },
        }
    }
}

impl View for ReturnedWidget {
    type V = ReturnedWidgetView;

    open spec fn view(&self) -> ReturnedWidgetView
        decreases self,
    {
        ReturnedWidgetView { name: ident_option_view(self.name), properties: self.properties@ }
    }
}

/// The values of a sequence of properties, one for one.
pub open spec fn property_views(properties: Seq<Property>) -> Seq<PropertyView>
    decreases properties,
{
    Seq::new(
        properties.len(),
        |i: int|
            if 0 <= i < properties.len() {
                properties[i]@
            } else {
                arbitrary()
            },
    )
}

impl View for Properties {
    type V = Seq<PropertyView>;

    open spec fn view(&self) -> Seq<PropertyView>
        decreases self,
    {
        property_views(self.properties@)
    }
}

impl View for Property {
    type V = PropertyView;

    open spec fn view(&self) -> PropertyView
        decreases self,
    {
        PropertyView {
            name: self.name@,
            ty: match self.ty {
                PropertyType::Assign(s) => PropertyTypeView::Assign(s@),
                PropertyType::SignalHandler(s) => PropertyTypeView::SignalHandler(s@),
                PropertyType::Widget(w) => PropertyTypeView::Widget(w@),
                PropertyType::ParseError(d) => PropertyTypeView::ParseError(d@),
            },
        }
    }
}

/// The result of a parse: the root marker, if the widget had one, and the
/// widget.
#[derive(Debug, PartialEq, Eq)]
pub struct TopLevelWidget {
    pub root_attr: Option<Ident>,
    pub inner: Widget,
}

pub struct TopLevelWidgetView {
    pub root_attr: Option<IdentView>,
    pub inner: WidgetView,
}

impl View for TopLevelWidget {
    type V = TopLevelWidgetView;

    open spec fn view(&self) -> TopLevelWidgetView {
        TopLevelWidgetView { root_attr: ident_option_view(self.root_attr), inner: self.inner@ }
    }
}

} // verus!
