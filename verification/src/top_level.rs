//! The entry point: reading one widget of a description, with the
//! attributes before it, from a cursor over the tokens.
//!
//! Reading never fails. Attributes that are not understood count as no
//! attributes. A widget that cannot be read is replaced by a placeholder
//! widget whose only property holds the reason.
//!
//! What the tokens stand for depends on the tokens and on the verdicts
//! that say which of them are names; the laws below hold for all verdicts.

use vstd::prelude::*;
use crate::ast::{
    AttrView,
    Attrs,
    Ident,
    IdentView,
    Path,
    Properties,
    Property,
    PropertyNameView,
    PropertyTypeView,
    PropertyView,
    TopLevelWidget,
    TopLevelWidgetView,
    Widget,
    WidgetAttr,
    WidgetFunc,
    WidgetFuncView,
    WidgetView,
    ident_views,
    property_views,
};
use crate::attr::{last_root, lemma_no_attributes, parse_attrs, spec_attrs, split_root, without_root};
use crate::diagnostic::{Diagnostic, DiagnosticView};
use crate::names::{lemma_snake_case_fixed, name_verdicts, snake_case, verdicts_for};
use crate::nesting::{find_item_end, item_end, lemma_item_end_stop};
use crate::positions::{ident_option_within, lemma_top_level_within, widget_within};
use crate::report::{properties_diagnostics, widget_diagnostics};
use crate::token::{Delimiter, Token, TokenView, is_open, is_punct, punct_at, token_views};
use crate::widget::{invalid_property, parse_widget, placeholder_property, spec_widget};

verus! {

/// A position in a sequence of tokens: what has been read lies before it.
pub struct TokenCursor {
    tokens: Vec<Token>,
    position: usize,
}

/// The mathematical value of a cursor.
pub struct CursorView {
    pub tokens: Seq<TokenView>,
    pub position: int,
}

impl View for TokenCursor {
    type V = CursorView;

    closed spec fn view(&self) -> CursorView {
        CursorView { tokens: token_views(self.tokens@), position: self.position as int }
    }
}

impl TokenCursor {
    #[verifier::type_invariant]
    spec fn in_bounds(self) -> bool {
        self.position <= self.tokens.len()
    }

    /// A cursor at the start of `tokens`.
    pub fn new(tokens: Vec<Token>) -> (cursor: TokenCursor)
        ensures
            cursor@ == (CursorView { tokens: token_views(tokens@), position: 0 }),
    {
        TokenCursor { tokens, position: 0 }
    }

    /// All tokens, those before the cursor and those after it.
    pub fn tokens(&self) -> (tokens: &Vec<Token>)
        ensures
            token_views(tokens@) == self@.tokens,
    {
        &self.tokens
    }

    /// The number of tokens before the cursor.
    pub fn position(&self) -> (p: usize)
        ensures
            p as int == self@.position,
            0 <= self@.position <= self@.tokens.len(),
    {
        proof {
            use_type_invariant(self);
        }
        self.position
    }

    /// Whether all tokens have been read.
    pub fn is_empty(&self) -> (b: bool)
        ensures
            b == (self@.position >= self@.tokens.len()),
    {
        self.position >= self.tokens.len()
    }

    /// Steps over a comma, if one stands at the cursor, and says whether one
    /// did.
    pub fn skip_comma(&mut self) -> (skipped: bool)
        ensures
            skipped == is_punct(old(self)@.tokens, old(self)@.position, ','),
            final(self)@.tokens == old(self)@.tokens,
            final(self)@.position == old(self)@.position + if skipped {
                1int
            } else {
                0int
            },
    {
        proof {
            use_type_invariant(&*self);
        }
        if punct_at(&self.tokens, self.position, ',') {
            self.position = self.position + 1;
            true
        } else {
            false
        }
    }
}

/// The attributes that a widget keeps where it stands first: all but the
/// root markers; none where the list was not understood.
pub open spec fn kept_attrs(attrs: Option<Seq<AttrView>>) -> Seq<AttrView> {
    match attrs {
        Some(list) => without_root(list),
        None => Seq::empty(),
    }
}

/// The root of a list of attributes; none where the list was not
/// understood.
pub open spec fn root_of(attrs: Option<Seq<AttrView>>) -> Option<IdentView> {
    match attrs {
        Some(list) => last_root(list),
        None => None,
    }
}

/// Where the widget that starts at `start` ends: at the first comma or
/// closing bracket outside of its groups, or with the input. A widget whose
/// brackets do not match reaches to the end of the input.
pub open spec fn top_level_end(ts: Seq<TokenView>, start: int) -> int {
    item_end(ts, start, ts.len() as int)
}

/// What reading the widget at `start`, after its attributes, comes to.
pub open spec fn top_level_body(ts: Seq<TokenView>, names: Seq<bool>, start: int) -> Result<
    WidgetView,
    DiagnosticView,
> {
    let end = top_level_end(ts, start);
    let (attrs, after_attrs) = spec_attrs(ts, names, start, end);
    spec_widget(ts, names, after_attrs, end, kept_attrs(attrs), None)
}

/// The function of the placeholder widget: `gtk::Box`.
pub open spec fn fallback_func(at: int) -> WidgetFuncView {
    WidgetFuncView {
        path: seq![IdentView { name: "gtk"@, at }, IdentView { name: "Box"@, at }],
        args: None,
        method_chain: Seq::empty(),
        ty: None,
    }
}

/// The widget that stands for one that could not be read: its name and
/// function are fixed, and its only property holds the reason `d`.
pub open spec fn spec_fallback(d: DiagnosticView) -> WidgetView {
    WidgetView {
        doc_attr: None,
        attr: WidgetAttr::Absent,
        mutable: false,
        name: IdentView { name: "incorrect_top_level_widget"@, at: d.at },
        func: fallback_func(d.at),
        args: None,
        properties: seq![placeholder_property(d)],
        wrapper: None,
        ref_token: false,
        deref_token: false,
        returned_widget: None,
    }
}

/// What reading at `start` gives: the root marker of the attributes there,
/// and the widget after them or, where that cannot be read, the placeholder
/// widget with the reason.
pub open spec fn spec_top_level(ts: Seq<TokenView>, names: Seq<bool>, start: int) -> TopLevelWidgetView {
    TopLevelWidgetView {
        root_attr: root_of(spec_attrs(ts, names, start, top_level_end(ts, start)).0),
        inner: match top_level_body(ts, names, start) {
            Ok(widget) => widget,
            Err(d) => spec_fallback(d),
        },
    }
}

/// Builds the placeholder for a widget that could not be read for the
/// reason `d`.
pub fn fallback_widget(d: Diagnostic) -> (w: Widget)
    ensures
        w@ == spec_fallback(d@),
{
    let mut segments: Vec<Ident> = Vec::new();
    segments.push(Ident { name: String::from_str("gtk"), at: d.at });
    segments.push(Ident { name: String::from_str("Box"), at: d.at });
    assert(ident_views(segments@) =~= fallback_func(d@.at).path);
    let mut properties: Vec<Property> = Vec::new();
    properties.push(invalid_property(d));
    assert(property_views(properties@) =~= seq![placeholder_property(d@)]);
    let w = Widget {
        doc_attr: None,
        attr: WidgetAttr::Absent,
        mutable: false,
        name: Ident { name: String::from_str("incorrect_top_level_widget"), at: d.at },
        func: WidgetFunc {
            path: Path { segments },
            args: None,
            method_chain: Vec::new(),
            ty: None,
        },
        args: None,
        properties: Properties { properties },
        wrapper: None,
        ref_token: false,
        deref_token: false,
        returned_widget: None,
    };
    assert(w.func@.method_chain =~= Seq::empty());
    w
}

impl TopLevelWidget {
    /// Reads the widget at the cursor, with the attributes before it, and
    /// moves the cursor to where the widget ends. Which tokens are names is
    /// taken from `verdicts`, one for each token; a token without a verdict
    /// is no name.
    ///
    /// The root marker is taken out of the attributes; of several the last
    /// one counts. The widget is read with the attributes that are left.
    /// Where it cannot be read, the result holds the placeholder widget with
    /// the reason.
    pub fn parse_with(input: &mut TokenCursor, verdicts: &Vec<bool>) -> (r: TopLevelWidget)
        ensures
            r@ == spec_top_level(old(input)@.tokens, verdicts@, old(input)@.position),
            final(input)@.tokens == old(input)@.tokens,
            final(input)@.position == top_level_end(old(input)@.tokens, old(input)@.position),
            old(input)@.position <= final(input)@.position <= old(input)@.tokens.len(),
            widget_within(r@.inner, old(input)@.position, final(input)@.position),
            ident_option_within(r@.root_attr, old(input)@.position, final(input)@.position),
    {
        proof {
            use_type_invariant(&*input);
            lemma_top_level_within(
                token_views(input.tokens@),
                verdicts@,
                input.position as int,
            );
        }
        let start: usize = input.position;
        let end: usize = find_item_end(&input.tokens, start, input.tokens.len());
        let (attributes, after_attrs) = parse_attrs(&input.tokens, verdicts, start, end);
        let (attributes, root_attr) = match attributes {
            Some(list) => split_root(list),
            None => {
                let none = Attrs { inner: Vec::new() };
                assert(none@ =~= Seq::<AttrView>::empty());
                (none, None)
            },
        };
        let inner = match parse_widget(
            &input.tokens,
            verdicts,
            after_attrs,
            end,
            attributes,
            None,
        ) {
            Ok(widget) => widget,
            Err(d) => fallback_widget(d),
        };
        input.position = end;
        TopLevelWidget { root_attr, inner }
    }

    /// Reads the widget at the cursor, with the attributes before it, and
    /// moves the cursor to where the widget ends.
    ///
    /// Which tokens are names is asked of `syn` ([`name_verdicts`]); with
    /// the answers the widget is read as [`TopLevelWidget::parse_with`]
    /// reads it. The answers are not fixed by the tokens, so the result is
    /// what the tokens stand for under some verdicts of which
    /// [`verdicts_for`] holds.
    pub fn parse(input: &mut TokenCursor) -> (r: TopLevelWidget)
        ensures
            exists|names: Seq<bool>| #[trigger]
                verdicts_for(old(input)@.tokens, names) && r@ == spec_top_level(
                    old(input)@.tokens,
                    names,
                    old(input)@.position,
                ),
            final(input)@.tokens == old(input)@.tokens,
            final(input)@.position == top_level_end(old(input)@.tokens, old(input)@.position),
            old(input)@.position <= final(input)@.position <= old(input)@.tokens.len(),
            widget_within(r@.inner, old(input)@.position, final(input)@.position),
            ident_option_within(r@.root_attr, old(input)@.position, final(input)@.position),
    {
        let verdicts = name_verdicts(&input.tokens);
        let r = TopLevelWidget::parse_with(input, &verdicts);
        assert(verdicts_for(old(input)@.tokens, verdicts@));
        r
    }
}

/// A widget ends with the input, before a comma or before a closing
/// bracket that was never opened.
pub proof fn lemma_ends_at_separator(ts: Seq<TokenView>, start: int)
    requires
        0 <= start <= ts.len(),
    ensures
        top_level_end(ts, start) == ts.len() || is_punct(ts, top_level_end(ts, start), ',')
            || ts[top_level_end(ts, start)] is Close,
{
    lemma_item_end_stop(ts, start, ts.len() as int);
}

/// Where no `#[` stands at the start, there is no root and the widget is
/// read without attributes.
pub proof fn lemma_without_attributes(ts: Seq<TokenView>, names: Seq<bool>, start: int)
    requires
        !(is_punct(ts, start, '#') && is_open(ts, start + 1, Delimiter::Bracket)),
    ensures
        spec_top_level(ts, names, start).root_attr is None,
        kept_attrs(spec_attrs(ts, names, start, top_level_end(ts, start)).0).len() == 0,
        top_level_body(ts, names, start) == spec_widget(
            ts, names,
            start,
            top_level_end(ts, start),
            Seq::empty(),
            None,
        ),
{
    lemma_no_attributes(ts, names, start, top_level_end(ts, start));
    assert(kept_attrs(spec_attrs(ts, names, start, top_level_end(ts, start)).0) =~= Seq::<
        AttrView,
    >::empty());
}

/// A widget that cannot be read leaves the placeholder widget: one
/// property, which has the fixed name and holds the reason; the fixed name
/// and function; nothing else.
pub proof fn lemma_failure_shape(ts: Seq<TokenView>, names: Seq<bool>, start: int, d: DiagnosticView)
    requires
        top_level_body(ts, names, start) == Err::<WidgetView, DiagnosticView>(d),
    ensures
        spec_top_level(ts, names, start).inner == spec_fallback(d),
        spec_top_level(ts, names, start).inner.properties.len() == 1,
        spec_top_level(ts, names, start).inner.properties[0].name == PropertyNameView::Ident(
            IdentView { name: "invalid_property"@, at: d.at },
        ),
        spec_top_level(ts, names, start).inner.func.path.len() == 2,
        spec_top_level(ts, names, start).inner.func.path[0].name == "gtk"@,
        spec_top_level(ts, names, start).inner.func.path[1].name == "Box"@,
        spec_top_level(ts, names, start).inner.name.name == "incorrect_top_level_widget"@,
{
}

/// The names of the placeholder widget and of its property are in snake
/// case already.
pub proof fn lemma_placeholder_names_normalized()
    ensures
        snake_case("incorrect_top_level_widget"@) == "incorrect_top_level_widget"@,
        snake_case("invalid_property"@) == "invalid_property"@,
{
    reveal_strlit("incorrect_top_level_widget");
    reveal_strlit("invalid_property");
    lemma_snake_case_fixed("incorrect_top_level_widget"@);
    lemma_snake_case_fixed("invalid_property"@);
}

/// The reason that the placeholder widget holds is the one that reading
/// the widget gave, unchanged, and it is the only failure in the tree.
pub proof fn lemma_failure_diagnostic(ts: Seq<TokenView>, names: Seq<bool>, start: int, d: DiagnosticView)
    requires
        top_level_body(ts, names, start) == Err::<WidgetView, DiagnosticView>(d),
    ensures
        spec_top_level(ts, names, start).inner.properties[0].ty
            == PropertyTypeView::ParseError(d),
        widget_diagnostics(spec_top_level(ts, names, start).inner) == seq![d],
{
    let properties = spec_top_level(ts, names, start).inner.properties;
    assert(properties.drop_last() =~= Seq::<PropertyView>::empty());
    reveal_with_fuel(properties_diagnostics, 2);
    assert(widget_diagnostics(spec_top_level(ts, names, start).inner) =~= seq![d]);
}

/// Reading gives a widget whatever the tokens are: the one that stands
/// there or, where none can be read, the placeholder with the reason.
pub proof fn lemma_always_a_widget(ts: Seq<TokenView>, names: Seq<bool>, start: int)
    ensures
        match top_level_body(ts, names, start) {
            Ok(widget) => spec_top_level(ts, names, start).inner == widget,
            Err(d) => spec_top_level(ts, names, start).inner == spec_fallback(d),
        },
{
}

} // verus!
