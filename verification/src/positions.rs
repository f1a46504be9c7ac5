//! Positions: every position and span that a tree holds lies among the
//! tokens that the tree was read from.

use vstd::prelude::*;
use crate::ast::{
    AttrView,
    IdentView,
    MethodCallView,
    PropertyNameView,
    PropertyTypeView,
    PropertyView,
    SpanView,
    WidgetAttr,
    WidgetFuncView,
    WidgetView,
};
use crate::attr::{
    attrs_from,
    last_root,
    lemma_attrs_bounds,
    spec_attr,
    spec_attrs,
    with_attr,
    without_root,
};
use crate::diagnostic::DiagnosticView;
use crate::func::{
    lemma_chain_bounds,
    lemma_func_bounds,
    lemma_group_bounds,
    spec_chain,
    spec_func,
    spec_group,
};
use crate::nesting::{group_close, item_end, lemma_group_close_bounds, lemma_item_end_bounds};
use crate::path::{
    ident_of,
    lemma_name_path_bounds,
    lemma_path_bounds,
    name_tail,
    path_tail,
    separator_len,
    spec_name_path,
    spec_path,
};
use crate::token::{Delimiter, TokenView, is_ident, is_joint, is_open, is_punct};
use crate::top_level::{kept_attrs, spec_fallback, spec_top_level, top_level_body, top_level_end};
use crate::widget::{
    SettingsView,
    no_settings,
    settings_from,
    spec_given_name,
    spec_properties,
    spec_property,
    spec_property_result,
    spec_punct_flag,
    spec_returned,
    spec_returned_name,
    spec_settings,
    spec_widget,
    spec_word_flag,
};

verus! {

/// The position is one of `lo` to `hi`.
pub open spec fn at_within(at: int, lo: int, hi: int) -> bool {
    lo <= at <= hi
}

/// The span is a range between `lo` and `hi`.
pub open spec fn span_within(span: SpanView, lo: int, hi: int) -> bool {
    lo <= span.start <= span.end <= hi
}

/// The span, if there is one, is a range between `lo` and `hi`.
pub open spec fn span_option_within(span: Option<SpanView>, lo: int, hi: int) -> bool {
    span matches Some(s) ==> span_within(s, lo, hi)
}

/// The name, if there is one, stands between `lo` and `hi`.
pub open spec fn ident_option_within(ident: Option<IdentView>, lo: int, hi: int) -> bool {
    ident matches Some(i) ==> at_within(i.at, lo, hi)
}

/// Every segment stands between `lo` and `hi`.
pub open spec fn path_within(path: Seq<IdentView>, lo: int, hi: int) -> bool {
    forall|i: int| 0 <= i < path.len() ==> at_within((#[trigger] path[i]).at, lo, hi)
}

/// Every segment of the path, if there is one, stands between `lo` and
/// `hi`.
pub open spec fn path_option_within(path: Option<Seq<IdentView>>, lo: int, hi: int) -> bool {
    path matches Some(p) ==> path_within(p, lo, hi)
}

/// What the attribute holds stands between `lo` and `hi`.
pub open spec fn attr_within(attr: AttrView, lo: int, hi: int) -> bool {
    match attr {
        AttrView::Doc(_) => true,
        AttrView::Local(i) => at_within(i.at, lo, hi),
        AttrView::LocalRef(i) => at_within(i.at, lo, hi),
        AttrView::Root(i) => at_within(i.at, lo, hi),
        AttrView::Name(i) => at_within(i.at, lo, hi),
        AttrView::Wrap(p) => path_within(p, lo, hi),
    }
}

/// What the attributes hold stands between `lo` and `hi`.
pub open spec fn attrs_within(attrs: Seq<AttrView>, lo: int, hi: int) -> bool {
    forall|i: int| 0 <= i < attrs.len() ==> attr_within(#[trigger] attrs[i], lo, hi)
}

/// The names and arguments of the calls stand between `lo` and `hi`.
pub open spec fn chain_within(chain: Seq<MethodCallView>, lo: int, hi: int) -> bool {
    forall|i: int|
        0 <= i < chain.len() ==> at_within((#[trigger] chain[i]).name.at, lo, hi) && span_within(
            chain[i].args,
            lo,
            hi,
        )
}

/// All parts of the function stand between `lo` and `hi`.
pub open spec fn func_within(func: WidgetFuncView, lo: int, hi: int) -> bool {
    &&& path_within(func.path, lo, hi)
    &&& span_option_within(func.args, lo, hi)
    &&& chain_within(func.method_chain, lo, hi)
    &&& path_option_within(func.ty, lo, hi)
}

/// The name of the property stands between `lo` and `hi`.
pub open spec fn property_name_within(name: PropertyNameView, lo: int, hi: int) -> bool {
    match name {
        PropertyNameView::Ident(i) => at_within(i.at, lo, hi),
        PropertyNameView::Path(p) => path_within(p, lo, hi),
    }
}

/// What the attributes said of a widget stands between `lo` and `hi`.
pub open spec fn settings_within(settings: SettingsView, lo: int, hi: int) -> bool {
    ident_option_within(settings.name, lo, hi) && path_option_within(settings.wrapper, lo, hi)
}

/// All positions and spans in the widget, and in the widgets nested in it,
/// lie between `lo` and `hi`.
pub open spec fn widget_within(widget: WidgetView, lo: int, hi: int) -> bool
    decreases widget,
{
    &&& at_within(widget.name.at, lo, hi)
    &&& func_within(widget.func, lo, hi)
    &&& span_option_within(widget.args, lo, hi)
    &&& properties_within(widget.properties, lo, hi)
    &&& path_option_within(widget.wrapper, lo, hi)
    &&& match widget.returned_widget {
        Some(returned) => ident_option_within(returned.name, lo, hi) && properties_within(
            returned.properties,
            lo,
            hi,
        ),
        None => true,
    }
}

/// All positions and spans in the properties lie between `lo` and `hi`.
pub open spec fn properties_within(properties: Seq<PropertyView>, lo: int, hi: int) -> bool
    decreases properties,
{
    forall|i: int|
        0 <= i < properties.len() ==> property_within(#[trigger] properties[i], lo, hi)
}

/// All positions and spans in the property lie between `lo` and `hi`.
pub open spec fn property_within(property: PropertyView, lo: int, hi: int) -> bool
    decreases property,
{
    &&& property_name_within(property.name, lo, hi)
    &&& match property.ty {
        PropertyTypeView::Assign(span) => span_within(span, lo, hi),
        PropertyTypeView::SignalHandler(span) => span_within(span, lo, hi),
        PropertyTypeView::Widget(widget) => widget_within(widget, lo, hi),
        PropertyTypeView::ParseError(d) => at_within(d.at, lo, hi),
    }
}

/// What a parse of `T` gave lies between `lo` and `hi`: the failure, if it
/// failed.
pub open spec fn failure_within<T>(r: Result<T, DiagnosticView>, lo: int, hi: int) -> bool {
    r matches Err(d) ==> at_within(d.at, lo, hi)
}

proof fn lemma_path_tail_within(
    ts: Seq<TokenView>,
    pos: int,
    end: int,
    found: Seq<IdentView>,
    lo: int,
    hi: int,
)
    requires
        lo <= pos <= end <= hi,
        path_within(found, lo, hi),
    ensures
        path_within(path_tail(ts, pos, end, found).0, lo, hi),
    decreases end - pos,
{
    if pos + 2 < end && is_joint(ts, pos, ':') && is_punct(ts, pos + 1, ':') && is_ident(
        ts,
        pos + 2,
    ) {
        let next = found.push(ident_of(ts, pos + 2));
        assert forall|i: int| 0 <= i < next.len() implies at_within(
            (#[trigger] next[i]).at,
            lo,
            hi,
        ) by {
            if i < found.len() {
                assert(next[i] == found[i]);
            }
        }
        lemma_path_tail_within(ts, pos + 3, end, next, lo, hi);
    }
}

/// The segments of a path stand between the bounds of the range that it
/// was read from, and so does the failure.
pub proof fn lemma_path_within(ts: Seq<TokenView>, start: int, end: int, lo: int, hi: int)
    requires
        lo <= start <= end <= hi,
    ensures
        failure_within(spec_path(ts, start, end), lo, hi),
        spec_path(ts, start, end) matches Ok((path, _)) ==> path_within(path, lo, hi),
{
    if start < end && is_ident(ts, start) {
        lemma_path_tail_within(ts, start + 1, end, seq![ident_of(ts, start)], lo, hi);
    }
}

proof fn lemma_name_tail_within(
    ts: Seq<TokenView>,
    pos: int,
    end: int,
    found: Seq<IdentView>,
    lo: int,
    hi: int,
)
    requires
        lo <= pos <= end <= hi,
        path_within(found, lo, hi),
    ensures
        path_within(name_tail(ts, pos, end, found).0, lo, hi),
    decreases end - pos,
{
    let n = separator_len(ts, pos, end);
    if n > 0 && pos + n < end && is_ident(ts, pos + n) {
        let next = found.push(ident_of(ts, pos + n));
        assert forall|i: int| 0 <= i < next.len() implies at_within(
            (#[trigger] next[i]).at,
            lo,
            hi,
        ) by {
            if i < found.len() {
                assert(next[i] == found[i]);
            }
        }
        lemma_name_tail_within(ts, pos + n + 1, end, next, lo, hi);
    }
}

/// The segments of the name of a property stand between the bounds of the
/// range that it was read from, and so does the failure.
pub proof fn lemma_name_path_within(ts: Seq<TokenView>, start: int, end: int, lo: int, hi: int)
    requires
        lo <= start <= end <= hi,
    ensures
        failure_within(spec_name_path(ts, start, end), lo, hi),
        spec_name_path(ts, start, end) matches Ok((path, _)) ==> path_within(path, lo, hi),
{
    if start < end && is_ident(ts, start) {
        lemma_name_tail_within(ts, start + 1, end, seq![ident_of(ts, start)], lo, hi);
    }
}

proof fn lemma_group_within(
    ts: Seq<TokenView>,
    pos: int,
    end: int,
    d: Delimiter,
    lo: int,
    hi: int,
)
    requires
        lo <= pos <= end <= hi,
    ensures
        failure_within(spec_group(ts, pos, end, d), lo, hi),
        spec_group(ts, pos, end, d) matches Ok((span, _)) ==> span_option_within(span, lo, hi),
{
    lemma_group_close_bounds(ts, pos, end);
}

proof fn lemma_chain_within(
    ts: Seq<TokenView>,
    pos: int,
    end: int,
    found: Seq<MethodCallView>,
    lo: int,
    hi: int,
)
    requires
        lo <= pos <= end <= hi,
        chain_within(found, lo, hi),
    ensures
        failure_within(spec_chain(ts, pos, end, found), lo, hi),
        spec_chain(ts, pos, end, found) matches Ok((chain, _)) ==> chain_within(chain, lo, hi),
    decreases end - pos,
{
    if pos + 2 < end && is_punct(ts, pos, '.') && is_ident(ts, pos + 1) && is_open(
        ts,
        pos + 2,
        Delimiter::Parenthesis,
    ) {
        lemma_group_close_bounds(ts, pos + 2, end);
        match group_close(ts, pos + 2, end) {
            Some(close) => {
                let call = MethodCallView {
                    name: ident_of(ts, pos + 1),
                    args: SpanView { start: pos + 3, end: close },
                };
                let next = found.push(call);
                assert forall|i: int| 0 <= i < next.len() implies at_within(
                    (#[trigger] next[i]).name.at,
                    lo,
                    hi,
                ) && span_within(next[i].args, lo, hi) by {
                    if i < found.len() {
                        assert(next[i] == found[i]);
                    }
                }
                lemma_chain_within(ts, close + 1, end, next, lo, hi);
            },
            None => {},
        }
    }
}

/// The parts of a function stand between the bounds of the range that it
/// was read from, and so does the failure.
pub proof fn lemma_func_within(ts: Seq<TokenView>, start: int, end: int, lo: int, hi: int)
    requires
        lo <= start <= end <= hi,
    ensures
        failure_within(spec_func(ts, start, end), lo, hi),
        spec_func(ts, start, end) matches Ok((func, _)) ==> func_within(func, lo, hi),
{
    lemma_path_within(ts, start, end, lo, hi);
    lemma_path_bounds(ts, start, end);
    match spec_path(ts, start, end) {
        Ok((path, after_path)) => {
            lemma_group_within(ts, after_path, end, Delimiter::Parenthesis, lo, hi);
            lemma_group_bounds(ts, after_path, end, Delimiter::Parenthesis);
            match spec_group(ts, after_path, end, Delimiter::Parenthesis) {
                Ok((args, after_args)) => {
                    lemma_chain_within(ts, after_args, end, Seq::empty(), lo, hi);
                    lemma_chain_bounds(ts, after_args, end, Seq::empty());
                    match spec_chain(ts, after_args, end, Seq::empty()) {
                        Ok((chain, after_chain)) => {
                            if after_chain + 1 < end {
                                lemma_path_within(ts, after_chain + 2, end, lo, hi);
                            }
                        },
                        Err(_) => {},
                    }
                },
                Err(_) => {},
            }
        },
        Err(_) => {},
    }
}

proof fn lemma_attr_within(ts: Seq<TokenView>, names: Seq<bool>, start: int, end: int, lo: int, hi: int)
    requires
        lo <= start <= end <= hi,
    ensures
        spec_attr(ts, names, start, end) matches Some(attr) ==> attr_within(attr, lo, hi),
{
    if end >= start + 4 {
        lemma_path_within(ts, start + 2, end - 1, lo, hi);
    }
}

proof fn lemma_attrs_from_within(
    ts: Seq<TokenView>, names: Seq<bool>,
    pos: int,
    end: int,
    list: Option<Seq<AttrView>>,
    lo: int,
    hi: int,
)
    requires
        lo <= pos <= end <= hi,
        list matches Some(l) ==> attrs_within(l, lo, hi),
    ensures
        attrs_from(ts, names, pos, end, list).0 matches Some(l) ==> attrs_within(l, lo, hi),
    decreases end - pos,
{
    if pos + 1 < end && is_punct(ts, pos, '#') && is_open(ts, pos + 1, Delimiter::Bracket) {
        lemma_group_close_bounds(ts, pos + 1, end);
        match group_close(ts, pos + 1, end) {
            Some(close) => {
                lemma_attr_within(ts, names, pos + 2, close, lo, hi);
                let next = with_attr(list, spec_attr(ts, names, pos + 2, close));
                match (list, spec_attr(ts, names, pos + 2, close)) {
                    (Some(l), Some(a)) => {
                        let longer = l.push(a);
                        assert forall|i: int| 0 <= i < longer.len() implies attr_within(
                            #[trigger] longer[i],
                            lo,
                            hi,
                        ) by {
                            if i < l.len() {
                                assert(longer[i] == l[i]);
                            }
                        }
                    },
                    _ => {},
                }
                lemma_attrs_from_within(ts, names, close + 1, end, next, lo, hi);
            },
            None => {},
        }
    }
}

/// What the attributes at `start` hold stands between the bounds of the
/// range that they were read from.
pub proof fn lemma_attrs_within(ts: Seq<TokenView>, names: Seq<bool>, start: int, end: int, lo: int, hi: int)
    requires
        lo <= start <= end <= hi,
    ensures
        spec_attrs(ts, names, start, end).0 matches Some(l) ==> attrs_within(l, lo, hi),
{
    lemma_attrs_from_within(ts, names, start, end, Some(Seq::empty()), lo, hi);
}

/// Taking the root out of a list leaves what the other attributes hold
/// where it was, and the root comes from the list.
pub proof fn lemma_split_within(attrs: Seq<AttrView>, lo: int, hi: int)
    requires
        attrs_within(attrs, lo, hi),
    ensures
        attrs_within(without_root(attrs), lo, hi),
        ident_option_within(last_root(attrs), lo, hi),
        forall|i: int| 0 <= i < without_root(attrs).len() ==> !(#[trigger] without_root(
            attrs,
        )[i] is Root),
    decreases attrs.len(),
{
    reveal(Seq::filter);
    if attrs.len() > 0 {
        let front = attrs.drop_last();
        assert forall|i: int| 0 <= i < front.len() implies attr_within(
            #[trigger] front[i],
            lo,
            hi,
        ) by {
            assert(front[i] == attrs[i]);
        }
        lemma_split_within(front, lo, hi);
        let kept = without_root(front);
        let last = attrs.last();
        assert(attr_within(last, lo, hi));
        if !(last is Root) {
            let longer = kept.push(last);
            assert(without_root(attrs) == longer);
            assert forall|i: int| 0 <= i < longer.len() implies attr_within(
                #[trigger] longer[i],
                lo,
                hi,
            ) && !(longer[i] is Root) by {
                if i < kept.len() {
                    assert(longer[i] == kept[i]);
                }
            }
        }
    }
}

proof fn lemma_settings_within(
    attrs: Seq<AttrView>,
    i: int,
    so_far: SettingsView,
    lo: int,
    hi: int,
)
    requires
        attrs_within(attrs, lo, hi),
        settings_within(so_far, lo, hi),
    ensures
        failure_within(settings_from(attrs, i, so_far), lo, hi),
        settings_from(attrs, i, so_far) matches Ok(s) ==> settings_within(s, lo, hi),
    decreases attrs.len() - i,
{
    if 0 <= i < attrs.len() {
        assert(attr_within(attrs[i], lo, hi));
        match attrs[i] {
            AttrView::Root(_) => {},
            AttrView::Local(_) => lemma_settings_within(
                attrs,
                i + 1,
                SettingsView { attr: WidgetAttr::Local, ..so_far },
                lo,
                hi,
            ),
            AttrView::LocalRef(_) => lemma_settings_within(
                attrs,
                i + 1,
                SettingsView { attr: WidgetAttr::LocalRef, ..so_far },
                lo,
                hi,
            ),
            AttrView::Doc(text) => lemma_settings_within(
                attrs,
                i + 1,
                SettingsView { doc: Some(text), ..so_far },
                lo,
                hi,
            ),
            AttrView::Name(name) => lemma_settings_within(
                attrs,
                i + 1,
                SettingsView { name: Some(name), ..so_far },
                lo,
                hi,
            ),
            AttrView::Wrap(path) => lemma_settings_within(
                attrs,
                i + 1,
                SettingsView { wrapper: Some(path), ..so_far },
                lo,
                hi,
            ),
        }
    }
}

/// The properties read from a range hold positions and spans of that
/// range only.
pub proof fn lemma_properties_within(ts: Seq<TokenView>, names: Seq<bool>, start: int, end: int, lo: int, hi: int)
    requires
        lo <= start <= end <= hi,
    ensures
        properties_within(spec_properties(ts, names, start, end), lo, hi),
    decreases end - start, 4int,
{
    if start < end {
        let stop = item_end(ts, start, end);
        lemma_item_end_bounds(ts, start, end);
        lemma_property_within(ts, names, start, stop, lo, hi);
        let first = spec_property(ts, names, start, stop);
        let rest = if stop < end {
            spec_properties(ts, names, stop + 1, end)
        } else {
            Seq::empty()
        };
        if stop < end {
            lemma_properties_within(ts, names, stop + 1, end, lo, hi);
        }
        let all = seq![first] + rest;
        assert(spec_properties(ts, names, start, end) == all);
        assert forall|i: int| 0 <= i < all.len() implies property_within(
            #[trigger] all[i],
            lo,
            hi,
        ) by {
            if i > 0 {
                assert(all[i] == rest[i - 1]);
            }
        }
    }
}

/// The property read from a range holds positions and spans of that range
/// only.
pub proof fn lemma_property_within(ts: Seq<TokenView>, names: Seq<bool>, start: int, end: int, lo: int, hi: int)
    requires
        lo <= start <= end <= hi,
    ensures
        property_within(spec_property(ts, names, start, end), lo, hi),
    decreases end - start, 3int,
{
    lemma_property_result_within(ts, names, start, end, lo, hi);
}

proof fn lemma_property_result_within(ts: Seq<TokenView>, names: Seq<bool>, start: int, end: int, lo: int, hi: int)
    requires
        lo <= start <= end <= hi,
    ensures
        failure_within(spec_property_result(ts, names, start, end), lo, hi),
        spec_property_result(ts, names, start, end) matches Ok(p) ==> property_within(p, lo, hi),
    decreases end - start, 2int,
{
    let (attrs, after_attrs) = spec_attrs(ts, names, start, end);
    lemma_attrs_bounds(ts, names, start, end, Some(Seq::empty()));
    lemma_attrs_within(ts, names, start, end, lo, hi);
    lemma_name_path_within(ts, after_attrs, end, lo, hi);
    lemma_name_path_bounds(ts, after_attrs, end);
    match spec_name_path(ts, after_attrs, end) {
        Err(_) => {},
        Ok((path, after_name)) => {
            assert(at_within(path[0].at, lo, hi));
            if after_name < end && is_punct(ts, after_name, ':') {
            } else if after_name + 1 < end && is_joint(ts, after_name, '=') && is_punct(
                ts,
                after_name + 1,
                '>',
            ) {
            } else {
                lemma_group_within(ts, after_name, end, Delimiter::Bracket, lo, hi);
                lemma_group_bounds(ts, after_name, end, Delimiter::Bracket);
                match spec_group(ts, after_name, end, Delimiter::Bracket) {
                    Err(_) => {},
                    Ok((args, after_args)) => {
                        if after_args < end && is_punct(ts, after_args, '=') {
                            match attrs {
                                None => {},
                                Some(list) => {
                                    lemma_widget_within(
                                        ts, names,
                                        after_args + 1,
                                        end,
                                        list,
                                        args,
                                        lo,
                                        hi,
                                    );
                                },
                            }
                        }
                    },
                }
            }
        },
    }
}

/// The widget read from a range holds positions and spans of that range
/// only, apart from what its attributes and arguments brought along.
pub proof fn lemma_widget_within(
    ts: Seq<TokenView>, names: Seq<bool>,
    start: int,
    end: int,
    attrs: Seq<AttrView>,
    args: Option<SpanView>,
    lo: int,
    hi: int,
)
    requires
        lo <= start <= end <= hi,
        attrs_within(attrs, lo, hi),
        span_option_within(args, lo, hi),
    ensures
        failure_within(spec_widget(ts, names, start, end, attrs, args), lo, hi),
        spec_widget(ts, names, start, end, attrs, args) matches Ok(w) ==> widget_within(w, lo, hi),
    decreases end - start, 1int,
{
    lemma_settings_within(attrs, 0, no_settings(), lo, hi);
    match spec_settings(attrs) {
        Err(_) => {},
        Ok(settings) => {
            let (mutable, after_mut) = spec_word_flag(ts, start, end, "mut"@);
            match spec_given_name(ts, names, after_mut, end) {
                Err(_) => {},
                Ok((given, after_name)) => {
                    let (ref_token, after_ref) = spec_punct_flag(ts, after_name, end, '&');
                    let (deref_token, after_deref) = spec_punct_flag(ts, after_ref, end, '*');
                    lemma_func_within(ts, after_deref, end, lo, hi);
                    lemma_func_bounds(ts, after_deref, end);
                    match spec_func(ts, after_deref, end) {
                        Err(_) => {},
                        Ok((func, open)) => {
                            if open < end && is_open(ts, open, Delimiter::Brace) {
                                lemma_group_close_bounds(ts, open, end);
                                match group_close(ts, open, end) {
                                    None => {},
                                    Some(close) => {
                                        lemma_returned_within(ts, names, close + 1, end, lo, hi);
                                        lemma_properties_within(ts, names, open + 1, close, lo, hi);
                                        assert(at_within(func.path[0].at, lo, hi));
                                    },
                                }
                            }
                        },
                    }
                },
            }
        },
    }
}

proof fn lemma_returned_within(ts: Seq<TokenView>, names: Seq<bool>, pos: int, end: int, lo: int, hi: int)
    requires
        lo <= pos <= end <= hi,
    ensures
        failure_within(spec_returned(ts, names, pos, end), lo, hi),
        spec_returned(ts, names, pos, end) matches Ok(Some(r)) ==> ident_option_within(r.name, lo, hi)
            && properties_within(r.properties, lo, hi),
    decreases end - pos, 0int,
{
    if pos + 1 < end && is_joint(ts, pos, '-') && is_punct(ts, pos + 1, '>') {
        match spec_returned_name(ts, names, pos + 2, end) {
            Err(_) => {},
            Ok((name, open)) => {
                if open < end && is_open(ts, open, Delimiter::Brace) {
                    lemma_group_close_bounds(ts, open, end);
                    match group_close(ts, open, end) {
                        None => {},
                        Some(close) => {
                            lemma_properties_within(ts, names, open + 1, close, lo, hi);
                        },
                    }
                }
            },
        }
    }
}

/// All positions and spans in the result of reading at `start` lie
/// between `start` and the place where the widget ends.
pub proof fn lemma_top_level_within(ts: Seq<TokenView>, names: Seq<bool>, start: int)
    requires
        0 <= start <= ts.len(),
    ensures
        start <= top_level_end(ts, start) <= ts.len(),
        widget_within(spec_top_level(ts, names, start).inner, start, top_level_end(ts, start)),
        ident_option_within(spec_top_level(ts, names, start).root_attr, start, top_level_end(ts, start)),
{
    let end = top_level_end(ts, start);
    lemma_item_end_bounds(ts, start, ts.len() as int);
    let (attrs, after_attrs) = spec_attrs(ts, names, start, end);
    lemma_attrs_bounds(ts, names, start, end, Some(Seq::empty()));
    lemma_attrs_within(ts, names, start, end, start, end);
    match attrs {
        Some(list) => lemma_split_within(list, start, end),
        None => {},
    }
    lemma_widget_within(ts, names, after_attrs, end, kept_attrs(attrs), None, start, end);
    match top_level_body(ts, names, start) {
        Ok(_) => {},
        Err(d) => {
            let w = spec_fallback(d);
            assert(properties_within(w.properties, start, end));
        },
    }
}

} // verus!
