//! The failures that a tree holds, in the order in which they stand in it.

use vstd::prelude::*;
use crate::ast::{
    Properties,
    Property,
    PropertyType,
    PropertyTypeView,
    PropertyView,
    Widget,
    WidgetView,
    property_views,
};
use crate::diagnostic::{Diagnostic, DiagnosticView};

verus! {

/// The values of a sequence of diagnostics, one for one.
pub open spec fn diagnostic_views(diagnostics: Seq<Diagnostic>) -> Seq<DiagnosticView> {
    diagnostics.map_values(|d: Diagnostic| d@)
}

/// The failures in a widget: those in its properties, then those in the
/// properties of what its function hands back.
pub open spec fn widget_diagnostics(widget: WidgetView) -> Seq<DiagnosticView>
    decreases widget,
{
    properties_diagnostics(widget.properties) + (match widget.returned_widget {
        Some(returned) => properties_diagnostics(returned.properties),
        None => Seq::empty(),
    })
}

/// The failures in a list of properties, property by property.
pub open spec fn properties_diagnostics(properties: Seq<PropertyView>) -> Seq<DiagnosticView>
    decreases properties,
{
    if properties.len() == 0 {
        Seq::empty()
    } else {
        properties_diagnostics(properties.drop_last()) + property_diagnostics(properties.last())
    }
}

/// The failures in a property: its own, if it could not be read; those of
/// the widget that it holds, if it holds one.
pub open spec fn property_diagnostics(property: PropertyView) -> Seq<DiagnosticView>
    decreases property,
{
    match property.ty {
        PropertyTypeView::ParseError(d) => seq![d],
        PropertyTypeView::Widget(widget) => widget_diagnostics(widget),
        _ => Seq::empty(),
    }
}

fn collect_properties(properties: &Properties, found: &mut Vec<Diagnostic>)
    ensures
        diagnostic_views(final(found)@) == diagnostic_views(old(found)@) + properties_diagnostics(
            properties@,
        ),
    decreases properties,
{
    let ghost all = properties@;
    let n: usize = properties.properties.len();
    let mut i: usize = 0;
    assert(all == property_views(properties.properties@));
    assert(property_views(properties.properties@).len() == n);
    assert(all.take(0) =~= Seq::<PropertyView>::empty());
    assert(diagnostic_views(found@) + Seq::<DiagnosticView>::empty() =~= diagnostic_views(found@));
    while i < n
        invariant
            all == property_views(properties.properties@),
            n == properties.properties.len(),
            n == all.len(),
            i <= n,
            diagnostic_views(found@) == diagnostic_views(old(found)@) + properties_diagnostics(
                all.take(i as int),
            ),
        decreases n - i,
    {
        let property: &Property = &properties.properties[i];
        let ghost before = diagnostic_views(found@);
        proof {
            let next = all.take(i + 1);
            assert(next.drop_last() =~= all.take(i as int));
            assert(next.last() == property@);
        }
        match &property.ty {
            PropertyType::ParseError(d) => {
                found.push(*d);
                assert(property@.ty == PropertyTypeView::ParseError(d@));
                assert(diagnostic_views(found@) =~= before + seq![d@]);
            },
            PropertyType::Widget(widget) => {
                collect_widget(widget, found);
                assert(property@.ty == PropertyTypeView::Widget(widget@));
            },
            _ => {
                assert(!(property@.ty is ParseError) && !(property@.ty is Widget));
                assert(diagnostic_views(found@) =~= before + Seq::<DiagnosticView>::empty());
            },
        }
        proof {
            let next = all.take(i + 1);
            let earlier = properties_diagnostics(all.take(i as int));
            let own = property_diagnostics(property@);
            assert(properties_diagnostics(next) == earlier + own);
            assert(diagnostic_views(found@) =~= before + own);
            assert((diagnostic_views(old(found)@) + earlier) + own =~= diagnostic_views(
                old(found)@,
            ) + (earlier + own));
        }
        i = i + 1;
    }
    assert(all.take(n as int) =~= all);
    assert(all == properties@);
}

fn collect_widget(widget: &Widget, found: &mut Vec<Diagnostic>)
    ensures
        diagnostic_views(final(found)@) == diagnostic_views(old(found)@) + widget_diagnostics(
            widget@,
        ),
    decreases widget,
{
    let ghost before = diagnostic_views(found@);
    collect_properties(&widget.properties, found);
    let ghost middle = diagnostic_views(found@);
    match &widget.returned_widget {
        Some(returned) => {
            collect_properties(&returned.properties, found);
        },
        None => {},
    }
    assert(diagnostic_views(found@) =~= before + widget_diagnostics(widget@));
}

impl Widget {
    /// The failures in the widget and in the widgets nested in it, in the
    /// order in which they stand in the tree.
    pub fn diagnostics(&self) -> (found: Vec<Diagnostic>)
        ensures
            diagnostic_views(found@) == widget_diagnostics(self@),
    {
        let mut found: Vec<Diagnostic> = Vec::new();
        collect_widget(self, &mut found);
        assert(diagnostic_views(found@) =~= widget_diagnostics(self@));
        found
    }
}

} // verus!
