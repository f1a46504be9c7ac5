//! Attributes: reading the `#[...]` markers before a widget, and taking
//! the root marker out of a list of them.

use vstd::prelude::*;
use crate::ast::{Attr, AttrView, Attrs, Ident, IdentView, attr_views, ident_option_view};
use crate::names::{accepted, candidate_text, name_at, name_candidate};
use crate::nesting::{find_group_close, group_close, lemma_group_close_bounds};
use crate::path::{ident_of, parse_path, read_ident, spec_path};
use crate::token::{
    Delimiter,
    Token,
    TokenView,
    close_at,
    copy_text,
    is_close,
    is_literal,
    is_open,
    is_punct,
    is_word,
    literal_at,
    open_at,
    punct_at,
    text_at,
    token_views,
    word_at,
};

verus! {

/// The attribute that the tokens from `start` to `end`, those between the
/// brackets of `#[...]`, stand for; none if they stand for none.
///
/// The attributes are `root`, `local`, `local_ref`, `doc = "text"`,
/// `name = n` and `wrap(path)`. The name `n` is a word or a literal in
/// double quotes, and the verdicts `names` have to take it for a name.
pub open spec fn spec_attr(ts: Seq<TokenView>, names: Seq<bool>, start: int, end: int) -> Option<AttrView> {
    if end == start + 1 && is_word(ts, start, "root"@) {
        Some(AttrView::Root(ident_of(ts, start)))
    } else if end == start + 1 && is_word(ts, start, "local"@) {
        Some(AttrView::Local(ident_of(ts, start)))
    } else if end == start + 1 && is_word(ts, start, "local_ref"@) {
        Some(AttrView::LocalRef(ident_of(ts, start)))
    } else if end == start + 3 && is_word(ts, start, "doc"@) && is_punct(ts, start + 1, '=')
        && is_literal(ts, start + 2) {
        Some(AttrView::Doc(text_at(ts, start + 2)))
    } else if end == start + 3 && is_word(ts, start, "name"@) && is_punct(ts, start + 1, '=')
        && name_at(names, start + 2) && name_candidate(ts, start + 2) is Some {
        Some(AttrView::Name(IdentView { name: name_candidate(ts, start + 2)->0, at: start + 2 }))
    } else if end >= start + 4 && is_word(ts, start, "wrap"@) && is_open(
        ts,
        start + 1,
        Delimiter::Parenthesis,
    ) && is_close(ts, end - 1, Delimiter::Parenthesis) {
        match spec_path(ts, start + 2, end - 1) {
            Ok((path, next)) => if next == end - 1 {
                Some(AttrView::Wrap(path))
            } else {
                None
            },
            Err(_) => None,
        }
    } else {
        None
    }
}

/// A list with one more attribute. Once an attribute was not understood,
/// there is no list any more.
pub open spec fn with_attr(list: Option<Seq<AttrView>>, attr: Option<AttrView>) -> Option<
    Seq<AttrView>,
> {
    match (list, attr) {
        (Some(l), Some(a)) => Some(l.push(a)),
        _ => None,
    }
}

/// Reads `#[...]` groups from `pos` on, as long as there are any before
/// `end`, and adds what they stand for to `list`. The result is the list and
/// the position after the last group.
pub open spec fn attrs_from(
    ts: Seq<TokenView>, names: Seq<bool>,
    pos: int,
    end: int,
    list: Option<Seq<AttrView>>,
) -> (Option<Seq<AttrView>>, int)
    decreases end - pos,
{
    if pos + 1 < end && is_punct(ts, pos, '#') && is_open(ts, pos + 1, Delimiter::Bracket) {
        match group_close(ts, pos + 1, end) {
            Some(close) => {
                proof {
                    lemma_group_close_bounds(ts, pos + 1, end);
                }
                attrs_from(ts, names, close + 1, end, with_attr(list, spec_attr(ts, names, pos + 2, close)))
            },
            None => (list, pos),
        }
    } else {
        (list, pos)
    }
}

/// The attributes at `start`: all `#[...]` groups that follow one another
/// there, and the position after them. Where one of the groups is not
/// understood there is no list, and the position is the same.
pub open spec fn spec_attrs(ts: Seq<TokenView>, names: Seq<bool>, start: int, end: int) -> (
    Option<Seq<AttrView>>,
    int,
) {
    attrs_from(ts, names, start, end, Some(Seq::empty()))
}

/// The groups end between `pos` and `end`.
pub proof fn lemma_attrs_bounds(
    ts: Seq<TokenView>, names: Seq<bool>,
    pos: int,
    end: int,
    list: Option<Seq<AttrView>>,
)
    requires
        pos <= end,
    ensures
        pos <= attrs_from(ts, names, pos, end, list).1 <= end,
    decreases end - pos,
{
    if pos + 1 < end && is_punct(ts, pos, '#') && is_open(ts, pos + 1, Delimiter::Bracket) {
        lemma_group_close_bounds(ts, pos + 1, end);
        match group_close(ts, pos + 1, end) {
            Some(close) => lemma_attrs_bounds(
                ts, names,
                close + 1,
                end,
                with_attr(list, spec_attr(ts, names, pos + 2, close)),
            ),
            None => {},
        }
    }
}

/// The value of an optional attribute.
pub open spec fn attr_option_view(attr: Option<Attr>) -> Option<AttrView> {
    match attr {
        Some(a) => Some(a@),
        None => None,
    }
}

/// The value of an optional list of attributes.
pub open spec fn attrs_option_view(attrs: Option<Attrs>) -> Option<Seq<AttrView>> {
    match attrs {
        Some(a) => Some(a@),
        None => None,
    }
}

/// Reads what stands between the brackets of one `#[...]`.
pub(crate) fn parse_attr(tokens: &Vec<Token>, verdicts: &Vec<bool>, start: usize, end: usize) -> (r: Option<Attr>)
    requires
        start <= end <= tokens.len(),
    ensures
        attr_option_view(r) == spec_attr(token_views(tokens@), verdicts@, start as int, end as int),
{
    let n: usize = end - start;
    if n == 1 && word_at(tokens, start, "root") {
        Some(Attr::Root(read_ident(tokens, start)))
    } else if n == 1 && word_at(tokens, start, "local") {
        Some(Attr::Local(read_ident(tokens, start)))
    } else if n == 1 && word_at(tokens, start, "local_ref") {
        Some(Attr::LocalRef(read_ident(tokens, start)))
    } else if n == 3 && word_at(tokens, start, "doc") && punct_at(tokens, start + 1, '=')
        && literal_at(tokens, start + 2) {
        Some(Attr::Doc(copy_text(tokens, start + 2)))
    } else if n == 3 && word_at(tokens, start, "name") && punct_at(tokens, start + 1, '=')
        && accepted(verdicts, start + 2) {
        match candidate_text(tokens, start + 2) {
            Some(text) => Some(Attr::Name(Ident { name: text, at: start + 2 })),
            None => None,
        }
    } else if n >= 4 && word_at(tokens, start, "wrap") && open_at(
        tokens,
        start + 1,
        Delimiter::Parenthesis,
    ) && close_at(tokens, end - 1, Delimiter::Parenthesis) {
        match parse_path(tokens, start + 2, end - 1) {
            Ok((path, next)) => if next == end - 1 {
                Some(Attr::Wrap(path))
            } else {
                None
            },
            Err(_) => None,
        }
    } else {
        None
    }
}

/// Reads the attributes at `start`.
pub(crate) fn parse_attrs(tokens: &Vec<Token>, verdicts: &Vec<bool>, start: usize, end: usize) -> (r: (
    Option<Attrs>,
    usize,
))
    requires
        start <= end <= tokens.len(),
    ensures
        (attrs_option_view(r.0), r.1 as int) == spec_attrs(
            token_views(tokens@), verdicts@,
            start as int,
            end as int,
        ),
        start <= r.1 <= end,
{
    let ghost ts = token_views(tokens@);
    let ghost names = verdicts@;
    let mut list: Vec<Attr> = Vec::new();
    let mut understood: bool = true;
    let mut pos: usize = start;
    assert(attr_views(list@) =~= Seq::<AttrView>::empty());
    loop
        invariant
            start <= pos <= end <= tokens.len(),
            ts == token_views(tokens@),
            names == verdicts@,
            spec_attrs(ts, names, start as int, end as int) == attrs_from(
                ts, names,
                pos as int,
                end as int,
                if understood {
                    Some(attr_views(list@))
                } else {
                    None
                },
            ),
        ensures
            start <= pos <= end,
            spec_attrs(ts, names, start as int, end as int) == (
                if understood {
                    Some(attr_views(list@))
                } else {
                    None
                },
                pos as int,
            ),
        decreases end - pos,
    {
        if !(end - pos > 1 && punct_at(tokens, pos, '#') && open_at(
            tokens,
            pos + 1,
            Delimiter::Bracket,
        )) {
            break ;
        }
        match find_group_close(tokens, pos + 1, end) {
            Some(close) => {
                let attr = parse_attr(tokens, verdicts, pos + 2, close);
                let ghost before = attr_views(list@);
                match attr {
                    Some(a) => {
                        list.push(a);
                        assert(attr_views(list@) =~= before.push(a@));
                    },
                    None => {
                        understood = false;
                    },
                }
                pos = close + 1;
            },
            None => {
                break ;
            },
        }
    }
    if understood {
        (Some(Attrs { inner: list }), pos)
    } else {
        (None, pos)
    }
}

/// The attributes of a list that are no root marker, in their order.
pub open spec fn without_root(attrs: Seq<AttrView>) -> Seq<AttrView> {
    attrs.filter(|a: AttrView| !(a is Root))
}

/// The name in the last root marker of a list, if the list has one.
pub open spec fn last_root(attrs: Seq<AttrView>) -> Option<IdentView>
    decreases attrs.len(),
{
    if attrs.len() == 0 {
        None
    } else {
        match attrs.last() {
            AttrView::Root(ident) => Some(ident),
            _ => last_root(attrs.drop_last()),
        }
    }
}

/// Takes the root marker out of a list of attributes.
///
/// The other attributes stay in their order. Of several root markers the
/// last one is handed back and the others are dropped.
pub fn split_root(attrs: Attrs) -> (r: (Attrs, Option<Ident>))
    ensures
        r.0@ == without_root(attrs@),
        ident_option_view(r.1) == last_root(attrs@),
{
    let ghost all = attrs@;
    let ghost keep = |a: AttrView| !(a is Root);
    let mut rest: Vec<Attr> = Vec::with_capacity(attrs.inner.len());
    let mut root: Option<Ident> = None;
    assert(all.take(0) =~= Seq::<AttrView>::empty());
    assert(attr_views(rest@) =~= Seq::<AttrView>::empty());
    proof {
        reveal(Seq::filter);
    }
    for attr in it: attrs.inner
        invariant
            it.seq() == attrs.inner@,
            all == attr_views(attrs.inner@),
            keep == |a: AttrView| !(a is Root),
            attr_views(rest@) == all.take(it.index() as int).filter(keep),
            ident_option_view(root) == last_root(all.take(it.index() as int)),
    {
        proof {
            reveal(Seq::filter);
            let s = all.take(it.index() + 1);
            assert(s.drop_last() =~= all.take(it.index() as int));
            assert(s.last() == attr@);
        }
        let ghost before = attr_views(rest@);
        match attr {
            Attr::Root(ident) => {
                root = Some(ident);
            },
            other => {
                rest.push(other);
                assert(attr_views(rest@) =~= before.push(other@));
            },
        }
    }
    assert(all.take(all.len() as int) =~= all);
    (Attrs { inner: rest }, root)
}

/// Without a root marker a list stays as it is, and no root is found.
pub proof fn lemma_no_root(attrs: Seq<AttrView>)
    requires
        forall|j: int| 0 <= j < attrs.len() ==> !(#[trigger] attrs[j] is Root),
    ensures
        without_root(attrs) == attrs,
        last_root(attrs) is None,
    decreases attrs.len(),
{
    reveal(Seq::filter);
    if attrs.len() > 0 {
        lemma_no_root(attrs.drop_last());
        assert(attrs.drop_last().push(attrs.last()) =~= attrs);
    }
}

/// A list with exactly one root marker, at `i`: what is left are the other
/// attributes in their order, one fewer than before, and the root that is
/// handed back is the one of that marker.
pub proof fn lemma_single_root(attrs: Seq<AttrView>, i: int)
    requires
        0 <= i < attrs.len(),
        attrs[i] is Root,
        forall|j: int| 0 <= j < attrs.len() && j != i ==> !(#[trigger] attrs[j] is Root),
    ensures
        without_root(attrs) == attrs.remove(i),
        without_root(attrs).len() == attrs.len() - 1,
        last_root(attrs) == Some(attrs[i]->Root_0),
    decreases attrs.len(),
{
    reveal(Seq::filter);
    let front = attrs.drop_last();
    if i == attrs.len() - 1 {
        lemma_no_root(front);
        assert(attrs.remove(i) =~= front);
    } else {
        lemma_single_root(front, i);
        assert(front.remove(i).push(attrs.last()) =~= attrs.remove(i));
    }
}

/// The number of root markers in a list.
pub open spec fn root_count(attrs: Seq<AttrView>) -> nat
    decreases attrs.len(),
{
    if attrs.len() == 0 {
        0
    } else if attrs.last() is Root {
        root_count(attrs.drop_last()) + 1
    } else {
        root_count(attrs.drop_last())
    }
}

/// Taking the root out drops the root markers and nothing else: what is
/// left and the markers together are as many as the list had.
pub proof fn lemma_split_count(attrs: Seq<AttrView>)
    ensures
        without_root(attrs).len() + root_count(attrs) == attrs.len(),
        root_count(attrs) == 0 <==> last_root(attrs) is None,
    decreases attrs.len(),
{
    reveal(Seq::filter);
    if attrs.len() > 0 {
        lemma_split_count(attrs.drop_last());
    }
}

/// Where no `#[` stands at `start`, the list of attributes is empty and
/// nothing is read.
pub proof fn lemma_no_attributes(ts: Seq<TokenView>, names: Seq<bool>, start: int, end: int)
    requires
        !(is_punct(ts, start, '#') && is_open(ts, start + 1, Delimiter::Bracket)),
    ensures
        spec_attrs(ts, names, start, end) == (Some(Seq::<AttrView>::empty()), start),
        without_root(Seq::<AttrView>::empty()).len() == 0,
        last_root(Seq::<AttrView>::empty()) is None,
{
    reveal(Seq::filter);
}

} // verus!
