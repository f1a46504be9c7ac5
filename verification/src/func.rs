//! The function of a widget: a path, its arguments, a chain of method
//! calls and the type of the result.

use vstd::prelude::*;
use crate::ast::{
    IdentView,
    MethodCall,
    MethodCallView,
    Path,
    Span,
    SpanView,
    WidgetFunc,
    WidgetFuncView,
    chain_views,
    path_option_view,
    span_option_view,
};
use crate::diagnostic::{Diagnostic, DiagnosticKind, DiagnosticView};
use crate::nesting::{find_group_close, group_close, lemma_group_close_bounds};
use crate::path::{ident_of, lemma_path_bounds, parse_path, read_ident, spec_path};
use crate::token::{
    Delimiter,
    Token,
    TokenView,
    ident_at,
    is_ident,
    is_joint,
    is_open,
    is_punct,
    joint_at,
    open_at,
    punct_at,
    token_views,
};

verus! {

/// A group in the brackets `d` at `pos`, if one starts there: the span of
/// what stands between its brackets, and the position after it. A group that
/// is not closed before `end` is a failure.
pub open spec fn spec_group(ts: Seq<TokenView>, pos: int, end: int, d: Delimiter) -> Result<
    (Option<SpanView>, int),
    DiagnosticView,
> {
    if pos < end && is_open(ts, pos, d) {
        match group_close(ts, pos, end) {
            Some(close) => Ok((Some(SpanView { start: pos + 1, end: close }), close + 1)),
            None => Err(DiagnosticView { kind: DiagnosticKind::UnclosedDelimiter, at: pos }),
        }
    } else {
        Ok((None, pos))
    }
}

/// The method calls from `pos` on: as long as a `.` stands there, a name and
/// arguments in parentheses have to follow. The result is `found` with all
/// calls added, and the position after the last.
pub open spec fn spec_chain(
    ts: Seq<TokenView>,
    pos: int,
    end: int,
    found: Seq<MethodCallView>,
) -> Result<(Seq<MethodCallView>, int), DiagnosticView>
    decreases end - pos,
{
    if pos < end && is_punct(ts, pos, '.') {
        if pos + 2 < end && is_ident(ts, pos + 1) && is_open(
            ts,
            pos + 2,
            Delimiter::Parenthesis,
        ) {
            match group_close(ts, pos + 2, end) {
                Some(close) => {
                    proof {
                        lemma_group_close_bounds(ts, pos + 2, end);
                    }
                    spec_chain(
                        ts,
                        close + 1,
                        end,
                        found.push(
                            MethodCallView {
                                name: ident_of(ts, pos + 1),
                                args: SpanView { start: pos + 3, end: close },
                            },
                        ),
                    )
                },
                None => Err(
                    DiagnosticView { kind: DiagnosticKind::UnclosedDelimiter, at: pos + 2 },
                ),
            }
        } else {
            Err(DiagnosticView { kind: DiagnosticKind::ExpectedMethodCall, at: pos + 1 })
        }
    } else {
        Ok((found, pos))
    }
}

/// The type of the result, if `->` stands at `pos`: the path after it.
pub open spec fn spec_type(ts: Seq<TokenView>, pos: int, end: int) -> Result<
    (Option<Seq<IdentView>>, int),
    DiagnosticView,
> {
    if pos + 1 < end && is_joint(ts, pos, '-') && is_punct(ts, pos + 1, '>') {
        match spec_path(ts, pos + 2, end) {
            Ok((path, next)) => Ok((Some(path), next)),
            Err(d) => Err(d),
        }
    } else {
        Ok((None, pos))
    }
}

/// The function at `start`: a path, then arguments in parentheses, method
/// calls and `->` with a type, as far as they are there; and the position
/// after it.
pub open spec fn spec_func(ts: Seq<TokenView>, start: int, end: int) -> Result<
    (WidgetFuncView, int),
    DiagnosticView,
> {
    match spec_path(ts, start, end) {
        Err(d) => Err(d),
        Ok((path, after_path)) => match spec_group(ts, after_path, end, Delimiter::Parenthesis) {
            Err(d) => Err(d),
            Ok((args, after_args)) => match spec_chain(ts, after_args, end, Seq::empty()) {
                Err(d) => Err(d),
                Ok((method_chain, after_chain)) => match spec_type(ts, after_chain, end) {
                    Err(d) => Err(d),
                    Ok((ty, next)) => Ok((WidgetFuncView { path, args, method_chain, ty }, next)),
                },
            },
        },
    }
}

/// A group ends after the position where it starts, and not after `end`.
pub proof fn lemma_group_bounds(ts: Seq<TokenView>, pos: int, end: int, d: Delimiter)
    requires
        pos <= end,
    ensures
        spec_group(ts, pos, end, d) matches Ok((_, next)) ==> pos <= next <= end,
{
    lemma_group_close_bounds(ts, pos, end);
}

/// A method chain ends between `pos` and `end`.
pub proof fn lemma_chain_bounds(
    ts: Seq<TokenView>,
    pos: int,
    end: int,
    found: Seq<MethodCallView>,
)
    requires
        pos <= end,
    ensures
        spec_chain(ts, pos, end, found) matches Ok((_, next)) ==> pos <= next <= end,
    decreases end - pos,
{
    if pos + 2 < end && is_punct(ts, pos, '.') && is_ident(ts, pos + 1) && is_open(
        ts,
        pos + 2,
        Delimiter::Parenthesis,
    ) {
        lemma_group_close_bounds(ts, pos + 2, end);
        match group_close(ts, pos + 2, end) {
            Some(close) => lemma_chain_bounds(
                ts,
                close + 1,
                end,
                found.push(
                    MethodCallView {
                        name: ident_of(ts, pos + 1),
                        args: SpanView { start: pos + 3, end: close },
                    },
                ),
            ),
            None => {},
        }
    }
}

/// A function takes at least one token, has a path of at least one segment
/// and ends at `end` at the latest.
pub proof fn lemma_func_bounds(ts: Seq<TokenView>, start: int, end: int)
    requires
        start <= end,
    ensures
        spec_func(ts, start, end) matches Ok((func, next)) ==> start < next <= end
            && func.path.len() >= 1,
{
    lemma_path_bounds(ts, start, end);
    match spec_path(ts, start, end) {
        Ok((path, after_path)) => {
            lemma_group_bounds(ts, after_path, end, Delimiter::Parenthesis);
            match spec_group(ts, after_path, end, Delimiter::Parenthesis) {
                Ok((args, after_args)) => {
                    lemma_chain_bounds(ts, after_args, end, Seq::empty());
                    match spec_chain(ts, after_args, end, Seq::empty()) {
                        Ok((chain, after_chain)) => {
                            if after_chain + 1 < end {
                                lemma_path_bounds(ts, after_chain + 2, end);
                            }
                        },
                        Err(_) => {},
                    }
                },
                Err(_) => {},
            }
        },
        Err(_) => {},
    }
}

/// Reads a group in the brackets `d` at `pos`, if one starts there.
pub(crate) fn parse_group(tokens: &Vec<Token>, pos: usize, end: usize, d: Delimiter) -> (r: Result<
    (Option<Span>, usize),
    Diagnostic,
>)
    requires
        pos <= end <= tokens.len(),
    ensures
        match r {
            Ok((span, next)) => spec_group(token_views(tokens@), pos as int, end as int, d) == Ok::<
                (Option<SpanView>, int),
                DiagnosticView,
            >((span_option_view(span), next as int)) && pos <= next <= end,
            Err(e) => spec_group(token_views(tokens@), pos as int, end as int, d) == Err::<
                (Option<SpanView>, int),
                DiagnosticView,
            >(e@),
        },
{
    if pos < end && open_at(tokens, pos, d) {
        match find_group_close(tokens, pos, end) {
            Some(close) => Ok((Some(Span { start: pos + 1, end: close }), close + 1)),
            None => Err(Diagnostic { kind: DiagnosticKind::UnclosedDelimiter, at: pos }),
        }
    } else {
        Ok((None, pos))
    }
}

/// Reads the method calls at `start`.
pub(crate) fn parse_chain(tokens: &Vec<Token>, start: usize, end: usize) -> (r: Result<
    (Vec<MethodCall>, usize),
    Diagnostic,
>)
    requires
        start <= end <= tokens.len(),
    ensures
        match r {
            Ok((chain, next)) => spec_chain(
                token_views(tokens@),
                start as int,
                end as int,
                Seq::empty(),
            ) == Ok::<(Seq<MethodCallView>, int), DiagnosticView>(
                (chain_views(chain@), next as int),
            ) && start <= next <= end,
            Err(e) => spec_chain(token_views(tokens@), start as int, end as int, Seq::empty())
                == Err::<(Seq<MethodCallView>, int), DiagnosticView>(e@),
        },
{
    let ghost ts = token_views(tokens@);
    let mut chain: Vec<MethodCall> = Vec::new();
    let mut pos: usize = start;
    assert(chain_views(chain@) =~= Seq::<MethodCallView>::empty());
    while pos < end && punct_at(tokens, pos, '.')
        invariant
            start <= pos <= end <= tokens.len(),
            ts == token_views(tokens@),
            spec_chain(ts, start as int, end as int, Seq::empty()) == spec_chain(
                ts,
                pos as int,
                end as int,
                chain_views(chain@),
            ),
        decreases end - pos,
    {
        if !(end - pos > 2 && ident_at(tokens, pos + 1) && open_at(
            tokens,
            pos + 2,
            Delimiter::Parenthesis,
        )) {
            return Err(Diagnostic { kind: DiagnosticKind::ExpectedMethodCall, at: pos + 1 });
        }
        match find_group_close(tokens, pos + 2, end) {
            Some(close) => {
                let ghost before = chain_views(chain@);
                let call = MethodCall {
                    name: read_ident(tokens, pos + 1),
                    args: Span { start: pos + 3, end: close },
                };
                chain.push(call);
                assert(chain_views(chain@) =~= before.push(call@));
                pos = close + 1;
            },
            None => {
                return Err(Diagnostic { kind: DiagnosticKind::UnclosedDelimiter, at: pos + 2 });
            },
        }
    }
    Ok((chain, pos))
}

/// Reads `->` and a type at `pos`, if `->` stands there.
pub(crate) fn parse_type(tokens: &Vec<Token>, pos: usize, end: usize) -> (r: Result<
    (Option<Path>, usize),
    Diagnostic,
>)
    requires
        pos <= end <= tokens.len(),
    ensures
        match r {
            Ok((ty, next)) => spec_type(token_views(tokens@), pos as int, end as int) == Ok::<
                (Option<Seq<IdentView>>, int),
                DiagnosticView,
            >((path_option_view(ty), next as int)) && pos <= next <= end,
            Err(e) => spec_type(token_views(tokens@), pos as int, end as int) == Err::<
                (Option<Seq<IdentView>>, int),
                DiagnosticView,
            >(e@),
        },
{
    if end - pos > 1 && joint_at(tokens, pos, '-') && punct_at(tokens, pos + 1, '>') {
        match parse_path(tokens, pos + 2, end) {
            Ok((path, next)) => Ok((Some(path), next)),
            Err(e) => Err(e),
        }
    } else {
        Ok((None, pos))
    }
}

/// Reads the function of a widget at `start`.
pub(crate) fn parse_func(tokens: &Vec<Token>, start: usize, end: usize) -> (r: Result<
    (WidgetFunc, usize),
    Diagnostic,
>)
    requires
        start <= end <= tokens.len(),
    ensures
        match r {
            Ok((func, next)) => spec_func(token_views(tokens@), start as int, end as int) == Ok::<
                (WidgetFuncView, int),
                DiagnosticView,
            >((func@, next as int)) && start < next <= end && func.path@.len() >= 1,
            Err(e) => spec_func(token_views(tokens@), start as int, end as int) == Err::<
                (WidgetFuncView, int),
                DiagnosticView,
            >(e@),
        },
{
    let (path, after_path) = match parse_path(tokens, start, end) {
        Ok(found) => found,
        Err(e) => {
            return Err(e);
        },
    };
    let (args, after_args) = match parse_group(tokens, after_path, end, Delimiter::Parenthesis) {
        Ok(found) => found,
        Err(e) => {
            return Err(e);
        },
    };
    let (method_chain, after_chain) = match parse_chain(tokens, after_args, end) {
        Ok(found) => found,
        Err(e) => {
            return Err(e);
        },
    };
    let (ty, next) = match parse_type(tokens, after_chain, end) {
        Ok(found) => found,
        Err(e) => {
            return Err(e);
        },
    };
    Ok((WidgetFunc { path, args, method_chain, ty }, next))
}

} // verus!
