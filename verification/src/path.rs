//! Paths: names separated by `::`.

use vstd::prelude::*;
use crate::ast::{Ident, IdentView, Path, ident_views};
use crate::diagnostic::{Diagnostic, DiagnosticKind, DiagnosticView};
use crate::token::{
    Token,
    TokenView,
    copy_text,
    ident_at,
    is_ident,
    is_joint,
    is_punct,
    joint_at,
    punct_at,
    text_at,
    token_views,
};

verus! {

/// The name that the word or literal at `pos` gives.
pub open spec fn ident_of(ts: Seq<TokenView>, pos: int) -> IdentView {
    IdentView { name: text_at(ts, pos), at: pos }
}

/// The segments that follow the first one: as long as `::` and a word come
/// before `end`, the word is one more segment. The result is all segments
/// and the position after the last.
pub open spec fn path_tail(ts: Seq<TokenView>, pos: int, end: int, found: Seq<IdentView>) -> (
    Seq<IdentView>,
    int,
)
    decreases end - pos,
{
    if pos + 2 < end && is_joint(ts, pos, ':') && is_punct(ts, pos + 1, ':') && is_ident(
        ts,
        pos + 2,
    ) {
        path_tail(ts, pos + 3, end, found.push(ident_of(ts, pos + 2)))
    } else {
        (found, pos)
    }
}

/// The longest path that starts at `start` and ends before or at `end`,
/// with the position after it. There is none where no word stands at
/// `start`.
pub open spec fn spec_path(ts: Seq<TokenView>, start: int, end: int) -> Result<
    (Seq<IdentView>, int),
    DiagnosticView,
> {
    if start < end && is_ident(ts, start) {
        Ok(path_tail(ts, start + 1, end, seq![ident_of(ts, start)]))
    } else {
        Err(DiagnosticView { kind: DiagnosticKind::ExpectedPath, at: start })
    }
}

/// The segments only grow, and the position stays between `pos` and `end`.
pub proof fn lemma_path_tail_bounds(ts: Seq<TokenView>, pos: int, end: int, found: Seq<IdentView>)
    requires
        pos <= end,
    ensures
        pos <= path_tail(ts, pos, end, found).1 <= end,
        path_tail(ts, pos, end, found).0.len() >= found.len(),
    decreases end - pos,
{
    if pos + 2 < end && is_joint(ts, pos, ':') && is_punct(ts, pos + 1, ':') && is_ident(
        ts,
        pos + 2,
    ) {
        lemma_path_tail_bounds(ts, pos + 3, end, found.push(ident_of(ts, pos + 2)));
    }
}

/// A path has at least one segment and takes at least one token.
pub proof fn lemma_path_bounds(ts: Seq<TokenView>, start: int, end: int)
    ensures
        spec_path(ts, start, end) matches Ok((path, next)) ==> start < next <= end && path.len()
            >= 1,
{
    if start < end {
        lemma_path_tail_bounds(ts, start + 1, end, seq![ident_of(ts, start)]);
    }
}

/// The number of tokens of the separator at `pos`: two for `::`, one for
/// `.`, none where neither stands there.
pub open spec fn separator_len(ts: Seq<TokenView>, pos: int, end: int) -> int {
    if pos + 1 < end && is_joint(ts, pos, ':') && is_punct(ts, pos + 1, ':') {
        2
    } else if pos < end && is_punct(ts, pos, '.') {
        1
    } else {
        0
    }
}

/// The segments of the name of a property that follow the first one: as
/// long as `::` or `.` and a word come before `end`, the word is one more
/// segment.
pub open spec fn name_tail(ts: Seq<TokenView>, pos: int, end: int, found: Seq<IdentView>) -> (
    Seq<IdentView>,
    int,
)
    decreases end - pos,
{
    let n = separator_len(ts, pos, end);
    if n > 0 && pos + n < end && is_ident(ts, pos + n) {
        name_tail(ts, pos + n + 1, end, found.push(ident_of(ts, pos + n)))
    } else {
        (found, pos)
    }
}

/// The name of a property at `start`: words separated by `::` or by `.`,
/// as many as there are, with the position after them. There is none where
/// no word stands at `start`.
pub open spec fn spec_name_path(ts: Seq<TokenView>, start: int, end: int) -> Result<
    (Seq<IdentView>, int),
    DiagnosticView,
> {
    if start < end && is_ident(ts, start) {
        Ok(name_tail(ts, start + 1, end, seq![ident_of(ts, start)]))
    } else {
        Err(DiagnosticView { kind: DiagnosticKind::ExpectedPath, at: start })
    }
}

/// The segments only grow, and the position stays between `pos` and `end`.
pub proof fn lemma_name_tail_bounds(ts: Seq<TokenView>, pos: int, end: int, found: Seq<IdentView>)
    requires
        pos <= end,
    ensures
        pos <= name_tail(ts, pos, end, found).1 <= end,
        name_tail(ts, pos, end, found).0.len() >= found.len(),
    decreases end - pos,
{
    let n = separator_len(ts, pos, end);
    if n > 0 && pos + n < end && is_ident(ts, pos + n) {
        lemma_name_tail_bounds(ts, pos + n + 1, end, found.push(ident_of(ts, pos + n)));
    }
}

/// The name of a property has at least one segment and takes at least one
/// token.
pub proof fn lemma_name_path_bounds(ts: Seq<TokenView>, start: int, end: int)
    ensures
        spec_name_path(ts, start, end) matches Ok((path, next)) ==> start < next <= end
            && path.len() >= 1,
{
    if start < end {
        lemma_name_tail_bounds(ts, start + 1, end, seq![ident_of(ts, start)]);
    }
}

/// The name that the word or literal at `pos` gives.
pub(crate) fn read_ident(tokens: &Vec<Token>, pos: usize) -> (r: Ident)
    ensures
        r@ == ident_of(token_views(tokens@), pos as int),
{
    Ident { name: copy_text(tokens, pos), at: pos }
}

/// Reads the path at `start`.
pub(crate) fn parse_path(tokens: &Vec<Token>, start: usize, end: usize) -> (r: Result<
    (Path, usize),
    Diagnostic,
>)
    requires
        start <= end <= tokens.len(),
    ensures
        match r {
            Ok((path, next)) => spec_path(token_views(tokens@), start as int, end as int) == Ok::<
                (Seq<IdentView>, int),
                DiagnosticView,
            >((path@, next as int)) && start < next <= end && path@.len() >= 1,
            Err(d) => spec_path(token_views(tokens@), start as int, end as int) == Err::<
                (Seq<IdentView>, int),
                DiagnosticView,
            >(d@),
        },
{
    let ghost ts = token_views(tokens@);
    if !(start < end && ident_at(tokens, start)) {
        return Err(Diagnostic { kind: DiagnosticKind::ExpectedPath, at: start });
    }
    let mut segments: Vec<Ident> = Vec::new();
    segments.push(read_ident(tokens, start));
    let mut pos: usize = start + 1;
    assert(ident_views(segments@) =~= seq![ident_of(ts, start as int)]);
    proof {
        lemma_path_bounds(ts, start as int, end as int);
    }
    while end - pos > 2 && joint_at(tokens, pos, ':') && punct_at(tokens, pos + 1, ':') && ident_at(
        tokens,
        pos + 2,
    )
        invariant
            start < pos <= end <= tokens.len(),
            ts == token_views(tokens@),
            path_tail(ts, start + 1, end as int, seq![ident_of(ts, start as int)]) == path_tail(
                ts,
                pos as int,
                end as int,
                ident_views(segments@),
            ),
        decreases end - pos,
    {
        let ghost before = ident_views(segments@);
        segments.push(read_ident(tokens, pos + 2));
        assert(ident_views(segments@) =~= before.push(ident_of(ts, pos + 2)));
        pos = pos + 3;
    }
    Ok((Path { segments }, pos))
}

/// Computes [`separator_len`].
fn separator_at(tokens: &Vec<Token>, pos: usize, end: usize) -> (n: usize)
    requires
        pos <= end <= tokens.len(),
    ensures
        n as int == separator_len(token_views(tokens@), pos as int, end as int),
        n <= 2,
        pos + n <= end,
{
    if end - pos > 1 && joint_at(tokens, pos, ':') && punct_at(tokens, pos + 1, ':') {
        2
    } else if pos < end && punct_at(tokens, pos, '.') {
        1
    } else {
        0
    }
}

/// Reads the name of a property at `start`.
pub(crate) fn parse_name_path(tokens: &Vec<Token>, start: usize, end: usize) -> (r: Result<
    (Path, usize),
    Diagnostic,
>)
    requires
        start <= end <= tokens.len(),
    ensures
        match r {
            Ok((path, next)) => spec_name_path(token_views(tokens@), start as int, end as int)
                == Ok::<(Seq<IdentView>, int), DiagnosticView>((path@, next as int)) && start
                < next <= end && path@.len() >= 1,
            Err(d) => spec_name_path(token_views(tokens@), start as int, end as int) == Err::<
                (Seq<IdentView>, int),
                DiagnosticView,
            >(d@),
        },
{
    let ghost ts = token_views(tokens@);
    if !(start < end && ident_at(tokens, start)) {
        return Err(Diagnostic { kind: DiagnosticKind::ExpectedPath, at: start });
    }
    let mut segments: Vec<Ident> = Vec::new();
    segments.push(read_ident(tokens, start));
    let mut pos: usize = start + 1;
    assert(ident_views(segments@) =~= seq![ident_of(ts, start as int)]);
    proof {
        lemma_name_path_bounds(ts, start as int, end as int);
    }
    loop
        invariant
            start < pos <= end <= tokens.len(),
            ts == token_views(tokens@),
            segments@.len() >= 1,
            name_tail(ts, start + 1, end as int, seq![ident_of(ts, start as int)]) == name_tail(
                ts,
                pos as int,
                end as int,
                ident_views(segments@),
            ),
        ensures
            start < pos <= end,
            segments@.len() >= 1,
            name_tail(ts, start + 1, end as int, seq![ident_of(ts, start as int)]) == (
                ident_views(segments@),
                pos as int,
            ),
        decreases end - pos,
    {
        let n: usize = separator_at(tokens, pos, end);
        if !(n > 0 && end - pos > n && ident_at(tokens, pos + n)) {
            break ;
        }
        let ghost before = ident_views(segments@);
        segments.push(read_ident(tokens, pos + n));
        assert(ident_views(segments@) =~= before.push(ident_of(ts, pos + n)));
        pos = pos + n + 1;
    }
    Ok((Path { segments }, pos))
}

} // verus!
