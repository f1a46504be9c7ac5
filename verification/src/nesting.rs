//! Brackets: where a group of tokens ends, and where the items of a
//! comma-separated list end.

use vstd::prelude::*;
use crate::token::{Delimiter, Token, TokenView, is_punct, token_views};

verus! {

/// Walks over the tokens from `pos` towards `end` and keeps the brackets
/// that are open in `open`, the innermost last.
///
/// The walk stops at the first token outside of all those brackets that is a
/// closing bracket or, if `commas` is set, a comma; it also stops at `end`.
/// The result is the position where it stopped. There is none if a closing
/// bracket meets an opening bracket of another kind, or if a bracket is
/// still open at `end`.
pub open spec fn scan(
    ts: Seq<TokenView>,
    pos: int,
    end: int,
    open: Seq<Delimiter>,
    commas: bool,
) -> Option<int>
    decreases end - pos,
{
    if pos >= end {
        if open.len() == 0 {
            Some(end)
        } else {
            None
        }
    } else {
        match ts[pos] {
            TokenView::Open(d) => scan(ts, pos + 1, end, open.push(d), commas),
            TokenView::Close(d) => if open.len() == 0 {
                Some(pos)
            } else if open.last() == d {
                scan(ts, pos + 1, end, open.drop_last(), commas)
            } else {
                None
            },
            TokenView::Punct(c, _) => if c == ',' && commas && open.len() == 0 {
                Some(pos)
            } else {
                scan(ts, pos + 1, end, open, commas)
            },
            _ => scan(ts, pos + 1, end, open, commas),
        }
    }
}

/// Where the item that starts at `start` ends: at the first comma or closing
/// bracket outside of all groups of the item, or at `end`. An item whose
/// brackets do not match reaches to `end`.
pub open spec fn item_end(ts: Seq<TokenView>, start: int, end: int) -> int {
    match scan(ts, start, end, Seq::empty(), true) {
        Some(q) => q,
        None => end,
    }
}

/// The position before `end` of the bracket that closes the group opened at
/// `at`, if there is one and the brackets in between match.
pub open spec fn group_close(ts: Seq<TokenView>, at: int, end: int) -> Option<int> {
    match scan(ts, at + 1, end, Seq::empty(), false) {
        Some(c) => if c < end && ts[at] is Open && ts[c] == TokenView::Close(ts[at]->Open_0) {
            Some(c)
        } else {
            None
        },
        None => None,
    }
}

/// A walk never stops before the position where it began, nor after `end`.
pub proof fn lemma_scan_bounds(
    ts: Seq<TokenView>,
    pos: int,
    end: int,
    open: Seq<Delimiter>,
    commas: bool,
)
    requires
        pos <= end,
    ensures
        scan(ts, pos, end, open, commas) matches Some(q) ==> pos <= q <= end,
    decreases end - pos,
{
    if pos < end {
        match ts[pos] {
            TokenView::Open(d) => lemma_scan_bounds(ts, pos + 1, end, open.push(d), commas),
            TokenView::Close(d) => if open.len() > 0 && open.last() == d {
                lemma_scan_bounds(ts, pos + 1, end, open.drop_last(), commas)
            },
            _ => lemma_scan_bounds(ts, pos + 1, end, open, commas),
        }
    }
}

/// Where a walk stops before `end`, a closing bracket stands or, if commas
/// count, a comma.
pub proof fn lemma_scan_stop(
    ts: Seq<TokenView>,
    pos: int,
    end: int,
    open: Seq<Delimiter>,
    commas: bool,
)
    requires
        0 <= pos <= end <= ts.len(),
    ensures
        scan(ts, pos, end, open, commas) matches Some(q) ==> q == end || ts[q] is Close || (commas
            && is_punct(ts, q, ',')),
    decreases end - pos,
{
    if pos < end {
        match ts[pos] {
            TokenView::Open(d) => lemma_scan_stop(ts, pos + 1, end, open.push(d), commas),
            TokenView::Close(d) => if open.len() > 0 && open.last() == d {
                lemma_scan_stop(ts, pos + 1, end, open.drop_last(), commas)
            },
            _ => lemma_scan_stop(ts, pos + 1, end, open, commas),
        }
    }
}

/// An item ends at `end`, at a comma or at a closing bracket.
pub proof fn lemma_item_end_stop(ts: Seq<TokenView>, start: int, end: int)
    requires
        0 <= start <= end <= ts.len(),
    ensures
        item_end(ts, start, end) == end || is_punct(ts, item_end(ts, start, end), ',')
            || ts[item_end(ts, start, end)] is Close,
{
    lemma_scan_stop(ts, start, end, Seq::empty(), true);
}

/// An item ends between its start and `end`.
pub proof fn lemma_item_end_bounds(ts: Seq<TokenView>, start: int, end: int)
    requires
        start <= end,
    ensures
        start <= item_end(ts, start, end) <= end,
{
    lemma_scan_bounds(ts, start, end, Seq::empty(), true);
}

/// The bracket that closes a group stands after the one that opens it, and
/// before `end`.
pub proof fn lemma_group_close_bounds(ts: Seq<TokenView>, at: int, end: int)
    ensures
        group_close(ts, at, end) matches Some(c) ==> at < c < end,
{
    if at + 1 <= end {
        lemma_scan_bounds(ts, at + 1, end, Seq::empty(), false);
    }
}

/// The value of an optional position.
pub open spec fn position_view(p: Option<usize>) -> Option<int> {
    match p {
        Some(q) => Some(q as int),
        None => None,
    }
}

pub(crate) fn scan_from(tokens: &Vec<Token>, start: usize, end: usize, commas: bool) -> (r: Option<
    usize,
>)
    requires
        start <= end <= tokens.len(),
    ensures
        position_view(r) == scan(token_views(tokens@), start as int, end as int, Seq::empty(), commas),
        r matches Some(q) ==> start <= q <= end,
{
    let ghost ts = token_views(tokens@);
    let mut open: Vec<Delimiter> = Vec::new();
    let mut pos: usize = start;
    proof {
        lemma_scan_bounds(ts, start as int, end as int, Seq::empty(), commas);
    }
    while pos < end
        invariant
            start <= pos <= end <= tokens.len(),
            ts == token_views(tokens@),
            scan(ts, start as int, end as int, Seq::empty(), commas) == scan(
                ts,
                pos as int,
                end as int,
                open@,
                commas,
            ),
        decreases end - pos,
    {
        match &tokens[pos] {
            Token::Open(d) => {
                open.push(*d);
            },
            Token::Close(d) => {
                let depth: usize = open.len();
                if depth == 0 {
                    return Some(pos);
                } else if open[depth - 1] == *d {
                    open.pop();
                } else {
                    return None;
                }
            },
            Token::Punct(c, _) => {
                if *c == ',' && commas && open.len() == 0 {
                    return Some(pos);
                }
            },
            _ => {},
        }
        pos = pos + 1;
    }
    if open.len() == 0 {
        Some(end)
    } else {
        None
    }
}

/// Computes [`item_end`].
pub(crate) fn find_item_end(tokens: &Vec<Token>, start: usize, end: usize) -> (q: usize)
    requires
        start <= end <= tokens.len(),
    ensures
        q as int == item_end(token_views(tokens@), start as int, end as int),
        start <= q <= end,
{
    match scan_from(tokens, start, end, true) {
        Some(q) => q,
        None => end,
    }
}

/// Computes [`group_close`] for a position that holds an opening bracket.
pub(crate) fn find_group_close(tokens: &Vec<Token>, at: usize, end: usize) -> (r: Option<usize>)
    requires
        at < end <= tokens.len(),
        token_views(tokens@)[at as int] is Open,
    ensures
        position_view(r) == group_close(token_views(tokens@), at as int, end as int),
        r matches Some(c) ==> at < c < end,
{
    match scan_from(tokens, at + 1, end, false) {
        Some(c) => {
            if c < end {
                match (&tokens[at], &tokens[c]) {
                    (Token::Open(d), Token::Close(x)) => if *d == *x {
                        Some(c)
                    } else {
                        None
                    },
                    _ => None,
                }
            } else {
                None
            }
        },
        None => None,
    }
}

} // verus!
