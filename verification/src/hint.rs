//! The override reader.
//!
//! A `bounded_to` hint carries the target types that should receive the
//! requested capability constraint directly. The stable surface form accepted
//! here is a comma-separated list of target type expressions, optionally
//! wrapped in a `types(...)` grouping; commas inside brackets — `(`, `<`,
//! `[` and their closers — do not split. A hint whose brackets do not
//! balance, or that leaves a target empty, is malformed: the request fails,
//! nothing is generated in its place.

use vstd::prelude::*;
use crate::model::{views_of, GenError};

verus! {

/// A whitespace character around a hint element.
pub open spec fn is_space_char(c: char) -> bool {
    c == ' ' || c == '\t' || c == '\n' || c == '\r'
}

/// An opening bracket of a type expression.
pub open spec fn is_open_char(c: char) -> bool {
    c == '(' || c == '<' || c == '['
}

/// A closing bracket of a type expression.
pub open spec fn is_close_char(c: char) -> bool {
    c == ')' || c == '>' || c == ']'
}

/// Position of the first non-space character of `s` at or after `i`;
/// `s.len()` when there is none.
pub open spec fn skip_spaces(s: Seq<char>, i: int) -> int
    decreases s.len() - i,
{
    if i < 0 || i >= s.len() {
        s.len() as int
    } else if !is_space_char(s[i]) {
        i
    } else {
        skip_spaces(s, i + 1)
    }
}

/// Position after the last non-space character of `s` strictly before `i`;
/// `0` when there is none.
pub open spec fn rskip_spaces(s: Seq<char>, i: int) -> int
    decreases i,
{
    if i <= 0 {
        0
    } else if !is_space_char(s[i - 1]) {
        i
    } else {
        rskip_spaces(s, i - 1)
    }
}

/// `s` with surrounding space characters removed.
pub open spec fn trimmed(s: Seq<char>) -> Seq<char> {
    let a = skip_spaces(s, 0);
    let b = rskip_spaces(s, s.len() as int);
    if a < b {
        s.subrange(a, b)
    } else {
        Seq::empty()
    }
}

/// The hint opens, after leading spaces, with the grouping keyword `types`
/// followed by a parenthesized list that closes at the end of the hint.
pub open spec fn hint_wrapped(s: Seq<char>) -> bool {
    let lo = skip_spaces(s, 0);
    let hi = rskip_spaces(s, s.len() as int);
    let k = skip_spaces(s, lo + 5);
    &&& lo + 5 <= hi
    &&& s.subrange(lo, lo + 5) == "types"@
    &&& k < hi - 1
    &&& s[k] == '('
    &&& s[hi - 1] == ')'
}

/// The characters of the hint that form the target list: the inside of the
/// `types(...)` grouping when present, the whole trimmed hint otherwise.
pub open spec fn hint_content(s: Seq<char>) -> Seq<char> {
    if hint_wrapped(s) {
        s.subrange(
            skip_spaces(s, skip_spaces(s, 0) + 5) + 1,
            rskip_spaces(s, s.len() as int) - 1,
        )
    } else {
        trimmed(s)
    }
}

/// Bracket depth of the first `i` characters of `c`.
pub open spec fn depth_at(c: Seq<char>, i: int) -> int
    decreases i,
{
    if i <= 0 {
        0
    } else {
        depth_at(c, i - 1) + (if is_open_char(c[i - 1]) {
            1int
        } else if is_close_char(c[i - 1]) {
            -1int
        } else {
            0int
        })
    }
}

/// No prefix of `c` closes a bracket that was never opened, and the whole of
/// `c` closes every bracket it opens.
pub open spec fn list_balanced(c: Seq<char>) -> bool {
    &&& forall|i: int| 0 <= i <= c.len() ==> #[trigger] depth_at(c, i) >= 0
    &&& depth_at(c, c.len() as int) == 0
}

/// The pieces of `c` between its top-level commas, untrimmed, scanning from
/// `i` with the current piece open since `start`.
pub open spec fn raw_pieces(c: Seq<char>, i: int, start: int) -> Seq<Seq<char>>
    decreases c.len() - i,
{
    if i < 0 || i >= c.len() {
        seq![c.subrange(start, c.len() as int)]
    } else if c[i] == ',' && depth_at(c, i) == 0 {
        seq![c.subrange(start, i)] + raw_pieces(c, i + 1, i + 1)
    } else {
        raw_pieces(c, i + 1, start)
    }
}

/// The pieces of `c` between its top-level commas, each trimmed.
pub open spec fn trimmed_pieces(c: Seq<char>) -> Seq<Seq<char>> {
    raw_pieces(c, 0, 0).map_values(|p: Seq<char>| trimmed(p))
}

/// Some piece of the list is empty.
pub open spec fn has_empty_piece(ts: Seq<Seq<char>>) -> bool {
    exists|i: int| 0 <= i < ts.len() && (#[trigger] ts[i]).len() == 0
}

/// The list rules over the trimmed pieces: a single empty piece is the empty
/// target list, one empty piece after a final comma is dropped, and any other
/// empty piece means the hint is malformed.
pub open spec fn finish_pieces(ts: Seq<Seq<char>>) -> Option<Seq<Seq<char>>> {
    if ts.len() == 1 && ts[0].len() == 0 {
        Some(Seq::empty())
    } else {
        let ts2 = if ts.len() >= 1 && ts[ts.len() - 1].len() == 0 {
            ts.drop_last()
        } else {
            ts
        };
        if has_empty_piece(ts2) {
            None
        } else {
            Some(ts2)
        }
    }
}

/// The target list a hint denotes; `None` when the hint is malformed.
pub open spec fn hint_targets(s: Seq<char>) -> Option<Seq<Seq<char>>> {
    let c = hint_content(s);
    if list_balanced(c) {
        finish_pieces(trimmed_pieces(c))
    } else {
        None
    }
}

/// The targets of a sequence of hints taken in order, the first `n` hints.
pub open spec fn hints_targets_upto(hs: Seq<Seq<char>>, n: int) -> Seq<Seq<char>>
    decreases n,
{
    if n <= 0 {
        Seq::empty()
    } else {
        hints_targets_upto(hs, n - 1) + hint_targets(hs[n - 1]).unwrap_or(Seq::empty())
    }
}

/// Every one of the hints parses.
pub open spec fn hints_ok(hs: Seq<Seq<char>>) -> bool {
    forall|i: int| 0 <= i < hs.len() ==> (#[trigger] hint_targets(hs[i])) is Some
}

/// The combined target list of a declaration's hints, in hint order.
pub open spec fn hints_targets(hs: Seq<Seq<char>>) -> Seq<Seq<char>> {
    hints_targets_upto(hs, hs.len() as int)
}

/// Whether `c` is a whitespace character.
fn space_char(c: char) -> (r: bool)
    ensures
        r == is_space_char(c),
{
    c == ' ' || c == '\t' || c == '\n' || c == '\r'
}

/// Position of the first non-space character of `s` at or after `from`.
fn skip_spaces_exec(s: &str, from: usize, n: usize) -> (r: usize)
    requires
        n == s@.len(),
        from <= n,
    ensures
        r as int == skip_spaces(s@, from as int),
        from <= r <= n,
{
    let mut i: usize = from;
    while i < n
        invariant
            from <= i <= n,
            n == s@.len(),
            skip_spaces(s@, from as int) == skip_spaces(s@, i as int),
        decreases n - i,
    {
        if !space_char(s.get_char(i)) {
            return i;
        }
        i += 1;
    }
    i
}

/// Position after the last non-space character of `s` strictly before `n`.
fn rskip_spaces_exec(s: &str, n: usize) -> (r: usize)
    requires
        n == s@.len(),
    ensures
        r as int == rskip_spaces(s@, n as int),
        r <= n,
{
    let mut i: usize = n;
    while i > 0
        invariant
            0 <= i <= n,
            n == s@.len(),
            rskip_spaces(s@, n as int) == rskip_spaces(s@, i as int),
        decreases i,
    {
        if !space_char(s.get_char(i - 1)) {
            return i;
        }
        i -= 1;
    }
    i
}

/// `s` with surrounding space characters removed.
pub fn trim_str(s: &str) -> (r: String)
    ensures
        r@ == trimmed(s@),
{
    let n = s.unicode_len();
    let a = skip_spaces_exec(s, 0, n);
    let b = rskip_spaces_exec(s, n);
    if a < b {
        let piece = s.substring_char(a, b);
        piece.to_owned()
    } else {
        assert(trimmed(s@) =~= Seq::<char>::empty());
        String::new()
    }
}

/// Whether the hint opens with the `types(...)` grouping.
fn hint_is_wrapped(s: &str, n: usize, lo: usize, hi: usize) -> (r: bool)
    requires
        n == s@.len(),
        lo as int == skip_spaces(s@, 0),
        hi as int == rskip_spaces(s@, n as int),
        lo <= n,
        hi <= n,
    ensures
        r == hint_wrapped(s@),
{
    if hi <= lo {
        return false;
    }
    if hi - lo < 5 {
        return false;
    }
    proof {
        reveal_strlit("types");
    }
    if !crate::ident::matches_at(s, "types", lo, n, 5) {
        return false;
    }
    let k = skip_spaces_exec(s, lo + 5, n);
    if !(k < hi - 1) {
        return false;
    }
    if s.get_char(k) != '(' {
        return false;
    }
    if s.get_char(hi - 1) != ')' {
        return false;
    }
    true
}

/// Split the content `s[a..b)` at its top-level commas into raw pieces.
#[verifier::loop_isolation(false)]
fn split_top(s: &str, a: usize, b: usize) -> (r: Result<Vec<String>, GenError>)
    requires
        a <= b <= s@.len(),
    ensures
        ({
            let c = s@.subrange(a as int, b as int);
            match r {
                Ok(v) => list_balanced(c) && views_of(v@) == raw_pieces(c, 0, 0),
                Err(e) => !list_balanced(c) && e == GenError::HintSyntax,
            }
        }),
{
    let ghost c = s@.subrange(a as int, b as int);
    let mut out: Vec<String> = Vec::new();
    let ghost mut done: Seq<Seq<char>> = Seq::empty();
    let mut depth: usize = 0;
    let mut st: usize = a;
    let mut i: usize = a;
    loop
        invariant
            a <= st <= i <= b,
            depth <= i - a,
            depth as int == depth_at(c, i - a),
            forall|j: int| 0 <= j <= i - a ==> #[trigger] depth_at(c, j) >= 0,
            raw_pieces(c, 0, 0) == done + raw_pieces(c, i - a, st - a),
            views_of(out@) == done,
        decreases b - i,
    {
        if i == b {
            if depth != 0 {
                assert(!list_balanced(c));
                return Err(GenError::HintSyntax);
            }
            let piece = s.substring_char(st, i);
            proof {
                assert(piece@ =~= c.subrange(st - a, i - a));
            }
            out.push(piece.to_owned());
            proof {
                assert(raw_pieces(c, i - a, st - a) =~= seq![c.subrange(st - a, i - a)]);
                assert(views_of(out@) =~= done + raw_pieces(c, i - a, st - a));
                assert(list_balanced(c));
            }
            return Ok(out);
        }
        let ch = s.get_char(i);
        assert(c[i - a] == s@[i as int]);
        if ch == '(' || ch == '<' || ch == '[' {
            depth += 1;
        } else if ch == ')' || ch == '>' || ch == ']' {
            if depth == 0 {
                assert(depth_at(c, i - a + 1) == -1);
                assert(!list_balanced(c));
                return Err(GenError::HintSyntax);
            }
            depth -= 1;
        } else if ch == ',' && depth == 0 {
            let piece = s.substring_char(st, i);
            proof {
                assert(piece@ =~= c.subrange(st - a, i - a));
            }
            out.push(piece.to_owned());
            proof {
                done = done.push(piece@);
                assert(views_of(out@) =~= done);
                assert(done + raw_pieces(c, i - a + 1, i - a + 1) =~= raw_pieces(c, 0, 0));
            }
            st = i + 1;
        }
        i += 1;
    }
}

/// The raw piece list of any content has at least one piece.
proof fn lemma_raw_pieces_len(c: Seq<char>, i: int, start: int)
    ensures
        raw_pieces(c, i, start).len() >= 1,
    decreases c.len() - i,
{
    if i < 0 || i >= c.len() {
    } else if c[i] == ',' && depth_at(c, i) == 0 {
        lemma_raw_pieces_len(c, i + 1, i + 1);
    } else {
        lemma_raw_pieces_len(c, i + 1, start);
    }
}

/// Trim each raw piece and apply the list rules.
#[verifier::loop_isolation(false)]
fn finish_targets(raw: Vec<String>) -> (r: Result<Vec<String>, GenError>)
    requires
        raw@.len() >= 1,
    ensures
        ({
            let ts = views_of(raw@).map_values(|p: Seq<char>| trimmed(p));
            match r {
                Ok(v) => finish_pieces(ts) == Some(views_of(v@)),
                Err(e) => finish_pieces(ts) is None && e == GenError::HintSyntax,
            }
        }),
{
    let ghost tss = views_of(raw@).map_values(|p: Seq<char>| trimmed(p));
    let mut ts: Vec<String> = Vec::new();
    let mut i: usize = 0;
    while i < raw.len()
        invariant
            0 <= i <= raw@.len(),
            ts@.len() == i,
            forall|j: int| 0 <= j < i ==> #[trigger] ts@[j]@ == trimmed(raw@[j]@),
        decreases raw@.len() - i,
    {
        ts.push(trim_str(raw[i].as_str()));
        i += 1;
    }
    assert(views_of(ts@) =~= tss);
    if ts.len() == 1 && ts[0].as_str().is_empty() {
        assert(finish_pieces(tss) == Some(Seq::<Seq<char>>::empty()));
        let empty: Vec<String> = Vec::new();
        assert(views_of(empty@) =~= Seq::<Seq<char>>::empty());
        return Ok(empty);
    }
    let last = ts.len() - 1;
    if ts[last].as_str().is_empty() {
        let _popped = ts.pop();
        assert(views_of(ts@) =~= tss.drop_last());
    }
    let ghost ts2 = if tss.len() >= 1 && tss[tss.len() - 1].len() == 0 {
        tss.drop_last()
    } else {
        tss
    };
    assert(views_of(ts@) == ts2);
    let mut k: usize = 0;
    while k < ts.len()
        invariant
            0 <= k <= ts@.len(),
            views_of(ts@) == ts2,
            forall|j: int| 0 <= j < k ==> (#[trigger] ts2[j]).len() != 0,
        decreases ts@.len() - k,
    {
        if ts[k].as_str().is_empty() {
            assert(ts2[k as int] == views_of(ts@)[k as int]);
            assert(ts2[k as int].len() == 0);
            assert(has_empty_piece(ts2));
            assert(!(tss.len() == 1 && tss[0].len() == 0));
            assert(finish_pieces(tss) is None);
            return Err(GenError::HintSyntax);
        }
        k += 1;
    }
    assert(!has_empty_piece(ts2));
    assert(finish_pieces(tss) == Some(ts2));
    Ok(ts)
}

/// The parsed form of one `bounded_to` hint: its ordered target types.
pub struct BoundedAttr {
    pub types: Vec<String>,
}

impl BoundedAttr {
    /// Read one hint's content into its ordered list of target types.
    pub fn parse(s: &str) -> (r: Result<BoundedAttr, GenError>)
        ensures
            ({
                match r {
                    Ok(ba) => hint_targets(s@) == Some(views_of(ba.types@)),
                    Err(e) => hint_targets(s@) is None && e == GenError::HintSyntax,
                }
            }),
    {
        let n = s.unicode_len();
        let lo = skip_spaces_exec(s, 0, n);
        let hi = rskip_spaces_exec(s, n);
        let wrapped = hint_is_wrapped(s, n, lo, hi);
        let mut a: usize = 0;
        let mut b: usize = 0;
        if wrapped {
            let k = skip_spaces_exec(s, lo + 5, n);
            a = k + 1;
            b = hi - 1;
        } else if lo < hi {
            a = lo;
            b = hi;
        }
        assert(hint_content(s@) =~= s@.subrange(a as int, b as int));
        let raw = match split_top(s, a, b) {
            Ok(v) => v,
            Err(e) => {
                return Err(e);
            },
        };
        proof {
            lemma_raw_pieces_len(s@.subrange(a as int, b as int), 0, 0);
        }
        match finish_targets(raw) {
            Ok(v) => Ok(BoundedAttr { types: v }),
            Err(e) => Err(e),
        }
    }
}

/// Read every hint of a declaration, in order, into one combined target list.
#[verifier::loop_isolation(false)]
pub fn parse_hints(hints: &Vec<String>) -> (r: Result<Vec<String>, GenError>)
    ensures
        ({
            match r {
                Ok(v) => hints_ok(views_of(hints@)) && views_of(v@) == hints_targets(
                    views_of(hints@),
                ),
                Err(e) => !hints_ok(views_of(hints@)) && e == GenError::HintSyntax,
            }
        }),
{
    let ghost hs = views_of(hints@);
    let mut out: Vec<String> = Vec::new();
    let mut i: usize = 0;
    while i < hints.len()
        invariant
            0 <= i <= hints@.len(),
            views_of(out@) == hints_targets_upto(hs, i as int),
            forall|j: int| 0 <= j < i ==> (#[trigger] hint_targets(hs[j])) is Some,
        decreases hints@.len() - i,
    {
        let ba = match BoundedAttr::parse(hints[i].as_str()) {
            Ok(ba) => ba,
            Err(e) => {
                assert(hint_targets(hs[i as int]) is None);
                return Err(e);
            },
        };
        let mut k: usize = 0;
        let types = ba.types;
        let ghost prev = views_of(out@);
        while k < types.len()
            invariant
                0 <= k <= types@.len(),
                views_of(out@) == prev + views_of(types@).take(k as int),
            decreases types@.len() - k,
        {
            let t = types[k].clone();
            assert(t@ == types@[k as int]@);
            let ghost before = views_of(out@);
            out.push(t);
            proof {
                assert(views_of(out@) =~= before.push(types@[k as int]@));
                assert(views_of(types@).take(k as int + 1) =~= views_of(types@).take(
                    k as int,
                ).push(types@[k as int]@));
                assert(views_of(out@) =~= prev + views_of(types@).take(k as int + 1));
            }
            k += 1;
        }
        assert(views_of(types@).take(types@.len() as int) =~= views_of(types@));
        assert(views_of(out@) =~= hints_targets_upto(hs, i as int + 1));
        i += 1;
    }
    Ok(out)
}

} // verus!
