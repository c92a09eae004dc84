//! The constraint normalizer.
//!
//! For one generation request the normalizer produces the constraint clause
//! of the generated implementation: the declaration's pre-existing clause
//! predicates are kept, every inline constraint on a generic parameter is
//! relocated — unchanged — into an explicit clause predicate, and the
//! requested capability is demanded of every hinted target type and of every
//! leftover parameter: one that occurs in the field types without being the
//! root of any hinted target. The declaration itself is never changed; the
//! clause is built fresh.

use vstd::prelude::*;
use crate::ident::root_is;
use crate::model::{
    views_of, used_in_shape, used_in_declaration, Declaration, GenericParam, Predicate,
};

verus! {

/// The mathematical content of a clause predicate: the target type's text and
/// the bound's text.
pub ghost struct PredView {
    pub target: Seq<char>,
    pub bound: Seq<char>,
}

impl View for Predicate {
    type V = PredView;

    open spec fn view(&self) -> PredView {
        PredView { target: self.target@, bound: self.bound@ }
    }
}

/// The views of a sequence of predicates.
pub open spec fn preds_view(v: Seq<Predicate>) -> Seq<PredView> {
    v.map_values(|p: Predicate| p@)
}

/// The clause holds a predicate demanding `bound` of `target`.
pub open spec fn has_pred(ps: Seq<PredView>, target: Seq<char>, bound: Seq<char>) -> bool {
    exists|i: int|
        0 <= i < ps.len() && (#[trigger] ps[i]).target == target && ps[i].bound == bound
}

/// The inline constraints of one parameter, relocated to explicit predicates
/// in their written order; the first `n` of them.
pub open spec fn param_inline_upto(p: GenericParam, n: int) -> Seq<PredView>
    decreases n,
{
    if n <= 0 {
        Seq::empty()
    } else {
        param_inline_upto(p, n - 1) + seq![
            PredView { target: p.ident@, bound: p.bounds@[n - 1]@ },
        ]
    }
}

/// The relocated inline constraints of the first `n` parameters, in
/// parameter order.
pub open spec fn inline_preds_upto(params: Seq<GenericParam>, n: int) -> Seq<PredView>
    decreases n,
{
    if n <= 0 {
        Seq::empty()
    } else {
        inline_preds_upto(params, n - 1) + param_inline_upto(
            params[n - 1],
            params[n - 1].bounds@.len() as int,
        )
    }
}

/// Every inline constraint of every parameter, relocated to an explicit
/// predicate.
pub open spec fn inline_preds(params: Seq<GenericParam>) -> Seq<PredView> {
    inline_preds_upto(params, params.len() as int)
}

/// One predicate demanding `bound` of each of the first `n` targets.
pub open spec fn cap_preds_upto(ts: Seq<Seq<char>>, bound: Seq<char>, n: int) -> Seq<PredView>
    decreases n,
{
    if n <= 0 {
        Seq::empty()
    } else {
        cap_preds_upto(ts, bound, n - 1) + seq![PredView { target: ts[n - 1], bound: bound }]
    }
}

/// One predicate demanding `bound` of every target, in target order.
pub open spec fn cap_preds(ts: Seq<Seq<char>>, bound: Seq<char>) -> Seq<PredView> {
    cap_preds_upto(ts, bound, ts.len() as int)
}

/// Some hinted target has the parameter `id` as its root.
pub open spec fn target_covers(ts: Seq<Seq<char>>, id: Seq<char>) -> bool {
    exists|i: int| 0 <= i < ts.len() && root_is(#[trigger] ts[i], id)
}

/// A leftover parameter: used in the declaration's field types, yet not the
/// root of any hinted target, so it keeps the naive per-parameter constraint.
pub open spec fn is_leftover(d: Declaration, ts: Seq<Seq<char>>, p: GenericParam) -> bool {
    used_in_shape(d.shape, p.ident@) && !target_covers(ts, p.ident@)
}

/// The leftover parameters among the first `n`, as target texts, in
/// parameter order.
pub open spec fn leftovers_upto(d: Declaration, ts: Seq<Seq<char>>, n: int) -> Seq<Seq<char>>
    decreases n,
{
    if n <= 0 {
        Seq::empty()
    } else {
        leftovers_upto(d, ts, n - 1) + (if is_leftover(d, ts, d.params@[n - 1]) {
            seq![d.params@[n - 1].ident@]
        } else {
            Seq::empty()
        })
    }
}

/// Every leftover parameter of the declaration, as a target text.
pub open spec fn leftover_targets(d: Declaration, ts: Seq<Seq<char>>) -> Seq<Seq<char>> {
    leftovers_upto(d, ts, d.params@.len() as int)
}

/// The normalized clause for the target list `all_ts` (hinted targets
/// followed by leftovers): pre-existing predicates, then relocated inline
/// constraints, then one capability predicate per target.
pub open spec fn normalized_clause(
    d: Declaration,
    all_ts: Seq<Seq<char>>,
    bound: Seq<char>,
) -> Seq<PredView> {
    preds_view(d.where_preds@) + inline_preds(d.params@) + cap_preds(all_ts, bound)
}

/// The full clause of a generation request with hinted targets `ts`.
pub open spec fn full_clause(d: Declaration, ts: Seq<Seq<char>>, bound: Seq<char>) -> Seq<
    PredView,
> {
    normalized_clause(d, ts + leftover_targets(d, ts), bound)
}

/// Whether some hinted target has the parameter `id` as its root.
fn targets_cover(targets: &Vec<String>, id: &str) -> (r: bool)
    ensures
        r == target_covers(views_of(targets@), id@),
{
    let mut i: usize = 0;
    while i < targets.len()
        invariant
            0 <= i <= targets@.len(),
            forall|j: int| 0 <= j < i ==> !root_is(#[trigger] views_of(targets@)[j], id@),
        decreases targets@.len() - i,
    {
        if crate::ident::str_root_is(targets[i].as_str(), id) {
            assert(root_is(views_of(targets@)[i as int], id@));
            return true;
        }
        assert(views_of(targets@)[i as int] == targets@[i as int]@);
        i += 1;
    }
    false
}

/// The leftover parameters of the declaration under the hinted targets, in
/// parameter order, as target texts.
#[verifier::loop_isolation(false)]
pub fn leftover_params(d: &Declaration, targets: &Vec<String>) -> (r: Vec<String>)
    ensures
        views_of(r@) == leftover_targets(*d, views_of(targets@)),
{
    let ghost ts = views_of(targets@);
    let mut out: Vec<String> = Vec::new();
    let mut i: usize = 0;
    while i < d.params.len()
        invariant
            0 <= i <= d.params@.len(),
            views_of(out@) == leftovers_upto(*d, ts, i as int),
        decreases d.params@.len() - i,
    {
        let used = used_in_declaration(d, d.params[i].ident.as_str());
        if used {
            if !targets_cover(targets, d.params[i].ident.as_str()) {
                assert(is_leftover(*d, ts, d.params@[i as int]));
                let ghost before = views_of(out@);
                out.push(d.params[i].ident.clone());
                assert(views_of(out@) =~= before.push(d.params@[i as int].ident@));
                assert(views_of(out@) =~= leftovers_upto(*d, ts, i as int + 1));
            } else {
                assert(!is_leftover(*d, ts, d.params@[i as int]));
                assert(views_of(out@) =~= leftovers_upto(*d, ts, i as int + 1));
            }
        } else {
            assert(!is_leftover(*d, ts, d.params@[i as int]));
            assert(views_of(out@) =~= leftovers_upto(*d, ts, i as int + 1));
        }
        i += 1;
    }
    out
}

/// Build the normalized clause: keep the pre-existing predicates, relocate
/// every inline constraint, and demand `bound` of every target in `all_ts`.
/// The declaration is read, never changed.
#[verifier::loop_isolation(false)]
pub fn normalize_generics(d: &Declaration, all_ts: &Vec<String>, bound: &str) -> (clause: Vec<
    Predicate,
>)
    ensures
        preds_view(clause@) == normalized_clause(*d, views_of(all_ts@), bound@),
{
    let mut clause: Vec<Predicate> = Vec::new();
    let mut i: usize = 0;
    while i < d.where_preds.len()
        invariant
            0 <= i <= d.where_preds@.len(),
            preds_view(clause@) == preds_view(d.where_preds@).take(i as int),
        decreases d.where_preds@.len() - i,
    {
        let ghost before = preds_view(clause@);
        clause.push(
            Predicate {
                target: d.where_preds[i].target.clone(),
                bound: d.where_preds[i].bound.clone(),
            },
        );
        assert(preds_view(clause@) =~= before.push(d.where_preds@[i as int]@));
        assert(preds_view(clause@) =~= preds_view(d.where_preds@).take(i as int + 1));
        i += 1;
    }
    assert(preds_view(d.where_preds@).take(d.where_preds@.len() as int) =~= preds_view(
        d.where_preds@,
    ));
    let ghost head = preds_view(d.where_preds@);
    let mut i: usize = 0;
    while i < d.params.len()
        invariant
            0 <= i <= d.params@.len(),
            preds_view(clause@) == head + inline_preds_upto(d.params@, i as int),
        decreases d.params@.len() - i,
    {
        let ghost mid = inline_preds_upto(d.params@, i as int);
        let bounds_len = d.params[i].bounds.len();
        let mut j: usize = 0;
        while j < bounds_len
            invariant
                0 <= j <= bounds_len,
                bounds_len == d.params@[i as int].bounds@.len(),
                0 <= i < d.params@.len(),
                preds_view(clause@) == head + mid + param_inline_upto(
                    d.params@[i as int],
                    j as int,
                ),
            decreases bounds_len - j,
        {
            let ghost before = preds_view(clause@);
            clause.push(
                Predicate {
                    target: d.params[i].ident.clone(),
                    bound: d.params[i].bounds[j].clone(),
                },
            );
            assert(preds_view(clause@) =~= before.push(
                PredView {
                    target: d.params@[i as int].ident@,
                    bound: d.params@[i as int].bounds@[j as int]@,
                },
            ));
            assert(preds_view(clause@) =~= head + mid + param_inline_upto(
                d.params@[i as int],
                j as int + 1,
            ));
            j += 1;
        }
        assert(preds_view(clause@) =~= head + inline_preds_upto(d.params@, i as int + 1));
        i += 1;
    }
    let ghost head2 = head + inline_preds(d.params@);
    assert(preds_view(clause@) == head2);
    let mut i: usize = 0;
    while i < all_ts.len()
        invariant
            0 <= i <= all_ts@.len(),
            preds_view(clause@) == head2 + cap_preds_upto(views_of(all_ts@), bound@, i as int),
        decreases all_ts@.len() - i,
    {
        let ghost before = preds_view(clause@);
        clause.push(Predicate { target: all_ts[i].clone(), bound: bound.to_owned() });
        assert(preds_view(clause@) =~= before.push(
            PredView { target: views_of(all_ts@)[i as int], bound: bound@ },
        ));
        assert(preds_view(clause@) =~= head2 + cap_preds_upto(
            views_of(all_ts@),
            bound@,
            i as int + 1,
        ));
        i += 1;
    }
    assert(preds_view(clause@) =~= normalized_clause(*d, views_of(all_ts@), bound@));
    clause
}


/// A predicate stands in a concatenation exactly when it stands in one of
/// the parts.
proof fn lemma_has_pred_concat(a: Seq<PredView>, b: Seq<PredView>, t: Seq<char>, bd: Seq<char>)
    ensures
        has_pred(a + b, t, bd) <==> has_pred(a, t, bd) || has_pred(b, t, bd),
{
    if has_pred(a + b, t, bd) {
        let i = choose|i: int|
            0 <= i < (a + b).len() && (#[trigger] (a + b)[i]).target == t && (a + b)[i].bound
                == bd;
        if i < a.len() {
            assert(a[i] == (a + b)[i]);
            assert(has_pred(a, t, bd));
        } else {
            assert(b[i - a.len()] == (a + b)[i]);
            assert(has_pred(b, t, bd));
        }
    }
    if has_pred(a, t, bd) {
        let i = choose|i: int|
            0 <= i < a.len() && (#[trigger] a[i]).target == t && a[i].bound == bd;
        assert((a + b)[i] == a[i]);
        assert(has_pred(a + b, t, bd));
    }
    if has_pred(b, t, bd) {
        let i = choose|i: int|
            0 <= i < b.len() && (#[trigger] b[i]).target == t && b[i].bound == bd;
        assert((a + b)[a.len() + i] == b[i]);
        assert(has_pred(a + b, t, bd));
    }
}

/// The capability predicates over the first `n` targets demand exactly
/// `bound`, of exactly those targets.
proof fn lemma_cap_preds_iff(ts: Seq<Seq<char>>, bound: Seq<char>, n: int, t: Seq<char>, b: Seq<char>)
    requires
        n <= ts.len(),
    ensures
        has_pred(cap_preds_upto(ts, bound, n), t, b) <==> (b == bound && exists|i: int|
            0 <= i < n && ts[i] == t),
    decreases n,
{
    if n <= 0 {
        assert(!has_pred(cap_preds_upto(ts, bound, n), t, b));
    } else {
        lemma_cap_preds_iff(ts, bound, n - 1, t, b);
        lemma_has_pred_concat(
            cap_preds_upto(ts, bound, n - 1),
            seq![PredView { target: ts[n - 1], bound: bound }],
            t,
            b,
        );
        if b == bound && ts[n - 1] == t {
            assert(seq![PredView { target: ts[n - 1], bound: bound }][0].target == t);
            assert(has_pred(seq![PredView { target: ts[n - 1], bound: bound }], t, b));
        }
        if has_pred(seq![PredView { target: ts[n - 1], bound: bound }], t, b) {
            let i = choose|i: int|
                0 <= i < 1 && (#[trigger] seq![
                    PredView { target: ts[n - 1], bound: bound },
                ][i]).target == t && seq![PredView { target: ts[n - 1], bound: bound }][i].bound
                    == b;
            assert(i == 0);
        }
    }
}

/// The relocated inline predicates of one parameter carry only that
/// parameter's written bounds.
proof fn lemma_param_inline_iff(p: GenericParam, n: int, t: Seq<char>, b: Seq<char>)
    requires
        n <= p.bounds@.len(),
    ensures
        has_pred(param_inline_upto(p, n), t, b) <==> (t == p.ident@ && exists|j: int|
            0 <= j < n && p.bounds@[j]@ == b),
    decreases n,
{
    if n <= 0 {
    } else {
        lemma_param_inline_iff(p, n - 1, t, b);
        let last = seq![PredView { target: p.ident@, bound: p.bounds@[n - 1]@ }];
        lemma_has_pred_concat(param_inline_upto(p, n - 1), last, t, b);
        if t == p.ident@ && p.bounds@[n - 1]@ == b {
            assert(last[0].target == t && last[0].bound == b);
            assert(has_pred(last, t, b));
        }
        if has_pred(last, t, b) {
            let i = choose|i: int|
                0 <= i < 1 && (#[trigger] last[i]).target == t && last[i].bound == b;
            assert(i == 0);
        }
    }
}

/// The relocated inline predicates of the first `n` parameters carry only
/// the parameters' written bounds.
proof fn lemma_inline_preds_iff(params: Seq<GenericParam>, n: int, t: Seq<char>, b: Seq<char>)
    requires
        n <= params.len(),
    ensures
        has_pred(inline_preds_upto(params, n), t, b) <==> exists|i: int, j: int|
            0 <= i < n && 0 <= j < params[i].bounds@.len() && params[i].ident@ == t && (
            #[trigger] params[i].bounds@[j])@ == b,
    decreases n,
{
    if n <= 0 {
    } else {
        lemma_inline_preds_iff(params, n - 1, t, b);
        lemma_param_inline_iff(params[n - 1], params[n - 1].bounds@.len() as int, t, b);
        lemma_has_pred_concat(
            inline_preds_upto(params, n - 1),
            param_inline_upto(params[n - 1], params[n - 1].bounds@.len() as int),
            t,
            b,
        );
    }
}

/// The leftover target texts over the first `n` parameters are exactly the
/// names of the leftover parameters among them.
proof fn lemma_leftovers_iff(d: Declaration, ts: Seq<Seq<char>>, n: int, t: Seq<char>)
    requires
        n <= d.params@.len(),
    ensures
        leftovers_upto(d, ts, n).contains(t) <==> exists|k: int|
            0 <= k < n && is_leftover(d, ts, #[trigger] d.params@[k]) && d.params@[k].ident@ == t,
    decreases n,
{
    if n <= 0 {
    } else {
        lemma_leftovers_iff(d, ts, n - 1, t);
        let tail = if is_leftover(d, ts, d.params@[n - 1]) {
            seq![d.params@[n - 1].ident@]
        } else {
            Seq::<Seq<char>>::empty()
        };
        assert(leftovers_upto(d, ts, n) == leftovers_upto(d, ts, n - 1) + tail);
        if leftovers_upto(d, ts, n).contains(t) {
            let i = choose|i: int|
                0 <= i < leftovers_upto(d, ts, n).len() && leftovers_upto(d, ts, n)[i] == t;
            if i < leftovers_upto(d, ts, n - 1).len() {
                assert(leftovers_upto(d, ts, n - 1)[i] == t);
                assert(leftovers_upto(d, ts, n - 1).contains(t));
            } else {
                assert(tail[i - leftovers_upto(d, ts, n - 1).len()] == t);
            }
        }
        if exists|k: int|
            0 <= k < n && is_leftover(d, ts, #[trigger] d.params@[k]) && d.params@[k].ident@
                == t {
            let k = choose|k: int|
                0 <= k < n && is_leftover(d, ts, #[trigger] d.params@[k]) && d.params@[k].ident@
                    == t;
            if k < n - 1 {
                assert(leftovers_upto(d, ts, n - 1).contains(t));
                let i = choose|i: int|
                    0 <= i < leftovers_upto(d, ts, n - 1).len() && (#[trigger] leftovers_upto(
                        d,
                        ts,
                        n - 1,
                    )[i]) == t;
                assert(leftovers_upto(d, ts, n)[i] == t);
                assert(leftovers_upto(d, ts, n).contains(t));
            } else {
                assert(tail[0] == t);
                assert(leftovers_upto(d, ts, n)[leftovers_upto(d, ts, n - 1).len() as int] == t);
                assert(leftovers_upto(d, ts, n).contains(t));
            }
        }
    }
}

/// Every inline constraint written on a generic parameter stands, unchanged,
/// as an explicit predicate of the full clause: relocation preserves it.
pub proof fn lemma_inline_constraints_preserved(
    d: Declaration,
    ts: Seq<Seq<char>>,
    bound: Seq<char>,
    i: int,
    j: int,
)
    requires
        0 <= i < d.params@.len(),
        0 <= j < d.params@[i].bounds@.len(),
    ensures
        has_pred(full_clause(d, ts, bound), d.params@[i].ident@, d.params@[i].bounds@[j]@),
{
    let t = d.params@[i].ident@;
    let b = d.params@[i].bounds@[j]@;
    lemma_inline_preds_iff(d.params@, d.params@.len() as int, t, b);
    assert(has_pred(inline_preds(d.params@), t, b));
    let all_ts = ts + leftover_targets(d, ts);
    lemma_has_pred_concat(preds_view(d.where_preds@), inline_preds(d.params@), t, b);
    lemma_has_pred_concat(
        preds_view(d.where_preds@) + inline_preds(d.params@),
        cap_preds(all_ts, bound),
        t,
        b,
    );
    assert(full_clause(d, ts, bound) == (preds_view(d.where_preds@) + inline_preds(d.params@))
        + cap_preds(all_ts, bound));
}

/// The full clause demands the requested capability of every hinted target
/// and of every leftover parameter, and of nothing else — provided no inline
/// or pre-existing predicate already wrote that same bound.
pub proof fn lemma_clause_capability_exact(d: Declaration, ts: Seq<Seq<char>>, bound: Seq<char>)
    requires
        forall|i: int, j: int|
            0 <= i < d.params@.len() && 0 <= j < d.params@[i].bounds@.len() ==> (
            #[trigger] d.params@[i].bounds@[j])@ != bound,
        forall|i: int|
            0 <= i < d.where_preds@.len() ==> (#[trigger] d.where_preds@[i]).bound@ != bound,
    ensures
        forall|k: int|
            0 <= k < ts.len() ==> has_pred(full_clause(d, ts, bound), #[trigger] ts[k], bound),
        forall|k: int|
            0 <= k < d.params@.len() && is_leftover(d, ts, #[trigger] d.params@[k]) ==> has_pred(
                full_clause(d, ts, bound),
                d.params@[k].ident@,
                bound,
            ),
        forall|t: Seq<char>|
            #[trigger] has_pred(full_clause(d, ts, bound), t, bound) ==> ts.contains(t) || (
            exists|k: int|
                0 <= k < d.params@.len() && is_leftover(d, ts, #[trigger] d.params@[k])
                    && d.params@[k].ident@ == t),
{
    let all_ts = ts + leftover_targets(d, ts);
    let head = preds_view(d.where_preds@) + inline_preds(d.params@);
    assert(full_clause(d, ts, bound) == head + cap_preds(all_ts, bound));
    assert forall|t: Seq<char>, b: Seq<char>|
        has_pred(full_clause(d, ts, bound), t, b) == (has_pred(preds_view(d.where_preds@), t, b)
            || has_pred(inline_preds(d.params@), t, b) || has_pred(
            cap_preds(all_ts, bound),
            t,
            b,
        )) by {
        lemma_has_pred_concat(preds_view(d.where_preds@), inline_preds(d.params@), t, b);
        lemma_has_pred_concat(head, cap_preds(all_ts, bound), t, b);
    }
    assert forall|k: int| 0 <= k < ts.len() implies has_pred(
        full_clause(d, ts, bound),
        #[trigger] ts[k],
        bound,
    ) by {
        lemma_cap_preds_iff(all_ts, bound, all_ts.len() as int, ts[k], bound);
        assert(all_ts[k] == ts[k]);
        assert(has_pred(cap_preds(all_ts, bound), ts[k], bound));
    }
    assert forall|k: int|
        0 <= k < d.params@.len() && is_leftover(d, ts, #[trigger] d.params@[k]) implies has_pred(
        full_clause(d, ts, bound),
        d.params@[k].ident@,
        bound,
    ) by {
        let t = d.params@[k].ident@;
        lemma_leftovers_iff(d, ts, d.params@.len() as int, t);
        assert(leftover_targets(d, ts).contains(t));
        let i = choose|i: int|
            0 <= i < leftover_targets(d, ts).len() && leftover_targets(d, ts)[i] == t;
        assert(all_ts[ts.len() + i] == t);
        lemma_cap_preds_iff(all_ts, bound, all_ts.len() as int, t, bound);
        assert(has_pred(cap_preds(all_ts, bound), t, bound));
    }
    assert forall|t: Seq<char>| #[trigger] has_pred(full_clause(d, ts, bound), t, bound) implies ts
        .contains(t) || (exists|k: int|
        0 <= k < d.params@.len() && is_leftover(d, ts, #[trigger] d.params@[k])
            && d.params@[k].ident@ == t) by {
        if has_pred(preds_view(d.where_preds@), t, bound) {
            let i = choose|i: int|
                0 <= i < preds_view(d.where_preds@).len() && (#[trigger] preds_view(
                    d.where_preds@,
                )[i]).target == t && preds_view(d.where_preds@)[i].bound == bound;
            assert(preds_view(d.where_preds@)[i] == d.where_preds@[i]@);
            assert(false);
        }
        if has_pred(inline_preds(d.params@), t, bound) {
            lemma_inline_preds_iff(d.params@, d.params@.len() as int, t, bound);
            assert(false);
        }
        if has_pred(cap_preds(all_ts, bound), t, bound) {
            lemma_cap_preds_iff(all_ts, bound, all_ts.len() as int, t, bound);
            let i = choose|i: int| 0 <= i < all_ts.len() && all_ts[i] == t;
            if i < ts.len() {
                assert(ts[i] == t);
                assert(ts.contains(t));
            } else {
                assert(leftover_targets(d, ts)[i - ts.len()] == t);
                assert(leftover_targets(d, ts).contains(t));
                lemma_leftovers_iff(d, ts, d.params@.len() as int, t);
            }
        }
    }
}

} // verus!
