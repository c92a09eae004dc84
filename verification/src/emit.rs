//! Shape dispatch and text emission.
//!
//! Each capability contract supplies a small table of templates: a body for
//! each of the three field shapes, a snippet per field, and an arm per
//! variant. The dispatcher folds the snippets over the declaration's fields
//! or variants and wraps the result in the implementation frame. All output
//! is plain text, produced as a pure function of the declaration, so
//! regenerating from an unchanged declaration yields identical text.

use vstd::prelude::*;
use crate::model::{Capability, FieldShape, GenericParam, Predicate, Variant, views_of};
use crate::normalize::{preds_view, PredView};

verus! {

/// The decimal digit character for `d`.
pub open spec fn dec_digit(d: int) -> char {
    if d == 0 {
        '0'
    } else if d == 1 {
        '1'
    } else if d == 2 {
        '2'
    } else if d == 3 {
        '3'
    } else if d == 4 {
        '4'
    } else if d == 5 {
        '5'
    } else if d == 6 {
        '6'
    } else if d == 7 {
        '7'
    } else if d == 8 {
        '8'
    } else {
        '9'
    }
}

/// The decimal rendering of `n`.
pub open spec fn dec_str(n: int) -> Seq<char>
    decreases n,
{
    if n < 10 {
        seq![dec_digit(n)]
    } else {
        dec_str(n / 10) + seq![dec_digit(n % 10)]
    }
}

/// The single-character string for digit `d`.
fn digit_str(d: usize) -> (r: &'static str)
    requires
        d < 10,
    ensures
        r@ == seq![dec_digit(d as int)],
{
    let r: &'static str = match d {
        0 => "0",
        1 => "1",
        2 => "2",
        3 => "3",
        4 => "4",
        5 => "5",
        6 => "6",
        7 => "7",
        8 => "8",
        _ => "9",
    };
    proof {
        reveal_strlit("0");
        reveal_strlit("1");
        reveal_strlit("2");
        reveal_strlit("3");
        reveal_strlit("4");
        reveal_strlit("5");
        reveal_strlit("6");
        reveal_strlit("7");
        reveal_strlit("8");
        reveal_strlit("9");
        assert(r@ =~= seq![dec_digit(d as int)]);
    }
    r
}

/// The decimal rendering of `n`, as a fresh string.
pub fn itoa(n: usize) -> (r: String)
    ensures
        r@ == dec_str(n as int),
    decreases n,
{
    if n < 10 {
        digit_str(n).to_owned()
    } else {
        assert(n / 10 < n) by (nonlinear_arith)
            requires
                n >= 10,
        ;
        let mut s = itoa(n / 10);
        s.append(digit_str(n % 10));
        s
    }
}

/// The generic-parameter names of the first `n` parameters, joined by `, `.
pub open spec fn params_upto(params: Seq<GenericParam>, n: int) -> Seq<char>
    decreases n,
{
    if n <= 0 {
        Seq::empty()
    } else if n == 1 {
        params[0].ident@
    } else {
        params_upto(params, n - 1) + ", "@ + params[n - 1].ident@
    }
}

/// `<T, U>` over the parameter names; empty when there are no parameters.
pub open spec fn generics_text(params: Seq<GenericParam>) -> Seq<char> {
    if params.len() == 0 {
        Seq::empty()
    } else {
        "<"@ + params_upto(params, params.len() as int) + ">"@
    }
}

/// One clause predicate as text.
pub open spec fn pred_text(p: PredView) -> Seq<char> {
    p.target + ": "@ + p.bound
}

/// The first `n` clause predicates, joined by `, `.
pub open spec fn preds_upto(ps: Seq<PredView>, n: int) -> Seq<char>
    decreases n,
{
    if n <= 0 {
        Seq::empty()
    } else if n == 1 {
        pred_text(ps[0])
    } else {
        preds_upto(ps, n - 1) + ", "@ + pred_text(ps[n - 1])
    }
}

/// ` where target: bound, ...`; empty when the clause holds no predicate.
pub open spec fn clause_text(ps: Seq<PredView>) -> Seq<char> {
    if ps.len() == 0 {
        Seq::empty()
    } else {
        " where "@ + preds_upto(ps, ps.len() as int)
    }
}

/// The implementation frame around the emitted items: header with the
/// generic parameters and the constraint clause, then the braced items.
pub open spec fn impl_text(
    bound_path: Seq<char>,
    name: Seq<char>,
    params: Seq<GenericParam>,
    clause: Seq<PredView>,
    items: Seq<char>,
) -> Seq<char> {
    "impl"@ + generics_text(params) + " "@ + bound_path + " for "@ + name + generics_text(params)
        + clause_text(clause) + " { "@ + items + "}"@
}

/// Render the generic-parameter list `<T, U>` of the declaration.
#[verifier::loop_isolation(false)]
pub fn render_generics(params: &Vec<GenericParam>) -> (r: String)
    ensures
        r@ == generics_text(params@),
{
    if params.len() == 0 {
        return String::new();
    }
    let mut out = String::new();
    out.append("<");
    let mut i: usize = 0;
    while i < params.len()
        invariant
            0 <= i <= params@.len(),
            out@ == "<"@ + params_upto(params@, i as int),
        decreases params@.len() - i,
    {
        if i > 0 {
            out.append(", ");
        }
        out.append(params[i].ident.as_str());
        assert(out@ =~= "<"@ + params_upto(params@, i as int + 1));
        i += 1;
    }
    out.append(">");
    assert(out@ =~= generics_text(params@));
    out
}

/// Render the constraint clause ` where target: bound, ...`.
#[verifier::loop_isolation(false)]
pub fn render_clause(clause: &Vec<Predicate>) -> (r: String)
    ensures
        r@ == clause_text(preds_view(clause@)),
{
    if clause.len() == 0 {
        return String::new();
    }
    let ghost ps = preds_view(clause@);
    let mut out = String::new();
    out.append(" where ");
    let mut i: usize = 0;
    while i < clause.len()
        invariant
            0 <= i <= clause@.len(),
            ps == preds_view(clause@),
            out@ == " where "@ + preds_upto(ps, i as int),
        decreases clause@.len() - i,
    {
        if i > 0 {
            out.append(", ");
        }
        out.append(clause[i].target.as_str());
        out.append(": ");
        out.append(clause[i].bound.as_str());
        assert(ps[i as int] == clause@[i as int]@);
        assert(out@ =~= " where "@ + preds_upto(ps, i as int + 1));
        i += 1;
    }
    out
}


/// The decimal keys `0`, `1`, ... for `n` positional fields.
pub open spec fn index_keys(n: int) -> Seq<Seq<char>>
    decreases n,
{
    if n <= 0 {
        Seq::empty()
    } else {
        index_keys(n - 1) + seq![dec_str(n - 1)]
    }
}

/// The per-field keys of a field shape: field names for a record, decimal
/// indices for positional fields, none for unit.
pub open spec fn keys_of(fs: FieldShape) -> Seq<Seq<char>> {
    match fs {
        FieldShape::Record(fields) => fields.view().map_values(
            |f: crate::model::NamedField| f.ident@,
        ),
        FieldShape::Positional(tys) => index_keys(tys.view().len() as int),
        FieldShape::Unit => Seq::empty(),
    }
}

/// Whether the field shape carries named fields.
pub open spec fn shape_named(fs: FieldShape) -> bool {
    fs is Record
}

/// The body snippet one field contributes, per capability.
pub open spec fn body_snip(cap: Capability, named: bool, key: Seq<char>) -> Seq<char> {
    match cap {
        Capability::Duplication => if named {
            key + ": self."@ + key + ".clone(), "@
        } else {
            "self."@ + key + ".clone(), "@
        },
        Capability::Representation => if named {
            ".field(\""@ + key + "\", &self."@ + key + ")"@
        } else {
            ".field(&self."@ + key + ")"@
        },
        Capability::DefaultValue => if named {
            key + ": std::default::Default::default(), "@
        } else {
            "std::default::Default::default(), "@
        },
        Capability::Equality => " && other."@ + key + " == self."@ + key,
        Capability::TotalEquality => Seq::empty(),
    }
}

/// The body snippets of the first `n` fields, in field order.
pub open spec fn body_fields_upto(
    cap: Capability,
    named: bool,
    keys: Seq<Seq<char>>,
    n: int,
) -> Seq<char>
    decreases n,
{
    if n <= 0 {
        Seq::empty()
    } else {
        body_fields_upto(cap, named, keys, n - 1) + body_snip(cap, named, keys[n - 1])
    }
}

/// The body snippets of every field.
pub open spec fn body_fields(cap: Capability, named: bool, keys: Seq<Seq<char>>) -> Seq<char> {
    body_fields_upto(cap, named, keys, keys.len() as int)
}

/// The binder one field contributes to a destructuring pattern.
pub open spec fn binder_snip(prefix: Seq<char>, named: bool, key: Seq<char>) -> Seq<char> {
    if named {
        key + ": "@ + prefix + "_"@ + key + ", "@
    } else {
        prefix + "_"@ + key + ", "@
    }
}

/// The binders of the first `n` fields, in field order.
pub open spec fn binders_upto(
    prefix: Seq<char>,
    named: bool,
    keys: Seq<Seq<char>>,
    n: int,
) -> Seq<char>
    decreases n,
{
    if n <= 0 {
        Seq::empty()
    } else {
        binders_upto(prefix, named, keys, n - 1) + binder_snip(prefix, named, keys[n - 1])
    }
}

/// The binders of every field.
pub open spec fn binders_all(prefix: Seq<char>, named: bool, keys: Seq<Seq<char>>) -> Seq<char> {
    binders_upto(prefix, named, keys, keys.len() as int)
}

/// The snippet one bound field contributes inside a variant arm.
pub open spec fn arm_snip(cap: Capability, named: bool, key: Seq<char>) -> Seq<char> {
    match cap {
        Capability::Duplication => if named {
            key + ": self_"@ + key + ".clone(), "@
        } else {
            "self_"@ + key + ".clone(), "@
        },
        Capability::Representation => if named {
            ".field(\""@ + key + "\", self_"@ + key + ")"@
        } else {
            ".field(self_"@ + key + ")"@
        },
        Capability::Equality => " && other_"@ + key + " == self_"@ + key,
        Capability::DefaultValue => Seq::empty(),
        Capability::TotalEquality => Seq::empty(),
    }
}

/// The arm snippets of the first `n` bound fields, in field order.
pub open spec fn arm_fields_upto(
    cap: Capability,
    named: bool,
    keys: Seq<Seq<char>>,
    n: int,
) -> Seq<char>
    decreases n,
{
    if n <= 0 {
        Seq::empty()
    } else {
        arm_fields_upto(cap, named, keys, n - 1) + arm_snip(cap, named, keys[n - 1])
    }
}

/// The arm snippets of every bound field.
pub open spec fn arm_fields(cap: Capability, named: bool, keys: Seq<Seq<char>>) -> Seq<char> {
    arm_fields_upto(cap, named, keys, keys.len() as int)
}

/// The per-field keys of a field shape, as fresh strings.
#[verifier::loop_isolation(false)]
pub fn field_keys(fields: &FieldShape) -> (r: Vec<String>)
    ensures
        views_of(r@) == keys_of(*fields),
{
    match fields {
        FieldShape::Record(fs) => {
            let mut out: Vec<String> = Vec::new();
            let mut i: usize = 0;
            while i < fs.len()
                invariant
                    0 <= i <= fs@.len(),
                    out@.len() == i,
                    forall|j: int| 0 <= j < i ==> (#[trigger] out@[j])@ == fs@[j].ident@,
                decreases fs@.len() - i,
            {
                out.push(fs[i].ident.clone());
                i += 1;
            }
            assert(views_of(out@) =~= keys_of(*fields));
            out
        },
        FieldShape::Positional(tys) => {
            let mut out: Vec<String> = Vec::new();
            let mut i: usize = 0;
            while i < tys.len()
                invariant
                    0 <= i <= tys@.len(),
                    views_of(out@) == index_keys(i as int),
                decreases tys@.len() - i,
            {
                let ghost before = views_of(out@);
                out.push(itoa(i));
                assert(views_of(out@) =~= before.push(dec_str(i as int)));
                assert(views_of(out@) =~= index_keys(i as int + 1));
                i += 1;
            }
            out
        },
        FieldShape::Unit => {
            let out: Vec<String> = Vec::new();
            assert(views_of(out@) =~= keys_of(*fields));
            out
        },
    }
}

/// Append the body snippet of one field.
fn append_body_snip(out: &mut String, cap: Capability, named: bool, key: &str)
    ensures
        final(out)@ == old(out)@ + body_snip(cap, named, key@),
{
    match cap {
        Capability::Duplication => {
            if named {
                out.append(key);
                out.append(": self.");
            } else {
                out.append("self.");
            }
            out.append(key);
            out.append(".clone(), ");
        },
        Capability::Representation => {
            if named {
                out.append(".field(\"");
                out.append(key);
                out.append("\", &self.");
            } else {
                out.append(".field(&self.");
            }
            out.append(key);
            out.append(")");
        },
        Capability::DefaultValue => {
            if named {
                out.append(key);
                out.append(": std::default::Default::default(), ");
            } else {
                out.append("std::default::Default::default(), ");
            }
        },
        Capability::Equality => {
            out.append(" && other.");
            out.append(key);
            out.append(" == self.");
            out.append(key);
        },
        Capability::TotalEquality => {},
    }
    assert(out@ =~= old(out)@ + body_snip(cap, named, key@));
}

/// Append the arm snippet of one bound field.
fn append_arm_snip(out: &mut String, cap: Capability, named: bool, key: &str)
    ensures
        final(out)@ == old(out)@ + arm_snip(cap, named, key@),
{
    match cap {
        Capability::Duplication => {
            if named {
                out.append(key);
                out.append(": self_");
            } else {
                out.append("self_");
            }
            out.append(key);
            out.append(".clone(), ");
        },
        Capability::Representation => {
            if named {
                out.append(".field(\"");
                out.append(key);
                out.append("\", self_");
            } else {
                out.append(".field(self_");
            }
            out.append(key);
            out.append(")");
        },
        Capability::Equality => {
            out.append(" && other_");
            out.append(key);
            out.append(" == self_");
            out.append(key);
        },
        Capability::DefaultValue => {},
        Capability::TotalEquality => {},
    }
    assert(out@ =~= old(out)@ + arm_snip(cap, named, key@));
}

/// Fold the body snippet over every field key.
#[verifier::loop_isolation(false)]
pub fn render_body_fields(cap: Capability, named: bool, keys: &Vec<String>) -> (r: String)
    ensures
        r@ == body_fields(cap, named, views_of(keys@)),
{
    let mut out = String::new();
    let mut i: usize = 0;
    while i < keys.len()
        invariant
            0 <= i <= keys@.len(),
            out@ == body_fields_upto(cap, named, views_of(keys@), i as int),
        decreases keys@.len() - i,
    {
        append_body_snip(&mut out, cap, named, keys[i].as_str());
        assert(views_of(keys@)[i as int] == keys@[i as int]@);
        i += 1;
    }
    out
}

/// Fold the arm snippet over every bound field key.
#[verifier::loop_isolation(false)]
fn render_arm_fields(cap: Capability, named: bool, keys: &Vec<String>) -> (r: String)
    ensures
        r@ == arm_fields(cap, named, views_of(keys@)),
{
    let mut out = String::new();
    let mut i: usize = 0;
    while i < keys.len()
        invariant
            0 <= i <= keys@.len(),
            out@ == arm_fields_upto(cap, named, views_of(keys@), i as int),
        decreases keys@.len() - i,
    {
        append_arm_snip(&mut out, cap, named, keys[i].as_str());
        assert(views_of(keys@)[i as int] == keys@[i as int]@);
        i += 1;
    }
    out
}


/// The binder names a destructured variant introduces: one per field, the
/// prefix joined to the field's key.
pub open spec fn binder_names(prefix: Seq<char>, fs: FieldShape) -> Seq<Seq<char>> {
    keys_of(fs).map_values(|k: Seq<char>| prefix + "_"@ + k)
}

/// The binder names a destructured variant introduces, as fresh strings.
#[verifier::loop_isolation(false)]
pub fn variant_fields(prefix: &str, fields: &FieldShape) -> (r: Vec<String>)
    ensures
        views_of(r@) == binder_names(prefix@, *fields),
{
    let keys = field_keys(fields);
    let mut out: Vec<String> = Vec::new();
    let mut i: usize = 0;
    while i < keys.len()
        invariant
            0 <= i <= keys@.len(),
            views_of(keys@) == keys_of(*fields),
            out@.len() == i,
            forall|j: int|
                0 <= j < i ==> (#[trigger] out@[j])@ == prefix@ + "_"@ + keys_of(*fields)[j],
        decreases keys@.len() - i,
    {
        let mut b = prefix.to_owned();
        b.append("_");
        b.append(keys[i].as_str());
        assert(keys@[i as int]@ == keys_of(*fields)[i as int]);
        out.push(b);
        i += 1;
    }
    assert(views_of(out@) =~= binder_names(prefix@, *fields));
    out
}

/// The destructuring pattern of a variant or struct body, after the name:
/// `` { a: self_a, }``, ``(self_0, )`` or nothing for unit.
pub open spec fn unpack_text(prefix: Seq<char>, fs: FieldShape) -> Seq<char> {
    match fs {
        FieldShape::Record(_) => " { "@ + binders_all(prefix, true, keys_of(fs)) + "}"@,
        FieldShape::Positional(_) => "("@ + binders_all(prefix, false, keys_of(fs)) + ")"@,
        FieldShape::Unit => Seq::empty(),
    }
}

/// Render the destructuring pattern of a variant, binding each field to
/// `prefix_key`.
#[verifier::loop_isolation(false)]
pub fn unpack_struct(prefix: &str, fields: &FieldShape) -> (r: String)
    ensures
        r@ == unpack_text(prefix@, *fields),
{
    let keys = field_keys(fields);
    let binders = variant_fields(prefix, fields);
    proof {
        assert(views_of(keys@).len() == keys@.len());
        assert(views_of(binders@).len() == binders@.len());
        assert(binder_names(prefix@, *fields).len() == keys_of(*fields).len());
    }
    let named = matches!(fields, FieldShape::Record(_));
    let mut out = String::new();
    match fields {
        FieldShape::Record(_) => {
            out.append(" { ");
        },
        FieldShape::Positional(_) => {
            out.append("(");
        },
        FieldShape::Unit => {
            return out;
        },
    }
    let ghost open_piece = out@;
    let ghost keysv = keys_of(*fields);
    let mut i: usize = 0;
    while i < keys.len()
        invariant
            0 <= i <= keys@.len(),
            keys@.len() == binders@.len(),
            views_of(keys@) == keysv,
            views_of(binders@) == binder_names(prefix@, *fields),
            named == shape_named(*fields),
            out@ == open_piece + binders_upto(prefix@, named, keysv, i as int),
        decreases keys@.len() - i,
    {
        assert(keys@[i as int]@ == keysv[i as int]);
        assert(binders@[i as int]@ == views_of(binders@)[i as int]);
        assert(views_of(binders@)[i as int] == binder_names(prefix@, *fields)[i as int]);
        assert(binder_names(prefix@, *fields)[i as int] == prefix@ + "_"@ + keysv[i as int]);
        if named {
            out.append(keys[i].as_str());
            out.append(": ");
        }
        out.append(binders[i].as_str());
        out.append(", ");
        assert(out@ =~= open_piece + binders_upto(prefix@, named, keysv, i as int + 1));
        i += 1;
    }
    match fields {
        FieldShape::Record(_) => {
            out.append("}");
        },
        FieldShape::Positional(_) => {
            out.append(")");
        },
        FieldShape::Unit => {},
    }
    assert(out@ =~= unpack_text(prefix@, *fields));
    out
}

/// The reconstruction a duplication arm returns: the same variant, each bound
/// field duplicated.
pub open spec fn rebuild_text(v: Variant) -> Seq<char> {
    match v.fields {
        FieldShape::Record(_) => "Self::"@ + v.ident@ + " { "@ + arm_fields(
            Capability::Duplication,
            true,
            keys_of(v.fields),
        ) + "}"@,
        FieldShape::Positional(_) => "Self::"@ + v.ident@ + "("@ + arm_fields(
            Capability::Duplication,
            false,
            keys_of(v.fields),
        ) + ")"@,
        FieldShape::Unit => "Self::"@ + v.ident@,
    }
}

/// The expression a representation arm evaluates: print the variant's name,
/// then each bound field; a unit variant prints only its name.
pub open spec fn repr_arm_expr(v: Variant) -> Seq<char> {
    match v.fields {
        FieldShape::Record(_) => "f.debug_struct(\""@ + v.ident@ + "\")"@ + arm_fields(
            Capability::Representation,
            true,
            keys_of(v.fields),
        ) + ".finish()"@,
        FieldShape::Positional(_) => "f.debug_tuple(\""@ + v.ident@ + "\")"@ + arm_fields(
            Capability::Representation,
            false,
            keys_of(v.fields),
        ) + ".finish()"@,
        FieldShape::Unit => "f.write_str(\""@ + v.ident@ + "\")"@,
    }
}

/// One match arm of a sum-shape body. An equality arm destructures the same
/// variant of both operands and folds the field comparisons; operands under
/// different variants fall to the body's final wildcard arm instead.
pub open spec fn arm_text(cap: Capability, v: Variant) -> Seq<char> {
    match cap {
        Capability::Duplication => "Self::"@ + v.ident@ + unpack_text("self"@, v.fields)
            + " => "@ + rebuild_text(v) + ", "@,
        Capability::Representation => "Self::"@ + v.ident@ + unpack_text("self"@, v.fields)
            + " => "@ + repr_arm_expr(v) + ", "@,
        Capability::Equality => "(Self::"@ + v.ident@ + unpack_text("self"@, v.fields)
            + ", Self::"@ + v.ident@ + unpack_text("other"@, v.fields) + ") => true"@
            + arm_fields(Capability::Equality, shape_named(v.fields), keys_of(v.fields)) + ", "@,
        Capability::DefaultValue => Seq::empty(),
        Capability::TotalEquality => Seq::empty(),
    }
}

/// The arms of the first `n` variants, in declaration order.
pub open spec fn arms_upto(cap: Capability, vs: Seq<Variant>, n: int) -> Seq<char>
    decreases n,
{
    if n <= 0 {
        Seq::empty()
    } else {
        arms_upto(cap, vs, n - 1) + arm_text(cap, vs[n - 1])
    }
}

/// The arms of every variant, in declaration order.
pub open spec fn arms_text(cap: Capability, vs: Seq<Variant>) -> Seq<char> {
    arms_upto(cap, vs, vs.len() as int)
}

/// Render one match arm of a sum-shape body.
pub fn render_arm(cap: Capability, v: &Variant) -> (r: String)
    requires
        cap is Duplication || cap is Representation || cap is Equality,
    ensures
        r@ == arm_text(cap, *v),
{
    let keys = field_keys(&v.fields);
    let named = matches!(&v.fields, FieldShape::Record(_));
    let mut out = String::new();
    match cap {
        Capability::Duplication => {
            out.append("Self::");
            out.append(v.ident.as_str());
            let unp = unpack_struct("self", &v.fields);
            out.append(unp.as_str());
            out.append(" => ");
            out.append("Self::");
            out.append(v.ident.as_str());
            let inner = render_arm_fields(cap, named, &keys);
            match &v.fields {
                FieldShape::Record(_) => {
                    out.append(" { ");
                    out.append(inner.as_str());
                    out.append("}");
                },
                FieldShape::Positional(_) => {
                    out.append("(");
                    out.append(inner.as_str());
                    out.append(")");
                },
                FieldShape::Unit => {},
            }
            out.append(", ");
            assert(out@ =~= arm_text(cap, *v));
        },
        Capability::Representation => {
            out.append("Self::");
            out.append(v.ident.as_str());
            let unp = unpack_struct("self", &v.fields);
            out.append(unp.as_str());
            out.append(" => ");
            let inner = render_arm_fields(cap, named, &keys);
            match &v.fields {
                FieldShape::Record(_) => {
                    out.append("f.debug_struct(\"");
                    out.append(v.ident.as_str());
                    out.append("\")");
                    out.append(inner.as_str());
                    out.append(".finish()");
                },
                FieldShape::Positional(_) => {
                    out.append("f.debug_tuple(\"");
                    out.append(v.ident.as_str());
                    out.append("\")");
                    out.append(inner.as_str());
                    out.append(".finish()");
                },
                FieldShape::Unit => {
                    out.append("f.write_str(\"");
                    out.append(v.ident.as_str());
                    out.append("\")");
                },
            }
            out.append(", ");
            assert(out@ =~= arm_text(cap, *v));
        },
        Capability::Equality => {
            out.append("(Self::");
            out.append(v.ident.as_str());
            let unp_self = unpack_struct("self", &v.fields);
            out.append(unp_self.as_str());
            out.append(", Self::");
            out.append(v.ident.as_str());
            let unp_other = unpack_struct("other", &v.fields);
            out.append(unp_other.as_str());
            out.append(") => true");
            let inner = render_arm_fields(cap, named, &keys);
            out.append(inner.as_str());
            out.append(", ");
            assert(out@ =~= arm_text(cap, *v));
        },
        Capability::DefaultValue => {},
        Capability::TotalEquality => {},
    }
    out
}

/// The body of a sum-shape implementation: one arm per variant, in
/// declaration order; equality adds a final wildcard arm, so operands under
/// different variants are unconditionally unequal.
pub open spec fn enum_body(cap: Capability, vs: Seq<Variant>) -> Seq<char> {
    match cap {
        Capability::Duplication => "match self { "@ + arms_text(cap, vs) + "}"@,
        Capability::Representation => "match self { "@ + arms_text(cap, vs) + "}"@,
        Capability::Equality => "match (self, other) { "@ + arms_text(cap, vs)
            + "_ => false, }"@,
        Capability::DefaultValue => Seq::empty(),
        Capability::TotalEquality => Seq::empty(),
    }
}

/// Render the body of a sum-shape implementation.
#[verifier::loop_isolation(false)]
pub fn render_enum_body(cap: Capability, vs: &Vec<Variant>) -> (r: String)
    requires
        cap is Duplication || cap is Representation || cap is Equality,
    ensures
        r@ == enum_body(cap, vs@),
{
    let mut out = String::new();
    match cap {
        Capability::Equality => {
            out.append("match (self, other) { ");
        },
        _ => {
            out.append("match self { ");
        },
    }
    let ghost open_piece = out@;
    let mut i: usize = 0;
    while i < vs.len()
        invariant
            0 <= i <= vs@.len(),
            out@ == open_piece + arms_upto(cap, vs@, i as int),
        decreases vs@.len() - i,
    {
        let arm = render_arm(cap, &vs[i]);
        out.append(arm.as_str());
        assert(out@ =~= open_piece + arms_upto(cap, vs@, i as int + 1));
        i += 1;
    }
    match cap {
        Capability::Equality => {
            out.append("_ => false, }");
        },
        _ => {
            out.append("}");
        },
    }
    assert(out@ =~= enum_body(cap, vs@));
    out
}

/// The body of a struct-shape implementation, per capability and field shape.
pub open spec fn struct_body(cap: Capability, fs: FieldShape, name: Seq<char>) -> Seq<char> {
    match fs {
        FieldShape::Record(_) => match cap {
            Capability::Duplication => "Self { "@ + body_fields(cap, true, keys_of(fs)) + "}"@,
            Capability::Representation => "f.debug_struct(\""@ + name + "\")"@ + body_fields(
                cap,
                true,
                keys_of(fs),
            ) + ".finish()"@,
            Capability::DefaultValue => "Self { "@ + body_fields(cap, true, keys_of(fs)) + "}"@,
            Capability::Equality => "true"@ + body_fields(cap, true, keys_of(fs)),
            Capability::TotalEquality => Seq::empty(),
        },
        FieldShape::Positional(_) => match cap {
            Capability::Duplication => "Self("@ + body_fields(cap, false, keys_of(fs)) + ")"@,
            Capability::Representation => "f.debug_tuple(\""@ + name + "\")"@ + body_fields(
                cap,
                false,
                keys_of(fs),
            ) + ".finish()"@,
            Capability::DefaultValue => "Self("@ + body_fields(cap, false, keys_of(fs)) + ")"@,
            Capability::Equality => "true"@ + body_fields(cap, false, keys_of(fs)),
            Capability::TotalEquality => Seq::empty(),
        },
        FieldShape::Unit => match cap {
            Capability::Duplication => "Self"@,
            Capability::Representation => "f.write_str(\""@ + name + "\")"@,
            Capability::DefaultValue => "Self"@,
            Capability::Equality => "true"@,
            Capability::TotalEquality => Seq::empty(),
        },
    }
}

/// Render the body of a struct-shape implementation.
pub fn render_struct_body(cap: Capability, fs: &FieldShape, name: &str) -> (r: String)
    ensures
        r@ == struct_body(cap, *fs, name@),
{
    let keys = field_keys(fs);
    let named = matches!(fs, FieldShape::Record(_));
    let mut out = String::new();
    if matches!(cap, Capability::TotalEquality) {
        assert(out@ =~= struct_body(cap, *fs, name@));
        return out;
    }
    match fs {
        FieldShape::Record(_) => {
            match cap {
                Capability::Duplication => {
                    out.append("Self { ");
                    out.append(render_body_fields(cap, named, &keys).as_str());
                    out.append("}");
                },
                Capability::Representation => {
                    out.append("f.debug_struct(\"");
                    out.append(name);
                    out.append("\")");
                    out.append(render_body_fields(cap, named, &keys).as_str());
                    out.append(".finish()");
                },
                Capability::DefaultValue => {
                    out.append("Self { ");
                    out.append(render_body_fields(cap, named, &keys).as_str());
                    out.append("}");
                },
                Capability::Equality => {
                    out.append("true");
                    out.append(render_body_fields(cap, named, &keys).as_str());
                },
                Capability::TotalEquality => {},
            }
        },
        FieldShape::Positional(_) => {
            match cap {
                Capability::Duplication => {
                    out.append("Self(");
                    out.append(render_body_fields(cap, named, &keys).as_str());
                    out.append(")");
                },
                Capability::Representation => {
                    out.append("f.debug_tuple(\"");
                    out.append(name);
                    out.append("\")");
                    out.append(render_body_fields(cap, named, &keys).as_str());
                    out.append(".finish()");
                },
                Capability::DefaultValue => {
                    out.append("Self(");
                    out.append(render_body_fields(cap, named, &keys).as_str());
                    out.append(")");
                },
                Capability::Equality => {
                    out.append("true");
                    out.append(render_body_fields(cap, named, &keys).as_str());
                },
                Capability::TotalEquality => {},
            }
        },
        FieldShape::Unit => {
            match cap {
                Capability::Duplication => {
                    out.append("Self");
                },
                Capability::Representation => {
                    out.append("f.write_str(\"");
                    out.append(name);
                    out.append("\")");
                },
                Capability::DefaultValue => {
                    out.append("Self");
                },
                Capability::Equality => {
                    out.append("true");
                },
                Capability::TotalEquality => {},
            }
        },
    }
    assert(out@ =~= struct_body(cap, *fs, name@));
    out
}

} // verus!
