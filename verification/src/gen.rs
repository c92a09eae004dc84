//! Generation requests.
//!
//! One request takes a declaration and one of the five capability contracts
//! and returns the text of the generated implementation, or the error naming
//! why nothing was generated. Each request is a pure function of the
//! declaration and the requested capability: nothing is shared across
//! requests, and regenerating from unchanged input returns identical text.

use vstd::prelude::*;
use crate::model::{
    check_declaration, decl_wf, views_of, Capability, Declaration, GenError, Shape,
};
use crate::hint::{hints_ok, hints_targets, parse_hints};
use crate::normalize::{full_clause, leftover_params, normalize_generics};
use crate::emit::{
    enum_body, impl_text, render_clause, render_enum_body, render_generics, render_struct_body,
    struct_body,
};

verus! {

/// The Rust path of the trait each capability renders to.
pub open spec fn cap_bound_path(cap: Capability) -> Seq<char> {
    match cap {
        Capability::Duplication => "std::clone::Clone"@,
        Capability::Representation => "std::fmt::Debug"@,
        Capability::DefaultValue => "std::default::Default"@,
        Capability::Equality => "std::cmp::PartialEq"@,
        Capability::TotalEquality => "std::cmp::Eq"@,
    }
}

/// The method signature that opens the emitted item; the total-equality
/// marker has no runtime body and so no method at all.
pub open spec fn cap_sig(cap: Capability) -> Seq<char> {
    match cap {
        Capability::Duplication => "fn clone(&self) -> Self { "@,
        Capability::Representation =>
            "fn fmt(&self, f: &mut std::fmt::Formatter<'_>) -> std::fmt::Result { "@,
        Capability::DefaultValue => "fn default() -> Self { "@,
        Capability::Equality => "fn eq(&self, other: &Self) -> bool { "@,
        Capability::TotalEquality => Seq::empty(),
    }
}

/// The emitted body for the declaration's shape.
pub open spec fn body_text(cap: Capability, shape: Shape, name: Seq<char>) -> Seq<char> {
    match shape {
        Shape::Fields(fs) => struct_body(cap, fs, name),
        Shape::Sum(vs) => enum_body(cap, vs@),
    }
}

/// What stands inside the impl braces: nothing for the total-equality
/// marker, else the capability's method around the shape's body.
pub open spec fn items_text(cap: Capability, shape: Shape, name: Seq<char>) -> Seq<char> {
    if cap is TotalEquality {
        Seq::empty()
    } else {
        cap_sig(cap) + body_text(cap, shape, name) + " } "@
    }
}

/// The text of a successful generation request: the implementation frame
/// with the normalized constraint clause around the emitted items.
pub open spec fn generated_text(d: Declaration, cap: Capability) -> Seq<char> {
    impl_text(
        cap_bound_path(cap),
        d.name@,
        d.params@,
        full_clause(d, hints_targets(views_of(d.hints@)), cap_bound_path(cap)),
        items_text(cap, d.shape, d.name@),
    )
}

/// Whether the request is accepted: the declaration matches a recognized
/// shape, every hint parses, and the capability supports the shape — default
/// construction of a sum type does not, since a sum type has no canonical
/// default variant.
pub open spec fn generation_accepted(d: Declaration, cap: Capability) -> bool {
    &&& decl_wf(d)
    &&& hints_ok(views_of(d.hints@))
    &&& !(cap is DefaultValue && d.shape is Sum)
}

/// What a generation request returns: the generated text, or the error
/// naming the first failure — unrecognized declaration shape, then malformed
/// hint, then unsupported shape.
pub open spec fn gen_result(d: Declaration, cap: Capability) -> Result<Seq<char>, GenError> {
    if !decl_wf(d) {
        Err(GenError::MalformedDeclaration)
    } else if !hints_ok(views_of(d.hints@)) {
        Err(GenError::HintSyntax)
    } else if cap is DefaultValue && d.shape is Sum {
        Err(GenError::UnsupportedShape)
    } else {
        Ok(generated_text(d, cap))
    }
}

/// The runtime result `r` returns exactly what the specification `g` says:
/// the same text on success, the same error on failure.
pub open spec fn describes(r: Result<String, GenError>, g: Result<Seq<char>, GenError>) -> bool {
    match r {
        Ok(s) => g == Ok::<Seq<char>, GenError>(s@),
        Err(e) => g == Err::<Seq<char>, GenError>(e),
    }
}

/// The Rust path of the trait each capability renders to.
fn bound_path(cap: Capability) -> (r: &'static str)
    ensures
        r@ == cap_bound_path(cap),
{
    match cap {
        Capability::Duplication => "std::clone::Clone",
        Capability::Representation => "std::fmt::Debug",
        Capability::DefaultValue => "std::default::Default",
        Capability::Equality => "std::cmp::PartialEq",
        Capability::TotalEquality => "std::cmp::Eq",
    }
}

/// Render what stands inside the impl braces.
fn render_items(cap: Capability, d: &Declaration) -> (r: String)
    requires
        !(cap is DefaultValue && d.shape is Sum),
    ensures
        r@ == items_text(cap, d.shape, d.name@),
{
    let mut out = String::new();
    match cap {
        Capability::Duplication => {
            out.append("fn clone(&self) -> Self { ");
        },
        Capability::Representation => {
            out.append("fn fmt(&self, f: &mut std::fmt::Formatter<'_>) -> std::fmt::Result { ");
        },
        Capability::DefaultValue => {
            out.append("fn default() -> Self { ");
        },
        Capability::Equality => {
            out.append("fn eq(&self, other: &Self) -> bool { ");
        },
        Capability::TotalEquality => {
            assert(out@ =~= items_text(cap, d.shape, d.name@));
            return out;
        },
    }
    match &d.shape {
        Shape::Fields(fs) => {
            let body = render_struct_body(cap, fs, d.name.as_str());
            out.append(body.as_str());
        },
        Shape::Sum(vs) => {
            let body = render_enum_body(cap, vs);
            out.append(body.as_str());
        },
    }
    out.append(" } ");
    assert(out@ =~= items_text(cap, d.shape, d.name@));
    out
}

/// Serve one generation request: read the hints, normalize the constraints,
/// dispatch on the shape and assemble the implementation text.
fn common_bounded(d: &Declaration, cap: Capability) -> (r: Result<String, GenError>)
    ensures
        describes(r, gen_result(*d, cap)),
{
    if !check_declaration(d) {
        return Err(GenError::MalformedDeclaration);
    }
    let targets = match parse_hints(&d.hints) {
        Ok(v) => v,
        Err(e) => {
            return Err(e);
        },
    };
    if matches!(cap, Capability::DefaultValue) && matches!(&d.shape, Shape::Sum(_)) {
        return Err(GenError::UnsupportedShape);
    }
    let ghost hts = hints_targets(views_of(d.hints@));
    let mut leftovers = leftover_params(d, &targets);
    let ghost base = views_of(targets@);
    let ghost lts = views_of(leftovers@);
    let mut all_ts = targets;
    all_ts.append(&mut leftovers);
    assert(views_of(all_ts@) =~= base + lts);
    let bound = bound_path(cap);
    let clause = normalize_generics(d, &all_ts, bound);
    let gtxt = render_generics(&d.params);
    let ctxt = render_clause(&clause);
    let items = render_items(cap, d);
    let mut out = String::new();
    out.append("impl");
    out.append(gtxt.as_str());
    out.append(" ");
    out.append(bound);
    out.append(" for ");
    out.append(d.name.as_str());
    out.append(gtxt.as_str());
    out.append(ctxt.as_str());
    out.append(" { ");
    out.append(items.as_str());
    out.append("}");
    assert(out@ =~= generated_text(*d, cap));
    Ok(out)
}

/// Generate the default-construction implementation for the declaration:
/// reconstruct the value from each field's default. A sum-shaped declaration
/// is refused — it has no canonical default variant.
pub fn default_bounded(d: &Declaration) -> (r: Result<String, GenError>)
    ensures
        describes(r, gen_result(*d, Capability::DefaultValue)),
        r is Ok <==> generation_accepted(*d, Capability::DefaultValue),
{
    common_bounded(d, Capability::DefaultValue)
}

/// Generate the duplication implementation for the declaration: reconstruct
/// the value by duplicating every field; a sum shape duplicates each variant
/// under its own arm.
pub fn clone_bounded(d: &Declaration) -> (r: Result<String, GenError>)
    ensures
        describes(r, gen_result(*d, Capability::Duplication)),
        r is Ok <==> generation_accepted(*d, Capability::Duplication),
{
    common_bounded(d, Capability::Duplication)
}

/// Generate the structural-printing implementation for the declaration:
/// print the type's name, then every field; a unit shape prints only the
/// name.
pub fn debug_bounded(d: &Declaration) -> (r: Result<String, GenError>)
    ensures
        describes(r, gen_result(*d, Capability::Representation)),
        r is Ok <==> generation_accepted(*d, Capability::Representation),
{
    common_bounded(d, Capability::Representation)
}

/// Generate the equality implementation for the declaration: fold per-field
/// comparison; values of a sum shape under different variants are
/// unconditionally unequal.
pub fn partial_eq_bounded(d: &Declaration) -> (r: Result<String, GenError>)
    ensures
        describes(r, gen_result(*d, Capability::Equality)),
        r is Ok <==> generation_accepted(*d, Capability::Equality),
{
    common_bounded(d, Capability::Equality)
}

/// Generate the total-equality marker for the declaration: an empty
/// implementation that asserts the generated equality is total.
pub fn eq_bounded(d: &Declaration) -> (r: Result<String, GenError>)
    ensures
        describes(r, gen_result(*d, Capability::TotalEquality)),
        r is Ok <==> generation_accepted(*d, Capability::TotalEquality),
{
    common_bounded(d, Capability::TotalEquality)
}

/// Generation is deterministic: two requests over the same declaration and
/// capability return byte-identical text, or the same error.
pub proof fn lemma_generation_deterministic(
    d: Declaration,
    cap: Capability,
    r1: Result<String, GenError>,
    r2: Result<String, GenError>,
)
    requires
        describes(r1, gen_result(d, cap)),
        describes(r2, gen_result(d, cap)),
    ensures
        match (r1, r2) {
            (Ok(a), Ok(b)) => a@ == b@,
            (Err(a), Err(b)) => a == b,
            _ => false,
        },
{
}

/// Shape coverage: for every declaration of a recognized shape whose hints
/// parse, every capability generates without error — but for default
/// construction of a sum shape, which always fails.
pub proof fn lemma_shape_coverage(d: Declaration, cap: Capability)
    requires
        decl_wf(d),
        hints_ok(views_of(d.hints@)),
        !(cap is DefaultValue && d.shape is Sum),
    ensures
        gen_result(d, cap) is Ok,
{
}

/// Default construction of a sum shape is a hard failure, reported as the
/// unsupported-shape error.
pub proof fn lemma_default_value_sum_fails(d: Declaration)
    requires
        decl_wf(d),
        hints_ok(views_of(d.hints@)),
        d.shape is Sum,
    ensures
        gen_result(d, Capability::DefaultValue) == Err::<Seq<char>, GenError>(
            GenError::UnsupportedShape,
        ),
{
}

} // verus!
