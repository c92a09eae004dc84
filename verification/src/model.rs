//! The declaration model.
//!
//! A declaration is carried as plain values: its name, its ordered generic
//! parameters with their inline constraints, any pre-existing constraint
//! predicates, its fields or variants (with field types as text), and the raw
//! content of its `bounded_to` hints. Everything is rebuilt per generation
//! request; nothing here is shared or persisted.

use vstd::prelude::*;
use crate::ident::{contains_ident, is_valid_ident, valid_ident};

verus! {

/// One of the five capability contracts the generator can implement.
#[derive(Clone, Copy, Debug, PartialEq, Eq, Structural)]
pub enum Capability {
    /// reconstruct a value by duplicating every field
    Duplication,
    /// print the type's name and every field
    Representation,
    /// reconstruct a value from each field's default
    DefaultValue,
    /// compare two values field by field
    Equality,
    /// marker that the equality is total; no runtime body
    TotalEquality,
}

/// Why a generation request was refused. Each failure is local to one
/// request; nothing is generated in its place.
#[derive(Clone, Copy, Debug, PartialEq, Eq, Structural)]
pub enum GenError {
    /// a `bounded_to` hint could not be read as a list of target types
    HintSyntax,
    /// the requested capability cannot be generated for this shape
    UnsupportedShape,
    /// the declaration does not match any recognized shape
    MalformedDeclaration,
}

/// A generic parameter together with the constraints written inline at its
/// declaration site.
pub struct GenericParam {
    pub ident: String,
    pub bounds: Vec<String>,
}

/// One `target: bound` requirement of a constraint clause.
pub struct Predicate {
    pub target: String,
    pub bound: String,
}

/// A named field of a record-shaped declaration or variant.
pub struct NamedField {
    pub ident: String,
    pub ty: String,
}

/// The three field shapes a declaration or a variant can take.
pub enum FieldShape {
    /// an ordered set of named fields
    Record(Vec<NamedField>),
    /// an ordered sequence of unnamed fields, each a type
    Positional(Vec<String>),
    /// no fields at all
    Unit,
}

/// A variant of a sum-shaped declaration.
pub struct Variant {
    pub ident: String,
    pub fields: FieldShape,
}

/// A declaration has exactly one shape: fields of its own, or a sequence of
/// variants each with fields of their own.
pub enum Shape {
    Fields(FieldShape),
    Sum(Vec<Variant>),
}

/// A generic data-type declaration, with the raw content of each
/// `bounded_to` hint attached to it.
pub struct Declaration {
    pub name: String,
    pub params: Vec<GenericParam>,
    pub where_preds: Vec<Predicate>,
    pub shape: Shape,
    pub hints: Vec<String>,
}

/// The views of a sequence of strings.
pub open spec fn views_of(v: Seq<String>) -> Seq<Seq<char>> {
    v.map_values(|x: String| x@)
}

/// Every field name of a record shape is a well-formed identifier.
pub open spec fn field_shape_wf(fs: FieldShape) -> bool {
    match fs {
        FieldShape::Record(fields) => forall|i: int|
            0 <= i < fields@.len() ==> is_valid_ident(#[trigger] fields@[i].ident@),
        FieldShape::Positional(_) => true,
        FieldShape::Unit => true,
    }
}

/// Every variant name and every field name is a well-formed identifier.
pub open spec fn shape_wf(s: Shape) -> bool {
    match s {
        Shape::Fields(fs) => field_shape_wf(fs),
        Shape::Sum(variants) => forall|i: int|
            0 <= i < variants@.len() ==> is_valid_ident(#[trigger] variants@[i].ident@)
                && field_shape_wf(variants@[i].fields),
    }
}

/// The declaration matches a recognized shape: its name, its parameters'
/// names, and every field and variant name are well-formed identifiers.
pub open spec fn decl_wf(d: Declaration) -> bool {
    &&& is_valid_ident(d.name@)
    &&& forall|i: int| 0 <= i < d.params@.len() ==> is_valid_ident(#[trigger] d.params@[i].ident@)
    &&& shape_wf(d.shape)
}

/// The identifier `id` occurs in some field type of the field shape.
pub open spec fn used_in_field_shape(fs: FieldShape, id: Seq<char>) -> bool {
    match fs {
        FieldShape::Record(fields) => exists|i: int|
            0 <= i < fields@.len() && contains_ident(#[trigger] fields@[i].ty@, id),
        FieldShape::Positional(tys) => exists|i: int|
            0 <= i < tys@.len() && contains_ident(#[trigger] tys@[i]@, id),
        FieldShape::Unit => false,
    }
}

/// The identifier `id` occurs in some field type of the declaration — for a
/// sum shape, in some field type of some variant.
pub open spec fn used_in_shape(s: Shape, id: Seq<char>) -> bool {
    match s {
        Shape::Fields(fs) => used_in_field_shape(fs, id),
        Shape::Sum(variants) => exists|i: int|
            0 <= i < variants@.len() && used_in_field_shape(#[trigger] variants@[i].fields, id),
    }
}

/// Whether every field name of `fs` is a well-formed identifier.
#[verifier::loop_isolation(false)]
fn check_field_shape(fs: &FieldShape) -> (r: bool)
    ensures
        r == field_shape_wf(*fs),
{
    match fs {
        FieldShape::Record(fields) => {
            let mut i: usize = 0;
            while i < fields.len()
                invariant
                    0 <= i <= fields@.len(),
                    forall|j: int| 0 <= j < i ==> is_valid_ident(#[trigger] fields@[j].ident@),
                decreases fields@.len() - i,
            {
                if !valid_ident(fields[i].ident.as_str()) {
                    assert(!is_valid_ident(fields@[i as int].ident@));
                    assert(!field_shape_wf(*fs));
                    return false;
                }
                i += 1;
            }
            true
        },
        FieldShape::Positional(_) => true,
        FieldShape::Unit => true,
    }
}

/// Whether the declaration matches a recognized shape.
#[verifier::loop_isolation(false)]
pub fn check_declaration(d: &Declaration) -> (r: bool)
    ensures
        r == decl_wf(*d),
{
    if !valid_ident(d.name.as_str()) {
        return false;
    }
    let mut i: usize = 0;
    while i < d.params.len()
        invariant
            0 <= i <= d.params@.len(),
            forall|j: int| 0 <= j < i ==> is_valid_ident(#[trigger] d.params@[j].ident@),
        decreases d.params@.len() - i,
    {
        if !valid_ident(d.params[i].ident.as_str()) {
            return false;
        }
        i += 1;
    }
    match &d.shape {
        Shape::Fields(fs) => {
            let r = check_field_shape(fs);
            assert(shape_wf(d.shape) == field_shape_wf(*fs));
            r
        },
        Shape::Sum(variants) => {
            let mut i: usize = 0;
            while i < variants.len()
                invariant
                    0 <= i <= variants@.len(),
                    forall|j: int| 0 <= j < i ==> is_valid_ident(#[trigger] variants@[j].ident@),
                    forall|j: int| 0 <= j < i ==> field_shape_wf(#[trigger] variants@[j].fields),
                decreases variants@.len() - i,
            {
                if !valid_ident(variants[i].ident.as_str()) {
                    assert(!is_valid_ident(variants@[i as int].ident@));
                    assert(!shape_wf(d.shape));
                    return false;
                }
                if !check_field_shape(&variants[i].fields) {
                    assert(!field_shape_wf(variants@[i as int].fields));
                    assert(!shape_wf(d.shape));
                    return false;
                }
                i += 1;
            }
            assert(shape_wf(d.shape));
            true
        },
    }
}

/// The identifier `id` occurs in some field type of `fs`.
#[verifier::loop_isolation(false)]
fn used_in_fields(fs: &FieldShape, id: &str) -> (r: bool)
    ensures
        r == used_in_field_shape(*fs, id@),
{
    match fs {
        FieldShape::Record(fields) => {
            let mut i: usize = 0;
            while i < fields.len()
                invariant
                    0 <= i <= fields@.len(),
                    forall|j: int| 0 <= j < i ==> !contains_ident(#[trigger] fields@[j].ty@, id@),
                decreases fields@.len() - i,
            {
                if crate::ident::str_contains_ident(fields[i].ty.as_str(), id) {
                    assert(contains_ident(fields@[i as int].ty@, id@));
                    assert(used_in_field_shape(*fs, id@));
                    return true;
                }
                i += 1;
            }
            false
        },
        FieldShape::Positional(tys) => {
            let mut i: usize = 0;
            while i < tys.len()
                invariant
                    0 <= i <= tys@.len(),
                    forall|j: int| 0 <= j < i ==> !contains_ident(#[trigger] tys@[j]@, id@),
                decreases tys@.len() - i,
            {
                if crate::ident::str_contains_ident(tys[i].as_str(), id) {
                    assert(contains_ident(tys@[i as int]@, id@));
                    assert(used_in_field_shape(*fs, id@));
                    return true;
                }
                i += 1;
            }
            false
        },
        FieldShape::Unit => false,
    }
}

/// The identifier `id` occurs in some field type of the declaration.
#[verifier::loop_isolation(false)]
pub fn used_in_declaration(d: &Declaration, id: &str) -> (r: bool)
    ensures
        r == used_in_shape(d.shape, id@),
{
    match &d.shape {
        Shape::Fields(fs) => used_in_fields(fs, id),
        Shape::Sum(variants) => {
            let mut i: usize = 0;
            while i < variants.len()
                invariant
                    0 <= i <= variants@.len(),
                    forall|j: int| 0 <= j < i
                        ==> !used_in_field_shape(#[trigger] variants@[j].fields, id@),
                decreases variants@.len() - i,
            {
                if used_in_fields(&variants[i].fields, id) {
                    assert(used_in_field_shape(variants@[i as int].fields, id@));
                    assert(used_in_shape(d.shape, id@));
                    return true;
                }
                i += 1;
            }
            false
        },
    }
}

} // verus!
