//! The field-level semantics the emitted bodies encode.
//!
//! The emitted duplication body rebuilds a value field by field, and the
//! emitted equality body folds per-field comparison, falling to `false` as
//! soon as two sum values carry different variants. At the generator's level
//! of abstraction each field is opaque — the emitted code only delegates to
//! the field's own capability — so a value is modelled here as its shape with
//! one atom per field. Over that model the laws of the emitted bodies are
//! proved: duplication returns a value equal to its input, equality is
//! reflexive, and values under different variants are never equal.

use vstd::prelude::*;

verus! {

/// A value of a declaration, at the generator's level of abstraction: its
/// shape, with each field an opaque atom.
pub enum Value {
    /// a value of a record-shaped declaration: one atom per named field
    Record(Vec<u64>),
    /// a value of a positional-shaped declaration: one atom per field
    Positional(Vec<u64>),
    /// the value of a unit-shaped declaration
    Unit,
    /// a value of a sum-shaped declaration: the variant taken, by position,
    /// and one atom per bound field
    Variant { tag: usize, fields: Vec<u64> },
}

/// What the emitted equality body computes: the same shape, the same variant,
/// and equal fields. A variant mismatch is unconditionally unequal, whatever
/// the fields hold.
pub open spec fn val_eq(a: Value, b: Value) -> bool {
    match (a, b) {
        (Value::Record(x), Value::Record(y)) => x@ == y@,
        (Value::Positional(x), Value::Positional(y)) => x@ == y@,
        (Value::Unit, Value::Unit) => true,
        (Value::Variant { tag: t1, fields: x }, Value::Variant { tag: t2, fields: y }) => t1 == t2
            && x@ == y@,
        _ => false,
    }
}

/// Copy a field list, atom by atom.
fn copy_fields(v: &Vec<u64>) -> (r: Vec<u64>)
    ensures
        r@ == v@,
{
    let mut out: Vec<u64> = Vec::new();
    let mut i: usize = 0;
    while i < v.len()
        invariant
            0 <= i <= v@.len(),
            out@ == v@.take(i as int),
        decreases v@.len() - i,
    {
        out.push(v[i]);
        assert(out@ =~= v@.take(i as int + 1));
        i += 1;
    }
    assert(v@.take(v@.len() as int) =~= v@);
    out
}

/// Compare two field lists, atom by atom.
fn fields_eq(a: &Vec<u64>, b: &Vec<u64>) -> (r: bool)
    ensures
        r == (a@ == b@),
{
    if a.len() != b.len() {
        assert(a@.len() != b@.len());
        return false;
    }
    let mut i: usize = 0;
    while i < a.len()
        invariant
            0 <= i <= a@.len(),
            a@.len() == b@.len(),
            forall|j: int| 0 <= j < i ==> a@[j] == b@[j],
        decreases a@.len() - i,
    {
        if a[i] != b[i] {
            return false;
        }
        i += 1;
    }
    assert(a@ =~= b@);
    true
}

/// What the emitted duplication body does: rebuild the value, duplicating
/// every field; a sum value is rebuilt under its own variant.
pub fn duplicate(v: &Value) -> (r: Value)
    ensures
        val_eq(r, *v),
        val_eq(*v, r),
{
    match v {
        Value::Record(fs) => Value::Record(copy_fields(fs)),
        Value::Positional(fs) => Value::Positional(copy_fields(fs)),
        Value::Unit => Value::Unit,
        Value::Variant { tag, fields } => Value::Variant { tag: *tag, fields: copy_fields(fields) },
    }
}

/// What the emitted equality body computes over two values of one
/// declaration.
pub fn equals(a: &Value, b: &Value) -> (r: bool)
    ensures
        r == val_eq(*a, *b),
{
    match (a, b) {
        (Value::Record(x), Value::Record(y)) => fields_eq(x, y),
        (Value::Positional(x), Value::Positional(y)) => fields_eq(x, y),
        (Value::Unit, Value::Unit) => true,
        (Value::Variant { tag: t1, fields: x }, Value::Variant { tag: t2, fields: y }) => {
            if *t1 != *t2 {
                false
            } else {
                fields_eq(x, y)
            }
        },
        _ => false,
    }
}

/// Equality is reflexive: every value equals itself.
pub proof fn lemma_equality_reflexive(v: Value)
    ensures
        val_eq(v, v),
{
}

/// Values under different variants are unequal, whatever their fields hold.
pub proof fn lemma_variant_mismatch_unequal(a: Value, b: Value)
    requires
        a is Variant,
        b is Variant,
        a->tag != b->tag,
    ensures
        !val_eq(a, b),
{
}

/// A duplicate equals its original: duplication followed by equality is the
/// identity law of the generated pair.
pub proof fn lemma_duplicate_equal(v: Value, d: Value)
    requires
        val_eq(d, v),
    ensures
        val_eq(v, d),
        val_eq(v, v),
{
}

} // verus!
