use derive_bounded::gen::{
    clone_bounded, debug_bounded, default_bounded, eq_bounded, partial_eq_bounded,
};
use derive_bounded::model::{
    Declaration, FieldShape, GenError, GenericParam, NamedField, Shape, Variant,
};
use derive_bounded::value::{duplicate, equals, Value};

fn s(x: &str) -> String {
    x.to_string()
}

fn named(fields: &[(&str, &str)]) -> FieldShape {
    FieldShape::Record(
        fields
            .iter()
            .map(|(n, t)| NamedField { ident: s(n), ty: s(t) })
            .collect(),
    )
}

fn plain(name: &str, shape: Shape, hints: &[&str]) -> Declaration {
    Declaration {
        name: s(name),
        params: vec![GenericParam { ident: s("T"), bounds: vec![] }],
        where_preds: vec![],
        shape,
        hints: hints.iter().map(|h| s(h)).collect(),
    }
}

fn sum_with_unit() -> Shape {
    Shape::Sum(vec![
        Variant { ident: s("R"), fields: named(&[("x", "T")]) },
        Variant { ident: s("P"), fields: FieldShape::Positional(vec![s("T")]) },
        Variant { ident: s("U"), fields: FieldShape::Unit },
    ])
}

#[test]
fn shape_coverage() {
    // All three shapes, a unit variant included, generate without error for
    // the four implemented contracts; default construction is the one
    // exclusion on the sum shape.
    let shapes = [
        plain("R", Shape::Fields(named(&[("x", "T")])), &[]),
        plain("P", Shape::Fields(FieldShape::Positional(vec![s("T")])), &[]),
        plain("S", sum_with_unit(), &[]),
    ];
    for d in &shapes {
        assert!(clone_bounded(d).is_ok());
        assert!(debug_bounded(d).is_ok());
        assert!(partial_eq_bounded(d).is_ok());
        assert!(eq_bounded(d).is_ok());
    }
    assert!(default_bounded(&shapes[0]).is_ok());
    assert!(default_bounded(&shapes[1]).is_ok());
    assert_eq!(default_bounded(&shapes[2]), Err(GenError::UnsupportedShape));
}

#[test]
fn unit_shapes() {
    // A unit declaration and a unit variant: field-free reconstruction,
    // name-only printing, trivial equality.
    let unit = plain("U0", Shape::Fields(FieldShape::Unit), &[]);
    assert_eq!(
        clone_bounded(&unit).unwrap(),
        "impl<T> std::clone::Clone for U0<T> { fn clone(&self) -> Self { Self } }"
    );
    assert_eq!(
        debug_bounded(&unit).unwrap(),
        "impl<T> std::fmt::Debug for U0<T> \
         { fn fmt(&self, f: &mut std::fmt::Formatter<'_>) -> std::fmt::Result \
         { f.write_str(\"U0\") } }"
    );
    assert_eq!(
        default_bounded(&unit).unwrap(),
        "impl<T> std::default::Default for U0<T> { fn default() -> Self { Self } }"
    );
    assert_eq!(
        partial_eq_bounded(&unit).unwrap(),
        "impl<T> std::cmp::PartialEq for U0<T> \
         { fn eq(&self, other: &Self) -> bool { true } }"
    );

    let sum = plain("S1", sum_with_unit(), &[]);
    assert_eq!(
        clone_bounded(&sum).unwrap(),
        "impl<T> std::clone::Clone for S1<T> where T: std::clone::Clone \
         { fn clone(&self) -> Self { match self { \
         Self::R { x: self_x, } => Self::R { x: self_x.clone(), }, \
         Self::P(self_0, ) => Self::P(self_0.clone(), ), \
         Self::U => Self::U, } } }"
    );
    assert_eq!(
        debug_bounded(&sum).unwrap(),
        "impl<T> std::fmt::Debug for S1<T> where T: std::fmt::Debug \
         { fn fmt(&self, f: &mut std::fmt::Formatter<'_>) -> std::fmt::Result { match self { \
         Self::R { x: self_x, } => f.debug_struct(\"R\").field(\"x\", self_x).finish(), \
         Self::P(self_0, ) => f.debug_tuple(\"P\").field(self_0).finish(), \
         Self::U => f.write_str(\"U\"), } } }"
    );
    assert_eq!(
        partial_eq_bounded(&sum).unwrap(),
        "impl<T> std::cmp::PartialEq for S1<T> where T: std::cmp::PartialEq \
         { fn eq(&self, other: &Self) -> bool { match (self, other) { \
         (Self::R { x: self_x, }, Self::R { x: other_x, }) => true && other_x == self_x, \
         (Self::P(self_0, ), Self::P(other_0, )) => true && other_0 == self_0, \
         (Self::U, Self::U) => true, _ => false, } } }"
    );
}

#[test]
fn deterministic_generation() {
    // Regenerating from an unchanged declaration and hint yields
    // byte-identical text.
    let d = plain("S2", sum_with_unit(), &["T::Out"]);
    let first = clone_bounded(&d).unwrap();
    let second = clone_bounded(&d).unwrap();
    assert_eq!(first, second);
}

#[test]
fn projection_replaces_parameter() {
    // A record `A<T>` with fields `a: T::A`, `b: B<T>` under the hint
    // `types(T::B, T::C)` constrains exactly the two hinted projections —
    // never the bare parameter, which is covered as the root of both.
    let d = Declaration {
        name: s("A"),
        params: vec![GenericParam { ident: s("T"), bounds: vec![] }],
        where_preds: vec![],
        shape: Shape::Fields(named(&[("a", "T::A"), ("b", "B<T>")])),
        hints: vec![s("types(T::B, T::C)")],
    };
    let generated = clone_bounded(&d).unwrap();
    assert_eq!(
        generated,
        "impl<T> std::clone::Clone for A<T> \
         where T::B: std::clone::Clone, T::C: std::clone::Clone \
         { fn clone(&self) -> Self { Self { a: self.a.clone(), b: self.b.clone(), } } }"
    );
    assert!(!generated.contains("T: std::clone::Clone"));
}

#[test]
fn variant_mismatch_unequal() {
    // Two sum values under different variants compare unequal even when
    // every field value matches.
    let a = Value::Variant { tag: 0, fields: vec![7, 9] };
    let b = Value::Variant { tag: 1, fields: vec![7, 9] };
    assert!(!equals(&a, &b));
    assert!(equals(&a, &a));
    assert!(equals(&a, &duplicate(&a)));
}

#[test]
fn hint_forms() {
    // The bare list, the grouped list, a trailing comma, and an empty hint
    // all read to the same structure.
    let base = |hints: &[&str]| plain("H", Shape::Fields(named(&[("x", "T::X")])), hints);
    let grouped = clone_bounded(&base(&["types(T::X)"])).unwrap();
    let bare = clone_bounded(&base(&["T::X"])).unwrap();
    let trailing = clone_bounded(&base(&["T::X,"])).unwrap();
    let spaced = clone_bounded(&base(&["  types( T::X )  "])).unwrap();
    assert_eq!(grouped, bare);
    assert_eq!(grouped, trailing);
    assert_eq!(grouped, spaced);

    // Two hints are read in order and combined.
    let two = clone_bounded(&base(&["T::X", "T::Y"])).unwrap();
    assert!(two.contains("T::X: std::clone::Clone, T::Y: std::clone::Clone"));

    // No hint at all: the used parameter keeps the naive constraint.
    let none = clone_bounded(&base(&[])).unwrap();
    assert!(none.contains("where T: std::clone::Clone"));
}

#[test]
fn hint_errors() {
    // Unbalanced brackets, an empty target, and a bare closing bracket are
    // hard failures: nothing is generated.
    let base = |hint: &str| plain("H2", Shape::Fields(named(&[("x", "T::X")])), &[hint]);
    assert_eq!(clone_bounded(&base("(T::X")), Err(GenError::HintSyntax));
    assert_eq!(clone_bounded(&base("T::X,,T::Y")), Err(GenError::HintSyntax));
    assert_eq!(clone_bounded(&base(")T::X")), Err(GenError::HintSyntax));
    assert_eq!(clone_bounded(&base("types(T::X")), Err(GenError::HintSyntax));
}

#[test]
fn malformed_declaration() {
    // A declaration whose name or field names are no identifiers does not
    // match a recognized shape.
    let bad_name = plain("9A", Shape::Fields(FieldShape::Unit), &[]);
    assert_eq!(clone_bounded(&bad_name), Err(GenError::MalformedDeclaration));
    let bad_field = plain("A2", Shape::Fields(named(&[("", "T")])), &[]);
    assert_eq!(clone_bounded(&bad_field), Err(GenError::MalformedDeclaration));
}

#[test]
fn empty_sum_analyzes_empty() {
    // A sum shape with zero variants uses no parameter: the clause holds
    // only the hinted targets and relocated inline constraints.
    let d = Declaration {
        name: s("Never"),
        params: vec![GenericParam { ident: s("T"), bounds: vec![s("Sized")] }],
        where_preds: vec![],
        shape: Shape::Sum(vec![]),
        hints: vec![s("T::Z")],
    };
    assert_eq!(
        partial_eq_bounded(&d).unwrap(),
        "impl<T> std::cmp::PartialEq for Never<T> where T: Sized, T::Z: std::cmp::PartialEq \
         { fn eq(&self, other: &Self) -> bool { match (self, other) { _ => false, } } }"
    );
}

#[test]
fn identifier_match_is_whole_token() {
    // Parameter use is decided by whole identifier tokens: `T` does not
    // occur in `Tail<U>`, and a target rooted at `Tail` covers no parameter.
    let d = Declaration {
        name: s("W"),
        params: vec![
            GenericParam { ident: s("T"), bounds: vec![] },
            GenericParam { ident: s("U"), bounds: vec![] },
        ],
        where_preds: vec![],
        shape: Shape::Fields(named(&[("x", "Tail<U>")])),
        hints: vec![],
    };
    assert_eq!(
        clone_bounded(&d).unwrap(),
        "impl<T, U> std::clone::Clone for W<T, U> where U: std::clone::Clone \
         { fn clone(&self) -> Self { Self { x: self.x.clone(), } } }"
    );

    // A concrete, non-parameter target is accepted as-is and covers nothing.
    let d2 = Declaration {
        name: s("W2"),
        params: vec![GenericParam { ident: s("T"), bounds: vec![] }],
        where_preds: vec![],
        shape: Shape::Fields(named(&[("x", "T")])),
        hints: vec![s("Tail::X")],
    };
    assert_eq!(
        clone_bounded(&d2).unwrap(),
        "impl<T> std::clone::Clone for W2<T> \
         where Tail::X: std::clone::Clone, T: std::clone::Clone \
         { fn clone(&self) -> Self { Self { x: self.x.clone(), } } }"
    );
}
