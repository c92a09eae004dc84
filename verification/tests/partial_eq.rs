use derive_bounded::gen::{eq_bounded, partial_eq_bounded};
use derive_bounded::model::{
    Declaration, FieldShape, GenericParam, NamedField, Shape, Variant,
};
use derive_bounded::value::{equals, Value};

fn s(x: &str) -> String {
    x.to_string()
}

fn record(fields: &[(&str, &str)]) -> FieldShape {
    FieldShape::Record(
        fields
            .iter()
            .map(|(n, t)| NamedField { ident: s(n), ty: s(t) })
            .collect(),
    )
}

fn eq_decl_a() -> Declaration {
    Declaration {
        name: s("A"),
        params: vec![GenericParam { ident: s("T"), bounds: vec![s("Associate")] }],
        where_preds: vec![],
        shape: Shape::Fields(record(&[("a", "T::A"), ("b", "B<T>")])),
        hints: vec![s("T::B, T::C, <T::D as Associate>::A")],
    }
}

fn eq_decl_en() -> Declaration {
    Declaration {
        name: s("En"),
        params: vec![GenericParam { ident: s("T"), bounds: vec![s("Associate")] }],
        where_preds: vec![],
        shape: Shape::Sum(vec![
            Variant { ident: s("A"), fields: record(&[("a", "T::A"), ("b", "B<T>")]) },
            Variant {
                ident: s("B"),
                fields: FieldShape::Positional(vec![s("T::A"), s("B<T>")]),
            },
        ]),
        hints: vec![s("T::B, T::C, <T::D as Associate>::A")],
    }
}

fn eq_decl_d() -> Declaration {
    Declaration {
        name: s("D"),
        params: vec![GenericParam { ident: s("T"), bounds: vec![s("Associate")] }],
        where_preds: vec![],
        shape: Shape::Fields(FieldShape::Positional(vec![s("T::C"), s("T::B")])),
        hints: vec![s("T::C, T::B")],
    }
}

fn eq_decl_abase() -> Declaration {
    Declaration {
        name: s("ABase"),
        params: vec![GenericParam { ident: s("A"), bounds: vec![] }],
        where_preds: vec![],
        shape: Shape::Fields(FieldShape::Positional(vec![s("A")])),
        hints: vec![],
    }
}

#[test]
fn partial_eq() {
    // C { c: 42 } equals the inner a.b.c value, field for field.
    let c = Value::Record(vec![42]);
    let abc = Value::Record(vec![42]);
    assert!(equals(&c, &abc));

    let generated_a = partial_eq_bounded(&eq_decl_a()).unwrap();
    assert_eq!(
        generated_a,
        "impl<T> std::cmp::PartialEq for A<T> where T: Associate, \
         T::B: std::cmp::PartialEq, T::C: std::cmp::PartialEq, \
         <T::D as Associate>::A: std::cmp::PartialEq \
         { fn eq(&self, other: &Self) -> bool { true && other.a == self.a && other.b == self.b } }"
    );

    let generated_en = partial_eq_bounded(&eq_decl_en()).unwrap();
    assert_eq!(
        generated_en,
        "impl<T> std::cmp::PartialEq for En<T> where T: Associate, \
         T::B: std::cmp::PartialEq, T::C: std::cmp::PartialEq, \
         <T::D as Associate>::A: std::cmp::PartialEq \
         { fn eq(&self, other: &Self) -> bool { match (self, other) { \
         (Self::A { a: self_a, b: self_b, }, Self::A { a: other_a, b: other_b, }) \
         => true && other_a == self_a && other_b == self_b, \
         (Self::B(self_0, self_1, ), Self::B(other_0, other_1, )) \
         => true && other_0 == self_0 && other_1 == self_1, _ => false, } } }"
    );

    let generated_d = partial_eq_bounded(&eq_decl_d()).unwrap();
    assert_eq!(
        generated_d,
        "impl<T> std::cmp::PartialEq for D<T> where T: Associate, \
         T::C: std::cmp::PartialEq, T::B: std::cmp::PartialEq \
         { fn eq(&self, other: &Self) -> bool { true && other.0 == self.0 && other.1 == self.1 } }"
    );

    let generated_abase = partial_eq_bounded(&eq_decl_abase()).unwrap();
    assert_eq!(
        generated_abase,
        "impl<A> std::cmp::PartialEq for ABase<A> where A: std::cmp::PartialEq \
         { fn eq(&self, other: &Self) -> bool { true && other.0 == self.0 } }"
    );

    let generated_eq_d = eq_bounded(&eq_decl_d()).unwrap();
    assert_eq!(
        generated_eq_d,
        "impl<T> std::cmp::Eq for D<T> where T: Associate, \
         T::C: std::cmp::Eq, T::B: std::cmp::Eq { }"
    );
}
