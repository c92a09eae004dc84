use derive_bounded::gen::clone_bounded;
use derive_bounded::model::{Declaration, FieldShape, GenericParam, NamedField, Predicate, Shape};
use derive_bounded::value::{duplicate, equals, Value};

fn s(x: &str) -> String {
    x.to_string()
}

fn record(fields: &[(&str, &str)]) -> Shape {
    Shape::Fields(FieldShape::Record(
        fields
            .iter()
            .map(|(n, t)| NamedField { ident: s(n), ty: s(t) })
            .collect(),
    ))
}

fn decl_a() -> Declaration {
    Declaration {
        name: s("A"),
        params: vec![GenericParam { ident: s("T"), bounds: vec![s("Associate")] }],
        where_preds: vec![],
        shape: record(&[("a", "T::A"), ("b", "B<T>")]),
        hints: vec![s("types(T::B, T::C)")],
    }
}

fn decl_c() -> Declaration {
    Declaration {
        name: s("C"),
        params: vec![GenericParam { ident: s("T"), bounds: vec![s("Associate")] }],
        where_preds: vec![],
        shape: record(&[("c", "T::C")]),
        hints: vec![s("types(T::C)")],
    }
}

fn decl_c2() -> Declaration {
    Declaration {
        name: s("C2"),
        params: vec![
            GenericParam { ident: s("T"), bounds: vec![] },
            GenericParam { ident: s("V"), bounds: vec![] },
            GenericParam { ident: s("Blah"), bounds: vec![s("Default")] },
        ],
        where_preds: vec![Predicate { target: s("T"), bound: s("Associate") }],
        shape: record(&[("c", "T::C"), ("v", "V"), ("b", "Blah")]),
        hints: vec![s("types(T::C)")],
    }
}

#[test]
fn clone() {
    let generated = clone_bounded(&decl_c()).unwrap();
    assert_eq!(
        generated,
        "impl<T> std::clone::Clone for C<T> where T: Associate, T::C: std::clone::Clone \
         { fn clone(&self) -> Self { Self { c: self.c.clone(), } } }"
    );

    let generated_a = clone_bounded(&decl_a()).unwrap();
    assert_eq!(
        generated_a,
        "impl<T> std::clone::Clone for A<T> where T: Associate, \
         T::B: std::clone::Clone, T::C: std::clone::Clone \
         { fn clone(&self) -> Self { Self { a: self.a.clone(), b: self.b.clone(), } } }"
    );

    let generated_c2 = clone_bounded(&decl_c2()).unwrap();
    assert_eq!(
        generated_c2,
        "impl<T, V, Blah> std::clone::Clone for C2<T, V, Blah> \
         where T: Associate, Blah: Default, T::C: std::clone::Clone, \
         V: std::clone::Clone, Blah: std::clone::Clone \
         { fn clone(&self) -> Self { Self { c: self.c.clone(), v: self.v.clone(), b: self.b.clone(), } } }"
    );

    // What the generated pair does at runtime: a C2 value { c: 22, v: 42,
    // b: default } and its duplicate compare equal, field by field.
    let c2 = Value::Record(vec![22, 42, 0]);
    let d = duplicate(&c2);
    assert!(equals(&d, &c2));
}
