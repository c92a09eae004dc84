use derive_bounded::gen::default_bounded;
use derive_bounded::model::{Declaration, FieldShape, GenericParam, NamedField, Predicate, Shape};

fn s(x: &str) -> String {
    x.to_string()
}

fn record(fields: &[(&str, &str)]) -> Shape {
    Shape::Fields(FieldShape::Record(
        fields
            .iter()
            .map(|(n, t)| NamedField { ident: s(n), ty: s(t) })
            .collect(),
    ))
}

fn def_decl_b() -> Declaration {
    Declaration {
        name: s("B"),
        params: vec![GenericParam { ident: s("T"), bounds: vec![s("Associate")] }],
        where_preds: vec![],
        shape: record(&[("b", "T::B"), ("c", "C<T>")]),
        hints: vec![s("T::C")],
    }
}

fn def_decl_c2() -> Declaration {
    Declaration {
        name: s("C2"),
        params: vec![
            GenericParam { ident: s("T"), bounds: vec![] },
            GenericParam { ident: s("V"), bounds: vec![] },
            GenericParam { ident: s("Blah"), bounds: vec![s("Clone")] },
        ],
        where_preds: vec![Predicate { target: s("T"), bound: s("Associate") }],
        shape: record(&[("c", "T::C"), ("v", "V"), ("b", "Blah")]),
        hints: vec![s("T::C")],
    }
}

#[test]
fn default() {
    let generated_c2 = default_bounded(&def_decl_c2()).unwrap();
    assert_eq!(
        generated_c2,
        "impl<T, V, Blah> std::default::Default for C2<T, V, Blah> \
         where T: Associate, Blah: Clone, T::C: std::default::Default, \
         V: std::default::Default, Blah: std::default::Default \
         { fn default() -> Self { Self { c: std::default::Default::default(), \
         v: std::default::Default::default(), b: std::default::Default::default(), } } }"
    );

    // The bare comma-list hint form reads the same as the grouped form: the
    // hinted projection carries the constraint, the leftover of `C<T>` is
    // covered by the hint's root.
    let generated_b = default_bounded(&def_decl_b()).unwrap();
    assert_eq!(
        generated_b,
        "impl<T> std::default::Default for B<T> where T: Associate, T::C: std::default::Default \
         { fn default() -> Self { Self { b: std::default::Default::default(), \
         c: std::default::Default::default(), } } }"
    );
}
