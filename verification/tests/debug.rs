use derive_bounded::gen::debug_bounded;
use derive_bounded::model::{Declaration, FieldShape, GenericParam, NamedField, Predicate, Shape};
use derive_bounded::value::{equals, Value};

fn s(x: &str) -> String {
    x.to_string()
}

fn record(fields: &[(&str, &str)]) -> Shape {
    Shape::Fields(FieldShape::Record(
        fields
            .iter()
            .map(|(n, t)| NamedField { ident: s(n), ty: s(t) })
            .collect(),
    ))
}

fn dbg_decl_a() -> Declaration {
    Declaration {
        name: s("A"),
        params: vec![GenericParam { ident: s("T"), bounds: vec![s("Associate")] }],
        where_preds: vec![],
        shape: record(&[("a", "T::A"), ("b", "B<T>")]),
        hints: vec![s("types(T::B, T::C)")],
    }
}

fn dbg_decl_c() -> Declaration {
    Declaration {
        name: s("C"),
        params: vec![GenericParam { ident: s("T"), bounds: vec![s("Associate")] }],
        where_preds: vec![],
        shape: record(&[("c", "T::C")]),
        hints: vec![s("types(T::C)")],
    }
}

fn dbg_decl_c2() -> Declaration {
    Declaration {
        name: s("C2"),
        params: vec![
            GenericParam { ident: s("T"), bounds: vec![] },
            GenericParam { ident: s("V"), bounds: vec![] },
            GenericParam { ident: s("Blah"), bounds: vec![s("Default")] },
        ],
        where_preds: vec![Predicate { target: s("T"), bound: s("Associate") }],
        shape: record(&[("c", "T::C"), ("v", "V"), ("b", "Blah")]),
        hints: vec![s("types(T::C)")],
    }
}

#[test]
fn debug() {
    // As in the equality case: equal atoms compare equal.
    let c = Value::Record(vec![42]);
    let abc = Value::Record(vec![42]);
    assert!(equals(&c, &abc));

    let generated = debug_bounded(&dbg_decl_c()).unwrap();
    assert_eq!(
        generated,
        "impl<T> std::fmt::Debug for C<T> where T: Associate, T::C: std::fmt::Debug \
         { fn fmt(&self, f: &mut std::fmt::Formatter<'_>) -> std::fmt::Result \
         { f.debug_struct(\"C\").field(\"c\", &self.c).finish() } }"
    );

    let generated_a = debug_bounded(&dbg_decl_a()).unwrap();
    assert_eq!(
        generated_a,
        "impl<T> std::fmt::Debug for A<T> where T: Associate, \
         T::B: std::fmt::Debug, T::C: std::fmt::Debug \
         { fn fmt(&self, f: &mut std::fmt::Formatter<'_>) -> std::fmt::Result \
         { f.debug_struct(\"A\").field(\"a\", &self.a).field(\"b\", &self.b).finish() } }"
    );

    let generated_c2 = debug_bounded(&dbg_decl_c2()).unwrap();
    assert_eq!(
        generated_c2,
        "impl<T, V, Blah> std::fmt::Debug for C2<T, V, Blah> \
         where T: Associate, Blah: Default, T::C: std::fmt::Debug, \
         V: std::fmt::Debug, Blah: std::fmt::Debug \
         { fn fmt(&self, f: &mut std::fmt::Formatter<'_>) -> std::fmt::Result \
         { f.debug_struct(\"C2\").field(\"c\", &self.c).field(\"v\", &self.v).field(\"b\", &self.b).finish() } }"
    );
}
