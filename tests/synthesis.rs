use record_derive::attrs::{builder_directive, debug_template, BuilderDirective};
use record_derive::builder::{derive as derive_builder, BuilderPlan, FieldKind, SetterAction, SetterParam};
use record_derive::classify::{classify, is_word, TypeClass};
use record_derive::debug::{derive as derive_debug, DebugPlan};
use record_derive::runtime::{BuildError, Value};
use record_derive::schema::{
    AttrForm, AttrValue, Attribute, Declaration, GenError, GenericParam, RawField, Shape, TypeExpr, TypeNode,
};

fn simple(name: &str) -> TypeExpr {
    TypeExpr {
        outer: Some(name.to_string()),
        outer_args: 0,
        nodes: vec![TypeNode { ident: name.to_string(), parent: None, leading: true }],
    }
}

fn generic(name: &str, arg: TypeExpr) -> TypeExpr {
    let mut nodes = vec![TypeNode { ident: name.to_string(), parent: None, leading: true }];
    for n in arg.nodes {
        let parent = match n.parent {
            Some(p) => Some(p + 1),
            None => Some(0),
        };
        nodes.push(TypeNode { ident: n.ident, parent, leading: n.leading });
    }
    TypeExpr { outer: Some(name.to_string()), outer_args: 1, nodes }
}

fn each(v: &str) -> Attribute {
    Attribute {
        namespace: "builder".to_string(),
        form: AttrForm::Assign { key: Some("each".to_string()), value: AttrValue::Str(v.to_string()) },
    }
}

fn template(t: &str) -> Attribute {
    Attribute { namespace: "debug".to_string(), form: AttrForm::NameValue { value: AttrValue::Str(t.to_string()) } }
}

fn field(name: &str, ty: TypeExpr, attrs: Vec<Attribute>) -> RawField {
    RawField { name: Some(name.to_string()), ty, attrs }
}

fn record(name: &str, generics: &[&str], fields: Vec<RawField>) -> Declaration {
    Declaration {
        name: name.to_string(),
        generics: generics.iter().map(|g| GenericParam { name: g.to_string(), is_type: true }).collect(),
        shape: Shape::Record(fields),
    }
}

fn text(s: &str) -> Value {
    Value::Text(s.to_string())
}

fn list_of(v: &Option<Value>) -> Vec<String> {
    match v {
        Some(Value::List(l)) => l.clone(),
        _ => panic!("expected a list"),
    }
}

fn builder_of(d: Declaration) -> BuilderPlan {
    derive_builder(d).unwrap()
}

#[test]
fn missing_required_field_is_named() {
    let p = builder_of(record("Command", &[], vec![field("executable", simple("String"), vec![])]));
    let st = p.start();
    let e = st.build(&p).unwrap_err();
    assert_eq!(e, BuildError::MissingField("executable".to_string()));
    assert_eq!(e.message(), "executable is not set");
}

#[test]
fn builder_name_and_setter_order() {
    let p = builder_of(record(
        "Command",
        &[],
        vec![
            field("executable", simple("String"), vec![]),
            field("args", generic("Vec", simple("String")), vec![each("arg")]),
            field("current_dir", generic("Option", simple("String")), vec![]),
        ],
    ));
    assert_eq!(p.builder, "CommandBuilder");
    let names: Vec<&str> = p.setters.iter().map(|s| s.name.as_str()).collect();
    assert_eq!(names, vec!["executable", "args", "arg", "current_dir"]);
    assert_eq!(p.setters[0].action, SetterAction::Overwrite);
    assert_eq!(p.setters[0].param, SetterParam::Declared);
    assert_eq!(p.setters[2].action, SetterAction::Append);
    assert_eq!(p.setters[2].param, SetterParam::Inner);
    assert_eq!(p.setters[3].param, SetterParam::Inner);
    assert_eq!(p.fields[1].kind, FieldKind::Aggregated("arg".to_string()));
    assert_eq!(p.fields[2].kind, FieldKind::Optional);
}

#[test]
fn aggregation_accumulates_in_call_order() {
    let p = builder_of(record("Command", &[], vec![field("args", generic("Vec", simple("String")), vec![each("arg")])]));
    let mut st = p.start();
    st.append(&p, "arg", "x".to_string()).unwrap();
    st.append(&p, "arg", "y".to_string()).unwrap();
    let built = st.build(&p).unwrap();
    assert_eq!(list_of(&built[0]), vec!["x".to_string(), "y".to_string()]);
}

#[test]
fn aggregation_without_calls_is_empty() {
    let p = builder_of(record("Command", &[], vec![field("args", generic("Vec", simple("String")), vec![each("arg")])]));
    let built = p.start().build(&p).unwrap();
    assert_eq!(list_of(&built[0]), Vec::<String>::new());
}

#[test]
fn whole_sequence_setter_replaces_list() {
    let p = builder_of(record("Command", &[], vec![field("args", generic("Vec", simple("String")), vec![each("arg")])]));
    let mut st = p.start();
    st.append(&p, "arg", "x".to_string()).unwrap();
    st.assign(&p, "args", Value::List(vec!["p".to_string()])).unwrap();
    st.append(&p, "arg", "q".to_string()).unwrap();
    let built = st.build(&p).unwrap();
    assert_eq!(list_of(&built[0]), vec!["p".to_string(), "q".to_string()]);
}

#[test]
fn optional_field_left_absent() {
    let p = builder_of(record(
        "Command",
        &[],
        vec![field("executable", simple("String"), vec![]), field("current_dir", generic("Option", simple("String")), vec![])],
    ));
    let mut st = p.start();
    st.assign(&p, "executable", text("cargo")).unwrap();
    let built = st.build(&p).unwrap();
    assert!(matches!(&built[0], Some(Value::Text(s)) if s == "cargo"));
    assert!(built[1].is_none());
}

#[test]
fn first_missing_field_wins() {
    let p = builder_of(record(
        "Command",
        &[],
        vec![
            field("executable", simple("String"), vec![]),
            field("env", generic("Vec", simple("String")), vec![]),
        ],
    ));
    let mut st = p.start();
    assert_eq!(st.build(&p).unwrap_err(), BuildError::MissingField("executable".to_string()));
    st.assign(&p, "executable", text("cargo")).unwrap();
    assert_eq!(st.build(&p).unwrap_err(), BuildError::MissingField("env".to_string()));
    st.assign(&p, "env", Value::List(vec![])).unwrap();
    assert!(st.build(&p).is_ok());
}

#[test]
fn same_name_aggregation_has_one_setter() {
    let p = builder_of(record("Command", &[], vec![field("env", generic("Vec", simple("String")), vec![each("env")])]));
    assert_eq!(p.setters.len(), 1);
    assert_eq!(p.setters[0].action, SetterAction::Append);
    let mut st = p.start();
    st.append(&p, "env", "a".to_string()).unwrap();
    st.append(&p, "env", "b".to_string()).unwrap();
    assert_eq!(st.assign(&p, "env", Value::List(vec![])), Err(BuildError::UnknownSetter("env".to_string())));
    let built = st.build(&p).unwrap();
    assert_eq!(list_of(&built[0]), vec!["a".to_string(), "b".to_string()]);
}

#[test]
fn unknown_setter_is_reported() {
    let p = builder_of(record("Command", &[], vec![field("executable", simple("String"), vec![])]));
    let mut st = p.start();
    let e = st.assign(&p, "exe", text("x")).unwrap_err();
    assert_eq!(e.message(), "no setter named exe");
}

#[test]
fn malformed_builder_key_is_rejected() {
    let bad = Attribute {
        namespace: "builder".to_string(),
        form: AttrForm::Assign { key: Some("eac".to_string()), value: AttrValue::Str("arg".to_string()) },
    };
    let d = record("Command", &[], vec![field("args", generic("Vec", simple("String")), vec![bad])]);
    let e = derive_builder(d).err().unwrap();
    assert_eq!(e, GenError::MalformedAttribute { field: 0, attr: 0 });
    assert!(e.message().contains("each = \"...\""));
}

#[test]
fn bare_builder_value_is_rejected() {
    let bare = Attribute { namespace: "builder".to_string(), form: AttrForm::Bare };
    let d = record(
        "Command",
        &[],
        vec![field("executable", simple("String"), vec![]), field("args", generic("Vec", simple("String")), vec![bare])],
    );
    assert_eq!(derive_builder(d).err(), Some(GenError::MalformedAttribute { field: 1, attr: 0 }));
}

#[test]
fn non_string_each_value_is_rejected() {
    let a = Attribute {
        namespace: "builder".to_string(),
        form: AttrForm::Assign { key: Some("each".to_string()), value: AttrValue::Other },
    };
    assert_eq!(builder_directive(&vec![a]), BuilderDirective::Malformed(0));
}

#[test]
fn first_each_annotation_wins() {
    let other = Attribute { namespace: "serde".to_string(), form: AttrForm::Bare };
    let later = Attribute { namespace: "builder".to_string(), form: AttrForm::Bare };
    let attrs = vec![other, each("arg"), later];
    assert_eq!(builder_directive(&attrs), BuilderDirective::Aggregate("arg".to_string()));
    assert_eq!(builder_directive(&vec![]), BuilderDirective::NoDirective);
}

#[test]
fn each_on_non_sequence_is_rejected() {
    let d = record("Command", &[], vec![field("name", simple("String"), vec![each("n")])]);
    assert_eq!(derive_builder(d).err(), Some(GenError::NotASequence { field: 0 }));
}

#[test]
fn sum_and_union_shapes_are_rejected() {
    let d = Declaration { name: "E".to_string(), generics: vec![], shape: Shape::Sum };
    assert_eq!(derive_builder(d).err(), Some(GenError::UnsupportedShape));
    let u = Declaration { name: "U".to_string(), generics: vec![], shape: Shape::Union };
    assert_eq!(derive_debug(u).err(), Some(GenError::UnsupportedShape));
}

#[test]
fn unnamed_field_is_rejected() {
    let d = Declaration {
        name: "T".to_string(),
        generics: vec![],
        shape: Shape::Record(vec![
            field("a", simple("u8"), vec![]),
            RawField { name: None, ty: simple("u8"), attrs: vec![] },
        ]),
    };
    let e = derive_debug(d).err().unwrap();
    assert_eq!(e, GenError::MalformedField { field: 1 });
    assert_eq!(e.message(), "Field name must be provided");
}

#[test]
fn classification_by_outer_constructor() {
    assert_eq!(classify(&simple("String")), TypeClass::Plain);
    assert_eq!(classify(&simple("Option")), TypeClass::Plain);
    assert_eq!(classify(&generic("Option", simple("u8"))), TypeClass::OptionalWrapped);
    assert_eq!(classify(&generic("Vec", simple("u8"))), TypeClass::SequenceLike);
    assert_eq!(classify(&generic("Box", simple("u8"))), TypeClass::Plain);
    let reference = TypeExpr { outer: None, outer_args: 0, nodes: vec![] };
    assert_eq!(classify(&reference), TypeClass::Plain);
    assert!(is_word(&"Vec".to_string(), "Vec"));
    assert!(!is_word(&"Vec".to_string(), "Ve"));
}

#[test]
fn phantom_only_parameter_is_exempt() {
    let d = record("Wrapper", &["T"], vec![field("marker", generic("PhantomData", simple("T")), vec![])]);
    let p = derive_debug(d).unwrap();
    assert_eq!(p.bounded, vec![false]);
}

#[test]
fn parameter_used_outside_marker_is_bounded() {
    let d = record(
        "Pair",
        &["T"],
        vec![field("marker", generic("PhantomData", simple("T")), vec![]), field("value", simple("T"), vec![])],
    );
    assert_eq!(derive_debug(d).unwrap().bounded, vec![true]);
    let nested = record("Holder", &["T"], vec![field("items", generic("Vec", generic("Box", simple("T"))), vec![])]);
    assert_eq!(derive_debug(nested).unwrap().bounded, vec![true]);
    let unused = record("Empty", &["T"], vec![field("n", simple("u8"), vec![])]);
    assert_eq!(derive_debug(unused).unwrap().bounded, vec![true]);
}

#[test]
fn marker_nested_deeper_still_counts() {
    let d = record("Deep", &["T", "U"], vec![
        field("m", generic("Vec", generic("PhantomData", simple("T"))), vec![]),
        field("u", simple("U"), vec![]),
    ]);
    let mut decl = d;
    if let Shape::Record(fs) = &mut decl.shape {
        fs.push(field("lt", simple("u8"), vec![]));
    }
    decl.generics.push(GenericParam { name: "'a".to_string(), is_type: false });
    let p = derive_debug(decl).unwrap();
    assert_eq!(p.bounded, vec![false, true, false]);
}

#[test]
fn format_override_only_affects_its_field() {
    let d = record(
        "Field",
        &[],
        vec![field("a", simple("u8"), vec![]), field("b", simple("u8"), vec![template("0x{:x}")])],
    );
    let p: DebugPlan = derive_debug(d).unwrap();
    assert_eq!(p.record, "Field");
    assert_eq!(p.entries.len(), 2);
    assert_eq!(p.entries[0].name, "a");
    assert_eq!(p.entries[0].template, None);
    assert_eq!(p.entries[1].name, "b");
    assert_eq!(p.entries[1].template, Some("0x{:x}".to_string()));
}

#[test]
fn last_debug_template_wins_and_others_are_ignored() {
    let junk = Attribute { namespace: "debug".to_string(), form: AttrForm::Bare };
    let attrs = vec![template("{:?}"), junk, template("0b{:08b}")];
    assert_eq!(debug_template(&attrs), Some("0b{:08b}".to_string()));
    let ignored = Attribute { namespace: "debug".to_string(), form: AttrForm::NameValue { value: AttrValue::Other } };
    assert_eq!(debug_template(&vec![ignored]), None);
}
