use mlua_gen::arity::{generate_tuple_access, ArgAccess, DecodeType};
use mlua_gen::attr::{Attributes, Expr, Meta, MetaValue, MethodOrFunction};
use mlua_gen::error::GenError;
use mlua_gen::visibility::{FieldId, Fields, FieldsVisibility, NamedField, UnnamedField, Visibility};

fn named(name: &str, vis: Visibility, ty: &str) -> NamedField {
    NamedField { name: name.to_string(), vis, ty: ty.to_string() }
}

fn restricted(path: &str) -> Visibility {
    Visibility::Restricted(path.to_string())
}

/// `a` private, `b` pub(super), `c` pub(crate), `d` pub.
fn four_fields() -> Fields {
    Fields::Named(vec![
        named("a", Visibility::Inherited, "usize"),
        named("b", restricted("super"), "usize"),
        named("c", restricted("crate"), "usize"),
        named("d", Visibility::Public, "usize"),
    ])
}

fn names(ids: &[FieldId]) -> Vec<String> {
    ids.iter()
        .map(|id| match id {
            FieldId::Name(s) => s.clone(),
            FieldId::Position(i) => format!("#{i}"),
        })
        .collect()
}

fn resolve(spec: FieldsVisibility, fields: &Fields) -> Vec<String> {
    names(&spec.fields_from_visibility(fields).unwrap())
}

#[test]
fn thresholds_select_by_access_level() {
    let f = four_fields();
    assert_eq!(resolve(FieldsVisibility::Nothing, &f), Vec::<String>::new());
    assert_eq!(resolve(FieldsVisibility::Pub, &f), vec!["d"]);
    assert_eq!(resolve(FieldsVisibility::PubCrate, &f), vec!["c", "d"]);
    assert_eq!(resolve(FieldsVisibility::PubSuper, &f), vec!["b", "c", "d"]);
    assert_eq!(resolve(FieldsVisibility::All, &f), vec!["a", "b", "c", "d"]);
}

#[test]
fn higher_threshold_keeps_lower_selection() {
    let f = four_fields();
    let levels = [
        FieldsVisibility::Nothing,
        FieldsVisibility::Pub,
        FieldsVisibility::PubCrate,
        FieldsVisibility::PubSuper,
        FieldsVisibility::All,
    ];
    for lo in 0..levels.len() {
        for hi in lo + 1..levels.len() {
            let small = resolve(levels[lo].clone(), &f);
            let large = resolve(levels[hi].clone(), &f);
            for name in &small {
                assert!(large.contains(name), "{name} lost between levels {lo} and {hi}");
            }
        }
    }
}

#[test]
fn explicit_list_selects_exactly() {
    let f = four_fields();
    let spec = FieldsVisibility::Custom(vec![
        FieldId::Name("c".to_string()),
        FieldId::Name("a".to_string()),
    ]);
    assert_eq!(resolve(spec, &f), vec!["a", "c"]);
}

#[test]
fn positions_of_tuple_record() {
    let f = Fields::Unnamed(vec![
        UnnamedField { vis: Visibility::Public, ty: "String".to_string() },
        UnnamedField { vis: Visibility::Inherited, ty: "u32".to_string() },
    ]);
    assert_eq!(resolve(FieldsVisibility::All, &f), vec!["#0", "#1"]);
    assert_eq!(resolve(FieldsVisibility::Pub, &f), vec!["#0"]);
    assert_eq!(resolve(FieldsVisibility::Custom(vec![FieldId::Position(1)]), &f), vec!["#1"]);
    assert_eq!(resolve(FieldsVisibility::All, &Fields::Unit), Vec::<String>::new());
}

#[test]
fn list_of_wrong_key_kind_is_refused() {
    let f = four_fields();
    let r = FieldsVisibility::Custom(vec![FieldId::Position(0)]).fields_from_visibility(&f);
    assert_eq!(r.unwrap_err(), GenError::PositionalOnNamed);
    let t = Fields::Unnamed(vec![UnnamedField { vis: Visibility::Public, ty: "u8".to_string() }]);
    let r = FieldsVisibility::Custom(vec![FieldId::Name("x".to_string())]).fields_from_visibility(&t);
    assert_eq!(r.unwrap_err(), GenError::NamedOnPositional);
}

#[test]
fn unknown_access_path_is_refused_where_read() {
    let f = Fields::Named(vec![named("x", restricted("in crate::m"), "u8")]);
    let r = FieldsVisibility::Pub.fields_from_visibility(&f);
    assert_eq!(r.unwrap_err(), GenError::UnexpectedVisibility);
    assert_eq!(resolve(FieldsVisibility::All, &f), vec!["x"]);
}

fn texts(v: &[&str]) -> Vec<String> {
    v.iter().map(|s| s.to_string()).collect()
}

#[test]
fn receiver_forms() {
    let m = MethodOrFunction::from_call("set_age".to_string(), texts(&["& mut self", "u8"]));
    assert!(m.is_self && m.is_mut);
    assert_eq!(m.args, texts(&["u8"]));
    let m = MethodOrFunction::from_call("age".to_string(), texts(&["& self"]));
    assert!(m.is_self && !m.is_mut);
    assert!(m.args.is_empty());
    let m = MethodOrFunction::from_call("take".to_string(), texts(&["mut self"]));
    assert!(m.is_self && m.is_mut);
    let m = MethodOrFunction::from_call("into".to_string(), texts(&["self", "u8"]));
    assert!(m.is_self && !m.is_mut);
    assert_eq!(m.args, texts(&["u8"]));
    let m = MethodOrFunction::from_call("new".to_string(), texts(&["String", "u8"]));
    assert!(!m.is_self && !m.is_mut);
    assert_eq!(m.args, texts(&["String", "u8"]));
    assert_eq!(m.name, "new");
}

fn meta(key: &str, value: MetaValue) -> Meta {
    Meta { key: key.to_string(), value }
}

fn path(s: &str) -> Expr {
    Expr::Path(s.to_string())
}

#[test]
fn options_are_read() {
    let mut a = Attributes::new();
    assert!(matches!(a.get, FieldsVisibility::PubSuper));
    a.parse(&meta("get", MetaValue::Star)).unwrap();
    assert!(matches!(a.get, FieldsVisibility::All));
    a.parse(&meta("set", MetaValue::Vis(restricted("crate")))).unwrap();
    assert!(matches!(a.set, FieldsVisibility::PubCrate));
    a.parse(&meta("set", MetaValue::Array(vec![path("a"), Expr::Int(2)]))).unwrap();
    match &a.set {
        FieldsVisibility::Custom(list) => assert_eq!(names(list), vec!["a", "#2"]),
        other => panic!("unexpected {other:?}"),
    }
    let calls = vec![
        Expr::Call("default".to_string(), vec![]),
        Expr::Call("age".to_string(), vec![Expr::Reference("& self".to_string())]),
        Expr::Call(
            "set_age".to_string(),
            vec![Expr::Reference("& mut self".to_string()), path("u8"), Expr::Int(3)],
        ),
    ];
    a.parse(&meta("impl", MetaValue::Array(calls))).unwrap();
    assert_eq!(a.methods.len(), 3);
    assert!(!a.methods[0].is_self);
    assert!(a.methods[1].is_self && !a.methods[1].is_mut);
    assert!(a.methods[2].is_mut);
    assert_eq!(a.methods[2].args, texts(&["u8"]));
    a.parse(&meta("custom_fields", MetaValue::Ident("fields".to_string()))).unwrap();
    a.parse(&meta("custom_impls", MetaValue::Ident("impls".to_string()))).unwrap();
    assert_eq!(a.custom_fields.as_deref(), Some("fields"));
    assert_eq!(a.custom_impls.as_deref(), Some("impls"));
}

#[test]
fn option_errors() {
    let mut a = Attributes::new();
    assert_eq!(a.parse(&meta("gett", MetaValue::Star)), Err(GenError::UnexpectedAttribute));
    assert_eq!(
        a.parse(&meta("get", MetaValue::Array(vec![Expr::Other]))),
        Err(GenError::ExpectedIdentifier)
    );
    assert_eq!(
        a.parse(&meta("impl", MetaValue::Array(vec![path("x")]))),
        Err(GenError::ExpectedIdentifier)
    );
    assert_eq!(a.parse(&meta("custom_fields", MetaValue::Star)), Err(GenError::InvalidValue));
    assert_eq!(
        a.parse(&meta("get", MetaValue::Vis(restricted("self")))),
        Err(GenError::UnexpectedVisibility)
    );
    assert!(matches!(a.get, FieldsVisibility::PubSuper));
    assert!(a.methods.is_empty());
}

#[test]
fn arity_boundaries() {
    let (access, decode) = generate_tuple_access(&vec![]);
    assert!(access.is_empty());
    assert!(matches!(decode, DecodeType::Unit));

    let (access, decode) = generate_tuple_access(&texts(&["u8"]));
    assert_eq!(access, vec![ArgAccess::Whole]);
    assert!(matches!(decode, DecodeType::Bare(ref t) if t == "u8"));

    let (access, decode) = generate_tuple_access(&texts(&["u8", "String"]));
    assert_eq!(access, vec![ArgAccess::Index(0), ArgAccess::Index(1)]);
    assert!(matches!(decode, DecodeType::Tuple(ref ts) if *ts == texts(&["u8", "String"])));

    let (access, decode) = generate_tuple_access(&texts(&["u8", "String", "bool"]));
    assert_eq!(access, vec![ArgAccess::Index(0), ArgAccess::Index(1), ArgAccess::Index(2)]);
    assert!(matches!(decode, DecodeType::Tuple(ref ts) if ts.len() == 3 && ts[2] == "bool"));
}
