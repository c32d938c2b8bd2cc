use std::collections::{BTreeMap, BTreeSet, HashMap, HashSet};

use mlua_gen::arity::{ArgAccess, DecodeType};
use mlua_gen::attr::{Attributes, Expr, Meta, MetaValue};
use mlua_gen::binding::{kind_of_type, CallKind, Constructor};
use mlua_gen::error::{ConvError, GenError};
use mlua_gen::expand::{mlua_gen, remove_ty_from_generics, Binding, Data, DeriveInput, GenericParam};
use mlua_gen::record::{index_of_position, position_of_index, StructBinding};
use mlua_gen::registry::{Entry, Registry};
use mlua_gen::shape::{decode_payload, encode_payload, Shape};
use mlua_gen::sum::{
    builder as enum_builder, construct_variant, decode_enum, encode_enum, set_variant,
    variant_field, EnumValue, VariantDecl,
};
use mlua_gen::traits::NewIndex;
use mlua_gen::value::{Base, Kind, Table, Value};
use mlua_gen::visibility::{FieldId, Fields, NamedField, UnnamedField, Visibility};

fn s(x: &str) -> String {
    x.to_string()
}

fn text(v: &Value) -> Option<&str> {
    match v {
        Value::Str(x) => Some(x.as_str()),
        _ => None,
    }
}

fn as_int(v: &Value) -> Option<i64> {
    match v {
        Value::Integer(i) => Some(*i),
        _ => None,
    }
}

fn meta(key: &str, value: MetaValue) -> Meta {
    Meta { key: s(key), value }
}

fn call(name: &str, args: Vec<Expr>) -> Expr {
    Expr::Call(s(name), args)
}

fn human_binding() -> StructBinding {
    let fields = Fields::Named(vec![
        NamedField { name: s("name"), vis: Visibility::Restricted(s("crate")), ty: s("String") },
        NamedField { name: s("age"), vis: Visibility::Inherited, ty: s("u8") },
    ]);
    let args = vec![
        meta("get", MetaValue::Star),
        meta("set", MetaValue::Star),
        meta(
            "impl",
            MetaValue::Array(vec![
                call("default", vec![]),
                call("age", vec![Expr::Reference(s("& self"))]),
                call("set_age", vec![Expr::Reference(s("& mut self")), Expr::Path(s("u8"))]),
            ]),
        ),
    ];
    let input = DeriveInput { name: s("Human"), generics: vec![], data: Data::Struct(fields) };
    match mlua_gen(&args, &input).unwrap() {
        Binding::Struct(b) => b,
        Binding::Enum(_) => panic!("a struct gives a struct binding"),
    }
}

#[test]
fn human_record_through_bindings() {
    let b = human_binding();
    assert_eq!(b.name, "Human");
    assert!(b.fields.iter().all(|f| f.get && f.set));
    assert_eq!(b.functions.len(), 1);
    assert_eq!(b.functions[0].name, "default");
    assert_eq!(b.functions[0].kind, CallKind::Function);
    assert!(matches!(b.functions[0].decode, DecodeType::Unit));
    assert_eq!(b.methods.len(), 3);
    assert_eq!(b.methods[1].kind, CallKind::Method);
    assert_eq!(b.methods[2].kind, CallKind::MethodMut);
    assert_eq!(b.methods[2].access, vec![ArgAccess::Whole]);
    assert!(matches!(b.methods[2].decode, DecodeType::Bare(ref t) if t == "u8"));

    // h = Human.default(); h:set_age(42); h.name = "Martin"
    let mut h = vec![Value::Str(String::new()), Value::Integer(0)];
    b.set(&mut h, &FieldId::Name(s("age")), Value::Integer(42)).unwrap();
    b.set(&mut h, &FieldId::Name(s("name")), Value::Str(s("Martin"))).unwrap();
    let name = b.get(&h, &FieldId::Name(s("name"))).unwrap();
    assert_eq!(text(&name), Some("Martin"));
    let age = b.get(&h, &FieldId::Name(s("age"))).unwrap();
    assert_eq!(as_int(&age), Some(42));
}

#[test]
fn record_field_errors() {
    let b = human_binding();
    let mut h = vec![Value::Str(s("x")), Value::Integer(1)];
    assert_eq!(
        b.set(&mut h, &FieldId::Name(s("age")), Value::Str(s("old"))),
        Err(ConvError::Conversion)
    );
    assert_eq!(
        b.set(&mut h, &FieldId::Name(s("age")), Value::Integer(300)),
        Err(ConvError::Conversion)
    );
    assert_eq!(
        b.set(&mut h, &FieldId::Name(s("age")), Value::Integer(-1)),
        Err(ConvError::Conversion)
    );
    assert_eq!(
        b.set(&mut h, &FieldId::Name(s("name")), Value::Nil),
        Err(ConvError::Conversion)
    );
    assert_eq!(
        b.set(&mut h, &FieldId::Name(s("height")), Value::Integer(3)),
        Err(ConvError::UnknownField)
    );
    assert!(b.get(&h, &FieldId::Name(s("height"))).is_none());
    assert_eq!(as_int(&h[1]), Some(1));
}

#[test]
fn getters_and_setters_resolve_independently() {
    let fields = Fields::Named(vec![
        NamedField { name: s("a"), vis: Visibility::Public, ty: s("u8") },
        NamedField { name: s("b"), vis: Visibility::Inherited, ty: s("u8") },
    ]);
    let args = vec![meta("get", MetaValue::Vis(Visibility::Public))];
    let input = DeriveInput { name: s("Pair"), generics: vec![], data: Data::Struct(fields) };
    let b = match mlua_gen(&args, &input).unwrap() {
        Binding::Struct(b) => b,
        Binding::Enum(_) => panic!(),
    };
    assert!(b.fields[0].get && b.fields[0].set);
    assert!(!b.fields[1].get && !b.fields[1].set);
    let mut inst = vec![Value::Integer(1), Value::Integer(2)];
    assert!(b.get(&inst, &FieldId::Name(s("b"))).is_none());
    assert_eq!(
        b.set(&mut inst, &FieldId::Name(s("b")), Value::Integer(5)),
        Err(ConvError::UnknownField)
    );
}

#[test]
fn tuple_record_positions() {
    let fields = Fields::Unnamed(vec![
        UnnamedField { vis: Visibility::Public, ty: s("String") },
        UnnamedField { vis: Visibility::Public, ty: s("u32") },
    ]);
    let args = vec![meta("get", MetaValue::Star), meta("set", MetaValue::Star)];
    let input = DeriveInput { name: s("Unnamed"), generics: vec![], data: Data::Struct(fields) };
    let b = match mlua_gen(&args, &input).unwrap() {
        Binding::Struct(b) => b,
        Binding::Enum(_) => panic!(),
    };
    assert!(matches!(&b.constructor, Constructor::Positional(a, DecodeType::Tuple(ts))
        if a.len() == 2 && ts.len() == 2 && ts[1] == "u32"));
    // Script positions 1 and 2 are native fields 0 and 1.
    let mut t = Table::new();
    t.push(Value::Str(s("test")));
    t.push(Value::Integer(32));
    let mut inst = b.decode(&Value::Table(t)).unwrap();
    assert_eq!(text(&inst[0]), Some("test"));
    let second = position_of_index(2).unwrap();
    let first = position_of_index(1).unwrap();
    b.set(&mut inst, &second, Value::Integer(10)).unwrap();
    b.set(&mut inst, &first, Value::Str(s("name"))).unwrap();
    assert_eq!(as_int(&b.get(&inst, &second).unwrap()), Some(10));
    assert!(position_of_index(0).is_none());
    assert_eq!(index_of_position(0), Some(1));
    assert_eq!(index_of_position(1), Some(2));
    assert_eq!(index_of_position(usize::MAX), None);
    let out = b.encode(inst);
    assert_eq!(text(&out.get_index(1)), Some("name"));
    assert_eq!(as_int(&out.get_index(2)), Some(10));
    assert!(matches!(out.get_index(3), Value::Nil));
}

#[test]
fn tuple_record_too_short_is_arity_error() {
    let shape = Shape::Positional(vec![kind_of_type(&s("String")), kind_of_type(&s("i64"))]);
    let mut t = Table::new();
    t.push(Value::Str(s("only")));
    assert_eq!(decode_payload(&shape, &t).unwrap_err(), ConvError::Arity);
    let mut t = Table::new();
    t.push(Value::Integer(1));
    assert_eq!(decode_payload(&shape, &t).unwrap_err(), ConvError::Conversion);
}

#[test]
fn record_round_trip() {
    let shape = Shape::Named(vec![
        (s("name"), kind_of_type(&s("String"))),
        (s("age"), kind_of_type(&s("u8"))),
    ]);
    let t = encode_payload(&shape, vec![Value::Str(s("Neko")), Value::Integer(8)]);
    assert_eq!(text(&t.get(&s("name"))), Some("Neko"));
    let back = decode_payload(&shape, &t).unwrap();
    assert_eq!(text(&back[0]), Some("Neko"));
    assert_eq!(as_int(&back[1]), Some(8));

    let mut table = Table::new();
    table.set(s("age"), Value::Integer(3));
    table.set(s("name"), Value::Str(s("Mia")));
    let vals = decode_payload(&shape, &table).unwrap();
    let again = encode_payload(&shape, vals);
    for key in ["name", "age", "other"] {
        let (x, y) = (table.get(&s(key)), again.get(&s(key)));
        assert_eq!(format!("{x:?}"), format!("{y:?}"));
    }
    assert!(matches!(decode_payload(&shape, &Table::new()).unwrap_err(), ConvError::Conversion));
}

fn animal_decls() -> Vec<VariantDecl> {
    vec![
        VariantDecl { name: s("Pig"), fields: Fields::Unit },
        VariantDecl {
            name: s("Dog"),
            fields: Fields::Unnamed(vec![UnnamedField { vis: Visibility::Inherited, ty: s("String") }]),
        },
        VariantDecl {
            name: s("Cat"),
            fields: Fields::Named(vec![
                NamedField { name: s("name"), vis: Visibility::Inherited, ty: s("String") },
                NamedField { name: s("age"), vis: Visibility::Inherited, ty: s("u8") },
            ]),
        },
    ]
}

#[test]
fn animal_variant_fields() {
    let b = enum_builder(&s("Animal"), &animal_decls(), &Attributes::new()).unwrap();
    let keys: Vec<&str> = b.variants.iter().map(|v| v.key.as_str()).collect();
    assert_eq!(keys, vec!["pig", "dog", "cat"]);
    assert_eq!(b.setters, vec![false, true, true]);
    let vs = &b.variants;

    // Animal.Dog("Doggo").dog[1] == "Doggo"
    let mut args = Table::new();
    args.push(Value::Str(s("Doggo")));
    let dog = construct_variant(vs, 1, &args).unwrap();
    match variant_field(vs, &dog, 1) {
        Value::Table(t) => assert_eq!(text(&t.get_index(1)), Some("Doggo")),
        other => panic!("unexpected {other:?}"),
    }

    // Animal.Cat{name="Neko", age=8}.cat.age == 8
    let mut fields = Table::new();
    fields.set(s("name"), Value::Str(s("Neko")));
    fields.set(s("age"), Value::Integer(8));
    let cat = construct_variant(vs, 2, &fields).unwrap();
    match variant_field(vs, &cat, 2) {
        Value::Table(t) => assert_eq!(as_int(&t.get(&s("age"))), Some(8)),
        other => panic!("unexpected {other:?}"),
    }

    // Animal.Pig.pig == true and Animal.Pig.dog == nil
    let pig = construct_variant(vs, 0, &Table::new()).unwrap();
    assert!(matches!(variant_field(vs, &pig, 0), Value::Boolean(true)));
    assert!(matches!(variant_field(vs, &pig, 1), Value::Nil));
    assert!(matches!(variant_field(vs, &cat, 0), Value::Nil));
}

#[test]
fn earliest_variant_wins() {
    let b = enum_builder(&s("Animal"), &animal_decls(), &Attributes::new()).unwrap();
    let mut dog_payload = Table::new();
    dog_payload.push(Value::Str(s("Rex")));
    let mut cat_payload = Table::new();
    cat_payload.set(s("name"), Value::Str(s("Tom")));
    cat_payload.set(s("age"), Value::Integer(2));
    let mut t = Table::new();
    t.set(s("cat"), Value::Table(cat_payload));
    t.set(s("dog"), Value::Table(dog_payload));
    let e = decode_enum(&b.variants, &Value::Table(t)).unwrap();
    assert_eq!(e.variant, 1);
    assert_eq!(text(&e.payload[0]), Some("Rex"));
}

#[test]
fn enum_decode_errors() {
    let b = enum_builder(&s("Animal"), &animal_decls(), &Attributes::new()).unwrap();
    let vs = &b.variants;
    let mut t = Table::new();
    t.set(s("horse"), Value::Boolean(true));
    assert_eq!(decode_enum(vs, &Value::Table(t)).unwrap_err(), ConvError::NoMatchingVariant);
    let mut t = Table::new();
    t.set(s("dog"), Value::Integer(3));
    assert_eq!(decode_enum(vs, &Value::Table(t)).unwrap_err(), ConvError::MalformedVariant);
    let mut t = Table::new();
    t.set(s("pig"), Value::Table(Table::new()));
    assert_eq!(decode_enum(vs, &Value::Table(t)).unwrap_err(), ConvError::MalformedVariant);
    assert_eq!(decode_enum(vs, &Value::Integer(1)).unwrap_err(), ConvError::Conversion);
    let mut t = Table::new();
    t.set(s("pig"), Value::Boolean(false));
    assert_eq!(decode_enum(vs, &Value::Table(t)).unwrap().variant, 0);
}

#[test]
fn enum_round_trip_and_mutation() {
    let b = enum_builder(&s("Animal"), &animal_decls(), &Attributes::new()).unwrap();
    let vs = &b.variants;
    let cat = EnumValue { variant: 2, payload: vec![Value::Str(s("Neko")), Value::Integer(8)] };
    let t = encode_enum(vs, cat);
    let back = decode_enum(vs, &Value::Table(t)).unwrap();
    assert_eq!(back.variant, 2);
    assert_eq!(text(&back.payload[0]), Some("Neko"));

    let pig = EnumValue { variant: 0, payload: vec![] };
    let t = encode_enum(vs, pig);
    assert!(matches!(t.get(&s("pig")), Value::Boolean(true)));

    let mut e = EnumValue { variant: 0, payload: vec![] };
    let mut args = Table::new();
    args.push(Value::Str(s("Fido")));
    set_variant(vs, &mut e, 1, &Value::Table(args)).unwrap();
    assert_eq!(e.variant, 1);
    assert_eq!(set_variant(vs, &mut e, 2, &Value::Integer(0)), Err(ConvError::Conversion));
    assert_eq!(e.variant, 1);
}

#[test]
fn union_is_refused() {
    let input = DeriveInput { name: s("U"), generics: vec![], data: Data::Union };
    assert_eq!(mlua_gen(&vec![], &input).unwrap_err(), GenError::UnsupportedDeclaration);
}

fn required(base: Base) -> Kind {
    Kind { base, optional: false }
}

#[test]
fn field_kinds_from_types() {
    assert_eq!(kind_of_type(&s("bool")), required(Base::Boolean));
    assert_eq!(kind_of_type(&s("u8")), required(Base::Integer { min: 0, max: 255 }));
    assert_eq!(kind_of_type(&s("i16")), required(Base::Integer { min: -32768, max: 32767 }));
    assert_eq!(kind_of_type(&s("usize")), required(Base::Integer { min: 0, max: i64::MAX }));
    assert_eq!(kind_of_type(&s("String")), required(Base::Str));
    assert_eq!(kind_of_type(&s("Vec < u8 >")), required(Base::Other));
    assert_eq!(
        kind_of_type(&s("Option < u8 >")),
        Kind { base: Base::Integer { min: 0, max: 255 }, optional: true }
    );
    assert_eq!(kind_of_type(&s("Option<String>")), Kind { base: Base::Str, optional: true });
}

#[test]
fn missing_required_field_is_refused() {
    let shape = Shape::Named(vec![
        (s("data"), kind_of_type(&s("Vec < u8 >"))),
        (s("note"), kind_of_type(&s("Option < String >"))),
    ]);
    assert_eq!(decode_payload(&shape, &Table::new()).unwrap_err(), ConvError::Conversion);
    let mut t = Table::new();
    t.set(s("data"), Value::Table(Table::new()));
    let vals = decode_payload(&shape, &t).unwrap();
    assert!(matches!(vals[1], Value::Nil));
    let mut t = Table::new();
    t.set(s("data"), Value::Table(Table::new()));
    t.set(s("note"), Value::Integer(3));
    assert_eq!(decode_payload(&shape, &t).unwrap_err(), ConvError::Conversion);
}

#[test]
fn out_of_range_integer_is_refused() {
    let shape = Shape::Positional(vec![kind_of_type(&s("u8"))]);
    let mut t = Table::new();
    t.push(Value::Integer(300));
    assert_eq!(decode_payload(&shape, &t).unwrap_err(), ConvError::Conversion);
    let mut t = Table::new();
    t.push(Value::Integer(255));
    assert_eq!(as_int(&decode_payload(&shape, &t).unwrap()[0]), Some(255));
}

#[test]
fn colliding_variant_keys_are_refused() {
    let decls = vec![
        VariantDecl { name: s("Dog"), fields: Fields::Unit },
        VariantDecl { name: s("DOG"), fields: Fields::Unit },
    ];
    assert_eq!(
        enum_builder(&s("Pets"), &decls, &Attributes::new()).unwrap_err(),
        GenError::DuplicateVariantKey
    );
}

#[test]
fn assignment_by_index() {
    let mut v: Vec<u8> = vec![1];
    v.new_index(3, 9);
    assert_eq!(v, vec![1, 0, 0, 9]);
    v.new_index(0, 5);
    assert_eq!(v, vec![5, 0, 0, 9]);

    let mut m: HashMap<String, u8> = HashMap::new();
    m.new_index(s("a"), 1);
    m.new_index(s("a"), 2);
    assert_eq!(m.get("a"), Some(&2));
    let mut bm: BTreeMap<u8, u8> = BTreeMap::new();
    bm.new_index(1, 1);
    assert_eq!(bm.get(&1), Some(&1));
    let mut hs: HashSet<u8> = HashSet::new();
    hs.new_index(1, 7);
    hs.new_index(2, 7);
    assert_eq!(hs.len(), 1);
    let mut bs: BTreeSet<u8> = BTreeSet::new();
    bs.new_index(1, 4);
    assert!(bs.contains(&4));
}

#[test]
fn registration_in_global_namespace() {
    let mut reg = Registry::new();
    let human = human_binding();
    reg.register_struct(&s("Human"), &human);
    let i = reg.position(&s("Human")).unwrap();
    assert!(matches!(&reg.globals[i].1, Entry::Namespace(fs, true) if *fs == vec![s("default")]));
    let j = reg.position(&s("Human_")).unwrap();
    assert!(matches!(&reg.globals[j].1, Entry::Namespace(fs, false) if fs.len() == 1));

    let unit = match mlua_gen(&vec![], &DeriveInput { name: s("Marker"), generics: vec![], data: Data::Struct(Fields::Unit) })
        .unwrap()
    {
        Binding::Struct(b) => b,
        Binding::Enum(_) => panic!(),
    };
    reg.register_struct(&s("Marker"), &unit);
    let k = reg.position(&s("Marker")).unwrap();
    assert!(matches!(reg.globals[k].1, Entry::Singleton));
    assert!(reg.position(&s("Marker_")).is_none());

    let animal = enum_builder(&s("Animal"), &animal_decls(), &Attributes::new()).unwrap();
    reg.register_enum(&s("Beast"), &animal);
    let m = reg.position(&s("Beast")).unwrap();
    assert!(matches!(&reg.globals[m].1, Entry::Variants(vs, fs)
        if *vs == vec![s("Pig"), s("Dog"), s("Cat")] && fs.is_empty()));
    assert!(reg.position(&s("Animal")).is_none());

    // Registering again under the same name replaces the binding.
    reg.register_struct(&s("Beast"), &unit);
    let m = reg.position(&s("Beast")).unwrap();
    assert!(matches!(reg.globals[m].1, Entry::Singleton));
}

#[test]
fn generic_parameters_by_name() {
    let params = vec![
        GenericParam::Lifetime(s("'a")),
        GenericParam::Type(s("T")),
        GenericParam::Const(s("N")),
    ];
    assert_eq!(remove_ty_from_generics(&params), vec![s("'a"), s("T"), s("N")]);
    assert!(remove_ty_from_generics(&vec![]).is_empty());
}

#[test]
fn table_keys_and_sequence() {
    let mut t = Table::new();
    assert!(matches!(t.get(&s("k")), Value::Nil));
    t.set(s("k"), Value::Integer(1));
    t.set(s("j"), Value::Boolean(false));
    t.set(s("k"), Value::Integer(2));
    assert_eq!(as_int(&t.get(&s("k"))), Some(2));
    assert!(matches!(t.get(&s("j")), Value::Boolean(false)));
    assert_eq!(t.named.len(), 2);
    t.push(Value::Str(s("first")));
    assert_eq!(text(&t.get_index(1)), Some("first"));
    assert!(matches!(t.get_index(0), Value::Nil));
    assert!(matches!(t.get_index(2), Value::Nil));
    let mut inner = Table::new();
    inner.push(Value::Integer(7));
    t.set(s("nested"), Value::Table(inner));
    match t.copy().get(&s("nested")) {
        Value::Table(n) => assert_eq!(as_int(&n.get_index(1)), Some(7)),
        other => panic!("unexpected {other:?}"),
    }
}
