use bindgen::ast::{Arg, Attr, Field, ForeignItem, ForeignNode, Item, Method, Ty};
use bindgen::decl::{
    cenum_to_rs, cfunc_to_rs, cstruct_to_rs, ctypedef_to_rs, cunion_to_rs, cvar_to_rs, mk_alias,
    mk_link_name_attr,
};
use bindgen::model::{CompInfo, EnumInfo, EnumItem, FieldInfo, IKind, Model, Type};
use bindgen::naming::GenCtx;

fn path(name: &str) -> Ty {
    Ty::Path(name.to_string())
}

fn ptr(base: Ty) -> Ty {
    Ty::Ptr(Box::new(base))
}

fn field(name: &str, ty: Type) -> FieldInfo {
    FieldInfo { name: name.to_string(), ty }
}

fn out_field(name: &str, ty: Ty) -> Field {
    Field { name: name.to_string(), ty }
}

fn method(name: &str, ty: Ty) -> Method {
    Method { name: name.to_string(), ty }
}

fn item(name: &str, val: i64) -> EnumItem {
    EnumItem { name: name.to_string(), val }
}

fn c_int() -> Type {
    Type::TInt(IKind::IInt)
}

fn empty_model() -> Model {
    Model { types: vec![], comps: vec![], enums: vec![], vars: vec![] }
}

fn ctx(model: &Model) -> GenCtx {
    GenCtx::new(model, vec!["type".to_string(), "fn".to_string(), "match".to_string()])
}

#[test]
fn three_unnamed_fields_are_numbered_in_order() {
    let m = empty_model();
    let mut c = ctx(&m);
    let fields = vec![field("", c_int()), field("", c_int()), field("", c_int())];
    assert_eq!(
        cstruct_to_rs(&mut c, &m, "Struct_s", &fields),
        Item::Struct(
            "Struct_s".to_string(),
            vec![
                out_field("unnamed_field1", path("c_int")),
                out_field("unnamed_field2", path("c_int")),
                out_field("unnamed_field3", path("c_int")),
            ]
        )
    );
}

#[test]
fn unnamed_fields_are_numbered_among_themselves() {
    let m = empty_model();
    let mut c = ctx(&m);
    let fields = vec![
        field("x", c_int()),
        field("", Type::TFloat(bindgen::model::FKind::FFloat)),
        field("type", Type::TPtr(Box::new(Type::TVoid))),
        field("", Type::TArray(Box::new(Type::TInt(IKind::IUChar)), 4)),
    ];
    assert_eq!(
        cstruct_to_rs(&mut c, &m, "Struct_s", &fields),
        Item::Struct(
            "Struct_s".to_string(),
            vec![
                out_field("x", path("c_int")),
                out_field("unnamed_field1", path("c_float")),
                out_field("_type", ptr(path("c_void"))),
                out_field("unnamed_field2", Ty::FixedVec(Box::new(path("c_uchar")), 4)),
            ]
        )
    );
}

#[test]
fn struct_without_fields_is_empty() {
    let m = empty_model();
    let mut c = ctx(&m);
    assert_eq!(
        cstruct_to_rs(&mut c, &m, "Struct_s", &vec![]),
        Item::Struct("Struct_s".to_string(), vec![])
    );
}

#[test]
fn struct_called_by_reserved_word_is_escaped() {
    let m = empty_model();
    let mut c = ctx(&m);
    assert_eq!(
        cstruct_to_rs(&mut c, &m, "match", &vec![]),
        Item::Struct("_match".to_string(), vec![])
    );
}

#[test]
fn field_types_name_anonymous_entities_in_field_order() {
    let m = Model {
        types: vec![],
        comps: vec![
            CompInfo { name: "".to_string(), cstruct: true, fields: vec![], size: 0 },
            CompInfo { name: "".to_string(), cstruct: false, fields: vec![], size: 0 },
        ],
        enums: vec![EnumInfo { name: "".to_string(), items: vec![], kind: IKind::IInt }],
        vars: vec![],
    };
    let mut c = ctx(&m);
    let fields = vec![
        field("u", Type::TComp(1)),
        field("e", Type::TEnum(0)),
        field("s", Type::TPtr(Box::new(Type::TComp(0)))),
        field("again", Type::TComp(1)),
    ];
    assert_eq!(
        cstruct_to_rs(&mut c, &m, "Struct_s", &fields),
        Item::Struct(
            "Struct_s".to_string(),
            vec![
                out_field("u", path("Union_Unnamed1")),
                out_field("e", path("Enum_Unnamed2")),
                out_field("s", ptr(path("Struct_Unnamed3"))),
                out_field("again", path("Union_Unnamed1")),
            ]
        )
    );
    assert_eq!(c.unnamed_ty, 3);
}

#[test]
fn union_is_a_byte_buffer_of_its_size_with_accessors() {
    let m = empty_model();
    let mut c = ctx(&m);
    let fields = vec![
        field("i", c_int()),
        field("", Type::TFloat(bindgen::model::FKind::FDouble)),
        field("fn", Type::TPtr(Box::new(Type::TInt(IKind::ISChar)))),
        field("", c_int()),
    ];
    assert_eq!(
        cunion_to_rs(&mut c, &m, "Union_u", &fields, 8),
        vec![
            Item::Struct(
                "Union_u".to_string(),
                vec![out_field("data", Ty::FixedVec(Box::new(path("c_uchar")), 8))]
            ),
            Item::Impl(
                path("Union_u"),
                vec![
                    method("i", ptr(path("c_int"))),
                    method("unnamed_field1", ptr(path("c_double"))),
                    method("_fn", ptr(ptr(path("c_schar")))),
                    method("unnamed_field2", ptr(path("c_int"))),
                ]
            ),
        ]
    );
}

#[test]
fn union_without_members_has_no_accessor() {
    let m = empty_model();
    let mut c = ctx(&m);
    assert_eq!(
        cunion_to_rs(&mut c, &m, "Union_u", &vec![], 0),
        vec![
            Item::Struct(
                "Union_u".to_string(),
                vec![out_field("data", Ty::FixedVec(Box::new(path("c_uchar")), 0))]
            ),
            Item::Impl(path("Union_u"), vec![]),
        ]
    );
}

#[test]
fn union_buffer_length_is_the_declared_size() {
    let m = empty_model();
    for size in [1usize, 3, 16, 4096] {
        let mut c = ctx(&m);
        let items = cunion_to_rs(&mut c, &m, "Union_u", &vec![field("a", c_int())], size);
        match &items[0] {
            Item::Struct(_, fields) => {
                assert_eq!(fields.len(), 1);
                assert_eq!(fields[0].ty, Ty::FixedVec(Box::new(path("c_uchar")), size));
            }
            other => panic!("no struct: {:?}", other),
        }
    }
}

#[test]
fn enum_is_an_alias_and_one_constant_for_each_item() {
    let m = empty_model();
    let c = ctx(&m);
    let items = vec![item("RED", 0), item("GREEN", 1), item("BLUE", 2)];
    assert_eq!(
        cenum_to_rs(&c, "Enum_color", &items, IKind::IUInt),
        vec![
            Item::Alias("Enum_color".to_string(), path("c_uint")),
            Item::Const("RED".to_string(), path("c_uint"), 0),
            Item::Const("GREEN".to_string(), path("c_uint"), 1),
            Item::Const("BLUE".to_string(), path("c_uint"), 2),
        ]
    );
}

#[test]
fn enum_values_are_kept_exactly() {
    let m = empty_model();
    let c = ctx(&m);
    let items = vec![
        item("NEG", -1),
        item("SAME", 7),
        item("ALSO_SAME", 7),
        item("MIN", i64::MIN),
        item("MAX", i64::MAX),
        item("match", 0),
    ];
    assert_eq!(
        cenum_to_rs(&c, "Enum_e", &items, IKind::ILongLong),
        vec![
            Item::Alias("Enum_e".to_string(), path("c_longlong")),
            Item::Const("NEG".to_string(), path("c_longlong"), -1),
            Item::Const("SAME".to_string(), path("c_longlong"), 7),
            Item::Const("ALSO_SAME".to_string(), path("c_longlong"), 7),
            Item::Const("MIN".to_string(), path("c_longlong"), i64::MIN),
            Item::Const("MAX".to_string(), path("c_longlong"), i64::MAX),
            Item::Const("_match".to_string(), path("c_longlong"), 0),
        ]
    );
}

#[test]
fn enum_without_items_is_only_the_alias() {
    let m = empty_model();
    let c = ctx(&m);
    assert_eq!(
        cenum_to_rs(&c, "Enum_e", &vec![], IKind::IInt),
        vec![Item::Alias("Enum_e".to_string(), path("c_int"))]
    );
}

#[test]
fn alias_of_a_scalar() {
    let m = empty_model();
    let mut c = ctx(&m);
    assert_eq!(
        ctypedef_to_rs(&mut c, &m, "size_t", &Type::TInt(IKind::IULong)),
        vec![Item::Alias("size_t".to_string(), path("c_ulong"))]
    );
    assert_eq!(
        ctypedef_to_rs(&mut c, &m, "type", &Type::TPtr(Box::new(Type::TVoid))),
        vec![Item::Alias("_type".to_string(), ptr(path("c_void")))]
    );
    assert_eq!(
        mk_alias(&mut c, &m, "fn", &Type::TVoid),
        Item::Alias("_fn".to_string(), path("c_void"))
    );
}

fn model_with_entities() -> Model {
    Model {
        types: vec![],
        comps: vec![
            CompInfo {
                name: "".to_string(),
                cstruct: true,
                fields: vec![field("x", c_int()), field("", c_int())],
                size: 8,
            },
            CompInfo {
                name: "".to_string(),
                cstruct: false,
                fields: vec![field("a", c_int())],
                size: 4,
            },
            CompInfo { name: "named".to_string(), cstruct: true, fields: vec![], size: 0 },
        ],
        enums: vec![
            EnumInfo { name: "".to_string(), items: vec![item("A", 5)], kind: IKind::IInt },
            EnumInfo { name: "e".to_string(), items: vec![], kind: IKind::IInt },
        ],
        vars: vec![],
    }
}

#[test]
fn alias_of_an_anonymous_struct_emits_the_struct() {
    let m = model_with_entities();
    let mut c = ctx(&m);
    assert_eq!(
        ctypedef_to_rs(&mut c, &m, "Point", &Type::TComp(0)),
        vec![Item::Struct(
            "Struct_Point".to_string(),
            vec![out_field("x", path("c_int")), out_field("unnamed_field1", path("c_int"))]
        )]
    );
    assert_eq!(c.comp_names[0], "Point");
    assert_eq!(c.unnamed_ty, 0);
    assert_eq!(
        ctypedef_to_rs(&mut c, &m, "Again", &Type::TComp(0)),
        vec![Item::Alias("Again".to_string(), path("Struct_Point"))]
    );
}

#[test]
fn alias_of_an_anonymous_union_emits_the_union() {
    let m = model_with_entities();
    let mut c = ctx(&m);
    assert_eq!(
        ctypedef_to_rs(&mut c, &m, "U", &Type::TComp(1)),
        vec![
            Item::Struct(
                "Union_U".to_string(),
                vec![out_field("data", Ty::FixedVec(Box::new(path("c_uchar")), 4))]
            ),
            Item::Impl(path("Union_U"), vec![method("a", ptr(path("c_int")))]),
        ]
    );
    assert_eq!(c.comp_names[1], "U");
}

#[test]
fn alias_of_an_anonymous_enum_emits_the_enum() {
    let m = model_with_entities();
    let mut c = ctx(&m);
    assert_eq!(
        ctypedef_to_rs(&mut c, &m, "E", &Type::TEnum(0)),
        vec![
            Item::Alias("Enum_E".to_string(), path("c_int")),
            Item::Const("A".to_string(), path("c_int"), 5),
        ]
    );
    assert_eq!(c.enum_names[0], "E");
    assert_eq!(c.unnamed_ty, 0);
}

#[test]
fn alias_of_a_named_entity_is_an_alias() {
    let m = model_with_entities();
    let mut c = ctx(&m);
    assert_eq!(
        ctypedef_to_rs(&mut c, &m, "N", &Type::TComp(2)),
        vec![Item::Alias("N".to_string(), path("Struct_named"))]
    );
    assert_eq!(
        ctypedef_to_rs(&mut c, &m, "F", &Type::TEnum(1)),
        vec![Item::Alias("F".to_string(), path("Enum_e"))]
    );
    assert_eq!(
        ctypedef_to_rs(&mut c, &m, "P", &Type::TPtr(Box::new(Type::TComp(0)))),
        vec![Item::Alias("P".to_string(), ptr(path("Struct_Unnamed1")))]
    );
}

#[test]
fn link_name_attribute_holds_the_name() {
    assert_eq!(
        mk_link_name_attr("type".to_string()),
        Attr { name: "link_name".to_string(), value: "type".to_string() }
    );
}

#[test]
fn variable_with_plain_name_has_no_attribute() {
    let m = empty_model();
    let mut c = ctx(&m);
    assert_eq!(
        cvar_to_rs(&mut c, &m, "errno", &c_int()),
        ForeignItem {
            name: "errno".to_string(),
            attrs: vec![],
            node: ForeignNode::Const(path("c_int")),
        }
    );
}

#[test]
fn variable_called_by_reserved_word_keeps_its_link_name() {
    let m = empty_model();
    let mut c = ctx(&m);
    assert_eq!(
        cvar_to_rs(&mut c, &m, "type", &Type::TPtr(Box::new(Type::TInt(IKind::ISChar)))),
        ForeignItem {
            name: "_type".to_string(),
            attrs: vec![Attr { name: "link_name".to_string(), value: "type".to_string() }],
            node: ForeignNode::Const(ptr(path("c_schar"))),
        }
    );
}

#[test]
fn function_without_result_returns_nil() {
    let m = empty_model();
    let mut c = ctx(&m);
    let params = vec![("x".to_string(), Type::TPtr(Box::new(Type::TInt(IKind::ISChar))))];
    assert_eq!(
        cfunc_to_rs(&mut c, &m, "foo", &Type::TVoid, &params, false),
        ForeignItem {
            name: "foo".to_string(),
            attrs: vec![],
            node: ForeignNode::Fn(
                vec![Arg { name: "x".to_string(), ty: ptr(path("c_schar")) }],
                Ty::Nil
            ),
        }
    );
}

#[test]
fn function_parameters_are_named_and_escaped() {
    let m = empty_model();
    let mut c = ctx(&m);
    let params = vec![
        ("".to_string(), c_int()),
        ("match".to_string(), c_int()),
        ("".to_string(), Type::TPtr(Box::new(Type::TVoid))),
        ("n".to_string(), Type::TInt(IKind::IULong)),
    ];
    assert_eq!(
        cfunc_to_rs(&mut c, &m, "fn", &Type::TPtr(Box::new(Type::TVoid)), &params, true),
        ForeignItem {
            name: "_fn".to_string(),
            attrs: vec![Attr { name: "link_name".to_string(), value: "fn".to_string() }],
            node: ForeignNode::Fn(
                vec![
                    Arg { name: "arg1".to_string(), ty: path("c_int") },
                    Arg { name: "_match".to_string(), ty: path("c_int") },
                    Arg { name: "arg2".to_string(), ty: ptr(path("c_void")) },
                    Arg { name: "n".to_string(), ty: path("c_ulong") },
                ],
                ptr(path("c_void"))
            ),
        }
    );
}

#[test]
fn function_names_its_result_type_before_its_parameters() {
    let m = model_with_entities();
    let mut c = ctx(&m);
    let params = vec![("a".to_string(), Type::TComp(0)), ("b".to_string(), Type::TEnum(0))];
    assert_eq!(
        cfunc_to_rs(&mut c, &m, "f", &Type::TComp(1), &params, false),
        ForeignItem {
            name: "f".to_string(),
            attrs: vec![],
            node: ForeignNode::Fn(
                vec![
                    Arg { name: "a".to_string(), ty: path("Struct_Unnamed2") },
                    Arg { name: "b".to_string(), ty: path("Enum_Unnamed3") },
                ],
                path("Union_Unnamed1")
            ),
        }
    );
}

#[test]
fn function_without_parameters() {
    let m = empty_model();
    let mut c = ctx(&m);
    assert_eq!(
        cfunc_to_rs(&mut c, &m, "now", &Type::TInt(IKind::ILong), &vec![], false),
        ForeignItem {
            name: "now".to_string(),
            attrs: vec![],
            node: ForeignNode::Fn(vec![], path("c_long")),
        }
    );
}
