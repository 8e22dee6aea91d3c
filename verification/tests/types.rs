use bindgen::ast::Ty;
use bindgen::cty::{cty_to_rs, float_type, int_type, mk_arrty, mk_fnty, mk_ptrty, mk_ty};
use bindgen::model::{CompInfo, EnumInfo, FKind, IKind, Model, Type, TypeInfo};
use bindgen::naming::GenCtx;

fn path(name: &str) -> Ty {
    Ty::Path(name.to_string())
}

fn model() -> Model {
    Model {
        types: vec![
            TypeInfo { name: "size_t".to_string(), ty: Type::TInt(IKind::IULong) },
            TypeInfo { name: "type".to_string(), ty: Type::TInt(IKind::IInt) },
        ],
        comps: vec![
            CompInfo { name: "point".to_string(), cstruct: true, fields: vec![], size: 0 },
            CompInfo { name: "".to_string(), cstruct: false, fields: vec![], size: 0 },
            CompInfo { name: "".to_string(), cstruct: true, fields: vec![], size: 0 },
        ],
        enums: vec![
            EnumInfo { name: "color".to_string(), items: vec![], kind: IKind::IUInt },
            EnumInfo { name: "".to_string(), items: vec![], kind: IKind::IInt },
        ],
        vars: vec![],
    }
}

fn ctx(model: &Model) -> GenCtx {
    GenCtx::new(model, vec!["type".to_string()])
}

#[test]
fn constructors_build_the_three_shapes() {
    assert_eq!(mk_ty("c_int".to_string()), path("c_int"));
    assert_eq!(mk_ptrty(path("c_int")), Ty::Ptr(Box::new(path("c_int"))));
    assert_eq!(mk_arrty(path("c_int"), 3), Ty::FixedVec(Box::new(path("c_int")), 3));
    assert_eq!(mk_fnty(), Ty::Ptr(Box::new(path("u8"))));
}

#[test]
fn every_integer_kind_has_its_type() {
    assert_eq!(int_type(IKind::IBool), "c_int");
    assert_eq!(int_type(IKind::ISChar), "c_schar");
    assert_eq!(int_type(IKind::IUChar), "c_uchar");
    assert_eq!(int_type(IKind::IInt), "c_int");
    assert_eq!(int_type(IKind::IUInt), "c_uint");
    assert_eq!(int_type(IKind::IShort), "c_short");
    assert_eq!(int_type(IKind::IUShort), "c_ushort");
    assert_eq!(int_type(IKind::ILong), "c_long");
    assert_eq!(int_type(IKind::IULong), "c_ulong");
    assert_eq!(int_type(IKind::ILongLong), "c_longlong");
    assert_eq!(int_type(IKind::IULongLong), "c_ulonglong");
}

#[test]
fn both_float_kinds_have_their_type() {
    assert_eq!(float_type(FKind::FFloat), "c_float");
    assert_eq!(float_type(FKind::FDouble), "c_double");
}

#[test]
fn scalars_are_lowered_by_kind() {
    let m = model();
    let mut c = ctx(&m);
    assert_eq!(cty_to_rs(&mut c, &m, &Type::TVoid), path("c_void"));
    assert_eq!(cty_to_rs(&mut c, &m, &Type::TInt(IKind::IUShort)), path("c_ushort"));
    assert_eq!(cty_to_rs(&mut c, &m, &Type::TInt(IKind::IBool)), path("c_int"));
    assert_eq!(cty_to_rs(&mut c, &m, &Type::TFloat(FKind::FDouble)), path("c_double"));
    assert_eq!(c.unnamed_ty, 0);
}

#[test]
fn pointers_and_arrays_nest() {
    let m = model();
    let mut c = ctx(&m);
    let ty = Type::TArray(Box::new(Type::TPtr(Box::new(Type::TInt(IKind::ISChar)))), 8);
    assert_eq!(
        cty_to_rs(&mut c, &m, &ty),
        Ty::FixedVec(Box::new(Ty::Ptr(Box::new(path("c_schar")))), 8)
    );
    let void_ptr = Type::TPtr(Box::new(Type::TVoid));
    assert_eq!(cty_to_rs(&mut c, &m, &void_ptr), Ty::Ptr(Box::new(path("c_void"))));
    let empty = Type::TArray(Box::new(Type::TInt(IKind::IInt)), 0);
    assert_eq!(cty_to_rs(&mut c, &m, &empty), Ty::FixedVec(Box::new(path("c_int")), 0));
}

#[test]
fn function_type_collapses_to_byte_pointer() {
    let m = model();
    let mut c = ctx(&m);
    let f = Type::TFunc(
        Box::new(Type::TComp(1)),
        vec![("a".to_string(), Type::TEnum(1))],
        true,
    );
    assert_eq!(cty_to_rs(&mut c, &m, &f), Ty::Ptr(Box::new(path("u8"))));
    assert_eq!(c.unnamed_ty, 0);
    assert_eq!(c.comp_names[1], "");
    assert_eq!(c.enum_names[1], "");
    let fp = Type::TPtr(Box::new(f));
    assert_eq!(cty_to_rs(&mut c, &m, &fp), Ty::Ptr(Box::new(Ty::Ptr(Box::new(path("u8"))))));
}

#[test]
fn alias_is_referred_to_by_its_escaped_name() {
    let m = model();
    let mut c = ctx(&m);
    assert_eq!(cty_to_rs(&mut c, &m, &Type::TNamed(0)), path("size_t"));
    assert_eq!(cty_to_rs(&mut c, &m, &Type::TNamed(1)), path("_type"));
}

#[test]
fn named_composite_and_enum_carry_their_prefix() {
    let m = model();
    let mut c = ctx(&m);
    assert_eq!(cty_to_rs(&mut c, &m, &Type::TComp(0)), path("Struct_point"));
    assert_eq!(cty_to_rs(&mut c, &m, &Type::TEnum(0)), path("Enum_color"));
    assert_eq!(c.unnamed_ty, 0);
}

#[test]
fn anonymous_entities_are_named_on_first_use() {
    let m = model();
    let mut c = ctx(&m);
    assert_eq!(cty_to_rs(&mut c, &m, &Type::TComp(1)), path("Union_Unnamed1"));
    assert_eq!(cty_to_rs(&mut c, &m, &Type::TEnum(1)), path("Enum_Unnamed2"));
    let p = Type::TPtr(Box::new(Type::TComp(2)));
    assert_eq!(cty_to_rs(&mut c, &m, &p), Ty::Ptr(Box::new(path("Struct_Unnamed3"))));
    assert_eq!(cty_to_rs(&mut c, &m, &Type::TComp(1)), path("Union_Unnamed1"));
    assert_eq!(cty_to_rs(&mut c, &m, &Type::TEnum(1)), path("Enum_Unnamed2"));
    assert_eq!(c.unnamed_ty, 3);
    assert_eq!(
        c.comp_names,
        vec!["point".to_string(), "Unnamed1".to_string(), "Unnamed3".to_string()]
    );
}
