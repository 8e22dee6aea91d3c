use bindgen::model::{CompInfo, EnumInfo, FieldInfo, Global, IKind, Model, Type, TypeInfo, VarInfo};

fn model() -> Model {
    Model {
        types: vec![TypeInfo { name: "t".to_string(), ty: Type::TInt(IKind::IInt) }],
        comps: vec![CompInfo {
            name: "s".to_string(),
            cstruct: true,
            fields: vec![FieldInfo { name: "e".to_string(), ty: Type::TEnum(0) }],
            size: 4,
        }],
        enums: vec![EnumInfo { name: "e".to_string(), items: vec![], kind: IKind::IInt }],
        vars: vec![VarInfo { name: "v".to_string(), ty: Type::TNamed(0) }],
    }
}

#[test]
fn references_within_the_arena_are_in_order() {
    let m = model();
    assert!(m.is_valid());
    assert!(m.check_type(&Type::TComp(0)));
    assert!(m.check_type(&Type::TPtr(Box::new(Type::TArray(Box::new(Type::TEnum(0)), 2)))));
    assert!(m.check_type(&Type::TVoid));
}

#[test]
fn reference_past_the_arena_is_found() {
    let m = model();
    assert!(!m.check_type(&Type::TComp(1)));
    assert!(!m.check_type(&Type::TNamed(1)));
    assert!(!m.check_type(&Type::TPtr(Box::new(Type::TEnum(1)))));
    assert!(!m.check_type(&Type::TArray(Box::new(Type::TEnum(7)), 0)));
}

#[test]
fn function_type_is_looked_into_only_for_a_symbol() {
    let m = model();
    let bad_param = Type::TFunc(
        Box::new(Type::TVoid),
        vec![("a".to_string(), Type::TInt(IKind::IInt)), ("b".to_string(), Type::TComp(9))],
        false,
    );
    assert!(m.check_type(&bad_param));
    assert!(!m.check_symbol(&bad_param));
    let bad_ret = Type::TFunc(Box::new(Type::TEnum(9)), vec![], false);
    assert!(m.check_type(&bad_ret));
    assert!(!m.check_symbol(&bad_ret));
    let good = Type::TFunc(Box::new(Type::TEnum(0)), vec![("a".to_string(), Type::TComp(0))], true);
    assert!(m.check_symbol(&good));
    assert!(m.check_params(&vec![("a".to_string(), Type::TComp(0))]));
    assert!(!m.check_params(&vec![("a".to_string(), Type::TComp(1))]));
}

#[test]
fn dangling_member_breaks_the_model() {
    let mut m = model();
    m.comps[0].fields.push(FieldInfo { name: "x".to_string(), ty: Type::TComp(5) });
    assert!(!m.check_comp(&m.comps[0]));
    assert!(!m.is_valid());
}

#[test]
fn dangling_alias_or_symbol_breaks_the_model() {
    let mut m = model();
    m.types.push(TypeInfo { name: "u".to_string(), ty: Type::TNamed(9) });
    assert!(!m.is_valid());
    let mut m = model();
    m.vars.push(VarInfo {
        name: "f".to_string(),
        ty: Type::TFunc(Box::new(Type::TVoid), vec![("".to_string(), Type::TEnum(3))], false),
    });
    assert!(!m.is_valid());
}

#[test]
fn declarations_must_refer_into_the_arena() {
    let m = model();
    assert!(m.check_globals(&vec![
        Global::GType(0),
        Global::GComp(0),
        Global::GCompDecl(0),
        Global::GEnum(0),
        Global::GEnumDecl(0),
        Global::GVar(0),
        Global::GFunc(0),
        Global::GOther,
    ]));
    assert!(!m.check_globals(&vec![Global::GType(1)]));
    assert!(!m.check_globals(&vec![Global::GComp(1)]));
    assert!(!m.check_globals(&vec![Global::GCompDecl(1)]));
    assert!(!m.check_globals(&vec![Global::GEnum(1)]));
    assert!(!m.check_globals(&vec![Global::GEnumDecl(1)]));
    assert!(!m.check_globals(&vec![Global::GVar(1)]));
    assert!(!m.check_globals(&vec![Global::GOther, Global::GFunc(1)]));
    assert!(m.check_globals(&vec![]));
}
