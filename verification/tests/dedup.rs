use bindgen::dedup::remove_redundent_decl;
use bindgen::model::{CompInfo, EnumInfo, FieldInfo, Global, IKind, Model, Type, TypeInfo};
use bindgen::naming::GenCtx;

fn comp(name: &str) -> CompInfo {
    CompInfo {
        name: name.to_string(),
        cstruct: true,
        fields: vec![FieldInfo { name: "x".to_string(), ty: Type::TInt(IKind::IInt) }],
        size: 4,
    }
}

fn an_enum(name: &str) -> EnumInfo {
    EnumInfo { name: name.to_string(), items: vec![], kind: IKind::IInt }
}

fn alias(name: &str, ty: Type) -> TypeInfo {
    TypeInfo { name: name.to_string(), ty }
}

fn dedup(model: &Model, gs: Vec<Global>) -> Vec<Global> {
    let ctx = GenCtx::new(model, vec![]);
    remove_redundent_decl(&ctx, model, &gs)
}

#[test]
fn anonymous_struct_behind_an_alias_goes() {
    let m = Model {
        types: vec![alias("Point", Type::TComp(0))],
        comps: vec![comp("")],
        enums: vec![],
        vars: vec![],
    };
    assert_eq!(dedup(&m, vec![Global::GComp(0), Global::GType(0)]), vec![Global::GType(0)]);
    assert_eq!(dedup(&m, vec![Global::GType(0), Global::GComp(0)]), vec![Global::GType(0)]);
}

#[test]
fn anonymous_enum_behind_an_alias_goes() {
    let m = Model {
        types: vec![alias("E", Type::TEnum(0))],
        comps: vec![],
        enums: vec![an_enum("")],
        vars: vec![],
    };
    assert_eq!(dedup(&m, vec![Global::GEnum(0), Global::GType(0)]), vec![Global::GType(0)]);
}

#[test]
fn named_entity_behind_an_alias_stays() {
    let m = Model {
        types: vec![alias("P", Type::TComp(0)), alias("E", Type::TEnum(0))],
        comps: vec![comp("point")],
        enums: vec![an_enum("e")],
        vars: vec![],
    };
    let gs = vec![Global::GComp(0), Global::GType(0), Global::GEnum(0), Global::GType(1)];
    assert_eq!(dedup(&m, gs.clone()), gs);
}

#[test]
fn look_alike_struct_stays() {
    let m = Model {
        types: vec![alias("Point", Type::TComp(0))],
        comps: vec![comp(""), comp("")],
        enums: vec![],
        vars: vec![],
    };
    assert_eq!(
        dedup(&m, vec![Global::GComp(0), Global::GComp(1), Global::GType(0)]),
        vec![Global::GComp(1), Global::GType(0)]
    );
}

#[test]
fn alias_through_a_pointer_removes_nothing() {
    let m = Model {
        types: vec![alias("PointPtr", Type::TPtr(Box::new(Type::TComp(0))))],
        comps: vec![comp("")],
        enums: vec![],
        vars: vec![],
    };
    let gs = vec![Global::GComp(0), Global::GType(0)];
    assert_eq!(dedup(&m, gs.clone()), gs);
}

#[test]
fn forward_declarations_stay() {
    let m = Model {
        types: vec![alias("P", Type::TComp(0)), alias("E", Type::TEnum(0))],
        comps: vec![comp("")],
        enums: vec![an_enum("")],
        vars: vec![],
    };
    assert_eq!(
        dedup(
            &m,
            vec![Global::GCompDecl(0), Global::GEnumDecl(0), Global::GType(0), Global::GType(1)]
        ),
        vec![Global::GCompDecl(0), Global::GEnumDecl(0), Global::GType(0), Global::GType(1)]
    );
}

#[test]
fn composite_and_enum_indices_are_not_confused() {
    let m = Model {
        types: vec![alias("E", Type::TEnum(0))],
        comps: vec![comp("")],
        enums: vec![an_enum("")],
        vars: vec![],
    };
    assert_eq!(
        dedup(&m, vec![Global::GComp(0), Global::GEnum(0), Global::GType(0)]),
        vec![Global::GComp(0), Global::GType(0)]
    );
}

#[test]
fn every_copy_of_a_redundant_declaration_goes_and_order_is_kept() {
    let m = Model {
        types: vec![alias("A", Type::TComp(1)), alias("B", Type::TInt(IKind::IInt))],
        comps: vec![comp("first"), comp(""), comp("")],
        enums: vec![],
        vars: vec![],
    };
    assert_eq!(
        dedup(
            &m,
            vec![
                Global::GComp(2),
                Global::GComp(1),
                Global::GType(1),
                Global::GComp(0),
                Global::GComp(1),
                Global::GType(0),
            ]
        ),
        vec![Global::GComp(2), Global::GType(1), Global::GComp(0), Global::GType(0)]
    );
}

#[test]
fn empty_list_stays_empty() {
    let m = Model { types: vec![], comps: vec![], enums: vec![], vars: vec![] };
    assert_eq!(dedup(&m, vec![]), vec![]);
}
