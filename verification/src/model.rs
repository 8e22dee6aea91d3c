//! The model of C declarations that emission reads.
//!
//! Entities live in an arena, one vector per kind, and refer to each other by
//! index. Two references denote the same entity exactly when they hold the
//! same index: an entity is never compared by its contents.

use vstd::prelude::*;

verus! {

/// Signedness and width of a C integer type.
#[derive(Clone, Copy, Debug, PartialEq, Eq, Structural)]
pub enum IKind {
    IBool,
    ISChar,
    IUChar,
    IInt,
    IUInt,
    IShort,
    IUShort,
    ILong,
    IULong,
    ILongLong,
    IULongLong,
}

/// Precision of a C floating-point type.
#[derive(Clone, Copy, Debug, PartialEq, Eq, Structural)]
pub enum FKind {
    FFloat,
    FDouble,
}

/// A C type. `TNamed`, `TComp` and `TEnum` hold the index of the alias,
/// composite or enum in the arena.
#[derive(Debug, PartialEq, Eq)]
pub enum Type {
    TVoid,
    TInt(IKind),
    TFloat(FKind),
    TPtr(Box<Type>),
    TArray(Box<Type>, usize),
    /// Return type, parameters by name and type, and whether more arguments may follow.
    TFunc(Box<Type>, Vec<(String, Type)>, bool),
    TNamed(usize),
    TComp(usize),
    TEnum(usize),
}

/// A type alias.
#[derive(Debug, PartialEq, Eq)]
pub struct TypeInfo {
    pub name: String,
    pub ty: Type,
}

/// A member of a composite. An empty name marks an anonymous member.
#[derive(Debug, PartialEq, Eq)]
pub struct FieldInfo {
    pub name: String,
    pub ty: Type,
}

/// A struct or a union. An empty name marks an anonymous composite.
#[derive(Debug, PartialEq, Eq)]
pub struct CompInfo {
    pub name: String,
    /// `true` for a struct, `false` for a union.
    pub cstruct: bool,
    pub fields: Vec<FieldInfo>,
    /// Size in bytes under the C layout rules. Read for unions only.
    pub size: usize,
}

/// One enumerator.
#[derive(Debug, PartialEq, Eq)]
pub struct EnumItem {
    pub name: String,
    pub val: i64,
}

/// An enum. An empty name marks an anonymous enum.
#[derive(Debug, PartialEq, Eq)]
pub struct EnumInfo {
    pub name: String,
    pub items: Vec<EnumItem>,
    /// The integer type that stores a value of the enum.
    pub kind: IKind,
}

/// A variable or a function: a linked symbol and its type.
#[derive(Debug, PartialEq, Eq)]
pub struct VarInfo {
    pub name: String,
    pub ty: Type,
}

/// A top-level declaration, by the index of its entity.
#[derive(Clone, Copy, Debug, PartialEq, Eq, Structural)]
pub enum Global {
    GType(usize),
    GComp(usize),
    GCompDecl(usize),
    GEnum(usize),
    GEnumDecl(usize),
    GVar(usize),
    GFunc(usize),
    GOther,
}

/// The arena of entities.
#[derive(Debug, PartialEq, Eq)]
pub struct Model {
    pub types: Vec<TypeInfo>,
    pub comps: Vec<CompInfo>,
    pub enums: Vec<EnumInfo>,
    pub vars: Vec<VarInfo>,
}

/// Every index that lowering `ty` to a type reference reads is within the
/// arena. A function type is lowered without looking inside it.
pub open spec fn type_ok(ty: Type, model: Model) -> bool
    decreases ty,
{
    match ty {
        Type::TPtr(t) => type_ok(*t, model),
        Type::TArray(t, _) => type_ok(*t, model),
        Type::TNamed(i) => i < model.types@.len(),
        Type::TComp(i) => i < model.comps@.len(),
        Type::TEnum(i) => i < model.enums@.len(),
        _ => true,
    }
}

/// Every parameter type of the list is in order.
pub open spec fn params_ok(params: Seq<(String, Type)>, model: Model) -> bool {
    forall|k: int| 0 <= k < params.len() ==> type_ok(#[trigger] params[k].1, model)
}

/// The type of a symbol is in order: as `type_ok`, and where it is a function
/// type, its return type and every parameter type are in order too.
pub open spec fn symbol_ok(ty: Type, model: Model) -> bool {
    match ty {
        Type::TFunc(ret, params, _) => type_ok(*ret, model) && params_ok(params@, model),
        _ => type_ok(ty, model),
    }
}

/// Every member type of the composite is in order.
pub open spec fn comp_ok(ci: CompInfo, model: Model) -> bool {
    forall|j: int| 0 <= j < ci.fields@.len() ==> type_ok(#[trigger] ci.fields@[j].ty, model)
}

/// The declaration refers to an entity of the arena.
pub open spec fn global_ok(g: Global, model: Model) -> bool {
    match g {
        Global::GType(i) => i < model.types@.len(),
        Global::GComp(i) => i < model.comps@.len(),
        Global::GCompDecl(i) => i < model.comps@.len(),
        Global::GEnum(i) => i < model.enums@.len(),
        Global::GEnumDecl(i) => i < model.enums@.len(),
        Global::GVar(i) => i < model.vars@.len(),
        Global::GFunc(i) => i < model.vars@.len(),
        Global::GOther => true,
    }
}

/// Every declaration of the list refers to an entity of the arena.
pub open spec fn globals_ok(globs: Seq<Global>, model: Model) -> bool {
    forall|i: int| 0 <= i < globs.len() ==> global_ok(#[trigger] globs[i], model)
}

impl Model {
    /// No reference inside the arena dangles, and composites and enums
    /// together can be counted in a `usize`.
    pub open spec fn wf(self) -> bool {
        &&& self.comps@.len() + self.enums@.len() <= usize::MAX
        &&& forall|i: int|
            0 <= i < self.types@.len() ==> type_ok(#[trigger] self.types@[i].ty, self)
        &&& forall|i: int|
            0 <= i < self.comps@.len() ==> comp_ok(#[trigger] self.comps@[i], self)
        &&& forall|i: int|
            0 <= i < self.vars@.len() ==> symbol_ok(#[trigger] self.vars@[i].ty, self)
    }

    /// Decides `type_ok`.
    pub fn check_type(&self, ty: &Type) -> (b: bool)
        ensures
            b == type_ok(*ty, *self),
        decreases ty,
    {
        match ty {
            Type::TPtr(t) => self.check_type(t),
            Type::TArray(t, _) => self.check_type(t),
            Type::TNamed(i) => *i < self.types.len(),
            Type::TComp(i) => *i < self.comps.len(),
            Type::TEnum(i) => *i < self.enums.len(),
            _ => true,
        }
    }

    /// Decides whether every parameter type is in order.
    pub fn check_params(&self, params: &Vec<(String, Type)>) -> (b: bool)
        ensures
            b == params_ok(params@, *self),
    {
        let mut k: usize = 0;
        while k < params.len()
            invariant
                k <= params@.len(),
                forall|j: int| 0 <= j < k ==> type_ok(#[trigger] params@[j].1, *self),
            decreases params@.len() - k,
        {
            if !self.check_type(&params[k].1) {
                return false;
            }
            k += 1;
        }
        true
    }

    /// Decides `symbol_ok`.
    pub fn check_symbol(&self, ty: &Type) -> (b: bool)
        ensures
            b == symbol_ok(*ty, *self),
    {
        match ty {
            Type::TFunc(ret, params, _) => self.check_type(ret) && self.check_params(params),
            _ => self.check_type(ty),
        }
    }

    /// Decides `comp_ok`.
    pub fn check_comp(&self, ci: &CompInfo) -> (b: bool)
        ensures
            b == comp_ok(*ci, *self),
    {
        let mut j: usize = 0;
        while j < ci.fields.len()
            invariant
                j <= ci.fields@.len(),
                forall|k: int| 0 <= k < j ==> type_ok(#[trigger] ci.fields@[k].ty, *self),
            decreases ci.fields@.len() - j,
        {
            if !self.check_type(&ci.fields[j].ty) {
                return false;
            }
            j += 1;
        }
        true
    }

    /// Decides `wf`.
    pub fn is_valid(&self) -> (b: bool)
        ensures
            b == self.wf(),
    {
        if self.comps.len() > usize::MAX - self.enums.len() {
            return false;
        }
        let mut i: usize = 0;
        while i < self.types.len()
            invariant
                i <= self.types@.len(),
                forall|k: int| 0 <= k < i ==> type_ok(#[trigger] self.types@[k].ty, *self),
            decreases self.types@.len() - i,
        {
            if !self.check_type(&self.types[i].ty) {
                return false;
            }
            i += 1;
        }
        let mut i: usize = 0;
        while i < self.comps.len()
            invariant
                i <= self.comps@.len(),
                forall|k: int| 0 <= k < i ==> comp_ok(#[trigger] self.comps@[k], *self),
            decreases self.comps@.len() - i,
        {
            if !self.check_comp(&self.comps[i]) {
                return false;
            }
            i += 1;
        }
        let mut i: usize = 0;
        while i < self.vars.len()
            invariant
                i <= self.vars@.len(),
                forall|k: int| 0 <= k < i ==> symbol_ok(#[trigger] self.vars@[k].ty, *self),
            decreases self.vars@.len() - i,
        {
            if !self.check_symbol(&self.vars[i].ty) {
                return false;
            }
            i += 1;
        }
        true
    }

    /// Decides `globals_ok`.
    pub fn check_globals(&self, globs: &Vec<Global>) -> (b: bool)
        ensures
            b == globals_ok(globs@, *self),
    {
        let mut i: usize = 0;
        while i < globs.len()
            invariant
                i <= globs@.len(),
                forall|k: int| 0 <= k < i ==> global_ok(#[trigger] globs@[k], *self),
            decreases globs@.len() - i,
        {
            let ok = match globs[i] {
                Global::GType(h) => h < self.types.len(),
                Global::GComp(h) => h < self.comps.len(),
                Global::GCompDecl(h) => h < self.comps.len(),
                Global::GEnum(h) => h < self.enums.len(),
                Global::GEnumDecl(h) => h < self.enums.len(),
                Global::GVar(h) => h < self.vars.len(),
                Global::GFunc(h) => h < self.vars.len(),
                Global::GOther => true,
            };
            if !ok {
                return false;
            }
            i += 1;
        }
        true
    }
}

} // verus!
