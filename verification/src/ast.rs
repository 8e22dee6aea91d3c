//! The declarations that emission produces, and their mathematical views.
//!
//! Every executable type here has a view in which strings are sequences of
//! characters and vectors are sequences of views. Contracts speak of the views.

use vstd::prelude::*;

verus! {

/// The views of the elements of a sequence, in order.
pub open spec fn views<T: View>(s: Seq<T>) -> Seq<T::V> {
    Seq::new(s.len(), |i: int| s[i]@)
}

/// Viewing commutes with `push`.
pub proof fn lemma_views_push<T: View>(s: Seq<T>, x: T)
    ensures
        views(s.push(x)) == views(s).push(x@),
{
    assert(views(s.push(x)) =~= views(s).push(x@));
}

/// Viewing commutes with concatenation.
pub proof fn lemma_views_add<T: View>(s: Seq<T>, t: Seq<T>)
    ensures
        views(s + t) == views(s) + views(t),
{
    assert(views(s + t) =~= views(s) + views(t));
}

/// A reference to a type of the target language.
#[derive(Debug, PartialEq, Eq)]
pub enum Ty {
    /// The empty tuple, which a function without a result returns.
    Nil,
    /// A type named by a single identifier.
    Path(String),
    /// An immutable raw pointer.
    Ptr(Box<Ty>),
    /// A fixed-length vector.
    FixedVec(Box<Ty>, usize),
}

/// The view of a `Ty`.
pub enum TyV {
    Nil,
    Path(Seq<char>),
    Ptr(Box<TyV>),
    FixedVec(Box<TyV>, nat),
}

/// The view of a type reference.
pub open spec fn ty_view(ty: Ty) -> TyV
    decreases ty,
{
    match ty {
        Ty::Nil => TyV::Nil,
        Ty::Path(name) => TyV::Path(name@),
        Ty::Ptr(base) => TyV::Ptr(Box::new(ty_view(*base))),
        Ty::FixedVec(base, n) => TyV::FixedVec(Box::new(ty_view(*base)), n as nat),
    }
}

impl View for Ty {
    type V = TyV;

    open spec fn view(&self) -> TyV {
        ty_view(*self)
    }
}

/// The view that a name paired with a type has: a struct field, a parameter,
/// or an accessor with its result type.
pub struct NamedTyV {
    pub name: Seq<char>,
    pub ty: TyV,
}

/// A public field of a struct.
#[derive(Debug, PartialEq, Eq)]
pub struct Field {
    pub name: String,
    pub ty: Ty,
}

impl View for Field {
    type V = NamedTyV;

    open spec fn view(&self) -> NamedTyV {
        NamedTyV { name: self.name@, ty: self.ty@ }
    }
}

/// A parameter of a foreign function.
#[derive(Debug, PartialEq, Eq)]
pub struct Arg {
    pub name: String,
    pub ty: Ty,
}

impl View for Arg {
    type V = NamedTyV;

    open spec fn view(&self) -> NamedTyV {
        NamedTyV { name: self.name@, ty: self.ty@ }
    }
}

/// An accessor of an emulated union. It takes the union by reference and
/// returns the address of its storage, reinterpreted as a pointer of type
/// `ty`. That reinterpretation is unchecked: the storage is shared by all
/// members, and whoever dereferences the result must know that it is the
/// member last written.
#[derive(Debug, PartialEq, Eq)]
pub struct Method {
    pub name: String,
    pub ty: Ty,
}

impl View for Method {
    type V = NamedTyV;

    open spec fn view(&self) -> NamedTyV {
        NamedTyV { name: self.name@, ty: self.ty@ }
    }
}

/// An outer attribute of the form `name = "value"`.
#[derive(Debug, PartialEq, Eq)]
pub struct Attr {
    pub name: String,
    pub value: String,
}

/// The view of an `Attr`.
pub struct AttrV {
    pub name: Seq<char>,
    pub value: Seq<char>,
}

impl View for Attr {
    type V = AttrV;

    open spec fn view(&self) -> AttrV {
        AttrV { name: self.name@, value: self.value@ }
    }
}

/// What a foreign item declares.
#[derive(Debug, PartialEq, Eq)]
pub enum ForeignNode {
    /// A constant of the given type.
    Const(Ty),
    /// A function with its parameters and its result type.
    Fn(Vec<Arg>, Ty),
}

/// The view of a `ForeignNode`.
pub enum ForeignNodeV {
    Const(TyV),
    Fn(Seq<NamedTyV>, TyV),
}

impl View for ForeignNode {
    type V = ForeignNodeV;

    open spec fn view(&self) -> ForeignNodeV {
        match self {
            ForeignNode::Const(ty) => ForeignNodeV::Const(ty@),
            ForeignNode::Fn(inputs, output) => ForeignNodeV::Fn(views(inputs@), output@),
        }
    }
}

/// A symbol that is defined in a linked library.
#[derive(Debug, PartialEq, Eq)]
pub struct ForeignItem {
    pub name: String,
    pub attrs: Vec<Attr>,
    pub node: ForeignNode,
}

/// The view of a `ForeignItem`.
pub struct ForeignItemV {
    pub name: Seq<char>,
    pub attrs: Seq<AttrV>,
    pub node: ForeignNodeV,
}

impl View for ForeignItem {
    type V = ForeignItemV;

    open spec fn view(&self) -> ForeignItemV {
        ForeignItemV { name: self.name@, attrs: views(self.attrs@), node: self.node@ }
    }
}

/// A public declaration at the top level of the emitted unit.
#[derive(Debug, PartialEq, Eq)]
pub enum Item {
    /// `type name = ty;`
    Alias(String, Ty),
    /// A struct with its fields in layout order.
    Struct(String, Vec<Field>),
    /// A constant of type `ty` with an integer literal as its value.
    Const(String, Ty, i64),
    /// The accessors of the type `self_ty`.
    Impl(Ty, Vec<Method>),
    /// A block of foreign items with its attributes and its ABI.
    ForeignMod(Vec<Attr>, String, Vec<ForeignItem>),
}

/// The view of an `Item`.
pub enum ItemV {
    Alias(Seq<char>, TyV),
    Struct(Seq<char>, Seq<NamedTyV>),
    Const(Seq<char>, TyV, int),
    Impl(TyV, Seq<NamedTyV>),
    ForeignMod(Seq<AttrV>, Seq<char>, Seq<ForeignItemV>),
}

impl View for Item {
    type V = ItemV;

    open spec fn view(&self) -> ItemV {
        match self {
            Item::Alias(name, ty) => ItemV::Alias(name@, ty@),
            Item::Struct(name, fields) => ItemV::Struct(name@, views(fields@)),
            Item::Const(name, ty, value) => ItemV::Const(name@, ty@, *value as int),
            Item::Impl(self_ty, methods) => ItemV::Impl(self_ty@, views(methods@)),
            Item::ForeignMod(attrs, abi, items) => ItemV::ForeignMod(
                views(attrs@),
                abi@,
                views(items@),
            ),
        }
    }
}

/// An import of everything under a path of modules.
#[derive(Debug, PartialEq, Eq)]
pub struct Import {
    pub path: Vec<String>,
}

impl View for Import {
    type V = Seq<Seq<char>>;

    open spec fn view(&self) -> Seq<Seq<char>> {
        views(self.path@)
    }
}

/// The emitted unit: a comment that opens it, its imports, and its items.
#[derive(Debug, PartialEq, Eq)]
pub struct Unit {
    pub comment: String,
    pub imports: Vec<Import>,
    pub items: Vec<Item>,
}

/// The view of a `Unit`.
pub struct UnitV {
    pub comment: Seq<char>,
    pub imports: Seq<Seq<Seq<char>>>,
    pub items: Seq<ItemV>,
}

impl View for Unit {
    type V = UnitV;

    open spec fn view(&self) -> UnitV {
        UnitV { comment: self.comment@, imports: views(self.imports@), items: views(self.items@) }
    }
}

} // verus!
