//! Types and the table that interns them.

use vstd::prelude::*;
use crate::source_file::Location;
use crate::ast::expr::{Expr, ExprView};
use crate::ast::shape::bare_expr;
use crate::text::str_eq;

verus! {

/// A type is known by its index in the type table.
pub type TypeIndex = u32;

/// The number of builtin types, which stand first in every table.
pub const BUILTIN_COUNT: usize = 14;

/// The index of the builtin type `Bool`.
pub const BOOL_TYPE: TypeIndex = 10;

/// The index of the builtin type `UInt64`.
pub const UINT64_TYPE: TypeIndex = 3;

/// The index of the builtin type `Float64`.
pub const FLOAT64_TYPE: TypeIndex = 9;

/// The index of the builtin type `Char`.
pub const CHAR_TYPE: TypeIndex = 11;

/// The index of the builtin type `Unit`.
pub const UNIT_TYPE: TypeIndex = 12;

/// The index of the builtin type `Atom`.
pub const ATOM_TYPE: TypeIndex = 13;

/// One variant of a sum type: its name and the types of its fields.
#[derive(Debug)]
pub enum SumVariant {
    Basic(String, Vec<TypeIndex>),
}

pub ghost enum SumVariantView {
    Basic(Seq<char>, Seq<TypeIndex>),
}

impl SumVariant {
    pub open spec fn view(&self) -> SumVariantView {
        match self {
            SumVariant::Basic(name, fields) => SumVariantView::Basic(name@, fields@),
        }
    }

    /// Structural equality.
    pub fn equals(&self, other: &SumVariant) -> (r: bool)
        ensures
            r == (self.view() == other.view()),
    {
        match (self, other) {
            (SumVariant::Basic(n1, f1), SumVariant::Basic(n2, f2)) => {
                *n1 == *n2 && indices_equal(f1, f2)
            },
        }
    }
}

pub fn indices_equal(a: &Vec<TypeIndex>, b: &Vec<TypeIndex>) -> (r: bool)
    ensures
        r == (a@ == b@),
{
    if a.len() != b.len() {
        return false;
    }
    let mut i: usize = 0;
    while i < a.len()
        invariant
            i <= a.len(),
            a.len() == b.len(),
            forall|j: int| 0 <= j < i ==> a@[j] == b@[j],
        decreases a.len() - i,
    {
        if a[i] != b[i] {
            return false;
        }
        i += 1;
    }
    assert(a@ =~= b@);
    true
}

pub open spec fn variant_views(s: Seq<SumVariant>) -> Seq<SumVariantView> {
    Seq::new(s.len(), |i: int| s[i].view())
}

pub fn variants_equal(a: &Vec<SumVariant>, b: &Vec<SumVariant>) -> (r: bool)
    ensures
        r == (variant_views(a@) == variant_views(b@)),
{
    if a.len() != b.len() {
        assert(variant_views(a@).len() != variant_views(b@).len());
        return false;
    }
    let mut i: usize = 0;
    while i < a.len()
        invariant
            i <= a.len(),
            a.len() == b.len(),
            forall|j: int| 0 <= j < i ==> a@[j].view() == b@[j].view(),
        decreases a.len() - i,
    {
        if !a[i].equals(&b[i]) {
            assert(variant_views(a@)[i as int] != variant_views(b@)[i as int]);
            return false;
        }
        i += 1;
    }
    assert(variant_views(a@) =~= variant_views(b@));
    true
}

/// What a type is.
#[derive(Debug)]
pub enum TypeKind {
    UInt8,
    UInt16,
    UInt32,
    UInt64,
    Int8,
    Int16,
    Int32,
    Int64,
    Float32,
    Float64,
    Bool,
    Char,
    Unit,
    Atom,
    Pointer(TypeIndex),
    /// Element type and the expression that gives the number of elements.
    Array(TypeIndex, Box<Expr>),
    Slice(TypeIndex),
    /// A name for a type, which may not be known yet.
    Alias(String, Option<TypeIndex>),
    Sum(Vec<SumVariant>),
}

/// The mathematical value of a type kind. Two kinds are structurally equal
/// when their views are equal.
pub ghost enum TypeKindView {
    UInt8,
    UInt16,
    UInt32,
    UInt64,
    Int8,
    Int16,
    Int32,
    Int64,
    Float32,
    Float64,
    Bool,
    Char,
    Unit,
    Atom,
    Pointer(TypeIndex),
    /// Element type and the expression that gives the number of elements,
    /// without the places of the patterns in it.
    Array(TypeIndex, ExprView),
    Slice(TypeIndex),
    Alias(Seq<char>, Option<TypeIndex>),
    Sum(Seq<SumVariantView>),
}

/// The size of a pointer in bytes on this machine.
pub open spec fn pointer_size() -> u32 {
    (usize::BITS / 8) as u32
}

/// The builtin type with the given name, if there is one.
pub open spec fn builtin_named(name: Seq<char>) -> Option<TypeKindView> {
    if name == "UInt8"@ {
        Some(TypeKindView::UInt8)
    } else if name == "UInt16"@ {
        Some(TypeKindView::UInt16)
    } else if name == "UInt32"@ {
        Some(TypeKindView::UInt32)
    } else if name == "UInt64"@ {
        Some(TypeKindView::UInt64)
    } else if name == "Int8"@ {
        Some(TypeKindView::Int8)
    } else if name == "Int16"@ {
        Some(TypeKindView::Int16)
    } else if name == "Int32"@ {
        Some(TypeKindView::Int32)
    } else if name == "Int64"@ {
        Some(TypeKindView::Int64)
    } else if name == "Float32"@ {
        Some(TypeKindView::Float32)
    } else if name == "Float64"@ {
        Some(TypeKindView::Float64)
    } else if name == "Bool"@ {
        Some(TypeKindView::Bool)
    } else if name == "Char"@ {
        Some(TypeKindView::Char)
    } else if name == "Unit"@ {
        Some(TypeKindView::Unit)
    } else if name == "Atom"@ {
        Some(TypeKindView::Atom)
    } else {
        None
    }
}

/// The kind of the builtin type at index `i` of every table.
pub open spec fn builtin_kind(i: int) -> TypeKindView {
    if i == 0 {
        TypeKindView::UInt8
    } else if i == 1 {
        TypeKindView::UInt16
    } else if i == 2 {
        TypeKindView::UInt32
    } else if i == 3 {
        TypeKindView::UInt64
    } else if i == 4 {
        TypeKindView::Int8
    } else if i == 5 {
        TypeKindView::Int16
    } else if i == 6 {
        TypeKindView::Int32
    } else if i == 7 {
        TypeKindView::Int64
    } else if i == 8 {
        TypeKindView::Float32
    } else if i == 9 {
        TypeKindView::Float64
    } else if i == 10 {
        TypeKindView::Bool
    } else if i == 11 {
        TypeKindView::Char
    } else if i == 12 {
        TypeKindView::Unit
    } else {
        TypeKindView::Atom
    }
}

/// The type of an integer literal: the first of `Int32`, `UInt32`, `Int64`,
/// `UInt64` that can hold its value.
pub open spec fn literal_kind(value: u64) -> TypeKindView {
    if value <= i32::MAX {
        TypeKindView::Int32
    } else if value <= u32::MAX {
        TypeKindView::UInt32
    } else if value <= i64::MAX {
        TypeKindView::Int64
    } else {
        TypeKindView::UInt64
    }
}

impl TypeKindView {
    /// Whether this is one of the builtin kinds.
    pub open spec fn is_builtin(self) -> bool {
        self.builtin_index() is Some
    }

    /// The index at which every table holds this kind, if it is builtin.
    pub open spec fn builtin_index(self) -> Option<TypeIndex> {
        match self {
            TypeKindView::UInt8 => Some(0u32),
            TypeKindView::UInt16 => Some(1u32),
            TypeKindView::UInt32 => Some(2u32),
            TypeKindView::UInt64 => Some(3u32),
            TypeKindView::Int8 => Some(4u32),
            TypeKindView::Int16 => Some(5u32),
            TypeKindView::Int32 => Some(6u32),
            TypeKindView::Int64 => Some(7u32),
            TypeKindView::Float32 => Some(8u32),
            TypeKindView::Float64 => Some(9u32),
            TypeKindView::Bool => Some(10u32),
            TypeKindView::Char => Some(11u32),
            TypeKindView::Unit => Some(12u32),
            TypeKindView::Atom => Some(13u32),
            _ => None,
        }
    }

    /// The size in bytes of a value of this kind, where the kind alone
    /// decides it.
    pub open spec fn size(self) -> Option<u32> {
        match self {
            TypeKindView::UInt8 => Some(1u32),
            TypeKindView::UInt16 => Some(2u32),
            TypeKindView::UInt32 => Some(4u32),
            TypeKindView::UInt64 => Some(8u32),
            TypeKindView::Int8 => Some(1u32),
            TypeKindView::Int16 => Some(2u32),
            TypeKindView::Int32 => Some(4u32),
            TypeKindView::Int64 => Some(8u32),
            TypeKindView::Float32 => Some(4u32),
            TypeKindView::Float64 => Some(8u32),
            TypeKindView::Bool => Some(1u32),
            TypeKindView::Char => Some(1u32),
            TypeKindView::Unit => Some(0u32),
            TypeKindView::Atom => Some(4u32),
            TypeKindView::Pointer(_) => Some(pointer_size()),
            _ => None,
        }
    }
}

impl TypeKind {
    pub open spec fn view(&self) -> TypeKindView {
        match self {
            TypeKind::UInt8 => TypeKindView::UInt8,
            TypeKind::UInt16 => TypeKindView::UInt16,
            TypeKind::UInt32 => TypeKindView::UInt32,
            TypeKind::UInt64 => TypeKindView::UInt64,
            TypeKind::Int8 => TypeKindView::Int8,
            TypeKind::Int16 => TypeKindView::Int16,
            TypeKind::Int32 => TypeKindView::Int32,
            TypeKind::Int64 => TypeKindView::Int64,
            TypeKind::Float32 => TypeKindView::Float32,
            TypeKind::Float64 => TypeKindView::Float64,
            TypeKind::Bool => TypeKindView::Bool,
            TypeKind::Char => TypeKindView::Char,
            TypeKind::Unit => TypeKindView::Unit,
            TypeKind::Atom => TypeKindView::Atom,
            TypeKind::Pointer(t) => TypeKindView::Pointer(*t),
            TypeKind::Array(t, size) => TypeKindView::Array(*t, bare_expr(size.view())),
            TypeKind::Slice(t) => TypeKindView::Slice(*t),
            TypeKind::Alias(name, target) => TypeKindView::Alias(name@, *target),
            TypeKind::Sum(variants) => TypeKindView::Sum(variant_views(variants@)),
        }
    }

    pub fn try_get_size(&self) -> (r: Option<u32>)
        ensures
            r == self.view().size(),
    {
        match self {
            TypeKind::Unit => Some(0),
            TypeKind::UInt8 | TypeKind::Int8 | TypeKind::Char | TypeKind::Bool => Some(1),
            TypeKind::UInt16 | TypeKind::Int16 => Some(2),
            TypeKind::UInt32 | TypeKind::Int32 | TypeKind::Float32 | TypeKind::Atom => Some(4),
            TypeKind::UInt64 | TypeKind::Int64 | TypeKind::Float64 => Some(8),
            TypeKind::Pointer(_) => Some(usize::BITS / 8),
            _ => None,
        }
    }

    /// The builtin kind with the given name.
    pub fn try_from(value: &str) -> (r: Result<TypeKind, ()>)
        ensures
            match builtin_named(value@) {
                Some(k) => r is Ok && r->Ok_0.view() == k,
                None => r is Err,
            },
    {
        if str_eq(value, "UInt8") {
            Ok(TypeKind::UInt8)
        } else if str_eq(value, "UInt16") {
            Ok(TypeKind::UInt16)
        } else if str_eq(value, "UInt32") {
            Ok(TypeKind::UInt32)
        } else if str_eq(value, "UInt64") {
            Ok(TypeKind::UInt64)
        } else if str_eq(value, "Int8") {
            Ok(TypeKind::Int8)
        } else if str_eq(value, "Int16") {
            Ok(TypeKind::Int16)
        } else if str_eq(value, "Int32") {
            Ok(TypeKind::Int32)
        } else if str_eq(value, "Int64") {
            Ok(TypeKind::Int64)
        } else if str_eq(value, "Float32") {
            Ok(TypeKind::Float32)
        } else if str_eq(value, "Float64") {
            Ok(TypeKind::Float64)
        } else if str_eq(value, "Bool") {
            Ok(TypeKind::Bool)
        } else if str_eq(value, "Char") {
            Ok(TypeKind::Char)
        } else if str_eq(value, "Unit") {
            Ok(TypeKind::Unit)
        } else if str_eq(value, "Atom") {
            Ok(TypeKind::Atom)
        } else {
            Err(())
        }
    }

    /// The kind of an integer literal with the given value.
    pub fn of_literal(value: u64) -> (r: TypeKind)
        ensures
            r.view() == literal_kind(value),
    {
        if value > 0x7fff_ffff_ffff_ffff {
            TypeKind::UInt64
        } else if value > 0xffff_ffff {
            TypeKind::Int64
        } else if value > 0x7fff_ffff {
            TypeKind::UInt32
        } else {
            TypeKind::Int32
        }
    }

    /// Structural equality.
    pub fn equals(&self, other: &TypeKind) -> (r: bool)
        ensures
            r == (self.view() == other.view()),
    {
        match (self, other) {
            (TypeKind::UInt8, TypeKind::UInt8) => true,
            (TypeKind::UInt16, TypeKind::UInt16) => true,
            (TypeKind::UInt32, TypeKind::UInt32) => true,
            (TypeKind::UInt64, TypeKind::UInt64) => true,
            (TypeKind::Int8, TypeKind::Int8) => true,
            (TypeKind::Int16, TypeKind::Int16) => true,
            (TypeKind::Int32, TypeKind::Int32) => true,
            (TypeKind::Int64, TypeKind::Int64) => true,
            (TypeKind::Float32, TypeKind::Float32) => true,
            (TypeKind::Float64, TypeKind::Float64) => true,
            (TypeKind::Bool, TypeKind::Bool) => true,
            (TypeKind::Char, TypeKind::Char) => true,
            (TypeKind::Unit, TypeKind::Unit) => true,
            (TypeKind::Atom, TypeKind::Atom) => true,
            (TypeKind::Pointer(a), TypeKind::Pointer(b)) => *a == *b,
            (TypeKind::Array(a, x), TypeKind::Array(b, y)) => *a == *b && x.equals(y),
            (TypeKind::Slice(a), TypeKind::Slice(b)) => *a == *b,
            (TypeKind::Alias(a, x), TypeKind::Alias(b, y)) => *a == *b && match (x, y) {
                (Some(p), Some(q)) => *p == *q,
                (None, None) => true,
                _ => false,
            },
            (TypeKind::Sum(a), TypeKind::Sum(b)) => variants_equal(a, b),
            _ => false,
        }
    }
}

/// An entry of the type table.
#[derive(Debug)]
pub struct Type {
    /// Where the type was declared; `None` for a builtin type and for an
    /// alias that was used before its declaration.
    pub loc: Option<Location>,
    /// The size in bytes, 0 where the kind does not decide it.
    pub size: u32,
    pub is_builtin: bool,
    pub kind: TypeKind,
}

/// The mathematical value of an entry of the type table.
pub ghost struct TypeView {
    pub loc: Option<Location>,
    pub size: u32,
    pub is_builtin: bool,
    pub kind: TypeKindView,
}

impl TypeView {
    /// The entry of a type that is not builtin: its size is that of its
    /// kind, or 0 where the kind does not decide it.
    pub open spec fn fresh(loc: Option<Location>, kind: TypeKindView) -> TypeView {
        TypeView {
            loc,
            size: match kind.size() {
                Some(s) => s,
                None => 0u32,
            },
            is_builtin: false,
            kind,
        }
    }

    /// The entry of a builtin kind.
    pub open spec fn builtin(kind: TypeKindView) -> TypeView {
        TypeView { loc: None, size: kind.size()->0, is_builtin: true, kind }
    }
}

impl Type {
    pub open spec fn view(&self) -> TypeView {
        TypeView {
            loc: self.loc,
            size: self.size,
            is_builtin: self.is_builtin,
            kind: self.kind.view(),
        }
    }

    pub fn new(loc: Option<Location>, kind: TypeKind) -> (t: Self)
        ensures
            t.view() == TypeView::fresh(loc, kind.view()),
            t.kind == kind,
    {
        let size = match kind.try_get_size() {
            Some(s) => s,
            None => 0,
        };
        Type { loc, size, is_builtin: false, kind }
    }

    /// The table entry of a builtin kind.
    pub fn new_builtin(kind: TypeKind) -> (t: Self)
        requires
            kind.view().size() is Some,
        ensures
            t.view() == TypeView::builtin(kind.view()),
            t.kind == kind,
    {
        let size = match kind.try_get_size() {
            Some(s) => s,
            None => 0,
        };
        Type { loc: None, size, is_builtin: true, kind }
    }

    pub fn location(&self) -> (r: &Option<Location>)
        ensures
            *r == self.loc,
    {
        &self.loc
    }

    pub fn kind(&self) -> (r: &TypeKind)
        ensures
            *r == self.kind,
    {
        &self.kind
    }

    pub fn size(&self) -> (r: u32)
        ensures
            r == self.size,
    {
        self.size
    }

    pub fn is_builtin(&self) -> (r: bool)
        ensures
            r == self.is_builtin,
    {
        self.is_builtin
    }

    pub fn set_location(&mut self, loc: Location)
        ensures
            *final(self) == (Type { loc: Some(loc), ..*old(self) }),
    {
        self.loc = Some(loc);
    }

    pub fn set_kind(&mut self, kind: TypeKind)
        ensures
            *final(self) == (Type { kind, ..*old(self) }),
    {
        self.kind = kind;
    }
}

/// The views of the entries of a table.
pub open spec fn type_views(types: Seq<Type>) -> Seq<TypeView> {
    Seq::new(types.len(), |i: int| types[i].view())
}

/// Whether the entries before `end` hold no kind equal to `kind`.
pub open spec fn no_kind_before(types: Seq<TypeView>, kind: TypeKindView, end: int) -> bool {
    forall|j: int| 0 <= j < end ==> (#[trigger] types[j]).kind != kind
}

/// Whether the entries before `end` hold no alias named `name`.
pub open spec fn no_alias_before(types: Seq<TypeView>, name: Seq<char>, end: int) -> bool {
    forall|j: int| 0 <= j < end ==> !is_alias_named((#[trigger] types[j]).kind, name)
}

/// Whether `kind` is an alias with the given name.
pub open spec fn is_alias_named(kind: TypeKindView, name: Seq<char>) -> bool {
    kind matches TypeKindView::Alias(n, _) && n == name
}

/// The index of the first entry with a kind equal to `kind`.
pub open spec fn index_of_kind(types: Seq<TypeView>, kind: TypeKindView) -> Option<int>
    decreases types.len(),
{
    if types.len() == 0 {
        None
    } else {
        match index_of_kind(types.drop_last(), kind) {
            Some(i) => Some(i),
            None => if types.last().kind == kind {
                Some(types.len() - 1)
            } else {
                None
            },
        }
    }
}

/// The index of the first alias named `name`.
pub open spec fn index_of_alias(types: Seq<TypeView>, name: Seq<char>) -> Option<int>
    decreases types.len(),
{
    if types.len() == 0 {
        None
    } else {
        match index_of_alias(types.drop_last(), name) {
            Some(i) => Some(i),
            None => if is_alias_named(types.last().kind, name) {
                Some(types.len() - 1)
            } else {
                None
            },
        }
    }
}

/// What the index of a kind says of the table.
pub proof fn lemma_index_of_kind(types: Seq<TypeView>, kind: TypeKindView)
    ensures
        match index_of_kind(types, kind) {
            Some(i) => 0 <= i < types.len() && types[i].kind == kind && no_kind_before(
                types,
                kind,
                i,
            ),
            None => no_kind_before(types, kind, types.len() as int),
        },
    decreases types.len(),
{
    if types.len() > 0 {
        let init = types.drop_last();
        lemma_index_of_kind(init, kind);
        match index_of_kind(init, kind) {
            Some(i) => {
                assert(init[i] == types[i]);
                assert forall|j: int| 0 <= j < i implies (#[trigger] types[j]).kind != kind by {
                    assert(init[j] == types[j]);
                }
            },
            None => {
                assert forall|j: int| 0 <= j < types.len() - 1 implies (#[trigger] types[j]).kind
                    != kind by {
                    assert(init[j] == types[j]);
                }
            },
        }
    }
}

/// What the index of an alias says of the table.
pub proof fn lemma_index_of_alias(types: Seq<TypeView>, name: Seq<char>)
    ensures
        match index_of_alias(types, name) {
            Some(i) => 0 <= i < types.len() && is_alias_named(types[i].kind, name)
                && no_alias_before(types, name, i),
            None => no_alias_before(types, name, types.len() as int),
        },
    decreases types.len(),
{
    if types.len() > 0 {
        let init = types.drop_last();
        lemma_index_of_alias(init, name);
        match index_of_alias(init, name) {
            Some(i) => {
                assert(init[i] == types[i]);
                assert forall|j: int| 0 <= j < i implies !is_alias_named(
                    (#[trigger] types[j]).kind,
                    name,
                ) by {
                    assert(init[j] == types[j]);
                }
            },
            None => {
                assert forall|j: int| 0 <= j < types.len() - 1 implies !is_alias_named(
                    (#[trigger] types[j]).kind,
                    name,
                ) by {
                    assert(init[j] == types[j]);
                }
            },
        }
    }
}

/// The first entry with a kind is the index of that kind.
pub proof fn lemma_first_kind(types: Seq<TypeView>, kind: TypeKindView, i: int)
    requires
        0 <= i < types.len(),
        types[i].kind == kind,
        no_kind_before(types, kind, i),
    ensures
        index_of_kind(types, kind) == Some(i),
{
    lemma_index_of_kind(types, kind);
    match index_of_kind(types, kind) {
        Some(k) => {
            if k < i {
                assert(types[k].kind != kind);
            }
            if i < k {
                assert(types[i].kind != kind);
            }
        },
        None => {
            assert(types[i].kind != kind);
        },
    }
}

/// The first alias of a name is the index of that name.
pub proof fn lemma_first_alias(types: Seq<TypeView>, name: Seq<char>, i: int)
    requires
        0 <= i < types.len(),
        is_alias_named(types[i].kind, name),
        no_alias_before(types, name, i),
    ensures
        index_of_alias(types, name) == Some(i),
{
    lemma_index_of_alias(types, name);
    match index_of_alias(types, name) {
        Some(k) => {
            if k < i {
                assert(!is_alias_named(types[k].kind, name));
            }
            if i < k {
                assert(!is_alias_named(types[i].kind, name));
            }
        },
        None => {
            assert(!is_alias_named(types[i].kind, name));
        },
    }
}

/// The invariant of a type table, stated of its entries: the builtin types
/// stand first; every index fits a `TypeIndex`; no two entries have equal
/// kinds; no two aliases have the same name.
pub open spec fn table_wf(types: Seq<TypeView>) -> bool {
    &&& BUILTIN_COUNT <= types.len() <= u32::MAX
    &&& forall|i: int|
        0 <= i < BUILTIN_COUNT ==> (#[trigger] types[i]) == TypeView::builtin(builtin_kind(i))
    &&& forall|i: int, j: int|
        0 <= i < j < types.len() ==> (#[trigger] types[i]).kind != (#[trigger] types[j]).kind
    &&& forall|i: int, j: int|
        0 <= i < j < types.len() ==> !((#[trigger] types[i]).kind matches TypeKindView::Alias(a, _)
            && (#[trigger] types[j]).kind matches TypeKindView::Alias(b, _) && a == b)
}

/// Whether `kind` may be appended to the table: the table has no entry
/// with an equal kind and, for an alias, none with its name.
pub open spec fn admits(types: Seq<TypeView>, kind: TypeKindView) -> bool {
    &&& index_of_kind(types, kind) is None
    &&& kind matches TypeKindView::Alias(name, _) ==> index_of_alias(types, name) is None
}

/// The table after `kind` was looked up and, where it was missing,
/// appended without a location.
pub open spec fn interned(types: Seq<TypeView>, kind: TypeKindView) -> Seq<TypeView> {
    if index_of_kind(types, kind) is Some {
        types
    } else {
        types.push(TypeView::fresh(None, kind))
    }
}

/// The index at which `interned` holds `kind`.
pub open spec fn interned_index(types: Seq<TypeView>, kind: TypeKindView) -> int {
    match index_of_kind(types, kind) {
        Some(i) => i,
        None => types.len() as int,
    }
}

/// Why an alias could not be declared.
#[derive(Clone, Copy, Debug, PartialEq, Eq, Structural)]
pub enum AliasError {
    /// The alias was declared before, at the given place.
    Redefined(Location),
    /// The table cannot take another entry.
    TableFull,
}

/// The index that a type identifier resolves to: that of the builtin type of
/// that name, else that of the alias of that name, else that of a new
/// placeholder at the end of the table.
pub open spec fn resolved_index(types: Seq<TypeView>, name: Seq<char>) -> int {
    match builtin_named(name) {
        Some(k) => k.builtin_index()->0 as int,
        None => match index_of_alias(types, name) {
            Some(i) => i,
            None => types.len() as int,
        },
    }
}

/// The table after the identifier `name` was resolved: unchanged where the
/// name was known, else with a placeholder for it, an alias without target
/// or location.
pub open spec fn resolved(types: Seq<TypeView>, name: Seq<char>) -> Seq<TypeView> {
    if builtin_named(name) is Some || index_of_alias(types, name) is Some {
        types
    } else {
        types.push(TypeView::fresh(None, TypeKindView::Alias(name, None)))
    }
}

/// What comes of declaring the alias `name` in `types`.
pub open spec fn declare_outcome(types: Seq<TypeView>, name: Seq<char>) -> Result<(), AliasError> {
    match index_of_alias(types, name) {
        Some(i) => match types[i].loc {
            Some(first) => Err(AliasError::Redefined(first)),
            None => Ok(()),
        },
        None => if types.len() < u32::MAX {
            Ok(())
        } else {
            Err(AliasError::TableFull)
        },
    }
}

/// The table after the declaration `type name = target` at `loc`: a
/// placeholder of that name is filled in, an alias that has a location
/// stays as it is, and an unknown name is appended.
pub open spec fn declared(types: Seq<TypeView>, name: Seq<char>, loc: Location, target: TypeIndex) -> Seq<
    TypeView,
> {
    match declare_outcome(types, name) {
        Ok(_) => match index_of_alias(types, name) {
            Some(i) => types.update(
                i,
                TypeView { loc: Some(loc), kind: TypeKindView::Alias(name, Some(target)), ..types[i] },
            ),
            None => types.push(
                TypeView::fresh(Some(loc), TypeKindView::Alias(name, Some(target))),
            ),
        },
        Err(_) => types,
    }
}

/// Whether the table `after` has come from the table `before` by what a
/// table allows: entries are appended; an entry that is there stays as it
/// is, but for an alias without location, which may get a target and a
/// location.
pub open spec fn grown(before: Seq<TypeView>, after: Seq<TypeView>) -> bool {
    &&& before.len() <= after.len()
    &&& forall|i: int|
        0 <= i < before.len() ==> (#[trigger] after[i]) == before[i] || filled(before[i], after[i])
}

/// Whether `after` is the alias `before`, which had no location, with a
/// location and a target.
pub open spec fn filled(before: TypeView, after: TypeView) -> bool {
    &&& before.loc is None
    &&& after.loc is Some
    &&& before.kind matches TypeKindView::Alias(a, _) && after.kind matches TypeKindView::Alias(b, _)
        && a == b
}

/// A table that has grown out of a table that has grown out of a third has
/// grown out of the third.
pub proof fn lemma_grown_twice(first: Seq<TypeView>, second: Seq<TypeView>, third: Seq<TypeView>)
    requires
        grown(first, second),
        grown(second, third),
    ensures
        grown(first, third),
{
    assert forall|i: int| 0 <= i < first.len() implies (#[trigger] third[i]) == first[i] || filled(
        first[i],
        third[i],
    ) by {
        assert(second[i] == first[i] || filled(first[i], second[i]));
        assert(third[i] == second[i] || filled(second[i], third[i]));
    }
}

/// A table that has grown, and then got entries at its end or grown
/// again, has grown.
pub proof fn lemma_grown_on(first: Seq<TypeView>, second: Seq<TypeView>, third: Seq<TypeView>)
    requires
        grown(first, second),
        second.is_prefix_of(third) || grown(second, third),
    ensures
        grown(first, third),
{
    assert(grown(second, third)) by {
        if second.is_prefix_of(third) {
            assert forall|i: int| 0 <= i < second.len() implies (#[trigger] third[i]) == second[i] by {}
        }
    }
    lemma_grown_twice(first, second, third);
}

/// An alias stands where it stood, and as it stood, in a table that has
/// got entries at its end.
pub proof fn lemma_alias_kept(before: Seq<TypeView>, after: Seq<TypeView>, name: Seq<char>, i: int)
    requires
        before.is_prefix_of(after),
        index_of_alias(before, name) == Some(i),
    ensures
        0 <= i < before.len(),
        index_of_alias(after, name) == Some(i),
        after[i] == before[i],
{
    lemma_index_of_alias(before, name);
    assert(after[i] == before[i]);
    assert(no_alias_before(after, name, i)) by {
        assert forall|j: int| 0 <= j < i implies !is_alias_named((#[trigger] after[j]).kind, name) by {
            assert(after[j] == before[j]);
        }
    }
    lemma_first_alias(after, name, i);
}

/// Every step of a table lets it grow.
pub proof fn lemma_steps_grow(
    types: Seq<TypeView>,
    kind: TypeKindView,
    name: Seq<char>,
    loc: Location,
    target: TypeIndex,
)
    ensures
        grown(types, types),
        grown(types, interned(types, kind)),
        grown(types, resolved(types, name)),
        grown(types, declared(types, name, loc, target)),
        types.is_prefix_of(interned(types, kind)),
        types.is_prefix_of(resolved(types, name)),
{
    lemma_index_of_alias(types, name);
}

/// An alias never stands among the builtin types.
pub proof fn lemma_alias_not_builtin(types: Seq<TypeView>, i: int)
    requires
        table_wf(types),
        0 <= i < types.len(),
        types[i].kind is Alias,
    ensures
        i >= BUILTIN_COUNT,
{
    if i < BUILTIN_COUNT {
        assert(types[i] == TypeView::builtin(builtin_kind(i)));
    }
}

/// In a well-formed table each builtin kind stands at its own index.
pub proof fn lemma_builtin_found(types: Seq<TypeView>, kind: TypeKindView)
    requires
        table_wf(types),
        kind.is_builtin(),
    ensures
        index_of_kind(types, kind) == Some(kind.builtin_index()->0 as int),
        types[kind.builtin_index()->0 as int].kind == kind,
{
    let i = kind.builtin_index()->0 as int;
    assert(types[i] == TypeView::builtin(builtin_kind(i)));
    assert(builtin_kind(i) == kind);
    assert forall|j: int| 0 <= j < i implies (#[trigger] types[j]).kind != kind by {
        assert(types[j] == TypeView::builtin(builtin_kind(j)));
    }
    lemma_first_kind(types, kind, i);
}

/// Appending a kind that the table admits keeps the table well-formed.
pub proof fn lemma_push_keeps_wf(types: Seq<TypeView>, entry: TypeView)
    requires
        table_wf(types),
        types.len() < u32::MAX,
        admits(types, entry.kind),
    ensures
        table_wf(types.push(entry)),
{
    lemma_index_of_kind(types, entry.kind);
    let after = types.push(entry);
    assert forall|i: int| 0 <= i < BUILTIN_COUNT implies (#[trigger] after[i]) == TypeView::builtin(
        builtin_kind(i),
    ) by {
        assert(after[i] == types[i]);
    }
    assert forall|i: int, j: int| 0 <= i < j < after.len() implies (#[trigger] after[i]).kind != (
    #[trigger] after[j]).kind by {
        if j < types.len() {
            assert(types[i].kind != types[j].kind);
        } else {
            assert(types[i].kind != entry.kind);
        }
    }
    assert forall|i: int, j: int| 0 <= i < j < after.len() implies !((
    #[trigger] after[i]).kind matches TypeKindView::Alias(a, _) && (
    #[trigger] after[j]).kind matches TypeKindView::Alias(b, _) && a == b) by {
        if j < types.len() {
            assert(!(types[i].kind matches TypeKindView::Alias(a, _)
                && types[j].kind matches TypeKindView::Alias(b, _) && a == b));
        } else {
            match entry.kind {
                TypeKindView::Alias(name, _) => {
                    lemma_index_of_alias(types, name);
                    assert(!is_alias_named(types[i].kind, name));
                },
                _ => {},
            }
        }
    }
}

/// Giving an alias a target and a location keeps the table well-formed.
pub proof fn lemma_fill_keeps_wf(types: Seq<TypeView>, i: int, filled: TypeView)
    requires
        table_wf(types),
        0 <= i < types.len(),
        types[i].kind matches TypeKindView::Alias(a, _) && filled.kind matches TypeKindView::Alias(
            b,
            _,
        ) && a == b,
    ensures
        table_wf(types.update(i, filled)),
{
    lemma_alias_not_builtin(types, i);
    let after = types.update(i, filled);
    assert forall|k: int| 0 <= k < BUILTIN_COUNT implies (#[trigger] after[k]) == TypeView::builtin(
        builtin_kind(k),
    ) by {
        assert(after[k] == types[k]);
    }
    assert forall|x: int, y: int| 0 <= x < y < after.len() implies (#[trigger] after[x]).kind != (
    #[trigger] after[y]).kind by {
        assert(types[x].kind != types[y].kind);
        assert(!(types[x].kind matches TypeKindView::Alias(a, _)
            && types[y].kind matches TypeKindView::Alias(b, _) && a == b));
    }
    assert forall|x: int, y: int| 0 <= x < y < after.len() implies !((
    #[trigger] after[x]).kind matches TypeKindView::Alias(a, _) && (
    #[trigger] after[y]).kind matches TypeKindView::Alias(b, _) && a == b) by {
        assert(!(types[x].kind matches TypeKindView::Alias(a, _)
            && types[y].kind matches TypeKindView::Alias(b, _) && a == b));
    }
}

/// The table of types. The builtin types stand first, each at its fixed
/// index; other types are appended as they first occur.
#[derive(Debug)]
pub struct TypeList {
    pub types: Vec<Type>,
}

impl TypeList {
    /// The entries of the table, by index.
    pub open spec fn view(&self) -> Seq<TypeView> {
        type_views(self.types@)
    }

    /// The builtin types stand first; every index fits a `TypeIndex`; no two
    /// entries have equal kinds; no two aliases have the same name.
    pub open spec fn wf(&self) -> bool {
        table_wf(self@)
    }

    /// The index of the builtin type named `ident`.
    pub fn builtin_by_ident(&self, ident: &str) -> (r: Option<TypeIndex>)
        requires
            self.wf(),
        ensures
            r == (match builtin_named(ident@) {
                Some(k) => k.builtin_index(),
                None => None,
            }),
    {
        match TypeKind::try_from(ident) {
            Ok(kind) => {
                proof {
                    lemma_builtin_found(self@, kind.view());
                }
                self.by_kind(&kind)
            },
            Err(_) => None,
        }
    }

    /// The index of the alias named `ident`, whether or not its target is
    /// known yet.
    pub fn find_alias(&self, ident: &str) -> (r: Option<TypeIndex>)
        requires
            self@.len() <= u32::MAX,
        ensures
            match r {
                Some(i) => index_of_alias(self@, ident@) == Some(i as int),
                None => index_of_alias(self@, ident@) is None,
            },
    {
        let mut i: usize = 0;
        while i < self.types.len()
            invariant
                i <= self.types@.len(),
                self@.len() <= u32::MAX,
                no_alias_before(self@, ident@, i as int),
            decreases self.types@.len() - i,
        {
            let found = match &self.types[i].kind {
                TypeKind::Alias(alias, _) => str_eq(alias.as_str(), ident),
                _ => false,
            };
            if found {
                proof {
                    lemma_first_alias(self@, ident@, i as int);
                }
                return Some(i as u32);
            }
            i += 1;
        }
        proof {
            lemma_index_of_alias(self@, ident@);
        }
        None
    }

    /// The index of the entry whose kind is structurally equal to `kind`.
    pub fn by_kind(&self, kind: &TypeKind) -> (r: Option<TypeIndex>)
        requires
            self@.len() <= u32::MAX,
        ensures
            match r {
                Some(i) => index_of_kind(self@, kind.view()) == Some(i as int),
                None => index_of_kind(self@, kind.view()) is None,
            },
    {
        let mut i: usize = 0;
        while i < self.types.len()
            invariant
                i <= self.types@.len(),
                self@.len() <= u32::MAX,
                no_kind_before(self@, kind.view(), i as int),
            decreases self.types@.len() - i,
        {
            if self.types[i].kind.equals(kind) {
                proof {
                    lemma_first_kind(self@, kind.view(), i as int);
                }
                return Some(i as u32);
            }
            i += 1;
        }
        proof {
            lemma_index_of_kind(self@, kind.view());
        }
        None
    }

    /// Appends `typ`, whatever the table holds, and returns its index. The
    /// table stays well-formed where the caller has looked the kind up
    /// before and not found it.
    pub fn define(&mut self, typ: Type) -> (r: TypeIndex)
        requires
            old(self)@.len() < u32::MAX,
        ensures
            final(self)@ == old(self)@.push(typ.view()),
            r == old(self)@.len(),
            old(self).wf() && admits(old(self)@, typ.kind.view()) ==> final(self).wf(),
    {
        proof {
            if self.wf() && admits(self@, typ.kind.view()) {
                lemma_push_keeps_wf(self@, typ.view());
            }
        }
        self.types.push(typ);
        assert(self@ =~= old(self)@.push(typ.view()));
        (self.types.len() - 1) as u32
    }

    /// The entry at `index`, to be changed in place.
    pub fn get_mut(&mut self, index: TypeIndex) -> (r: Option<&mut Type>)
        ensures
            index < old(self)@.len() ==> r is Some && *r->0 == old(self).types@[index as int]
                && final(self).types@ == old(self).types@.update(index as int, *final(r->0))
                && final(self)@ == old(self)@.update(index as int, final(r->0).view()),
            index >= old(self)@.len() ==> r is None && final(self).types@ == old(self).types@,
    {
        if (index as usize) < self.types.len() {
            proof {
                let before = self.types@;
                assert forall|entry: Type|
                    type_views(before.update(index as int, entry)) == #[trigger] type_views(
                        before,
                    ).update(index as int, entry.view()) by {
                    assert(type_views(before.update(index as int, entry)) =~= type_views(
                        before,
                    ).update(index as int, entry.view()));
                }
            }
            Some(&mut self.types[index as usize])
        } else {
            None
        }
    }

    /// The entry at `index`.
    pub fn get(&self, index: TypeIndex) -> (r: Option<&Type>)
        ensures
            index < self@.len() ==> r == Some(&self.types@[index as int]) && r->0.view()
                == self@[index as int],
            index >= self@.len() ==> r is None,
    {
        if (index as usize) < self.types.len() {
            Some(&self.types[index as usize])
        } else {
            None
        }
    }

    pub fn len(&self) -> (r: usize)
        ensures
            r == self@.len(),
    {
        self.types.len()
    }

    /// The index of `kind`, which is appended if the table does not hold it
    /// yet. `None`, and no change, when the kind is missing and the table
    /// is full.
    pub fn intern(&mut self, kind: TypeKind) -> (r: Option<TypeIndex>)
        requires
            old(self).wf(),
            !(kind is Alias),
        ensures
            final(self).wf(),
            match r {
                Some(i) => final(self)@ == interned(old(self)@, kind.view()) && i
                    == interned_index(old(self)@, kind.view()),
                None => final(self)@ == old(self)@ && index_of_kind(old(self)@, kind.view())
                    is None && old(self)@.len() == u32::MAX,
            },
    {
        if let Some(i) = self.by_kind(&kind) {
            return Some(i);
        }
        if self.types.len() >= 0xffff_ffff {
            return None;
        }
        Some(self.define(Type::new(None, kind)))
    }

    /// The index of a builtin kind.
    pub fn builtin(&self, kind: &TypeKind) -> (r: TypeIndex)
        requires
            self.wf(),
            kind.view().is_builtin(),
        ensures
            Some(r) == kind.view().builtin_index(),
            r < BUILTIN_COUNT,
    {
        proof {
            lemma_builtin_found(self@, kind.view());
        }
        match self.by_kind(kind) {
            Some(i) => i,
            None => 0,
        }
    }

    /// Resolves a type identifier: a builtin name gives the builtin index, a
    /// known alias its index, and an unknown name a new placeholder.
    /// `None`, and no change, when a placeholder is needed and the table is
    /// full.
    pub fn resolve(&mut self, ident: String) -> (r: Option<TypeIndex>)
        requires
            old(self).wf(),
        ensures
            final(self).wf(),
            match r {
                Some(i) => final(self)@ == resolved(old(self)@, ident@) && i == resolved_index(
                    old(self)@,
                    ident@,
                ),
                None => final(self)@ == old(self)@ && builtin_named(ident@) is None
                    && index_of_alias(old(self)@, ident@) is None && old(self)@.len() == u32::MAX,
            },
    {
        if let Some(i) = self.builtin_by_ident(ident.as_str()) {
            return Some(i);
        }
        if let Some(i) = self.find_alias(ident.as_str()) {
            return Some(i);
        }
        if self.types.len() >= 0xffff_ffff {
            return None;
        }
        proof {
            lemma_index_of_alias(self@, ident@);
            lemma_index_of_kind(self@, TypeKindView::Alias(ident@, None));
            match index_of_kind(self@, TypeKindView::Alias(ident@, None)) {
                Some(k) => {
                    assert(is_alias_named(self@[k].kind, ident@));
                },
                None => {},
            }
        }
        Some(self.define(Type::new(None, TypeKind::Alias(ident, None))))
    }

    /// Declares `type alias = target` at `loc`.
    pub fn declare_alias(&mut self, alias: String, loc: Location, target: TypeIndex) -> (r: Result<
        (),
        AliasError,
    >)
        requires
            old(self).wf(),
        ensures
            final(self).wf(),
            r == declare_outcome(old(self)@, alias@),
            final(self)@ == declared(old(self)@, alias@, loc, target),
    {
        proof {
            lemma_index_of_alias(self@, alias@);
        }
        match self.find_alias(alias.as_str()) {
            Some(id) => {
                let existing_loc = self.types[id as usize].loc;
                match existing_loc {
                    Some(first) => Err(AliasError::Redefined(first)),
                    None => {
                        let ghost before = self@;
                        match self.get_mut(id) {
                            Some(existing) => {
                                existing.set_location(loc);
                                existing.set_kind(TypeKind::Alias(alias, Some(target)));
                            },
                            None => {},
                        }
                        proof {
                            lemma_fill_keeps_wf(before, id as int, self@[id as int]);
                        }
                        Ok(())
                    },
                }
            },
            None => {
                if self.types.len() >= 0xffff_ffff {
                    return Err(AliasError::TableFull);
                }
                proof {
                    let kind = TypeKindView::Alias(alias@, Some(target));
                    lemma_index_of_kind(self@, kind);
                    match index_of_kind(self@, kind) {
                        Some(k) => {
                            assert(is_alias_named(self@[k].kind, alias@));
                        },
                        None => {},
                    }
                }
                self.define(Type::new(Some(loc), TypeKind::Alias(alias, Some(target))));
                Ok(())
            },
        }
    }
}

impl Default for TypeList {
    /// The table that holds the builtin types and nothing else.
    fn default() -> (r: Self)
        ensures
            r.wf(),
            r@.len() == BUILTIN_COUNT,
    {
        let mut types: Vec<Type> = Vec::new();
        types.push(Type::new_builtin(TypeKind::UInt8));
        types.push(Type::new_builtin(TypeKind::UInt16));
        types.push(Type::new_builtin(TypeKind::UInt32));
        types.push(Type::new_builtin(TypeKind::UInt64));
        types.push(Type::new_builtin(TypeKind::Int8));
        types.push(Type::new_builtin(TypeKind::Int16));
        types.push(Type::new_builtin(TypeKind::Int32));
        types.push(Type::new_builtin(TypeKind::Int64));
        types.push(Type::new_builtin(TypeKind::Float32));
        types.push(Type::new_builtin(TypeKind::Float64));
        types.push(Type::new_builtin(TypeKind::Bool));
        types.push(Type::new_builtin(TypeKind::Char));
        types.push(Type::new_builtin(TypeKind::Unit));
        types.push(Type::new_builtin(TypeKind::Atom));
        let r = TypeList { types };
        assert forall|i: int| 0 <= i < BUILTIN_COUNT implies (#[trigger] r@[i]) == TypeView::builtin(
            builtin_kind(i),
        ) by {
            assert(r@[i] == r.types@[i].view());
        }
        assert forall|i: int, j: int| 0 <= i < j < r@.len() implies (#[trigger] r@[i]).kind != (
        #[trigger] r@[j]).kind by {
            assert(r@[i].kind == builtin_kind(i));
            assert(r@[j].kind == builtin_kind(j));
        }
        r
    }
}

/// A name that is used as a type before its declaration resolves to a
/// placeholder; the declaration that follows fills the placeholder in
/// without error and keeps its index; a second declaration of the name is
/// refused and cites the place of the first.
pub proof fn law_alias_forward_and_redefinition(
    types: Seq<TypeView>,
    name: Seq<char>,
    first: Location,
    first_target: TypeIndex,
    second: Location,
    second_target: TypeIndex,
)
    requires
        table_wf(types),
        types.len() < u32::MAX,
        builtin_named(name) is None,
        index_of_alias(types, name) is None,
    ensures
        ({
            let i = resolved_index(types, name);
            let used = resolved(types, name);
            let once = declared(used, name, first, first_target);
            let twice = declared(once, name, second, second_target);
            &&& i == types.len()
            &&& used[i].kind == TypeKindView::Alias(name, None)
            &&& used[i].loc is None
            &&& declare_outcome(used, name) is Ok
            &&& once.len() == used.len()
            &&& once[i].kind == TypeKindView::Alias(name, Some(first_target))
            &&& once[i].loc == Some(first)
            &&& declare_outcome(once, name) == Err::<(), AliasError>(AliasError::Redefined(first))
            &&& twice == once
        }),
{
    let i = types.len() as int;
    let used = resolved(types, name);
    lemma_index_of_alias(types, name);
    assert(no_alias_before(used, name, i)) by {
        assert forall|j: int| 0 <= j < i implies !is_alias_named((#[trigger] used[j]).kind, name) by {
            assert(used[j] == types[j]);
        }
    }
    lemma_first_alias(used, name, i);
    let once = declared(used, name, first, first_target);
    assert(no_alias_before(once, name, i)) by {
        assert forall|j: int| 0 <= j < i implies !is_alias_named((#[trigger] once[j]).kind, name) by {
            assert(once[j] == used[j]);
        }
    }
    lemma_first_alias(once, name, i);
}

/// Two names may stand for one type: each alias is an entry of its own.
pub proof fn law_aliases_are_kept_by_name(
    types: Seq<TypeView>,
    first: Seq<char>,
    second: Seq<char>,
    loc: Location,
    target: TypeIndex,
)
    requires
        table_wf(types),
        types.len() + 1 < u32::MAX,
        first != second,
        index_of_alias(types, first) is None,
        index_of_alias(types, second) is None,
    ensures
        ({
            let one = declared(types, first, loc, target);
            let two = declared(one, second, loc, target);
            &&& two.len() == types.len() + 2
            &&& index_of_alias(two, first) == Some(types.len() as int)
            &&& index_of_alias(two, second) == Some(types.len() as int + 1)
        }),
{
    let n = types.len() as int;
    let one = declared(types, first, loc, target);
    lemma_index_of_alias(types, first);
    lemma_index_of_alias(types, second);
    assert(no_alias_before(one, second, n + 1)) by {
        assert forall|j: int| 0 <= j < n + 1 implies !is_alias_named((#[trigger] one[j]).kind, second) by {
            if j < n {
                assert(one[j] == types[j]);
            }
        }
    }
    lemma_index_of_alias(one, second);
    let two = declared(one, second, loc, target);
    assert(no_alias_before(two, first, n)) by {
        assert forall|j: int| 0 <= j < n implies !is_alias_named((#[trigger] two[j]).kind, first) by {
            assert(two[j] == types[j]);
        }
    }
    lemma_first_alias(two, first, n);
    assert(no_alias_before(two, second, n + 1)) by {
        assert forall|j: int| 0 <= j < n + 1 implies !is_alias_named((#[trigger] two[j]).kind, second) by {
            assert(two[j] == one[j]);
        }
    }
    lemma_first_alias(two, second, n + 1);
}

/// To look a kind up a second time changes nothing: the table stays as
/// the first lookup left it, and the index is the same. Which entries a
/// table holds does thus not depend on how often a type occurs.
pub proof fn law_interning_is_idempotent(types: Seq<TypeView>, kind: TypeKindView)
    ensures
        interned(interned(types, kind), kind) == interned(types, kind),
        interned_index(interned(types, kind), kind) == interned_index(types, kind),
        index_of_kind(interned(types, kind), kind) == Some(interned_index(types, kind)),
{
    lemma_index_of_kind(types, kind);
    if index_of_kind(types, kind) is None {
        let once = interned(types, kind);
        assert(once.drop_last() =~= types);
        assert(no_kind_before(once, kind, types.len() as int)) by {
            assert forall|j: int| 0 <= j < types.len() implies (#[trigger] once[j]).kind != kind by {
                assert(once[j] == types[j]);
            }
        }
        lemma_first_kind(once, kind, types.len() as int);
    }
}

/// Where a kind stands in a table with one more entry.
pub proof fn lemma_index_after_entry(types: Seq<TypeView>, entry: TypeView, kind: TypeKindView)
    ensures
        index_of_kind(types.push(entry), kind) == (match index_of_kind(types, kind) {
            Some(i) => Some(i),
            None => if entry.kind == kind {
                Some(types.len() as int)
            } else {
                None
            },
        }),
{
    assert(types.push(entry).drop_last() =~= types);
}

/// The order in which two kinds are looked up does not change which
/// entries the table holds in the end, only where they stand.
pub proof fn law_interning_commutes(types: Seq<TypeView>, a: TypeKindView, b: TypeKindView)
    ensures
        interned(interned(types, a), b).to_set() == interned(interned(types, b), a).to_set(),
{
    let fresh_a = TypeView::fresh(None, a);
    let fresh_b = TypeView::fresh(None, b);
    lemma_index_after_entry(types, fresh_a, b);
    lemma_index_after_entry(types, fresh_b, a);
    types.lemma_push_to_set_commute(fresh_a);
    types.lemma_push_to_set_commute(fresh_b);
    types.push(fresh_a).lemma_push_to_set_commute(fresh_b);
    types.push(fresh_b).lemma_push_to_set_commute(fresh_a);
    assert(interned(interned(types, a), b).to_set() =~= interned(interned(types, b), a).to_set());
}

} // verus!
