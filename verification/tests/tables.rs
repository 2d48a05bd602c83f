use bcpl_frontend::ast::expr::{Expr, ExprKind};
use bcpl_frontend::ast::types::{AliasError, Type, TypeKind, TypeList};
use bcpl_frontend::ast::{Decl, Function, FunctionBody, Param, Program, Section};
use bcpl_frontend::ast::pattern::Pattern;
use bcpl_frontend::source_file::{Located, Location};

fn at(line: u32, column: u32) -> Location {
    Location { source_file_id: 0, line, column, width: 1 }
}

fn lit(value: u64, typ: u32) -> Expr {
    Expr::new(at(1, 0), Some(typ), ExprKind::IntLit(value))
}

#[test]
fn builtin_types_have_fixed_indices() {
    let table = TypeList::default();
    assert_eq!(table.len(), 14);
    let names = [
        "UInt8", "UInt16", "UInt32", "UInt64", "Int8", "Int16", "Int32", "Int64", "Float32",
        "Float64", "Bool", "Char", "Unit", "Atom",
    ];
    for (i, name) in names.iter().enumerate() {
        assert_eq!(table.builtin_by_ident(name), Some(i as u32));
    }
    assert_eq!(table.builtin_by_ident("int32"), None);
    assert_eq!(table.by_kind(&TypeKind::Int32), Some(6));
    assert_eq!(table.by_kind(&TypeKind::Pointer(6)), None);
    assert!(table.get(0).unwrap().is_builtin());
    assert_eq!(table.get(3).unwrap().size(), 8);
    assert!(table.get(14).is_none());
}

#[test]
fn sizes_of_kinds() {
    assert_eq!(TypeKind::Unit.try_get_size(), Some(0));
    assert_eq!(TypeKind::Bool.try_get_size(), Some(1));
    assert_eq!(TypeKind::Int16.try_get_size(), Some(2));
    assert_eq!(TypeKind::Atom.try_get_size(), Some(4));
    assert_eq!(TypeKind::Float64.try_get_size(), Some(8));
    assert_eq!(TypeKind::Pointer(0).try_get_size(), Some(usize::BITS / 8));
    assert_eq!(TypeKind::Slice(0).try_get_size(), None);
    assert_eq!(TypeKind::Alias("T".to_string(), None).try_get_size(), None);
}

#[test]
fn interning_appends_once() {
    let mut table = TypeList::default();
    assert_eq!(table.intern(TypeKind::Pointer(6)), Some(14));
    assert_eq!(table.intern(TypeKind::Slice(6)), Some(15));
    assert_eq!(table.intern(TypeKind::Pointer(6)), Some(14));
    assert_eq!(table.intern(TypeKind::Bool), Some(10));
    assert_eq!(table.len(), 16);
    assert!(table.get(14).unwrap().location().is_none());
    assert_eq!(table.get(14).unwrap().size(), usize::BITS / 8);
}

#[test]
fn order_of_interning_changes_places_only() {
    let mut one = TypeList::default();
    let mut other = TypeList::default();
    assert_eq!(one.intern(TypeKind::Pointer(6)), Some(14));
    assert_eq!(one.intern(TypeKind::Slice(6)), Some(15));
    assert_eq!(other.intern(TypeKind::Slice(6)), Some(14));
    assert_eq!(other.intern(TypeKind::Pointer(6)), Some(15));
    assert_eq!(one.len(), other.len());
    assert_eq!(one.by_kind(&TypeKind::Pointer(6)), Some(14));
    assert_eq!(other.by_kind(&TypeKind::Pointer(6)), Some(15));
    assert_eq!(one.by_kind(&TypeKind::Slice(6)), Some(15));
    assert_eq!(other.by_kind(&TypeKind::Slice(6)), Some(14));
}

#[test]
fn arrays_are_equal_when_their_sizes_are_the_same_expression() {
    let mut table = TypeList::default();
    let a = table.intern(TypeKind::Array(6, Box::new(lit(4, 3)))).unwrap();
    let same = table.intern(TypeKind::Array(6, Box::new(lit(4, 3)))).unwrap();
    let other = table.intern(TypeKind::Array(6, Box::new(lit(5, 3)))).unwrap();
    assert_eq!(a, same);
    assert_ne!(a, other);
    assert_eq!(table.len(), 16);
}

#[test]
fn define_returns_the_new_index() {
    let mut table = TypeList::default();
    let index = table.define(Type::new(Some(at(3, 0)), TypeKind::Pointer(0)));
    assert_eq!(index, 14);
    assert_eq!(table.by_kind(&TypeKind::Pointer(0)), Some(14));
    assert_eq!(*table.get(14).unwrap().location(), Some(at(3, 0)));
    // It appends without looking: the same kind once more is one more
    // entry.
    let again = table.define(Type::new(None, TypeKind::Pointer(0)));
    assert_eq!(again, 15);
    assert_eq!(table.len(), 16);
    assert_eq!(table.by_kind(&TypeKind::Pointer(0)), Some(14));
}

#[test]
fn alias_used_before_its_declaration_is_filled_in() {
    let mut table = TypeList::default();
    let placeholder = table.resolve("Celsius".to_string()).unwrap();
    assert_eq!(placeholder, 14);
    assert_eq!(table.find_alias("Celsius"), Some(14));
    assert!(table.get(14).unwrap().location().is_none());
    assert!(matches!(table.get(14).unwrap().kind(), TypeKind::Alias(n, None) if n == "Celsius"));
    // Using the name again gives the same entry.
    assert_eq!(table.resolve("Celsius".to_string()), Some(14));

    assert_eq!(table.declare_alias("Celsius".to_string(), at(2, 5), 9), Ok(()));
    assert_eq!(table.len(), 15);
    assert_eq!(*table.get(14).unwrap().location(), Some(at(2, 5)));
    assert!(matches!(table.get(14).unwrap().kind(), TypeKind::Alias(n, Some(9)) if n == "Celsius"));
}

#[test]
fn second_declaration_of_an_alias_cites_the_first() {
    let mut table = TypeList::default();
    assert_eq!(table.declare_alias("T".to_string(), at(1, 5), 6), Ok(()));
    assert_eq!(
        table.declare_alias("T".to_string(), at(7, 5), 7),
        Err(AliasError::Redefined(at(1, 5)))
    );
    assert!(matches!(table.get(14).unwrap().kind(), TypeKind::Alias(_, Some(6))));
    // Another name for the same type is a type of its own.
    assert_eq!(table.declare_alias("U".to_string(), at(8, 5), 6), Ok(()));
    assert_eq!(table.len(), 16);
}

#[test]
fn builtin_names_resolve_to_builtin_types() {
    let mut table = TypeList::default();
    assert_eq!(table.resolve("Char".to_string()), Some(11));
    assert_eq!(table.len(), 14);
}

#[test]
fn get_mut_changes_an_entry_in_place() {
    let mut table = TypeList::default();
    table.resolve("T".to_string());
    let entry = table.get_mut(14).unwrap();
    entry.set_location(at(9, 9));
    entry.set_kind(TypeKind::Alias("T".to_string(), Some(0)));
    assert_eq!(*table.get(14).unwrap().location(), Some(at(9, 9)));
    assert!(table.get_mut(15).is_none());
}

#[test]
fn literal_types_by_magnitude() {
    assert!(matches!(TypeKind::of_literal(0), TypeKind::Int32));
    assert!(matches!(TypeKind::of_literal(2147483647), TypeKind::Int32));
    assert!(matches!(TypeKind::of_literal(2147483648), TypeKind::UInt32));
    assert!(matches!(TypeKind::of_literal(4294967295), TypeKind::UInt32));
    assert!(matches!(TypeKind::of_literal(4294967296), TypeKind::Int64));
    assert!(matches!(TypeKind::of_literal(9223372036854775807), TypeKind::Int64));
    assert!(matches!(TypeKind::of_literal(9223372036854775808), TypeKind::UInt64));
    assert!(matches!(TypeKind::of_literal(u64::MAX), TypeKind::UInt64));
}

#[test]
fn atoms_are_numbered_by_first_occurrence() {
    let mut program = Program::new();
    assert_eq!(program.add_atom("red".to_string()), 0);
    assert_eq!(program.add_atom("green".to_string()), 1);
    assert_eq!(program.add_atom("red".to_string()), 0);
    assert_eq!(program.intern_atom("blue".to_string()), Some(2));
    assert_eq!(program.find_atom(&"green".to_string()), Some(1));
    assert_eq!(program.find_atom(&"black".to_string()), None);
    assert_eq!(program.atoms().len(), 3);
}

#[test]
fn a_section_name_is_taken_once() {
    let mut program = Program::new();
    assert_eq!(program.add_section(Section::new("Main".to_string(), at(1, 0))), Ok(()));
    assert_eq!(program.add_section(Section::new("Lib".to_string(), at(5, 0))), Ok(()));
    assert_eq!(
        program.add_section(Section::new("Main".to_string(), at(9, 0))),
        Err(at(1, 0))
    );
    assert_eq!(program.sections().len(), 2);
    assert_eq!(program.section_position(&"Lib".to_string()), Some(1));
}

fn function(name: &str, line: u32) -> Decl {
    Decl::Function(Function::new(
        at(line, 0),
        name.to_string(),
        vec![],
        Some(6),
        false,
        FunctionBody::Expr(lit(1, 6)),
    ))
}

#[test]
fn requires_collapse_and_declarations_are_found_by_name() {
    let mut section = Section::new("Main".to_string(), at(1, 0));
    section.add_require(Located::with_location("Lib".to_string(), at(2, 0)));
    section.add_require(Located::with_location("Io".to_string(), at(3, 0)));
    section.add_require(Located::with_location("Lib".to_string(), at(4, 0)));
    assert_eq!(section.required().len(), 2);
    assert_eq!(section.required()[0].loc, at(2, 0));

    assert!(section.defines(&"f".to_string()).is_none());
    section.declare(function("f", 5));
    section.declare(function("g", 6));
    assert_eq!(*section.defines(&"g".to_string()).unwrap().location(), at(6, 0));
    // Declaring a name again takes the place of the first declaration.
    section.declare(function("f", 7));
    assert_eq!(section.declarations().len(), 2);
    assert_eq!(*section.defines(&"f".to_string()).unwrap().location(), at(7, 0));
    assert!(section.defines(&"f".to_string()).unwrap().is_public());
}

fn param(name: &str, typ: Option<u32>, default: Option<Expr>) -> Param {
    Param::new(
        at(1, 0),
        Located::with_location(Pattern::Query(name.to_string()), at(1, 0)),
        typ,
        default,
    )
}

#[test]
fn required_parameters_end_at_the_first_default() {
    let body = || FunctionBody::Expr(lit(1, 6));
    let none = Function::new(at(1, 0), "f".to_string(), vec![], None, false, body());
    assert_eq!(none.required_params(), 0);
    let all = Function::new(
        at(1, 0),
        "f".to_string(),
        vec![param("a", Some(6), None), param("b", Some(6), None)],
        None,
        false,
        body(),
    );
    assert_eq!(all.required_params(), 2);
    let one = Function::new(
        at(1, 0),
        "f".to_string(),
        vec![
            param("a", Some(6), None),
            param("b", Some(6), Some(lit(1, 6))),
            param("c", Some(6), None),
        ],
        None,
        false,
        body(),
    );
    assert_eq!(one.required_params(), 1);
    let first = Function::new(
        at(1, 0),
        "f".to_string(),
        vec![param("a", None, Some(lit(1, 6)))],
        None,
        false,
        body(),
    );
    assert_eq!(first.required_params(), 0);
}

#[test]
fn parameter_needs_type_or_default() {
    let name = || Located::with_location(Pattern::Query("x".to_string()), at(1, 0));
    assert!(Param::declare(at(1, 0), name(), None, None).is_none());
    let typed = Param::declare(at(1, 0), name(), Some(6), None).unwrap();
    assert!(typed.default_value().is_none());
    let same = Param::declare(at(1, 0), name(), Some(6), Some(lit(1, 6))).unwrap();
    assert!(matches!(same.default_value().as_ref().unwrap().kind, ExprKind::IntLit(1)));
    let cast = Param::declare(at(1, 0), name(), Some(7), Some(lit(1, 6))).unwrap();
    let value = cast.default_value().as_ref().unwrap();
    assert_eq!(value.typ, Some(7));
    assert!(matches!(&value.kind, ExprKind::ImplicitCast(inner) if inner.typ == Some(6)));
}
