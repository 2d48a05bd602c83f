use bcpl_frontend::ast::expr::{Expr, ExprKind};
use bcpl_frontend::ast::pattern::Pattern;
use bcpl_frontend::ast::stmt::StmtKind;
use bcpl_frontend::ast::{Decl, FunctionBody, Program};
use bcpl_frontend::token::lexer::Lexer;
use bcpl_frontend::parser::context::StmtContext;
use bcpl_frontend::parser::{ParseError, Parser};
use bcpl_frontend::source_file::SourceFile;
use bcpl_frontend::token::TokenKind;

const INT32: u32 = 6;
const FLOAT64: u32 = 9;
const BOOL: u32 = 10;

fn parser_of(source: &str) -> Parser {
    let file = SourceFile::new("test.b".to_string(), source.to_string(), 0);
    Parser::new(Lexer::from(&file), Program::new())
}

fn kinds_of(source: &str) -> Vec<String> {
    let file = SourceFile::new("test.b".to_string(), source.to_string(), 0);
    let mut lexer = Lexer::from(&file);
    lexer.tokenize().iter().map(|t| format!("{:?}", t.kind)).collect()
}

#[test]
fn lexes_a_function_declaration() {
    assert_eq!(
        kinds_of("let f(x :: Int32) = x + 1"),
        vec![
            "Let",
            "Ident(\"f\")",
            "LParen",
            "Ident(\"x\")",
            "Of",
            "Ident(\"Int32\")",
            "RParen",
            "Eq",
            "Ident(\"x\")",
            "Plus",
            "IntegerLit(1)",
            "Eof",
        ]
    );
}

#[test]
fn section_with_require_and_function() {
    let mut parser =
        parser_of("section Main require Lib let f(x :: Int32, y :: Int32 = 1) = x + y");
    assert!(parser.parse().is_ok());
    assert!(parser.warnings().is_empty());
    let program = parser.into_program();
    assert_eq!(program.sections.len(), 1);
    let section = &program.sections[0];
    assert_eq!(section.ident, "Main");
    assert_eq!(section.required.len(), 1);
    assert_eq!(section.required[0].inner, "Lib");
    assert_eq!(section.declarations.len(), 1);
    let f = match &section.declarations[0] {
        Decl::Function(f) => f,
        other => panic!("not a function: {:?}", other),
    };
    assert_eq!(f.ident, "f");
    assert!(!f.tailcall_recursive);
    assert_eq!(f.params.len(), 2);
    assert_eq!(f.required_params, 1);
    assert!(matches!(&f.params[0].ident.inner, Pattern::Query(name) if name == "x"));
    assert_eq!(f.params[0].typ, Some(INT32));
    assert!(f.params[0].default_value.is_none());
    assert!(matches!(&f.params[1].ident.inner, Pattern::Query(name) if name == "y"));
    assert_eq!(f.params[1].typ, Some(INT32));
    let default = f.params[1].default_value.as_ref().unwrap();
    assert_eq!(default.typ, Some(INT32));
    assert!(matches!(default.kind, ExprKind::IntLit(1)));
    match &f.body {
        FunctionBody::Expr(body) => {
            assert!(matches!(&body.kind, ExprKind::Add(l, r)
                if matches!(&l.kind, ExprKind::Ident(n) if n == "x")
                && matches!(&r.kind, ExprKind::Ident(n) if n == "y")));
            // The operands are identifiers, whose types are not resolved
            // while parsing, so the sum has no type yet.
            assert_eq!(body.typ, None);
        }
        other => panic!("not an expression body: {:?}", other),
    }
    assert_eq!(f.return_type, None);
    // Nothing but the builtin types was needed.
    assert_eq!(program.types.len(), 14);
}

#[test]
fn function_of_typed_body_has_its_type() {
    let mut parser = parser_of("section Main let one() = 1 let two() be return");
    assert!(parser.parse().is_ok());
    let program = parser.into_program();
    let decls = &program.sections[0].declarations;
    assert_eq!(decls.len(), 2);
    match (&decls[0], &decls[1]) {
        (Decl::Function(one), Decl::Function(two)) => {
            assert_eq!(one.return_type, Some(INT32));
            assert_eq!(two.return_type, Some(12));
        }
        other => panic!("not two functions: {:?}", other),
    }
}

fn valof_of(source: &str) -> Result<Expr, ParseError> {
    let mut parser = parser_of(source);
    let _ = parser.advance();
    let mut context = StmtContext::empty();
    parser.parse_expr(&mut context).map_err(|e| e.inner)
}

#[test]
fn first_resultis_fixes_the_type_of_valof() {
    let valof = valof_of("valof { resultis 1; resultis 2.0; }").unwrap();
    assert_eq!(valof.typ, Some(INT32));
    let block = match &valof.kind {
        ExprKind::ValOf(stmt) => match &stmt.kind {
            StmtKind::Block(stmts) => stmts,
            other => panic!("not a block: {:?}", other),
        },
        other => panic!("not a valof: {:?}", other),
    };
    assert_eq!(block.len(), 2);
    match &block[0].kind {
        StmtKind::ResultIs(e) => {
            assert_eq!(e.typ, Some(INT32));
            assert!(matches!(e.kind, ExprKind::IntLit(1)));
        }
        other => panic!("not a resultis: {:?}", other),
    }
    match &block[1].kind {
        StmtKind::ResultIs(e) => {
            assert_eq!(e.typ, Some(INT32));
            match &e.kind {
                ExprKind::ImplicitCast(inner) => {
                    assert_eq!(inner.typ, Some(FLOAT64));
                    assert!(matches!(&inner.kind, ExprKind::FloatLit(m, None) if m == "2.0"));
                }
                other => panic!("not an implicit cast: {:?}", other),
            }
        }
        other => panic!("not a resultis: {:?}", other),
    }
}

#[test]
fn valof_without_resultis_is_refused() {
    assert!(matches!(valof_of("valof { f(); }"), Err(ParseError::NoResultValue)));
}

#[test]
fn break_outside_of_a_loop_is_refused() {
    let mut parser = parser_of("section Main let f() be break");
    let err = parser.parse().unwrap_err();
    match &err.inner {
        ParseError::InvalidStmt(stmt, outside) => {
            assert_eq!(stmt, "break");
            assert_eq!(outside, "loop, match, every or switchon");
        }
        other => panic!("not an invalid statement: {:?}", other),
    }
    assert_eq!(
        err.inner.to_string(),
        "Encountered `break` statement outside of `loop, match, every or switchon`."
    );
    assert_eq!(err.loc.line, 1);
    assert_eq!(err.loc.column, 24);
}

#[test]
fn break_at_the_root_of_a_chain_is_refused() {
    let mut parser = parser_of("break");
    let _ = parser.advance();
    let mut context = StmtContext::empty();
    let err = parser.parse_stmt(&mut context).unwrap_err();
    assert!(
        matches!(&err.inner, ParseError::InvalidStmt(s, c) if s == "break" && c == "loop, match, every or switchon")
    );
}

#[test]
fn next_and_break_inside_a_loop_are_accepted() {
    let mut parser = parser_of("section Main let f() be while true do { break; next; }");
    assert!(parser.parse().is_ok());
}

#[test]
fn comparison_is_bool_and_right_operand_is_cast() {
    let mut parser = parser_of("1 < 2.5");
    let _ = parser.advance();
    let mut context = StmtContext::empty();
    let e = parser.parse_expr(&mut context).unwrap();
    assert_eq!(e.typ, Some(BOOL));
    match &e.kind {
        ExprKind::Lt(l, r) => {
            assert_eq!(l.typ, Some(INT32));
            assert_eq!(r.typ, Some(INT32));
            assert!(matches!(&r.kind, ExprKind::ImplicitCast(inner) if inner.typ == Some(FLOAT64)));
        }
        other => panic!("not a comparison: {:?}", other),
    }
    assert!(matches!(parser.current().kind, TokenKind::Eof));
}
