use bcpl_frontend::ast::expr::{Expr, ExprKind};
use bcpl_frontend::ast::pattern::{Pattern, PatternTerm};
use bcpl_frontend::ast::stmt::{Stmt, StmtKind};
use bcpl_frontend::ast::types::{SumVariant, TypeKind};
use bcpl_frontend::ast::{Decl, FunctionBody, Program};
use bcpl_frontend::token::lexer::Lexer;
use bcpl_frontend::parser::context::StmtContext;
use bcpl_frontend::parser::{ParseError, Parser};
use bcpl_frontend::source_file::{Located, Location, SourceFile};
use bcpl_frontend::token::{Token, TokenKind};

fn parser_of(source: &str) -> Parser {
    let file = SourceFile::new("test.b".to_string(), source.to_string(), 0);
    Parser::new(Lexer::from(&file), Program::new())
}

/// A parser that has made its first step: it stands on the first token.
fn started(source: &str) -> Parser {
    let mut parser = parser_of(source);
    let _ = parser.advance();
    parser
}

fn typ(t: &Option<u32>) -> String {
    match t {
        Some(i) => format!(":{i}"),
        None => String::new(),
    }
}

fn exprs(list: &[Expr]) -> String {
    list.iter().map(show).collect::<Vec<_>>().join(" ")
}

fn patterns(list: &[Located<Pattern>]) -> String {
    list.iter().map(|p| show_pattern(&p.inner)).collect::<Vec<_>>().join(", ")
}

/// An expression as text: operators in front, the type behind a colon.
fn show(e: &Expr) -> String {
    let body = match &e.kind {
        ExprKind::Ident(n) => n.clone(),
        ExprKind::Atom(a) => format!("#{a}"),
        ExprKind::IntLit(v) => format!("{v}"),
        ExprKind::FloatLit(m, None) => m.clone(),
        ExprKind::FloatLit(m, Some(x)) => format!("{m}e{x}"),
        ExprKind::CharLit(c) => format!("'{c}'"),
        ExprKind::StringLit(s) => format!("\"{s}\""),
        ExprKind::True => "true".to_string(),
        ExprKind::False => "false".to_string(),
        ExprKind::Add(l, r) => format!("(+ {} {})", show(l), show(r)),
        ExprKind::Sub(l, r) => format!("(- {} {})", show(l), show(r)),
        ExprKind::Mul(l, r) => format!("(* {} {})", show(l), show(r)),
        ExprKind::Div(l, r) => format!("(/ {} {})", show(l), show(r)),
        ExprKind::Mod(l, r) => format!("(mod {} {})", show(l), show(r)),
        ExprKind::And(l, r) => format!("(& {} {})", show(l), show(r)),
        ExprKind::Or(l, r) => format!("(| {} {})", show(l), show(r)),
        ExprKind::XOr(l, r) => format!("(^ {} {})", show(l), show(r)),
        ExprKind::Eq(l, r) => format!("(= {} {})", show(l), show(r)),
        ExprKind::Ne(l, r) => format!("(~= {} {})", show(l), show(r)),
        ExprKind::Gt(l, r) => format!("(> {} {})", show(l), show(r)),
        ExprKind::Ge(l, r) => format!("(>= {} {})", show(l), show(r)),
        ExprKind::Lt(l, r) => format!("(< {} {})", show(l), show(r)),
        ExprKind::Le(l, r) => format!("(<= {} {})", show(l), show(r)),
        ExprKind::LShift(l, r) => format!("(<< {} {})", show(l), show(r)),
        ExprKind::RShift(l, r) => format!("(>> {} {})", show(l), show(r)),
        ExprKind::Abs(x) => format!("(abs {})", show(x)),
        ExprKind::Not(x) => format!("(not {})", show(x)),
        ExprKind::Ref(x) => format!("(ref {})", show(x)),
        ExprKind::Deref(x) => format!("(deref {})", show(x)),
        ExprKind::Cast(x) => format!("(cast {})", show(x)),
        ExprKind::ImplicitCast(x) => format!("(implicit {})", show(x)),
        ExprKind::ValOf(s) => format!("(valof {})", show_stmt(s)),
        ExprKind::FuncCall(c, args) => format!("(call {} [{}])", show(c), exprs(args)),
        ExprKind::Conditional(c, a, b) => format!("(? {} {} {})", show(c), show(a), show(b)),
        ExprKind::Match(args, branches) => format!(
            "(match [{}] {})",
            exprs(args),
            branches
                .iter()
                .map(|(p, e)| format!("{{{} -> {}}}", patterns(p), show(e)))
                .collect::<Vec<_>>()
                .join(" ")
        ),
        ExprKind::Every(args, branches) => format!(
            "(every [{}] {})",
            exprs(args),
            branches
                .iter()
                .map(|(p, e)| format!("{{{} -> {}}}", patterns(p), show(e)))
                .collect::<Vec<_>>()
                .join(" ")
        ),
    };
    format!("{body}{}", typ(&e.typ))
}

fn show_pattern(p: &Pattern) -> String {
    match p {
        Pattern::Any => "?".to_string(),
        Pattern::Query(n) => n.clone(),
        Pattern::Remaining => "..".to_string(),
        Pattern::Term(PatternTerm::Basic(e)) => show(e),
        Pattern::Term(PatternTerm::Lt(e)) => format!("<{}", show(e)),
        Pattern::Term(PatternTerm::Le(e)) => format!("<={}", show(e)),
        Pattern::Term(PatternTerm::Gt(e)) => format!(">{}", show(e)),
        Pattern::Term(PatternTerm::Ge(e)) => format!(">={}", show(e)),
        Pattern::Term(PatternTerm::Ne(e)) => format!("~={}", show(e)),
        Pattern::Term(PatternTerm::Eq(e)) => format!("={}", show(e)),
        Pattern::Term(PatternTerm::Range(a, b)) => format!("{}..{}", show(a), show(b)),
        Pattern::Or(a, b) => format!("({} | {})", show_pattern(&a.inner), show_pattern(&b.inner)),
        Pattern::And(a, b) => format!("({} & {})", show_pattern(&a.inner), show_pattern(&b.inner)),
        Pattern::Variant(n, args) => format!("{n}({})", patterns(args)),
        Pattern::List(args) => format!("[{}]", patterns(args)),
    }
}

fn show_stmt(s: &Stmt) -> String {
    match &s.kind {
        StmtKind::Nop => "nop".to_string(),
        StmtKind::Expr(e) => format!("(expr {})", show(e)),
        StmtKind::Block(stmts) => {
            format!("{{{}}}", stmts.iter().map(show_stmt).collect::<Vec<_>>().join(" "))
        }
        StmtKind::ResultIs(e) => format!("(resultis {})", show(e)),
        StmtKind::Return => "return".to_string(),
        StmtKind::If(c, a, None) => format!("(if {} {})", show(c), show_stmt(a)),
        StmtKind::If(c, a, Some(b)) => {
            format!("(if {} {} {})", show(c), show_stmt(a), show_stmt(b))
        }
        StmtKind::Unless(c, b) => format!("(unless {} {})", show(c), show_stmt(b)),
        StmtKind::While(c, b) => format!("(while {} {})", show(c), show_stmt(b)),
        StmtKind::Until(c, b) => format!("(until {} {})", show(c), show_stmt(b)),
        StmtKind::For(it, init, bound, step, body) => format!(
            "(for {} {} {} {} {})",
            show_pattern(&it.inner),
            show(init),
            bound.as_ref().map(|e| show(e)).unwrap_or("-".to_string()),
            step.as_ref().map(|e| show(e)).unwrap_or("-".to_string()),
            show_stmt(body)
        ),
        StmtKind::SwitchOn(c, b) => format!("(switchon {} {})", show(c), show_stmt(b)),
        StmtKind::Case(e) => format!("(case {})", show(e)),
        StmtKind::DefaultCase => "default".to_string(),
        StmtKind::Break => "break".to_string(),
        StmtKind::Next => "next".to_string(),
        StmtKind::Match(args, branches) => format!(
            "(match [{}] {})",
            exprs(args),
            branches
                .iter()
                .map(|(p, s)| format!("{{{} be {}}}", patterns(p), show_stmt(s)))
                .collect::<Vec<_>>()
                .join(" ")
        ),
        StmtKind::Every(args, branches) => format!(
            "(every [{}] {})",
            exprs(args),
            branches
                .iter()
                .map(|(p, s)| format!("{{{} be {}}}", patterns(p), show_stmt(s)))
                .collect::<Vec<_>>()
                .join(" ")
        ),
        StmtKind::Binding(pairs) => format!(
            "(let {})",
            pairs
                .iter()
                .map(|(p, e)| format!("{} = {}", show_pattern(&p.inner), show(e)))
                .collect::<Vec<_>>()
                .join(", ")
        ),
    }
}

fn expr(source: &str) -> String {
    let mut parser = started(source);
    let mut context = StmtContext::empty();
    match parser.parse_expr(&mut context) {
        Ok(e) => show(&e),
        Err(e) => format!("error: {}", e.inner.to_string()),
    }
}

fn stmt_in(source: &str, context: &mut StmtContext) -> String {
    let mut parser = started(source);
    match parser.parse_stmt(context) {
        Ok(s) => show_stmt(&s),
        Err(e) => format!("error: {}", e.inner.to_string()),
    }
}

fn stmt(source: &str) -> String {
    stmt_in(source, &mut StmtContext::function(0))
}

fn pattern(source: &str) -> String {
    let mut parser = started(source);
    match parser.parse_pattern() {
        Ok(p) => show_pattern(&p.inner),
        Err(e) => format!("error: {}", e.inner.to_string()),
    }
}

fn program(source: &str) -> Result<Program, Located<ParseError>> {
    let mut parser = parser_of(source);
    parser.parse()?;
    Ok(parser.into_program())
}

fn failure(source: &str) -> String {
    match program(source) {
        Ok(_) => "ok".to_string(),
        Err(e) => format!("{}:{}: {}", e.loc.line, e.loc.column, e.inner.to_string()),
    }
}

// ---------------------------------------------------------------- literals

#[test]
fn literals_and_their_types() {
    assert_eq!(expr("7"), "7:6");
    assert_eq!(expr("2147483648"), "2147483648:2");
    assert_eq!(expr("4294967296"), "4294967296:7");
    assert_eq!(expr("9223372036854775808"), "9223372036854775808:3");
    assert_eq!(expr("true"), "true:10");
    assert_eq!(expr("false"), "false:10");
    assert_eq!(expr("1.5"), "1.5:9");
    assert_eq!(expr("1e+3"), "1e+3:9");
    assert_eq!(expr("x"), "x");
    // The first string literal makes the type of strings, a pointer to Char.
    assert_eq!(expr("\"hi\""), "\"hi\":14");
}

#[test]
fn string_type_is_made_once() {
    let mut parser = started("\"a\" + \"b\"");
    let mut context = StmtContext::empty();
    let e = parser.parse_expr(&mut context).unwrap();
    assert_eq!(show(&e), "(+ \"a\":14 \"b\":14):14");
    let program = parser.into_program();
    assert_eq!(program.types.len(), 15);
    assert!(matches!(program.types.get(14).unwrap().kind(), TypeKind::Pointer(11)));
}

#[test]
fn atoms_are_interned() {
    let mut parser = started("#red = #green | #red");
    let mut context = StmtContext::empty();
    let e = parser.parse_expr(&mut context).unwrap();
    assert_eq!(show(&e), "(| (= #0:13 #1:13):10 (implicit #0:13):10):10");
    assert_eq!(parser.program().atoms, vec!["red".to_string(), "green".to_string()]);
}

// ------------------------------------------------------------- expressions

#[test]
fn operators_bind_by_precedence() {
    assert_eq!(expr("1 + 2 * 3"), "(+ 1:6 (* 2:6 3:6):6):6");
    assert_eq!(expr("1 * 2 + 3"), "(+ (* 1:6 2:6):6 3:6):6");
    assert_eq!(expr("1 << 2 + 3"), "(<< 1:6 (+ 2:6 3:6):6):6");
    assert_eq!(expr("1 < 2 << 3"), "(< 1:6 (<< 2:6 3:6):6):10");
    assert_eq!(expr("a & b | c"), "(| (& a b) c)");
    assert_eq!(expr("a | b & c"), "(| a (& b c))");
    assert_eq!(expr("a ^ b & c"), "(^ a (& b c))");
    assert_eq!(expr("a mod b / c"), "(/ (mod a b) c)");
    assert_eq!(expr("(1 + 2) * 3"), "(* (+ 1:6 2:6):6 3:6):6");
}

#[test]
fn binary_operators_go_to_the_left() {
    assert_eq!(expr("1 - 2 - 3"), "(- (- 1:6 2:6):6 3:6):6");
    assert_eq!(expr("a / b / c"), "(/ (/ a b) c)");
    assert_eq!(expr("1 >> 2 >> 3"), "(>> (>> 1:6 2:6):6 3:6):6");
}

#[test]
fn right_operand_takes_the_type_of_the_left() {
    assert_eq!(expr("1 + 2.0"), "(+ 1:6 (implicit 2.0:9):6):6");
    assert_eq!(expr("2.0 + 1"), "(+ 2.0:9 (implicit 1:6):9):9");
    assert_eq!(expr("1 + x"), "(+ 1:6 (implicit x):6):6");
    // A left operand without type asks for nothing.
    assert_eq!(expr("x + 1"), "(+ x 1:6)");
    assert_eq!(expr("1 + 4294967296"), "(+ 1:6 (implicit 4294967296:7):6):6");
    assert_eq!(expr("true & 1"), "(& true:10 (implicit 1:6):10):10");
    assert_eq!(expr("1 << true"), "(<< 1:6 (implicit true:10):6):6");
}

#[test]
fn comparisons_are_bool() {
    assert_eq!(expr("1 = 1"), "(= 1:6 1:6):10");
    assert_eq!(expr("x ~= y"), "(~= x y):10");
    assert_eq!(expr("1.5 >= 2"), "(>= 1.5:9 (implicit 2:6):9):10");
    assert_eq!(expr("a > b"), "(> a b):10");
    assert_eq!(expr("a <= b"), "(<= a b):10");
    assert_eq!(expr("1 < 2 = true"), "(= (< 1:6 2:6):10 true:10):10");
}

#[test]
fn conditional_expressions() {
    assert_eq!(expr("true -> 1, 2"), "(? true:10 1:6 2:6):6");
    assert_eq!(expr("1 -> 2, 3.0"), "(? (implicit 1:6):10 2:6 (implicit 3.0:9):6):6");
    assert_eq!(expr("c -> a, b"), "(? (implicit c):10 a b)");
    // A conditional is the condition of the `->` that follows it.
    assert_eq!(
        expr("true -> 1, false -> 2, 3"),
        "(? (implicit (? true:10 1:6 (implicit false:10):6):6):10 2:6 3:6):6"
    );
    // The first branch takes a conditional of its own.
    assert_eq!(
        expr("a -> b -> 1, 2, 3"),
        "(? (implicit a):10 (? (implicit b):10 1:6 2:6):6 3:6):6"
    );
    assert_eq!(expr("true -> 1"), "error: Unexpected end of file; Expected `,`.");
}

#[test]
fn casts_calls_and_prefix_operators() {
    assert_eq!(expr("x :: Int64"), "(cast x):7");
    assert_eq!(expr("1 + x :: Int64"), "(+ 1:6 (implicit (cast x):7):6):6");
    assert_eq!(expr("x :: &Int8"), "(cast x):14");
    assert_eq!(expr("f(1, x)"), "(call f [1:6 x])");
    assert_eq!(expr("f()"), "(call f [])");
    assert_eq!(expr("f(1)(2)"), "(call (call f [1:6]) [2:6])");
    assert_eq!(expr("f(1) + 2"), "(+ (call f [1:6]) 2:6)");
    assert_eq!(expr("abs 1"), "(abs 1:6):6");
    assert_eq!(expr("~ true"), "(not true:10):10");
    // `not` is a name like any other.
    assert_eq!(expr("not true"), "not");
    // A prefix operator takes all that follows.
    assert_eq!(expr("abs 1 + 2"), "(abs (+ 1:6 2:6):6):6");
    assert_eq!(expr("& 1"), "(ref 1:6):14");
    assert_eq!(expr("& x"), "(ref x)");
    assert_eq!(expr("@ p"), "(deref p)");
    assert_eq!(expr("f(1,"), "error: Unexpected token `end of file`; Expected `expression`.");
    assert_eq!(expr("f(1 2)"), "error: Unexpected token `2`; Expected one of `)`, `,`.");
}

#[test]
fn what_starts_no_expression() {
    assert_eq!(expr(")"), "error: Unexpected token `)`; Expected `expression`.");
    assert_eq!(expr(""), "error: Unexpected token `end of file`; Expected `expression`.");
    assert_eq!(expr("'c\""), "error: Unexpected token `'c'`; Expected `expression`.");
    assert_eq!(expr("(1"), "error: Unexpected end of file; Expected `)`.");
    assert_eq!(expr("1 + $"), "error: unexpected character `$`");
}

#[test]
fn match_expressions() {
    assert_eq!(expr("match x : a -> 1 : ? -> 2.0"), "(match [x] {a -> 1:6} {? -> (implicit 2.0:9):6}):6");
    assert_eq!(
        expr("every (x, y) : a, b -> a : ?, ? -> 0"),
        "(every [x y] {a, b -> a} {?, ? -> 0:6})"
    );
    assert_eq!(
        expr("match (x, y) : a -> 1"),
        "error: Wrong number of patterns, expected 2."
    );
    assert_eq!(expr("match x : a, b -> 1"), "error: Wrong number of patterns, expected 1.");
    assert_eq!(expr("match x"), "error: Missing branch in `match`.");
    assert_eq!(expr("every x"), "error: Missing branch in `every`.");
    assert_eq!(expr("match x : a => 1"), "error: Unexpected token `=>`; Expected `->`.");
}

#[test]
fn wrong_number_of_patterns_is_at_the_keyword() {
    let mut parser = started("  match (x, y) : a -> 1");
    let mut context = StmtContext::empty();
    let err = parser.parse_expr(&mut context).unwrap_err();
    assert!(matches!(err.inner, ParseError::WrongNumOfPatterns(2)));
    assert_eq!(err.loc, Location { source_file_id: 0, line: 1, column: 2, width: 5 });
}

#[test]
fn valof_expressions() {
    assert_eq!(expr("valof resultis 1"), "(valof (resultis 1:6)):6");
    assert_eq!(expr("valof { resultis x; }"), "(valof {(resultis x)})");
    assert_eq!(
        expr("valof { resultis 1; resultis true; resultis 2; }"),
        "(valof {(resultis 1:6) (resultis (implicit true:10):6) (resultis 2:6)}):6"
    );
    // An inner valof has a type of its own.
    assert_eq!(
        expr("valof { resultis valof { resultis true; }; resultis 1; }"),
        "(valof {(resultis (valof {(resultis true:10)}):10) (resultis (implicit 1:6):10)}):10"
    );
    assert_eq!(
        expr("valof { }"),
        "error: No `resultis` statement found in `valof` body."
    );
    assert_eq!(
        expr("valof { resultis 1 }"),
        "error: Unexpected token `}`; Expected `;`."
    );
}

// ----------------------------------------------------------------- patterns

#[test]
fn simple_patterns() {
    assert_eq!(pattern("?"), "?");
    assert_eq!(pattern("x"), "x");
    assert_eq!(pattern(".."), "..");
    assert_eq!(pattern("1"), "1:6");
    assert_eq!(pattern("1 + 2"), "(+ 1:6 2:6):6");
    assert_eq!(pattern("= 1"), "=1:6");
    assert_eq!(pattern("~= x"), "~=x");
    assert_eq!(pattern("< 1"), "<1:6");
    assert_eq!(pattern("<= 1"), "<=1:6");
    assert_eq!(pattern("> 1"), ">1:6");
    assert_eq!(pattern(">= 1"), ">=1:6");
    assert_eq!(pattern("#a .. #b"), "#0:13..#1:13");
    assert_eq!(pattern("(x)"), "x");
}

#[test]
fn nested_patterns_have_their_places() {
    let mut parser = started("  Pair(a, [b | c])");
    let pattern = parser.parse_pattern().unwrap();
    assert_eq!(pattern.loc.column, 2);
    let args = match &pattern.inner {
        Pattern::Variant(name, args) if name == "Pair" => args,
        other => panic!("not a variant: {:?}", other),
    };
    assert_eq!(args[0].loc.column, 7);
    let items = match &args[1].inner {
        Pattern::List(items) => items,
        other => panic!("not a list: {:?}", other),
    };
    assert_eq!(args[1].loc.column, 10);
    match &items[0].inner {
        Pattern::Or(left, right) => {
            assert_eq!(left.loc.column, 11);
            assert_eq!(right.loc.column, 15);
        }
        other => panic!("not an alternative: {:?}", other),
    }
    // The place of `|` is that of the alternative.
    assert_eq!(items[0].loc.column, 13);
    // Where a nested pattern stands does not count when trees are
    // compared.
    let mut again = started("  Pair(a,  [b | c])");
    let moved = again.parse_pattern().unwrap();
    match &moved.inner {
        Pattern::Variant(_, args) => assert_eq!(args[1].loc.column, 11),
        other => panic!("not a variant: {:?}", other),
    }
    assert!(pattern.inner.equals(&moved.inner));
    let mut other = started("  Pair(a, [b | d])");
    assert!(!pattern.inner.equals(&other.parse_pattern().unwrap().inner));
}

#[test]
fn compound_patterns() {
    assert_eq!(pattern("a | b"), "(a | b)");
    assert_eq!(pattern("a & b"), "(a & b)");
    assert_eq!(pattern("a | b & c"), "(a | (b & c))");
    assert_eq!(pattern("a & b | c"), "((a & b) | c)");
    assert_eq!(pattern("a | b | c"), "((a | b) | c)");
    assert_eq!(pattern("(a | b) & c"), "((a | b) & c)");
    assert_eq!(pattern("Some(x)"), "Some(x)");
    assert_eq!(pattern("Pair(x, ?)"), "Pair(x, ?)");
    assert_eq!(pattern("[]"), "[]");
    assert_eq!(pattern("[a, b, ..]"), "[a, b, ..]");
    assert_eq!(pattern("[a"), "error: Unexpected end of file; Expected `]`.");
    assert_eq!(pattern("Some(x"), "error: Unexpected end of file; Expected `)`.");
    // An expression takes `|` for itself.
    assert_eq!(pattern("1 | 2"), "(| 1:6 2:6):6");
}

#[test]
fn pattern_lists() {
    let mut parser = started("a, [b], ? x");
    let list = parser.parse_pattern_list().unwrap();
    assert_eq!(patterns(&list), "a, [b], ?");
    assert_eq!(list[1].loc.column, 3);
    assert!(matches!(parser.current().kind, TokenKind::Ident(_)));
}

// --------------------------------------------------------------- statements

#[test]
fn blocks_and_chains() {
    assert_eq!(stmt("{ }"), "{}");
    assert_eq!(stmt("{ f(); g(); }"), "{(expr (call f [])) (expr (call g []))}");
    assert_eq!(stmt("{ f() }"), "error: Unexpected token `}`; Expected `;`.");
    assert_eq!(stmt("{ f();"), "error: Unexpected token `end of file`; Expected `expression`.");
    assert_eq!(stmt("f() <> g() <> h()"), "{(expr (call f [])) {(expr (call g [])) (expr (call h []))}}");
    // Inside a chain no semicolon is asked for, even between braces.
    assert_eq!(stmt("{ f() <> g() }"), "error: Unexpected token `<>`; Expected `;`.");
    assert_eq!(stmt("{ f(); <> g() }"), "{{(expr (call f [])) (expr (call g []))}}");
}

#[test]
fn conditions_are_bool() {
    assert_eq!(stmt("if x do f()"), "(if (implicit x):10 (expr (call f [])))");
    assert_eq!(stmt("if true f() else g()"), "(if true:10 (expr (call f [])) (expr (call g [])))");
    assert_eq!(stmt("if 1 return"), "(if (implicit 1:6):10 return)");
    assert_eq!(stmt("unless x = 1 do return"), "(unless (= x 1:6):10 return)");
    assert_eq!(stmt("while 1 do next"), "(while (implicit 1:6):10 next)");
    assert_eq!(stmt("until done break"), "(until (implicit done):10 break)");
}

#[test]
fn for_loops() {
    assert_eq!(stmt("for i = 0 to 10 do f(i)"), "(for i 0:6 10:6 - (expr (call f [i])))");
    assert_eq!(
        stmt("for i = 0 to n by 2.0 do next"),
        "(for i 0:6 (implicit n):6 (implicit 2.0:9):6 next)"
    );
    assert_eq!(stmt("for i = x to 1 by 1 break"), "(for i x 1:6 1:6 break)");
    assert_eq!(stmt("for i = 0 break"), "(for i 0:6 - - break)");
    assert_eq!(stmt("for 1 = 0 break"), "error: Unexpected token `1`; Expected `section name`.");
    assert_eq!(stmt("for i 0"), "error: Unexpected token `0`; Expected `=`.");
}

#[test]
fn switches() {
    assert_eq!(
        stmt("switchon x into { case 1: f(); default: g(); }"),
        "(switchon x {(case 1:6) (expr (call f [])) default (expr (call g []))})"
    );
    assert_eq!(
        stmt("switchon 1.5 into { case 1: break; }"),
        "(switchon 1.5:9 {(case (implicit 1:6):9) break})"
    );
    assert_eq!(stmt("switchon x { }"), "error: Unexpected token `{`; Expected `into`.");
    assert_eq!(stmt("case 1:"), "error: Encountered `case` statement outside of `switchon`.");
    assert_eq!(stmt("default:"), "error: Encountered `default` statement outside of `switchon`.");
    assert_eq!(stmt("while true do case 1:"), "error: Encountered `case` statement outside of `switchon`.");
    assert_eq!(stmt("switchon x into while true do default:"), "(switchon x (while true:10 default))");
    assert_eq!(stmt("switchon x into case 1"), "error: Unexpected end of file; Expected `:`.");
}

#[test]
fn second_default_cites_the_first() {
    let source = "switchon x into {\n  default: f();\n  case 1: g();\n  default: h();\n}";
    let mut parser = started(source);
    let mut context = StmtContext::function(0);
    let err = parser.parse_stmt(&mut context).unwrap_err();
    match &err.inner {
        ParseError::Redefinition(first, what) => {
            assert_eq!(*first, Location { source_file_id: 0, line: 2, column: 2, width: 7 });
            assert_eq!(what, "default case");
        }
        other => panic!("not a redefinition: {:?}", other),
    }
    assert_eq!(err.loc, Location { source_file_id: 0, line: 4, column: 2, width: 7 });
    assert_eq!(err.inner.to_string(), "Redefinition of `default case`.");
    // Each switch has a default of its own.
    assert_eq!(
        stmt("switchon x into { default: switchon y into { default: f(); } }"),
        "(switchon x {default (switchon y {default (expr (call f []))})})"
    );
    // What follows `<>` belongs to the body of the first switch.
    assert_eq!(
        stmt("{ switchon x into default: <> switchon y into default: }"),
        "{(switchon x {default (switchon y default)})}"
    );
    assert_eq!(
        stmt("switchon x into default: <> default:"),
        "error: Redefinition of `default case`."
    );
}

#[test]
fn jumps_need_something_to_leave() {
    let refused = "error: Encountered `break` statement outside of `loop, match, every or switchon`.";
    assert_eq!(stmt("break"), refused);
    assert_eq!(stmt("{ break; }"), refused);
    assert_eq!(stmt("if x break"), refused);
    assert_eq!(
        stmt("next"),
        "error: Encountered `next` statement outside of `loop, match, every or switchon`."
    );
    assert_eq!(stmt("while x do break"), "(while (implicit x):10 break)");
    assert_eq!(stmt("while x do { if y break; }"), "(while (implicit x):10 {(if (implicit y):10 break)})");
    assert_eq!(stmt("for i = 0 do next"), "(for i 0:6 - - next)");
    assert_eq!(stmt("switchon x into break"), "(switchon x break)");
    assert_eq!(stmt("match x : ? be break"), "(match [x] {? be break})");
    assert_eq!(stmt("every x : ? be next"), "(every [x] {? be next})");
    // A valof does not hide the loop around it.
    assert_eq!(
        stmt("while x do f(valof { break; resultis 1; })"),
        "(while (implicit x):10 (expr (call f [(valof {break (resultis 1:6)}):6])))"
    );
}

#[test]
fn return_and_resultis_need_their_place() {
    assert_eq!(stmt("return"), "return");
    assert_eq!(stmt("{ return; }"), "{return}");
    assert_eq!(
        stmt_in("return", &mut StmtContext::empty()),
        "error: Encountered `return` statement outside of `function`."
    );
    assert_eq!(stmt("resultis 1"), "error: Encountered `resultis` statement outside of `valof`.");
    assert_eq!(stmt("{ return }"), "error: Unexpected token `}`; Expected `;`.");
}

#[test]
fn match_statements() {
    assert_eq!(
        stmt("match (a, b) : x, ? be f(x) : ?, y be return"),
        "(match [a b] {x, ? be (expr (call f [x]))} {?, y be return})"
    );
    assert_eq!(stmt("every x : ? be return"), "(every [x] {? be return})");
    assert_eq!(stmt("match x : a, b be return"), "error: Wrong number of patterns, expected 1.");
    assert_eq!(stmt("match x"), "error: Missing branch in `match`.");
    assert_eq!(stmt("every x"), "error: Missing branch in `every`.");
    assert_eq!(stmt("match x : a -> 1"), "error: Unexpected token `->`; Expected `be`.");
    assert_eq!(stmt("{ match x : ? be { } }"), "error: Unexpected token `}`; Expected `;`.");
    assert_eq!(stmt("{ match x : ? be { }; }"), "{(match [x] {? be {}})}");
}

#[test]
fn expression_statements_without_effect_are_warned_of() {
    let mut parser = started("{ f(); 1 + 2; x :: Int8; valof resultis 1; }");
    let mut context = StmtContext::function(0);
    assert!(parser.parse_stmt(&mut context).is_ok());
    let warnings = parser.warnings();
    assert_eq!(warnings.len(), 2);
    assert!(matches!(warnings[0].inner, ParseError::ExprWithoutSideEffect));
    assert_eq!(warnings[0].loc.column, 7);
    assert_eq!(warnings[1].loc.column, 14);
    assert_eq!(
        warnings[0].inner.to_string(),
        "Expression has no side-effect when used as a statement."
    );
}

#[test]
fn a_cast_of_a_call_has_an_effect() {
    let mut parser = started("f() :: Int8");
    let mut context = StmtContext::function(0);
    assert!(parser.parse_stmt(&mut context).is_ok());
    assert!(parser.warnings().is_empty());
}

// -------------------------------------------------------------------- types

fn type_of(source: &str) -> (Result<u32, String>, Program) {
    let mut parser = started(source);
    let r = parser.parse_type().map_err(|e| e.inner.to_string());
    (r, parser.into_program())
}

#[test]
fn type_names() {
    assert_eq!(type_of("Int32").0, Ok(6));
    assert_eq!(type_of("(Bool)").0, Ok(10));
    let (index, program) = type_of("Celsius");
    assert_eq!(index, Ok(14));
    assert!(matches!(program.types.get(14).unwrap().kind(), TypeKind::Alias(n, None) if n == "Celsius"));
    assert_eq!(type_of("1").0, Err("Unexpected token `1`; Expected `type name`.".to_string()));
    assert_eq!(type_of("(Bool").0, Err("Unexpected end of file; Expected `)`.".to_string()));
}

#[test]
fn derived_types() {
    let (index, program) = type_of("&&Int32");
    assert_eq!(index, Ok(15));
    assert!(matches!(program.types.get(14).unwrap().kind(), TypeKind::Pointer(6)));
    assert!(matches!(program.types.get(15).unwrap().kind(), TypeKind::Pointer(14)));

    let (index, program) = type_of("[Char]");
    assert_eq!(index, Ok(14));
    assert!(matches!(program.types.get(14).unwrap().kind(), TypeKind::Slice(11)));

    let (index, program) = type_of("[Char, 16]");
    assert_eq!(index, Ok(14));
    match program.types.get(14).unwrap().kind() {
        TypeKind::Array(11, size) => assert_eq!(show(size), "(implicit 16:6):3"),
        other => panic!("not an array: {:?}", other),
    }
    assert_eq!(type_of("[Char").0, Err("Unexpected end of file; Expected one of `]`, `,`.".to_string()));
}

#[test]
fn sum_types() {
    let (index, program) = type_of("None : Some(Int32) : Pair(Int32, &Char)");
    assert_eq!(index, Ok(15));
    match program.types.get(15).unwrap().kind() {
        TypeKind::Sum(variants) => {
            assert_eq!(variants.len(), 3);
            assert!(matches!(&variants[0], SumVariant::Basic(n, f) if n == "None" && f.is_empty()));
            assert!(matches!(&variants[1], SumVariant::Basic(n, f) if n == "Some" && *f == vec![6]));
            assert!(matches!(&variants[2], SumVariant::Basic(n, f) if n == "Pair" && *f == vec![6, 14]));
        }
        other => panic!("not a sum: {:?}", other),
    }
    let (index, _) = type_of("Unit()");
    assert_eq!(index, Ok(14));
}

// ------------------------------------------------------------ declarations

#[test]
fn aliases_forward_and_backward() {
    let program = program(
        "section Main let f(x :: Celsius) = 1 type Celsius = Float64 type Kelvin = Celsius",
    )
    .unwrap();
    assert_eq!(program.types.len(), 16);
    assert!(matches!(program.types.get(14).unwrap().kind(), TypeKind::Alias(n, Some(9)) if n == "Celsius"));
    assert_eq!(program.types.get(14).unwrap().location().unwrap().column, 42);
    assert!(matches!(program.types.get(15).unwrap().kind(), TypeKind::Alias(n, Some(14)) if n == "Kelvin"));
}

#[test]
fn alias_declared_twice_cites_the_first() {
    let mut parser = parser_of("section Main\ntype T = Int8\ntype T = Int16");
    let err = parser.parse().unwrap_err();
    match &err.inner {
        ParseError::Redefinition(first, name) => {
            assert_eq!(name, "T");
            assert_eq!(*first, Location { source_file_id: 0, line: 2, column: 5, width: 1 });
        }
        other => panic!("not a redefinition: {:?}", other),
    }
    assert_eq!(err.loc, Location { source_file_id: 0, line: 3, column: 5, width: 1 });
    assert_eq!(err.inner.to_string(), "Redefinition of `T`.");
}

#[test]
fn declaration_declared_twice_cites_the_first() {
    let mut parser = parser_of("section Main\nlet f() = 1\nlet g() = 2\nlet f() = 3");
    let err = parser.parse().unwrap_err();
    match &err.inner {
        ParseError::Redefinition(first, name) => {
            assert_eq!(name, "f");
            assert_eq!(first.line, 2);
        }
        other => panic!("not a redefinition: {:?}", other),
    }
    assert_eq!(err.loc.line, 4);
    // The same name in another section is another declaration.
    assert_eq!(failure("section A let f() = 1 section B let f() = 2"), "ok");
}

#[test]
fn section_declared_twice_cites_the_first() {
    let mut parser = parser_of("section A\nsection B\nsection A");
    let err = parser.parse().unwrap_err();
    match &err.inner {
        ParseError::Redefinition(first, name) => {
            assert_eq!(name, "A");
            assert_eq!(first.line, 1);
        }
        other => panic!("not a redefinition: {:?}", other),
    }
    assert_eq!(err.loc.line, 3);
    assert_eq!(parser.program().sections.len(), 2);
}

#[test]
fn require_after_a_declaration_is_warned_of() {
    let mut parser = parser_of("section Main require A let f() = g() require B type T = Int8 require C");
    assert!(parser.parse().is_ok());
    let warnings = parser.warnings();
    assert_eq!(warnings.len(), 2);
    assert!(matches!(warnings[0].inner, ParseError::RequireAfterDecl));
    assert_eq!(warnings[0].loc.column, 37);
    assert_eq!(warnings[0].inner.to_string(), "Encountered `require` after declarations.");
    assert_eq!(
        warnings[0].inner.hint(),
        Some("Move this over the first declaration.".to_string())
    );
    let program = parser.into_program();
    let names: Vec<&str> = program.sections[0].required.iter().map(|r| r.inner.as_str()).collect();
    assert_eq!(names, vec!["A", "B", "C"]);
}

#[test]
fn functions_with_and_without_parameters() {
    let program = program(
        "section Main let a = 1 let b() = 2 let c(x :: Int8, y = 2, z :: Int64 = 3) be return and d() = a",
    )
    .unwrap();
    let decls = &program.sections[0].declarations;
    let shapes: Vec<(String, usize, u32, bool)> = decls
        .iter()
        .map(|d| match d {
            Decl::Function(f) => {
                (f.ident.clone(), f.params.len(), f.required_params, f.tailcall_recursive)
            }
            other => panic!("not a function: {:?}", other),
        })
        .collect();
    assert_eq!(
        shapes,
        vec![
            ("a".to_string(), 0, 0, false),
            ("b".to_string(), 0, 0, false),
            ("c".to_string(), 3, 1, false),
            ("d".to_string(), 0, 0, true),
        ]
    );
    match &decls[2] {
        Decl::Function(c) => {
            assert_eq!(c.params[1].typ, None);
            assert_eq!(show(c.params[1].default_value.as_ref().unwrap()), "2:6");
            assert_eq!(show(c.params[2].default_value.as_ref().unwrap()), "(implicit 3:6):7");
            assert_eq!(c.return_type, Some(12));
            assert!(matches!(c.body, FunctionBody::Stmt(_)));
        }
        other => panic!("not a function: {:?}", other),
    }
}

#[test]
fn pattern_matched_bodies() {
    let program = program(
        "section Main let fact(n :: Int32) : = 0 => 1 : n => n * fact(n) let show(x :: Int8, y :: Int8) : ?, 0 be return : a, b be f(a)",
    )
    .unwrap();
    let decls = &program.sections[0].declarations;
    match &decls[0] {
        Decl::Function(f) => match &f.body {
            FunctionBody::PatternMatchedExpr(branches) => {
                assert_eq!(branches.len(), 2);
                assert_eq!(patterns(&branches[0].0), "=0:6");
                assert_eq!(show(&branches[0].1), "1:6");
                assert_eq!(patterns(&branches[1].0), "n");
                // The second branch is brought to the type of the first.
                assert_eq!(show(&branches[1].1), "(implicit (* n (call fact [n]))):6");
                assert_eq!(f.return_type, Some(6));
            }
            other => panic!("not expression branches: {:?}", other),
        },
        other => panic!("not a function: {:?}", other),
    }
    match &decls[1] {
        Decl::Function(f) => match &f.body {
            FunctionBody::PatternMatchedStmt(branches) => {
                assert_eq!(branches.len(), 2);
                assert_eq!(patterns(&branches[1].0), "a, b");
                assert_eq!(f.return_type, Some(12));
            }
            other => panic!("not statement branches: {:?}", other),
        },
        other => panic!("not a function: {:?}", other),
    }
}

#[test]
fn branches_have_as_many_patterns_as_parameters() {
    // The error stands at the first pattern of the branch.
    let source = "section Main let f(x :: Int8) : a, b => 1";
    assert_eq!(
        failure(source),
        format!("1:{}: Wrong number of patterns, expected 1.", source.find(": a").unwrap() + 2)
    );
    let source = "section Main let f(x :: Int8, y :: Int8) : a, b be return : ? be return";
    assert_eq!(
        failure(source),
        format!("1:{}: Wrong number of patterns, expected 2.", source.find('?').unwrap())
    );
    let source = "section Main let f : ? => 1";
    assert_eq!(
        failure(source),
        format!("1:{}: Wrong number of patterns, expected 0.", source.find('?').unwrap())
    );
}

#[test]
fn errors_of_declarations() {
    assert_eq!(failure("let f() = 1"), "1:0: Unexpected token `let`; Expected `section`.");
    assert_eq!(failure("section 1"), "1:8: Unexpected token `1`; Expected `section name`.");
    assert_eq!(failure("section"), "1:7: Unexpected token `end of file`; Expected `section name`.");
    assert_eq!(failure("section Main require"), "1:20: Unexpected token `end of file`; Expected `section name`.");
    assert_eq!(
        failure("section Main f"),
        "1:13: Unexpected token `f`; Expected one of `let`, `and`, `global`, `manifest`, `static`."
    );
    assert_eq!(failure("section Main global x"), "1:13: <internal> Not Implemented.");
    assert_eq!(
        failure("section Main let f(x) = 1"),
        "1:19: Parameter requires either a type or default value."
    );
    assert_eq!(
        failure("section Main let f() 1"),
        "1:21: Unexpected token `1`; Expected one of `=`, `be`."
    );
    assert_eq!(failure("section Main type = Int8"), "1:18: Unexpected token `=`; Expected `section name`.");
    assert_eq!(failure("section Main type T Int8"), "1:20: Unexpected token `Int8`; Expected `=`.");
    assert_eq!(failure("section Main let f() = $"), "1:23: unexpected character `$`");
    assert_eq!(failure("$"), "1:0: unexpected character `$`");
    assert_eq!(failure(""), "ok");
}

#[test]
fn body_of_an_expression_may_end_in_a_semicolon() {
    assert_eq!(failure("section Main let f() = 1; let g() = 2"), "ok");
}

// ------------------------------------------------------- the token level

fn token(kind: TokenKind, column: u32) -> Token {
    Token::new(Location { source_file_id: 0, line: 1, column, width: 1 }, kind)
}

#[test]
fn tokens_by_hand_get_their_eof() {
    // Before the tokens stands an end-of-file token, on which the parser
    // stands until its first step.
    let parser = Parser::from_tokens(vec![], Program::new());
    assert_eq!(parser.tokens.len(), 2);
    assert!(parser.current().is_eof());
    let parser = Parser::from_tokens(vec![token(TokenKind::Plus, 4)], Program::new());
    assert_eq!(parser.tokens.len(), 3);
    assert!(parser.current().is_eof());
    assert_eq!(parser.current().loc.column, 4);
    assert_eq!(parser.tokens[2].loc.column, 4);
    let parser = Parser::from_tokens(vec![token(TokenKind::Eof, 0)], Program::new());
    assert_eq!(parser.tokens.len(), 2);
}

#[test]
fn a_new_parser_has_read_nothing() {
    let file = SourceFile::new("test.b".to_string(), "\n  section Main".to_string(), 7);
    let lexer = Lexer::from(&file);
    let start = lexer.current_loc();
    let mut parser = Parser::new(lexer, Program::new());
    assert!(parser.warnings().is_empty());
    assert!(parser.current().is_eof());
    assert_eq!(parser.current().loc, start);
    assert_eq!(parser.pos, 0);
    assert!(parser.program().sections.is_empty());
    // The first step leaves that token and comes to stand on the first
    // token of the input.
    assert!(matches!(parser.advance(), Ok(t) if t.is_eof()));
    assert!(parser.at(&TokenKind::Section));
    assert_eq!(parser.current().loc.line, 2);
}

#[test]
fn moving_over_tokens() {
    let mut parser = Parser::from_tokens(
        vec![
            token(TokenKind::Let, 0),
            token(TokenKind::Ident("f".to_string()), 4),
            token(TokenKind::Error(Some("bad".to_string())), 6),
            token(TokenKind::Plus, 8),
        ],
        Program::new(),
    );
    assert!(matches!(parser.advance(), Ok(t) if t.is_eof()));
    assert!(parser.at(&TokenKind::Let));
    assert!(matches!(parser.advance_if(&vec![TokenKind::And]), Ok(None)));
    assert_eq!(parser.pos, 1);
    assert!(matches!(parser.expect(&vec![TokenKind::And, TokenKind::Let]), Ok(t) if matches!(t.kind, TokenKind::Let)));
    assert_eq!(parser.pos, 2);
    // Moving onto an error token fails with its message, at its place.
    let err = parser.expect_ident().unwrap_err();
    assert!(matches!(&err.inner, ParseError::Generic(m) if m == "bad"));
    assert_eq!(err.loc.column, 6);
    assert_eq!(parser.pos, 3);
    assert!(matches!(parser.advance(), Ok(t) if matches!(t.kind, TokenKind::Error(_))));
    assert!(matches!(parser.take_if(TokenKind::Minus), Ok(false)));
    assert!(matches!(parser.take_if(TokenKind::Plus), Ok(true)));
    assert!(parser.current().is_eof());
    // At the end the cursor stays.
    assert!(matches!(parser.advance(), Ok(t) if t.is_eof()));
    assert_eq!(parser.pos, 5);
    let err = parser.expect(&vec![TokenKind::Comma, TokenKind::RParen]).unwrap_err();
    assert_eq!(err.inner.to_string(), "Unexpected end of file; Expected one of `,`, `)`.");
    let err = parser.expect_kind(TokenKind::Comma).unwrap_err();
    assert!(matches!(&err.inner, ParseError::UnexpectedEof(want) if want.len() == 1));
}

#[test]
fn parse_of_an_error_token_fails_at_once() {
    let mut parser =
        Parser::from_tokens(vec![token(TokenKind::Error(None), 3)], Program::new());
    let err = parser.parse().unwrap_err();
    assert!(matches!(&err.inner, ParseError::Generic(m) if m.is_empty()));
    assert_eq!(err.loc.column, 3);
}

#[test]
fn one_program_for_many_files() {
    let first = SourceFile::new("a.b".to_string(), "section A type T = &Int8 let f() = #x".to_string(), 0);
    let second = SourceFile::new("b.b".to_string(), "section B let g(p :: &Int8, q :: T) = #y = #x".to_string(), 1);
    let mut parser = Parser::new(Lexer::from(&first), Program::new());
    assert!(parser.parse().is_ok());
    let mut parser = Parser::new(Lexer::from(&second), parser.into_program());
    assert!(parser.parse().is_ok());
    let program = parser.into_program();
    assert_eq!(program.sections.len(), 2);
    assert_eq!(program.sections[1].loc.source_file_id, 1);
    // Pointer to Int8 and the alias are the types of the first file.
    assert_eq!(program.types.len(), 16);
    assert_eq!(program.atoms, vec!["x".to_string(), "y".to_string()]);
    match &program.sections[1].declarations[0] {
        Decl::Function(g) => {
            assert_eq!(g.params[0].typ, Some(14));
            assert_eq!(g.params[1].typ, Some(15));
        }
        other => panic!("not a function: {:?}", other),
    }
}
