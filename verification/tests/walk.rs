use bcpl_frontend::ast::expr::{Expr, ExprKind};
use bcpl_frontend::ast::pattern::Pattern;
use bcpl_frontend::ast::stmt::{Stmt, StmtKind};
use bcpl_frontend::ast::trail::Trail;
use bcpl_frontend::ast::visitor::{Action, Traversable, Visitor, Walker};
use bcpl_frontend::ast::{Function, Param, Program, Section};
use bcpl_frontend::token::lexer::Lexer;
use bcpl_frontend::parser::Parser;
use bcpl_frontend::source_file::SourceFile;
use bcpl_frontend::typechecker::typecheck_ast;

/// Writes down the hooks in the order in which the walk calls them, and
/// asks for the end of the walk at the node named, if one is named.
struct Recorder {
    trace: Vec<String>,
    stop_at: Option<String>,
    fail_at: Option<String>,
    stopped: bool,
    failed: bool,
}

impl Recorder {
    fn new() -> Self {
        Recorder { trace: vec![], stop_at: None, fail_at: None, stopped: false, failed: false }
    }

    fn note(&mut self, entry: String) -> Result<Action, String> {
        assert!(!self.stopped);
        self.trace.push(entry.clone());
        if self.fail_at.as_ref() == Some(&entry) {
            self.stopped = true;
            self.failed = true;
            Err(entry)
        } else if self.stop_at.as_ref() == Some(&entry) {
            self.stopped = true;
            Ok(Action::Break)
        } else {
            Ok(Action::Continue)
        }
    }
}

impl Walker for Recorder {
    fn stopped(&self) -> bool {
        self.stopped
    }

    fn failed(&self) -> bool {
        self.failed
    }

    // The recorder fills in types that the parser left open.
    fn keeps(&self) -> bool {
        false
    }

    // The trail is what proofs speak of; at run time `trace` holds the
    // calls, and nothing asks for the trail.
    fn seen(&self) -> Trail {
        unreachable!()
    }
}

fn expr_name(e: &Expr) -> String {
    match &e.kind {
        ExprKind::Ident(n) => n.clone(),
        ExprKind::IntLit(v) => format!("{v}"),
        ExprKind::Add(..) => "+".to_string(),
        ExprKind::Mul(..) => "*".to_string(),
        ExprKind::FuncCall(..) => "call".to_string(),
        ExprKind::ImplicitCast(..) => "cast".to_string(),
        ExprKind::ValOf(..) => "valof".to_string(),
        other => format!("{:?}", other),
    }
}

fn stmt_name(s: &Stmt) -> String {
    match &s.kind {
        StmtKind::Block(_) => "block".to_string(),
        StmtKind::Expr(_) => "expr".to_string(),
        StmtKind::ResultIs(_) => "resultis".to_string(),
        StmtKind::If(..) => "if".to_string(),
        StmtKind::While(..) => "while".to_string(),
        StmtKind::Return => "return".to_string(),
        StmtKind::Break => "break".to_string(),
        other => format!("{:?}", other),
    }
}

impl Visitor<Program, String> for Recorder {
    fn visit(&mut self, _node: &mut Program) -> Result<Action, String> {
        self.note("program".to_string())
    }
    fn visit_before(&mut self, _node: &mut Program) -> Result<Action, String> {
        self.note("<program".to_string())
    }
}

impl Visitor<Section, String> for Recorder {
    fn visit(&mut self, node: &mut Section) -> Result<Action, String> {
        self.note(format!("section {}", node.ident))
    }
    fn visit_before(&mut self, node: &mut Section) -> Result<Action, String> {
        self.note(format!("<section {}", node.ident))
    }
}

impl Visitor<Function, String> for Recorder {
    fn visit(&mut self, node: &mut Function) -> Result<Action, String> {
        self.note(format!("fn {}", node.ident))
    }
    fn visit_before(&mut self, node: &mut Function) -> Result<Action, String> {
        self.note(format!("<fn {}", node.ident))
    }
}

impl Visitor<Param, String> for Recorder {
    fn visit(&mut self, _node: &mut Param) -> Result<Action, String> {
        self.note("param".to_string())
    }
    fn visit_before(&mut self, _node: &mut Param) -> Result<Action, String> {
        Ok(Action::Continue)
    }
}

impl Visitor<Stmt, String> for Recorder {
    fn visit(&mut self, node: &mut Stmt) -> Result<Action, String> {
        self.note(stmt_name(node))
    }
    fn visit_before(&mut self, _node: &mut Stmt) -> Result<Action, String> {
        Ok(Action::Continue)
    }
}

impl Visitor<Expr, String> for Recorder {
    fn visit(&mut self, node: &mut Expr) -> Result<Action, String> {
        // A later pass may fill in what the parser left open.
        if node.typ.is_none() {
            node.set_typ(6);
        }
        self.note(expr_name(node))
    }
    fn visit_before(&mut self, node: &mut Expr) -> Result<Action, String> {
        self.note(format!("<{}", expr_name(node)))
    }
}

impl Visitor<Pattern, String> for Recorder {
    fn visit(&mut self, node: &mut Pattern) -> Result<Action, String> {
        match node {
            Pattern::Query(n) => self.note(format!("pattern {n}")),
            Pattern::Any => self.note("pattern ?".to_string()),
            Pattern::Or(..) => self.note("pattern |".to_string()),
            Pattern::And(..) => self.note("pattern &".to_string()),
            _ => self.note("pattern".to_string()),
        }
    }
    fn visit_before(&mut self, _node: &mut Pattern) -> Result<Action, String> {
        Ok(Action::Continue)
    }
}

fn parsed(source: &str) -> Program {
    let file = SourceFile::new("test.b".to_string(), source.to_string(), 0);
    let mut parser = Parser::new(Lexer::from(&file), Program::new());
    parser.parse().unwrap();
    parser.into_program()
}

#[test]
fn children_come_before_their_parent() {
    let mut program = parsed("section Main let f(x :: Int32) = x + 2 * y");
    let mut recorder = Recorder::new();
    let r = program.traverse(&mut recorder);
    assert_eq!(r, Ok(Action::Continue));
    assert_eq!(
        recorder.trace,
        vec![
            "<program",
            "<section Main",
            "<fn f",
            "pattern x",
            "param",
            "<+",
            "<x",
            "x",
            "<*",
            "<2",
            "2",
            // `y` has no type yet, so it stands under a cast to the type of `2`.
            "<cast",
            "<y",
            "y",
            "cast",
            "*",
            "+",
            "fn f",
            "section Main",
            "program",
        ]
    );
    // The hooks have written into the tree.
    match &program.sections[0].declarations[0] {
        bcpl_frontend::ast::Decl::Function(f) => match &f.body {
            bcpl_frontend::ast::FunctionBody::Expr(e) => assert_eq!(e.typ, Some(6)),
            other => panic!("not an expression: {:?}", other),
        },
        other => panic!("not a function: {:?}", other),
    }
}

#[test]
fn break_ends_the_walk_at_once() {
    let mut program = parsed("section Main let f() = a + b let g() = c");
    let mut recorder = Recorder::new();
    recorder.stop_at = Some("a".to_string());
    let r = program.traverse(&mut recorder);
    assert_eq!(r, Ok(Action::Break));
    assert_eq!(recorder.trace, vec!["<program", "<section Main", "<fn f", "<+", "<a", "a"]);
}

#[test]
fn break_before_the_children_skips_them() {
    let mut program = parsed("section Main let f() = a + b");
    let mut recorder = Recorder::new();
    recorder.stop_at = Some("<fn f".to_string());
    assert_eq!(program.traverse(&mut recorder), Ok(Action::Break));
    assert_eq!(recorder.trace, vec!["<program", "<section Main", "<fn f"]);
}

#[test]
fn an_error_of_a_hook_ends_the_walk() {
    let mut program = parsed("section Main let f() be { g(1); return; }");
    let mut recorder = Recorder::new();
    recorder.fail_at = Some("call".to_string());
    assert_eq!(program.traverse(&mut recorder), Err("call".to_string()));
    assert_eq!(
        recorder.trace,
        vec!["<program", "<section Main", "<fn f", "<call", "<g", "g", "<1", "1", "call"]
    );
}

#[test]
fn statements_and_patterns_are_walked_in_order() {
    let mut program =
        parsed("section Main let f(n :: Int32) : a | b => n : ? => valof { resultis n; }");
    let mut recorder = Recorder::new();
    assert_eq!(program.traverse(&mut recorder), Ok(Action::Continue));
    let trace: Vec<&str> = recorder
        .trace
        .iter()
        .map(|s| s.as_str())
        .filter(|s| !s.starts_with('<'))
        .collect();
    assert_eq!(
        trace,
        vec![
            "pattern n", "param", "pattern a", "pattern b", "pattern |", "n", "pattern ?", "n",
            "resultis", "block", "valof", "fn f", "section Main", "program",
        ]
    );
}

#[test]
fn the_type_checker_walks_to_the_end() {
    let source = "section Main type T = &Int32 let f(x :: T) be { return; }";
    let mut program = parsed(source);
    assert!(typecheck_ast(&mut program).is_ok());
    assert_eq!(program.sections.len(), 1);
    // The program is as the parser left it.
    assert_eq!(format!("{:?}", program), format!("{:?}", parsed(source)));
}
