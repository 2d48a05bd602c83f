use std::collections::{HashMap, HashSet};

use bcpl_frontend::context::{BuildKind, CompileResult, Context, OutputFile};
use bcpl_frontend::error::{CompilerError, IntoCompilerError, Severity};
use bcpl_frontend::parser::{tokens_to_string, ParseError};
use bcpl_frontend::source_file::{line_number, Located, Location, SourceFile, WithLocation};
use bcpl_frontend::text::{from_chars, push_decimal, push_repeated, push_text, str_eq, to_chars};
use bcpl_frontend::token::TokenKind;

fn at(line: u32, column: u32, width: u32) -> Location {
    Location { source_file_id: 0, line, column, width }
}

#[test]
fn lines_of_a_source_file() {
    let file = SourceFile::new("a.b".to_string(), "one\ntwo\n\nfour".to_string(), 7);
    assert_eq!(file.id(), 7);
    assert_eq!(file.path(), "a.b");
    assert_eq!(file.contents(), "one\ntwo\n\nfour");
    assert_eq!(file.line(1), Some(&"one".to_string()));
    assert_eq!(file.line(3), Some(&"".to_string()));
    assert_eq!(file.line(4), Some(&"four".to_string()));
    assert_eq!(file.line(0), None);
    assert_eq!(file.line(5), None);
    let empty = SourceFile::new("e".to_string(), String::new(), 0);
    assert_eq!(empty.line(1), Some(&"".to_string()));
    assert_eq!(empty.line(2), None);
    let ends = SourceFile::new("e".to_string(), "x\n".to_string(), 0);
    assert_eq!(ends.line(2), Some(&"".to_string()));
    assert_eq!(ends.line(3), None);
}

#[test]
fn locations() {
    let file = SourceFile::new("a.b".to_string(), String::new(), 5);
    let mut loc = Location::new(&file, 3, 4, 2);
    assert_eq!(loc, Location { source_file_id: 5, line: 3, column: 4, width: 2 });
    assert_eq!((loc.file_id(), loc.line(), loc.column(), loc.width()), (5, 3, 4, 2));
    loc.set_width(9);
    assert_eq!(loc.width, 9);
    assert_eq!(Location::in_file(1, 2, 3, 4), Location { source_file_id: 1, line: 2, column: 3, width: 4 });
    // A measure that does not fit 32 bits keeps its low 32 bits.
    if usize::BITS > 32 {
        let big = (1u64 << 32) as usize + 5;
        assert_eq!(Location::in_file(0, big, 0, 0).line, 5);
    }
}

#[test]
fn located_values() {
    let value = Located::with_location(20u32, at(1, 2, 3));
    assert_eq!(*value.location(), at(1, 2, 3));
    assert_eq!(*value.inner(), 20);
    let mapped = value.map(|v| v + 1);
    assert_eq!(mapped.loc, at(1, 2, 3));
    assert_eq!(mapped.unwrap(), 21);
    let name = "x".to_string().with_location(at(4, 5, 6));
    assert_eq!(name.inner, "x");
    assert_eq!(name.loc.line, 4);
}

#[test]
fn located_values_compare_and_hash_by_the_value() {
    let here = Located::with_location("x".to_string(), at(1, 2, 3));
    let there = Located::with_location("x".to_string(), at(7, 8, 9));
    let other = Located::with_location("y".to_string(), at(1, 2, 3));
    assert!(here == there);
    assert!(here != other);
    // What is inside is reached through the located value.
    assert_eq!(here.len(), 1);
    assert!(there.starts_with("x"));
    let mut names = HashSet::new();
    assert!(names.insert(here));
    assert!(!names.insert(there));
    assert!(names.insert(other));
    assert_eq!(names.len(), 2);
}

#[test]
fn text_helpers() {
    assert_eq!(to_chars("héllo"), vec!['h', 'é', 'l', 'l', 'o']);
    assert_eq!(from_chars(&vec!['a', 'b', 'c', 'd'], 1, 3), "bc");
    assert_eq!(from_chars(&vec!['a'], 1, 1), "");
    assert!(str_eq("abc", "abc"));
    assert!(!str_eq("abc", "abd"));
    assert!(!str_eq("abc", "ab"));
    assert!(str_eq("", ""));
    let mut s = "n=".to_string();
    push_decimal(&mut s, 0);
    push_text(&mut s, ", ");
    push_decimal(&mut s, 9070);
    push_repeated(&mut s, '!', 3);
    push_repeated(&mut s, '?', 0);
    assert_eq!(s, "n=0, 9070!!!");
    assert_eq!(line_number(7), "    7");
    assert_eq!(line_number(1234), " 1234");
    assert_eq!(line_number(123456), " 123456");
}

#[test]
fn severities() {
    assert_eq!(Severity::Error.label(), "[Error]");
    assert_eq!(Severity::Warning.label(), "[Warning]");
    assert_eq!(Severity::Hint.label(), "[Hint]");
    // Bold, then the colour, then back to the colours of the terminal.
    assert_eq!(Severity::Error.to_string(), "\x1b[91;1m[Error]\x1b[0;39;49m");
    assert_eq!(Severity::Warning.to_string(), "\x1b[93;1m[Warning]\x1b[0;39;49m");
    assert_eq!(Severity::Hint.to_string(), "\x1b[96;1m[Hint]\x1b[0;39;49m");
}

#[test]
fn messages_of_parse_errors() {
    let cases: Vec<(ParseError, &str, Severity)> = vec![
        (ParseError::NotImplemented, "<internal> Not Implemented.", Severity::Error),
        (ParseError::Generic("as given".to_string()), "as given", Severity::Error),
        (
            ParseError::UnexpectedEof(vec![TokenKind::RParen]),
            "Unexpected end of file; Expected `)`.",
            Severity::Error,
        ),
        (
            ParseError::UnexpectedEof(vec![]),
            "Unexpected end of file; Expected one of .",
            Severity::Error,
        ),
        (
            ParseError::UnexpectedToken("x".to_string(), vec![TokenKind::Eq, TokenKind::Be, TokenKind::Colon]),
            "Unexpected token `x`; Expected one of `=`, `be`, `:`.",
            Severity::Error,
        ),
        (ParseError::Redefinition(at(1, 1, 1), "f".to_string()), "Redefinition of `f`.", Severity::Error),
        (
            ParseError::InvalidStmt("case".to_string(), "switchon".to_string()),
            "Encountered `case` statement outside of `switchon`.",
            Severity::Error,
        ),
        (ParseError::WrongNumOfPatterns(12), "Wrong number of patterns, expected 12.", Severity::Error),
        (ParseError::MissingBranch("match".to_string()), "Missing branch in `match`.", Severity::Error),
        (ParseError::NoResultValue, "No `resultis` statement found in `valof` body.", Severity::Error),
        (ParseError::RequireAfterDecl, "Encountered `require` after declarations.", Severity::Warning),
        (
            ParseError::ExprWithoutSideEffect,
            "Expression has no side-effect when used as a statement.",
            Severity::Warning,
        ),
    ];
    for (error, message, severity) in cases {
        assert_eq!(error.to_string(), message);
        assert_eq!(error.severity(), severity);
        let copy = error.duplicate();
        assert_eq!(copy.to_string(), message);
        let diagnostic = error.into_compiler_error();
        assert_eq!(diagnostic.message(), message);
        assert_eq!(*diagnostic.severity(), severity);
    }
    assert_eq!(tokens_to_string(&vec![TokenKind::Plus]), "`+`");
    assert_eq!(tokens_to_string(&vec![TokenKind::Plus, TokenKind::Minus]), "one of `+`, `-`");
}

#[test]
fn a_redefinition_points_at_the_first_definition() {
    let error = ParseError::Redefinition(at(3, 4, 5), "f".to_string());
    assert!(error.hint().is_none());
    let more = error.additional();
    assert_eq!(more.len(), 1);
    assert_eq!(more[0].loc, at(3, 4, 5));
    assert_eq!(*more[0].inner.severity(), Severity::Hint);
    assert_eq!(more[0].inner.message(), "First defined here.");
    assert!(more[0].inner.hint().is_none());
    assert!(more[0].inner.additional.is_empty());
    assert!(ParseError::NoResultValue.additional().is_empty());
    let located = error.with_location(at(9, 0, 1));
    assert_eq!(located.loc.line, 9);
    let diagnostic = located.unwrap().into_compiler_error();
    assert_eq!(diagnostic.additional.len(), 1);
    let same = diagnostic.into_compiler_error();
    assert_eq!(same.message(), "Redefinition of `f`.");
}

fn plain(text: &str) -> String {
    // What is left of a text when the escape sequences are taken out.
    let mut out = String::new();
    let mut chars = text.chars();
    while let Some(c) = chars.next() {
        if c == '\x1b' {
            for d in chars.by_ref() {
                if d == 'm' {
                    break;
                }
            }
        } else {
            out.push(c);
        }
    }
    out
}

#[test]
fn a_diagnostic_with_its_line() {
    let file = SourceFile::new("main.b".to_string(), "section Main\nlet f() be break\n".to_string(), 0);
    let err = Located::with_location(
        CompilerError::new(Severity::Error, "No break here.".to_string(), None, vec![]),
        at(2, 11, 5),
    );
    let text = file.highlight_error(&err).unwrap();
    assert_eq!(
        plain(&text),
        "[Error] main.b:2:11: No break here.\n    2 | let f() be break\n      |            ~~~~~\n"
    );
    assert_eq!(
        text,
        "\x1b[91;1m[Error]\x1b[0;39;49m main.b:2:11: No break here.\n\
         \x1b[90;1m    2\x1b[0;39;49m \x1b[90m|\x1b[0;39;49m let f() be \x1b[93;1mbreak\x1b[0;39;49m\n      \
         \x1b[90m|\x1b[0;39;49m            \x1b[33m~~~~~\x1b[0;39;49m\n"
    );
}

#[test]
fn a_diagnostic_with_hint_and_company() {
    let file = SourceFile::new("main.b".to_string(), "type T = Int8\ntype T = Int16".to_string(), 0);
    let first = Located::with_location(
        CompilerError::new(Severity::Hint, "First defined here.".to_string(), None, vec![]),
        at(1, 5, 1),
    );
    let err = Located::with_location(
        CompilerError::new(
            Severity::Warning,
            "Redefinition of `T`.".to_string(),
            Some("Pick another name.".to_string()),
            vec![first],
        ),
        at(2, 5, 1),
    );
    let text = file.highlight_error(&err).unwrap();
    assert_eq!(
        plain(&text),
        "[Warning] main.b:2:5: Redefinition of `T`.\n    2 | type T = Int16\n      |      ~ <- hint: Pick another name.\n\
         [Hint] main.b:1:5: First defined here.\n    1 | type T = Int8\n      |      ~\n"
    );
    assert!(text.contains("\x1b[90m<-\x1b[0;39;49m \x1b[97;1mhint:\x1b[0;39;49m \x1b[97mPick another name.\x1b[0;39;49m"));
}

#[test]
fn a_diagnostic_outside_of_the_file_is_not_shown() {
    let file = SourceFile::new("main.b".to_string(), "abc\ndef".to_string(), 0);
    let shown = |line: u32, column: u32, width: u32, more: Vec<Located<CompilerError>>| {
        file.highlight_error(&Located::with_location(
            CompilerError::new(Severity::Error, "m".to_string(), None, more),
            at(line, column, width),
        ))
        .is_some()
    };
    assert!(shown(1, 0, 3, vec![]));
    assert!(shown(2, 3, 0, vec![]));
    assert!(!shown(0, 0, 1, vec![]));
    assert!(!shown(3, 0, 1, vec![]));
    assert!(!shown(1, 2, 2, vec![]));
    assert!(!shown(1, 4, 0, vec![]));
    assert!(!shown(1, u32::MAX, u32::MAX, vec![]));
    let far = Located::with_location(
        CompilerError::new(Severity::Hint, "h".to_string(), None, vec![]),
        at(9, 0, 1),
    );
    assert!(!shown(1, 0, 1, vec![far]));
}

#[test]
fn endings_of_builds() {
    assert_eq!(BuildKind::Executable.ext_unix(), "");
    assert_eq!(BuildKind::Object.ext_unix(), ".o");
    assert_eq!(BuildKind::SharedObject.ext_unix(), ".so");
    assert_eq!(BuildKind::Executable.ext_windows(), ".exe");
    assert_eq!(BuildKind::Object.ext_windows(), ".lib");
    assert_eq!(BuildKind::SharedObject.ext_windows(), ".dll");
    assert_eq!(BuildKind::Object.ext("linux"), Some(".o"));
    assert_eq!(BuildKind::Object.ext("macos"), Some(".o"));
    assert_eq!(BuildKind::Object.ext("unix"), Some(".o"));
    assert_eq!(BuildKind::Object.ext("windows"), Some(".lib"));
    assert_eq!(BuildKind::Object.ext("plan9"), None);
    assert_eq!(BuildKind::default(), BuildKind::Executable);
    assert_eq!(OutputFile::default().to_filename(&BuildKind::Executable, "linux"), "a");
    assert_eq!(OutputFile::default().to_filename(&BuildKind::SharedObject, "windows"), "a.dll");
    assert_eq!(OutputFile::Name("out".to_string()).to_filename(&BuildKind::Object, "plan9"), "out");
}

fn files(sources: &[(u32, &str)]) -> HashMap<u32, SourceFile> {
    sources
        .iter()
        .map(|(id, text)| (*id, SourceFile::new(format!("{id}.b"), text.to_string(), *id)))
        .collect()
}

#[test]
fn settings_of_a_run() {
    let mut ctx = Context::from_program_name("bcplc".to_string());
    assert_eq!(ctx.program_name(), "bcplc");
    assert!(matches!(ctx.output_file, OutputFile::Default));
    assert_eq!(ctx.build_kind, BuildKind::Executable);
    assert!(ctx.tags.is_empty());
    assert!(ctx.program().sections.is_empty());
    assert!(ctx.program().atoms.is_empty());
    assert_eq!(ctx.program().types.len(), 14);
    ctx.set_output_file("out".to_string());
    assert!(matches!(&ctx.output_file, OutputFile::Name(n) if n == "out"));
    ctx.define_tag("DEBUG".to_string());
    ctx.define_tag("X".to_string());
    assert_eq!(ctx.tags, vec!["DEBUG".to_string(), "X".to_string()]);
    ctx.set_build_kind(BuildKind::Object);
    assert_eq!(ctx.build_kind, BuildKind::Object);
    assert!(ctx.source_files().is_empty());
    ctx.add_source_files(files(&[(0, "section A"), (1, "section B")]));
    ctx.add_source_files(files(&[(1, "section C"), (2, "section D")]));
    assert_eq!(ctx.source_files().len(), 3);
    assert_eq!(ctx.source_files()[&1].contents(), "section C");
    assert_eq!(ctx.source_files()[&0].contents(), "section A");
}

#[test]
fn a_clean_run() {
    let mut ctx = Context::from_program_name("bcplc".to_string());
    ctx.add_source_files(files(&[(0, "section A let f() = g()"), (1, "section B let g() = f()")]));
    assert!(matches!(ctx.compile(), CompileResult::Success));
    assert_eq!(ctx.program().sections().len(), 2);
}

#[test]
fn a_run_with_warnings() {
    let mut ctx = Context::from_program_name("bcplc".to_string());
    ctx.add_source_files(files(&[(4, "section A let f() be { 1; } require B")]));
    match ctx.compile() {
        CompileResult::Warn(warnings) => {
            assert_eq!(warnings.len(), 2);
            assert_eq!(
                warnings[0].inner.message(),
                "Expression has no side-effect when used as a statement."
            );
            assert_eq!(*warnings[0].inner.severity(), Severity::Warning);
            assert_eq!(warnings[0].loc.source_file_id, 4);
            assert_eq!(warnings[1].inner.message(), "Encountered `require` after declarations.");
            assert_eq!(
                *warnings[1].inner.hint(),
                Some("Move this over the first declaration.".to_string())
            );
        }
        other => panic!("not warnings: {:?}", other),
    }
}

#[test]
fn a_run_with_errors() {
    let mut ctx = Context::from_program_name("bcplc".to_string());
    ctx.add_source_files(files(&[
        (0, "section A let f() = "),
        (1, "section B let g() = 1"),
        (2, "section C let h() be break"),
    ]));
    match ctx.compile() {
        CompileResult::Failure(errors) => {
            assert_eq!(errors.len(), 2);
            let mut messages: Vec<(u32, String)> = errors
                .iter()
                .map(|e| (e.loc.source_file_id, e.inner.message().clone()))
                .collect();
            messages.sort();
            assert_eq!(
                messages,
                vec![
                    (0, "Unexpected token `end of file`; Expected `expression`.".to_string()),
                    (
                        2,
                        "Encountered `break` statement outside of `loop, match, every or switchon`."
                            .to_string()
                    ),
                ]
            );
        }
        other => panic!("not errors: {:?}", other),
    }
    // The file without error is part of the program.
    assert!(ctx.program().sections().iter().any(|s| s.ident() == "B"));
}
