//! What one run of the compiler works on: its input files, its settings,
//! and the program that it builds.

use std::collections::HashMap;
use vstd::prelude::*;
use crate::ast::types::{grown, lemma_grown_twice, BUILTIN_COUNT};
use crate::ast::{Program, SectionView};
use crate::error::{
    diagnostics, lemma_diagnostics_push, CompilerError, Diagnostic, IntoCompilerError,
};
use crate::grammar::decls::program;
use crate::grammar::{notes, Cursor, Note, Parsed};
use crate::token::lexer::{stream, Lexer, Place};
use crate::parser::{ParseError, Parser};
use crate::source_file::{Located, Location, SourceFile, SourceFileId};
use crate::text::str_eq;

verus! {

/// What is to be built.
#[derive(Clone, Copy, Debug, PartialEq, Eq, Structural)]
pub enum BuildKind {
    Executable,
    Object,
    SharedObject,
}

impl BuildKind {
    /// The ending of the file name of such a build on Unix.
    pub open spec fn unix_ending(self) -> Seq<char> {
        match self {
            BuildKind::Executable => ""@,
            BuildKind::Object => ".o"@,
            BuildKind::SharedObject => ".so"@,
        }
    }

    /// The ending of the file name of such a build on Windows.
    pub open spec fn windows_ending(self) -> Seq<char> {
        match self {
            BuildKind::Executable => ".exe"@,
            BuildKind::Object => ".lib"@,
            BuildKind::SharedObject => ".dll"@,
        }
    }

    /// The ending of the file name of such a build on the operating system
    /// named, if the name is known.
    pub open spec fn ending(self, os: Seq<char>) -> Option<Seq<char>> {
        if os == "linux"@ || os == "macos"@ || os == "unix"@ {
            Some(self.unix_ending())
        } else if os == "windows"@ {
            Some(self.windows_ending())
        } else {
            None
        }
    }

    pub fn ext(&self, os: &str) -> (r: Option<&'static str>)
        ensures
            match r {
                Some(e) => self.ending(os@) == Some(e@),
                None => self.ending(os@) is None,
            },
    {
        if str_eq(os, "linux") || str_eq(os, "macos") || str_eq(os, "unix") {
            Some(self.ext_unix())
        } else if str_eq(os, "windows") {
            Some(self.ext_windows())
        } else {
            None
        }
    }

    pub fn ext_unix(&self) -> (r: &'static str)
        ensures
            r@ == self.unix_ending(),
    {
        match self {
            BuildKind::Executable => "",
            BuildKind::Object => ".o",
            BuildKind::SharedObject => ".so",
        }
    }

    pub fn ext_windows(&self) -> (r: &'static str)
        ensures
            r@ == self.windows_ending(),
    {
        match self {
            BuildKind::Executable => ".exe",
            BuildKind::Object => ".lib",
            BuildKind::SharedObject => ".dll",
        }
    }
}

impl Default for BuildKind {
    fn default() -> (r: Self)
        ensures
            r == BuildKind::Executable,
    {
        BuildKind::Executable
    }
}

/// Where the build goes: a file of the given name, or the usual one.
#[derive(Debug)]
pub enum OutputFile {
    Name(String),
    Default,
}

impl OutputFile {
    /// The name of the output file on the operating system named: the
    /// name given, or else `a` with the ending of the build.
    pub fn to_filename(self, build_kind: &BuildKind, os: &str) -> (r: String)
        requires
            self is Default ==> build_kind.ending(os@) is Some,
        ensures
            r@ == (match self {
                OutputFile::Name(name) => name@,
                OutputFile::Default => "a"@ + build_kind.ending(os@)->0,
            }),
    {
        match self {
            OutputFile::Name(filename) => filename,
            OutputFile::Default => {
                let mut name = String::from_str("a");
                match build_kind.ext(os) {
                    Some(ending) => name.append(ending),
                    None => {},
                }
                name
            },
        }
    }
}

impl Default for OutputFile {
    fn default() -> (r: Self)
        ensures
            r is Default,
    {
        OutputFile::Default
    }
}

/// How a run of the compiler ended.
#[derive(Debug)]
pub enum CompileResult {
    /// Every file was parsed, and nothing was warned of.
    Success,
    /// Every file was parsed; these are the warnings.
    Warn(Vec<Located<CompilerError>>),
    /// Some file was not parsed; these are the errors, one for each such
    /// file.
    Failure(Vec<Located<CompilerError>>),
}

/// `Extend::extend` of the standard library for a `HashMap`: each pair of
/// the second map is inserted into the first, in the place of a pair with
/// the same key.
#[verifier::external_body]
fn extend_files(
    target: &mut HashMap<SourceFileId, SourceFile>,
    files: HashMap<SourceFileId, SourceFile>,
)
    ensures
        final(target)@ == old(target)@.union_prefer_right(files@),
{
    target.extend(files);
}

/// What the parsing of `file` into `ast` yields: the sections of `ast` and
/// behind them those of the file, with the tables and the warnings at the
/// end; or the error that ends it.
#[verifier::opaque]
pub open spec fn parsed(ast: &Program, file: &SourceFile) -> Parsed<Seq<SectionView>> {
    program(
        stream(file.contents@, file.id, Place { offset: 0, line: 1, column: 0 }),
        Cursor { pos: 0, types: ast.types@, atoms: ast.atom_names(), warnings: Seq::empty() },
        ast.section_list(),
    )
}

/// The diagnostics that report the warnings.
pub open spec fn reports(warnings: Seq<Note>) -> Seq<(Diagnostic, Location)> {
    Seq::new(warnings.len(), |i: int| (warnings[i].error.diagnostic(), warnings[i].loc))
}

/// Adds the diagnostics that report `given` to `warnings`.
pub fn report_warnings(
    given: &Vec<Located<ParseError>>,
    warnings: &mut Vec<Located<CompilerError>>,
)
    ensures
        old(warnings)@.is_prefix_of(final(warnings)@),
        diagnostics(final(warnings)@) == diagnostics(old(warnings)@) + reports(notes(given@)),
{
    let ghost all = notes(given@);
    let mut i: usize = 0;
    assert(diagnostics(warnings@) =~= diagnostics(old(warnings)@) + reports(all.take(0)));
    while i < given.len()
        invariant
            i <= given@.len(),
            all == notes(given@),
            old(warnings)@.is_prefix_of(warnings@),
            diagnostics(warnings@) == diagnostics(old(warnings)@) + reports(all.take(i as int)),
        decreases given@.len() - i,
    {
        let warning = &given[i];
        let ghost before = warnings@;
        let report = Located::with_location(
            warning.inner.duplicate().into_compiler_error(),
            warning.loc,
        );
        warnings.push(report);
        proof {
            lemma_diagnostics_push(before, report);
            assert(all.take(i + 1) =~= all.take(i as int).push(all[i as int]));
            assert(reports(all.take(i + 1)) =~= reports(all.take(i as int)).push(
                (all[i as int].error.diagnostic(), all[i as int].loc),
            ));
            assert(diagnostics(warnings@) =~= diagnostics(old(warnings)@) + reports(
                all.take(i + 1),
            ));
        }
        i += 1;
    }
    assert(all.take(i as int) =~= all);
}

/// Adds the diagnostic that reports `error` to `errors`.
pub fn report_error(error: Located<ParseError>, errors: &mut Vec<Located<CompilerError>>)
    ensures
        old(errors)@.is_prefix_of(final(errors)@),
        final(errors)@.len() == old(errors)@.len() + 1,
        diagnostics(final(errors)@) == diagnostics(old(errors)@).push(
            (error.inner.view().diagnostic(), error.loc),
        ),
{
    let loc = error.loc;
    let ghost before = errors@;
    let report = Located::with_location(error.unwrap().into_compiler_error(), loc);
    errors.push(report);
    proof {
        lemma_diagnostics_push(before, report);
    }
}

/// How far a run has come: the program, and the diagnostics given so far.
pub ghost struct Stage {
    pub ast: Program,
    pub warnings: Seq<(Diagnostic, Location)>,
    pub errors: Seq<(Diagnostic, Location)>,
}

/// Whether the parsing of `file` leads from `before` to `after`. A file
/// that is parsed leaves the program that the grammar gives, and adds its
/// warnings. One that is not adds its error; what the program had, it
/// still has.
pub open spec fn leads(before: Stage, file: &SourceFile, after: Stage) -> bool {
    &&& after.ast.wf()
    &&& before.ast.section_list().is_prefix_of(after.ast.section_list())
    &&& grown(before.ast.types@, after.ast.types@)
    &&& before.ast.atom_names().is_prefix_of(after.ast.atom_names())
    &&& before.warnings.is_prefix_of(after.warnings)
    &&& match parsed(&before.ast, file) {
        Parsed::Done(sections, end) => {
            &&& after.ast.section_list() == sections
            &&& after.ast.types@ == end.types
            &&& after.ast.atom_names() == end.atoms
            &&& after.warnings == before.warnings + reports(end.warnings)
            &&& after.errors == before.errors
        },
        Parsed::Failed(error, loc) => after.errors == before.errors.push(
            (error.diagnostic(), loc),
        ),
    }
}

/// Whether `stages` are the stages of a run that starts with the program
/// `start` and parses the files of `order` one after the other.
pub open spec fn chained(start: Program, order: Seq<SourceFile>, stages: Seq<Stage>) -> bool {
    &&& stages.len() == order.len() + 1
    &&& stages[0] == (Stage { ast: start, warnings: Seq::empty(), errors: Seq::empty() })
    &&& forall|i: int|
        0 <= i < order.len() ==> leads(#[trigger] stages[i], &order[i], stages[i + 1])
}

/// Whether `r` is the result of a run that has come to `stage`: a failure
/// with the errors where there are any, else a warning with the warnings
/// where there are any, else a success.
pub open spec fn outcome(stage: Stage, r: CompileResult) -> bool {
    if stage.errors.len() > 0 {
        r matches CompileResult::Failure(errors) && diagnostics(errors@) == stage.errors
    } else if stage.warnings.len() > 0 {
        r matches CompileResult::Warn(warnings) && diagnostics(warnings@) == stage.warnings
    } else {
        r is Success
    }
}

/// One run of the compiler.
pub struct Context {
    pub program_name: String,
    pub output_file: OutputFile,
    pub build_kind: BuildKind,
    pub tags: Vec<String>,
    pub source_files: HashMap<SourceFileId, SourceFile>,
    pub ast: Program,
}

impl Context {
    pub open spec fn wf(&self) -> bool {
        self.ast.wf()
    }

    /// A run without input files, for an executable with the usual name.
    pub fn from_program_name(program_name: String) -> (ctx: Self)
        ensures
            ctx.wf(),
            ctx.program_name == program_name,
            ctx.output_file is Default,
            ctx.build_kind == BuildKind::Executable,
            ctx.tags@.len() == 0,
            ctx.source_files@ == Map::<SourceFileId, SourceFile>::empty(),
            ctx.ast.sections@.len() == 0,
            ctx.ast.atoms@.len() == 0,
            ctx.ast.types@.len() == BUILTIN_COUNT,
    {
        Context {
            program_name,
            output_file: OutputFile::Default,
            build_kind: BuildKind::Executable,
            tags: Vec::new(),
            source_files: HashMap::new(),
            ast: Program::new(),
        }
    }

    pub fn set_output_file(&mut self, output_file: String)
        ensures
            *final(self) == (Context { output_file: OutputFile::Name(output_file), ..*old(self) }),
    {
        self.output_file = OutputFile::Name(output_file);
    }

    pub fn program_name(&self) -> (r: &String)
        ensures
            *r == self.program_name,
    {
        &self.program_name
    }

    pub fn define_tag(&mut self, tag: String)
        ensures
            final(self).tags@ == old(self).tags@.push(tag),
            final(self).program_name == old(self).program_name,
            final(self).output_file == old(self).output_file,
            final(self).build_kind == old(self).build_kind,
            final(self).source_files == old(self).source_files,
            final(self).ast == old(self).ast,
    {
        self.tags.push(tag);
    }

    pub fn set_build_kind(&mut self, build_kind: BuildKind)
        ensures
            *final(self) == (Context { build_kind, ..*old(self) }),
    {
        self.build_kind = build_kind;
    }

    /// Adds input files, each under its id, in the place of a file with
    /// the same id.
    pub fn add_source_files(&mut self, source_files: HashMap<SourceFileId, SourceFile>)
        ensures
            final(self).source_files@ == old(self).source_files@.union_prefer_right(source_files@),
            final(self).program_name == old(self).program_name,
            final(self).output_file == old(self).output_file,
            final(self).build_kind == old(self).build_kind,
            final(self).tags == old(self).tags,
            final(self).ast == old(self).ast,
    {
        extend_files(&mut self.source_files, source_files);
    }

    pub fn source_files(&self) -> (r: &HashMap<SourceFileId, SourceFile>)
        ensures
            *r == self.source_files,
    {
        &self.source_files
    }

    pub fn program(&self) -> (r: &Program)
        ensures
            *r == self.ast,
    {
        &self.ast
    }

    /// Parses one file into `ast`, and adds its warnings to `warnings` and,
    /// if it fails, its error to `errors`. The file's text is cut into
    /// tokens, and the tokens are read by the rules of the grammar, from
    /// the tables and behind the sections that `ast` holds.
    pub fn compile_file(
        ast: Program,
        file: &SourceFile,
        warnings: &mut Vec<Located<CompilerError>>,
        errors: &mut Vec<Located<CompilerError>>,
    ) -> (r: Program)
        requires
            ast.wf(),
        ensures
            r.wf(),
            leads(
                Stage {
                    ast,
                    warnings: diagnostics(old(warnings)@),
                    errors: diagnostics(old(errors)@),
                },
                file,
                Stage {
                    ast: r,
                    warnings: diagnostics(final(warnings)@),
                    errors: diagnostics(final(errors)@),
                },
            ),
            old(warnings)@.is_prefix_of(final(warnings)@),
            old(errors)@.is_prefix_of(final(errors)@),
            final(errors)@.len() == old(errors)@.len() + (if parsed(&ast, file) is Failed {
                1int
            } else {
                0int
            }),
    {
        let mut parser = Parser::new(Lexer::from(file), ast);
        reveal(parsed);
        assert(notes(parser.warnings@) =~= Seq::<Note>::empty());
        let outcome = parser.parse();
        report_warnings(&parser.warnings, warnings);
        if let Err(e) = outcome {
            report_error(e, errors);
        }
        proof {
            let before = diagnostics(old(warnings)@);
            let after = diagnostics(warnings@);
            assert(after.subrange(0, before.len() as int) =~= before);
        }
        parser.into_program()
    }

    /// Parses every input file into the program of this run, in the order
    /// in which the map of the files yields them, each file once. A file
    /// that cannot be parsed does not keep the others from being parsed.
    /// The run fails where a file did; it warns where none did and there
    /// are warnings.
    pub fn compile(&mut self) -> (r: CompileResult)
        requires
            old(self).wf(),
        ensures
            final(self).wf(),
            final(self).program_name == old(self).program_name,
            final(self).output_file == old(self).output_file,
            final(self).build_kind == old(self).build_kind,
            final(self).tags == old(self).tags,
            final(self).source_files == old(self).source_files,
            old(self).ast.section_list().is_prefix_of(final(self).ast.section_list()),
            grown(old(self).ast.types@, final(self).ast.types@),
            old(self).ast.atom_names().is_prefix_of(final(self).ast.atom_names()),
            exists|order: Seq<SourceFile>, stages: Seq<Stage>|
                {
                    &&& #[trigger] chained(old(self).ast, order, stages)
                    &&& order.len() == old(self).source_files@.len()
                    &&& order.to_set() == old(self).source_files@.values()
                    &&& stages.last().ast == final(self).ast
                    &&& outcome(stages.last(), r)
                },
    {
        let mut warnings: Vec<Located<CompilerError>> = Vec::new();
        let mut errors: Vec<Located<CompilerError>> = Vec::new();
        let mut ast = Program::new();
        core::mem::swap(&mut self.ast, &mut ast);
        let ghost mut order: Seq<SourceFile> = Seq::empty();
        let ghost mut stages: Seq<Stage> = seq![
            Stage { ast, warnings: Seq::empty(), errors: Seq::empty() },
        ];
        proof {
            broadcast use vstd::std_specs::hash::axiom_spec_values_iter;
            assert(grown(ast.types@, ast.types@));
            assert(diagnostics(warnings@) =~= Seq::empty());
            assert(diagnostics(errors@) =~= Seq::empty());
        }
        for file in it: self.source_files.values()
            invariant
                ast.wf(),
                self.source_files == old(self).source_files,
                old(self).ast.section_list().is_prefix_of(ast.section_list()),
                grown(old(self).ast.types@, ast.types@),
                old(self).ast.atom_names().is_prefix_of(ast.atom_names()),
                order.len() == it.index(),
                forall|j: int| 0 <= j < order.len() ==> order[j] == *(#[trigger] it.seq()[j]),
                it.seq().len() == self.source_files@.len(),
                it.seq().unref().to_set() == self.source_files@.values(),
                chained(old(self).ast, order, stages),
                stages.last() == (Stage {
                    ast,
                    warnings: diagnostics(warnings@),
                    errors: diagnostics(errors@),
                }),
                it.index() == it.seq().len() ==> order.to_set() == self.source_files@.values(),
        {
            let ghost before = stages;
            let ghost files = order;
            let ghost types = ast.types@;
            ast = Context::compile_file(ast, file, &mut warnings, &mut errors);
            proof {
                lemma_grown_twice(old(self).ast.types@, types, ast.types@);
                let next = Stage {
                    ast,
                    warnings: diagnostics(warnings@),
                    errors: diagnostics(errors@),
                };
                order = files.push(*file);
                stages = before.push(next);
                assert forall|i: int| 0 <= i < order.len() implies leads(
                    #[trigger] stages[i],
                    &order[i],
                    stages[i + 1],
                ) by {
                    if i < files.len() {
                        assert(leads(before[i], &files[i], before[i + 1]));
                    }
                }
                assert(it.index() + 1 == it.seq().len() ==> order =~= it.seq().unref());
            }
        }
        self.ast = ast;
        let r = if errors.len() > 0 {
            CompileResult::Failure(errors)
        } else if warnings.len() > 0 {
            CompileResult::Warn(warnings)
        } else {
            CompileResult::Success
        };
        proof {
            assert(diagnostics(warnings@).len() == warnings@.len());
            assert(diagnostics(errors@).len() == errors@.len());
            assert(chained(old(self).ast, order, stages));
            assert(outcome(stages.last(), r));
        }
        r
    }
}

} // verus!
