//! Diagnostics as they leave the front end.

use vstd::prelude::*;
use crate::paint::{bold_bright_cyan, bold_bright_red, bold_bright_yellow, wears_bold};
use crate::source_file::{Located, Location, WithLocation};

verus! {

#[derive(Clone, Copy, Debug, PartialEq, Eq, Structural)]
pub enum Severity {
    Error,
    Warning,
    Hint,
}

impl Severity {
    /// The tag that opens a diagnostic line of this severity.
    pub open spec fn label_text(self) -> Seq<char> {
        match self {
            Severity::Error => "[Error]"@,
            Severity::Warning => "[Warning]"@,
            Severity::Hint => "[Hint]"@,
        }
    }

    /// The colour of the tag: bright red, bright yellow, bright cyan.
    pub open spec fn colour(self) -> nat {
        match self {
            Severity::Error => 91,
            Severity::Warning => 93,
            Severity::Hint => 96,
        }
    }

    /// The tag in bold and in the colour of the severity.
    pub fn to_string(&self) -> (r: String)
        ensures
            wears_bold(self.colour(), self.label_text(), r@),
    {
        match self {
            Severity::Error => bold_bright_red(String::from_str("[Error]")),
            Severity::Warning => bold_bright_yellow(String::from_str("[Warning]")),
            Severity::Hint => bold_bright_cyan(String::from_str("[Hint]")),
        }
    }

    pub fn label(&self) -> (r: &'static str)
        ensures
            r@ == self.label_text(),
    {
        match self {
            Severity::Error => "[Error]",
            Severity::Warning => "[Warning]",
            Severity::Hint => "[Hint]",
        }
    }
}

/// The mathematical value of a diagnostic: texts as character sequences,
/// and the related diagnostics each with its place.
pub ghost struct Diagnostic {
    pub severity: Severity,
    pub message: Seq<char>,
    pub hint: Option<Seq<char>>,
    pub additional: Seq<(Diagnostic, Location)>,
}

/// The values of a list of diagnostics, each with its place.
pub open spec fn diagnostics(list: Seq<Located<CompilerError>>) -> Seq<(Diagnostic, Location)>
    decreases list,
{
    Seq::new(
        list.len(),
        |i: int|
            if 0 <= i < list.len() {
                (list[i].inner.view(), list[i].loc)
            } else {
                arbitrary()
            },
    )
}

/// The values of a list with one more diagnostic.
pub proof fn lemma_diagnostics_push(list: Seq<Located<CompilerError>>, e: Located<CompilerError>)
    ensures
        diagnostics(list.push(e)) == diagnostics(list).push((e.inner.view(), e.loc)),
{
    assert(diagnostics(list.push(e)) =~= diagnostics(list).push((e.inner.view(), e.loc)));
}

/// A diagnostic: severity, message, an optional hint on how to mend it, and
/// related diagnostics at other places.
#[derive(Debug)]
pub struct CompilerError {
    pub severity: Severity,
    pub message: String,
    pub hint: Option<String>,
    pub additional: Vec<Located<CompilerError>>,
}

impl CompilerError {
    pub open spec fn view(&self) -> Diagnostic
        decreases self,
    {
        Diagnostic {
            severity: self.severity,
            message: self.message@,
            hint: match self.hint {
                Some(h) => Some(h@),
                None => None,
            },
            additional: diagnostics(self.additional@),
        }
    }

    pub fn new(
        severity: Severity,
        message: String,
        hint: Option<String>,
        additional: Vec<Located<CompilerError>>,
    ) -> (r: Self)
        ensures
            r.severity == severity,
            r.message == message,
            r.hint == hint,
            r.additional == additional,
    {
        CompilerError { severity, message, hint, additional }
    }

    pub fn severity(&self) -> (r: &Severity)
        ensures
            *r == self.severity,
    {
        &self.severity
    }

    pub fn message(&self) -> (r: &String)
        ensures
            *r == self.message,
    {
        &self.message
    }

    pub fn hint(&self) -> (r: &Option<String>)
        ensures
            *r == self.hint,
    {
        &self.hint
    }
}

impl WithLocation for CompilerError {
    fn with_location(self, loc: Location) -> (r: Located<Self>) {
        Located::with_location(self, loc)
    }
}

/// Errors of one stage that can be reported as diagnostics.
pub trait IntoCompilerError: Sized {
    /// The diagnostic that reports the error.
    spec fn diagnostic(&self) -> Diagnostic;

    fn into_compiler_error(self) -> (r: CompilerError)
        ensures
            r@ == self.diagnostic(),
    ;
}

impl IntoCompilerError for CompilerError {
    open spec fn diagnostic(&self) -> Diagnostic {
        self.view()
    }

    fn into_compiler_error(self) -> (r: CompilerError) {
        self
    }
}

} // verus!
