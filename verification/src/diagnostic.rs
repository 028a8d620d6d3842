//! What a diagnostic says, apart from how it is drawn.

use vstd::prelude::*;
use vstd::string::StringExecFns;
use crate::span::SrcSpan;

verus! {

/// How grave a diagnostic is.
#[derive(Clone, Copy, Debug, PartialEq, Eq, Structural)]
pub enum Severity {
    Bug,
    Error,
    Warning,
    Note,
    Help,
}

/// Whether a label marks the cause of a diagnostic or adds to it.
#[derive(Clone, Copy, Debug, PartialEq, Eq, Structural)]
pub enum LabelStyle {
    Primary,
    Secondary,
}

/// The colours that titles are written in.
#[derive(Clone, Copy, Debug, PartialEq, Eq, Structural)]
pub enum Colour {
    Red,
    Yellow,
    Blue,
}

impl Severity {
    /// The word that opens the title of a diagnostic of this severity.
    pub fn kind(self) -> (word: &'static str)
        ensures
            word@ == match self {
                Severity::Bug => "bug"@,
                Severity::Error => "error"@,
                Severity::Warning => "warning"@,
                Severity::Note => "note"@,
                Severity::Help => "help"@,
            },
    {
        match self {
            Severity::Bug => "bug",
            Severity::Error => "error",
            Severity::Warning => "warning",
            Severity::Note => "note",
            Severity::Help => "help",
        }
    }

    /// The colour of that word: red for what is wrong, yellow for a
    /// warning, blue for advice.
    pub fn colour(self) -> (colour: Colour)
        ensures
            colour == match self {
                Severity::Bug => Colour::Red,
                Severity::Error => Colour::Red,
                Severity::Warning => Colour::Yellow,
                Severity::Note => Colour::Blue,
                Severity::Help => Colour::Blue,
            },
    {
        match self {
            Severity::Bug | Severity::Error => Colour::Red,
            Severity::Warning => Colour::Yellow,
            Severity::Note | Severity::Help => Colour::Blue,
        }
    }
}

/// A message attached to a stretch of source text.
#[derive(Debug)]
pub struct DiagnosticLabel {
    pub style: LabelStyle,
    pub location: SrcSpan,
    pub label: String,
}

/// A diagnostic with one label.
#[derive(Debug, PartialEq, Clone)]
pub struct Diagnostic {
    pub file: String,
    pub location: SrcSpan,
    pub src: String,
    pub title: String,
    pub label: String,
}

/// A diagnostic with any number of labels.
#[derive(Debug)]
pub struct MultiLineDiagnostic {
    pub file: String,
    pub src: String,
    pub title: String,
    pub labels: Vec<DiagnosticLabel>,
}

/// An error met while compiling the project as a whole, such as two files
/// that claim one name.
#[derive(Debug)]
pub struct ProjectErrorDiagnostic {
    pub title: String,
    pub label: String,
}

impl Diagnostic {
    /// The same diagnostic in its general form: its one label becomes the
    /// primary label.
    pub fn into_multi_line(self) -> (general: MultiLineDiagnostic)
        ensures
            general.file@ == self.file@,
            general.src@ == self.src@,
            general.title@ == self.title@,
            general.labels@.len() == 1,
            general.labels@[0].style == LabelStyle::Primary,
            general.labels@[0].location == self.location,
            general.labels@[0].label@ == self.label@,
    {
        let mut labels: Vec<DiagnosticLabel> = Vec::new();
        labels.push(
            DiagnosticLabel { style: LabelStyle::Primary, location: self.location, label: self.label },
        );
        MultiLineDiagnostic { file: self.file, src: self.src, title: self.title, labels }
    }
}

/// The title of a diagnostic as it follows the severity word: a colon, the
/// title, and an empty line.
pub fn title_line(title: &str) -> (line: String)
    ensures
        line@ == ": "@ + title@ + "\n\n"@,
{
    let mut line = String::new();
    line.append(": ");
    line.append(title);
    line.append("\n\n");
    assert(line@ =~= ": "@ + title@ + "\n\n"@);
    line
}

} // verus!
