//! The assembler's diagnostics: one builder for a single complaint, and a
//! batch type so each phase can report everything it found at once.

use vstd::prelude::*;

use crate::symbols::{SourceRange, SymbolIndex};

verus! {

/// One diagnostic: which file it belongs to, a fixed message, the source
/// spans it points at, and free-form notes.
#[derive(Debug, Clone)]
pub struct CompilerError {
    pub file: SymbolIndex,
    pub message: String,
    pub highlights: Vec<SourceRange>,
    pub notes: Vec<String>,
}

impl CompilerError {
    /// Start a diagnostic for `file` with the given message.
    pub fn new(file: SymbolIndex, message: &str) -> (r: CompilerError)
        ensures
            r.file == file,
            r.message@ == message@,
            r.highlights@.len() == 0,
            r.notes@.len() == 0,
    {
        CompilerError {
            file,
            message: message.to_owned(),
            highlights: Vec::new(),
            notes: Vec::new(),
        }
    }

    /// Point the diagnostic at a source span.
    pub fn highlight(self, range: SourceRange) -> (r: CompilerError)
        ensures
            r.file == self.file,
            r.message@ == self.message@,
            r.highlights@ == self.highlights@.push(range),
            r.notes@ == self.notes@,
    {
        let mut highlights = self.highlights;
        highlights.push(range);
        CompilerError { file: self.file, message: self.message, highlights, notes: self.notes }
    }

    /// Attach an explanatory note.
    pub fn note(self, note: String) -> (r: CompilerError)
        ensures
            r.file == self.file,
            r.message@ == self.message@,
            r.highlights@ == self.highlights@,
            r.notes@.len() == self.notes@.len() + 1,
    {
        let mut notes = self.notes;
        notes.push(note);
        CompilerError { file: self.file, message: self.message, highlights: self.highlights, notes }
    }

    /// Finish the diagnostic as a one-element batch.
    pub fn build(self) -> (r: Error)
        ensures
            r.errors@.len() == 1,
    {
        let mut errors = Vec::new();
        errors.push(self);
        Error { errors }
    }
}

/// A batch of diagnostics; a phase returns all of its complaints together.
#[derive(Debug, Clone)]
pub struct Error {
    pub errors: Vec<CompilerError>,
}

/// Merge a list of batches into one, keeping their order.
pub fn combine_errors(list: &Vec<Error>) -> (r: Error) {
    let mut errors: Vec<CompilerError> = Vec::new();
    let mut i: usize = 0;
    while i < list.len()
        decreases list.len() - i,
    {
        let inner = &list[i].errors;
        let mut j: usize = 0;
        while j < inner.len()
            decreases inner.len() - j,
        {
            errors.push(inner[j].clone());
            j = j + 1;
        }
        i = i + 1;
    }
    Error { errors }
}

} // verus!
