//! What the prompt-file services refuse, and why.

use vstd::prelude::*;

verus! {

/// Which kind of content a size check is about.
#[derive(Clone, Copy, Debug, PartialEq, Eq, Structural)]
pub enum ContentLabel {
    /// An instruction file (`AGENTS.md` or `SYSTEM.md`).
    InstructionFile,
    /// A slash-command template (`commands/<slug>.md`).
    PromptTemplate,
}

/// Which file a revision guard protects.
#[derive(Clone, Copy, Debug, PartialEq, Eq, Structural)]
pub enum RevisionSubject {
    /// An instruction file, named by its kind.
    PromptFile(crate::prompt_files::OhMyPiPromptFileKind),
    /// A slash-command template.
    PromptTemplate,
}

/// Why bytes are not UTF-8: the length of their longest prefix that is valid
/// UTF-8, and the length of the invalid sequence that follows it (`None` when
/// the input ends inside a character).
#[derive(Clone, Copy, Debug, PartialEq, Eq, Structural)]
pub struct Utf8Failure {
    pub valid_up_to: usize,
    pub error_len: Option<usize>,
}

/// Errors of the prompt-file services.
#[derive(Clone, Copy, Debug, PartialEq, Eq, Structural)]
pub enum AppError {
    /// Invalid input: the content to write exceeds the 1 MiB limit.
    ContentTooLarge(ContentLabel),
    /// Invalid input: an instruction file must not contain NUL.
    ContentContainsNul,
    /// Invalid input: a template slug is empty or only whitespace.
    SlugEmpty,
    /// Invalid input: a template slug exceeds 128 bytes.
    SlugTooLong,
    /// Invalid input: a template slug holds a character other than a letter, a digit, `-` or `_`.
    SlugInvalidCharacters,
    /// Invalid input: a stored file exceeds the 1 MiB limit.
    FileTooLarge,
    /// Configuration error: a stored instruction file is not UTF-8.
    PromptFileNotUtf8(crate::prompt_files::OhMyPiPromptFileKind, Utf8Failure),
    /// Invalid input: a stored template is not UTF-8.
    TemplateNotUtf8(Utf8Failure),
    /// Conflict: the file changed since the caller read the revision it expects.
    Conflict(RevisionSubject),
}

} // verus!
