//! Oh My Pi instruction files (`AGENTS.md`, `SYSTEM.md`): the reading of a
//! stored file into a snapshot, content validation, and the revision guard
//! that protects a replace or a delete.
//!
//! The services take the stored state of a file as plain values: `None` for a
//! file that does not exist, `Some(bytes)` for one that does.

use vstd::prelude::*;
use vstd::utf8::{decode_utf8, encode_utf8, valid_utf8};
use crate::error::{AppError, ContentLabel, RevisionSubject};
use crate::external::{spec_utf8_failure, string_from_utf8};
use crate::revision::{revision, spec_revision};
use crate::text::{str_contains_char, str_equal};

verus! {

/// The revision of a file that does not exist.
pub const MISSING_REVISION: &'static str = "missing";

/// The largest file, in bytes, that the services read or write.
pub const MAX_PROMPT_FILE_BYTES: u64 = 1048576;

/// An Oh My Pi instruction file.
#[derive(Clone, Copy, Debug, PartialEq, Eq, Structural)]
pub enum OhMyPiPromptFileKind {
    /// `AGENTS.md`
    Agents,
    /// `SYSTEM.md`
    SystemOverride,
}

impl OhMyPiPromptFileKind {
    /// The file name of the instruction file.
    pub open spec fn spec_filename(self) -> Seq<char> {
        match self {
            OhMyPiPromptFileKind::Agents => "AGENTS.md"@,
            OhMyPiPromptFileKind::SystemOverride => "SYSTEM.md"@,
        }
    }

    /// The file name of the instruction file, under the agent directory.
    pub fn filename(self) -> (name: &'static str)
        ensures
            name@ == self.spec_filename(),
    {
        match self {
            OhMyPiPromptFileKind::Agents => "AGENTS.md",
            OhMyPiPromptFileKind::SystemOverride => "SYSTEM.md",
        }
    }

    /// The name under which the file is shown in messages.
    pub fn label(self) -> (name: &'static str)
        ensures
            name@ == self.spec_filename(),
    {
        match self {
            OhMyPiPromptFileKind::Agents => "AGENTS.md",
            OhMyPiPromptFileKind::SystemOverride => "SYSTEM.md",
        }
    }
}

/// What a read finds of an instruction file.
#[derive(Clone, Debug)]
pub struct OhMyPiPromptFileSnapshot {
    pub exists: bool,
    pub revision: String,
    pub content: String,
}

/// A snapshot as plain values.
pub struct SnapshotView {
    pub exists: bool,
    pub revision: Seq<char>,
    pub content: Seq<char>,
}

impl View for OhMyPiPromptFileSnapshot {
    type V = SnapshotView;

    open spec fn view(&self) -> SnapshotView {
        SnapshotView { exists: self.exists, revision: self.revision@, content: self.content@ }
    }
}

/// A snapshot result as plain values.
pub open spec fn snapshot_result(r: Result<OhMyPiPromptFileSnapshot, AppError>) -> Result<SnapshotView, AppError> {
    match r {
        Ok(s) => Ok(s@),
        Err(e) => Err(e),
    }
}

/// The content of a stored file: `None` when it does not exist.
pub open spec fn stored_view(stored: Option<Vec<u8>>) -> Option<Seq<u8>> {
    match stored {
        Some(bytes) => Some(bytes@),
        None => None,
    }
}

/// The number of bytes of the UTF-8 encoding of `s`.
pub open spec fn utf8_len(s: Seq<char>) -> nat {
    encode_utf8(s).len()
}

/// The revision text of a file that does not exist.
pub open spec fn missing_revision() -> Seq<char> {
    MISSING_REVISION@
}

/// The snapshot of a file that does not exist.
pub open spec fn missing_snapshot() -> SnapshotView {
    SnapshotView { exists: false, revision: missing_revision(), content: Seq::empty() }
}

/// A stored file may be read only up to the size limit.
pub open spec fn spec_read_limited(file_len: int) -> Result<(), AppError> {
    if file_len > MAX_PROMPT_FILE_BYTES {
        Err(AppError::FileTooLarge)
    } else {
        Ok(())
    }
}

/// What reading an instruction file gives, from its stored bytes.
pub open spec fn spec_read_prompt_file(kind: OhMyPiPromptFileKind, stored: Option<Seq<u8>>) -> Result<SnapshotView, AppError> {
    match stored {
        None => Ok(missing_snapshot()),
        Some(bytes) => if bytes.len() > MAX_PROMPT_FILE_BYTES {
            Err(AppError::FileTooLarge)
        } else if !valid_utf8(bytes) {
            Err(AppError::PromptFileNotUtf8(kind, spec_utf8_failure(bytes)))
        } else {
            Ok(SnapshotView { exists: true, revision: spec_revision(bytes), content: decode_utf8(bytes) })
        },
    }
}

/// The current revision of a stored file: `missing` when absent, else the digest of its bytes.
pub open spec fn stored_revision(stored: Option<Seq<u8>>) -> Result<Seq<char>, AppError> {
    match stored {
        None => Ok(missing_revision()),
        Some(bytes) => if bytes.len() > MAX_PROMPT_FILE_BYTES {
            Err(AppError::FileTooLarge)
        } else {
            Ok(spec_revision(bytes))
        },
    }
}

/// The revision guard: the stored file must still be at the revision the caller expects.
pub open spec fn spec_ensure_revision(stored: Option<Seq<u8>>, expected: Seq<char>, subject: RevisionSubject) -> Result<(), AppError> {
    match stored_revision(stored) {
        Err(e) => Err(e),
        Ok(actual) => if actual == expected {
            Ok(())
        } else {
            Err(AppError::Conflict(subject))
        },
    }
}

/// Content to write must fit the size limit.
pub open spec fn spec_validate_content_size(content: Seq<char>, label: ContentLabel) -> Result<(), AppError> {
    if utf8_len(content) > MAX_PROMPT_FILE_BYTES {
        Err(AppError::ContentTooLarge(label))
    } else {
        Ok(())
    }
}

/// Instruction content must fit the size limit and hold no NUL.
pub open spec fn spec_validate_instruction_content(content: Seq<char>) -> Result<(), AppError> {
    match spec_validate_content_size(content, ContentLabel::InstructionFile) {
        Err(e) => Err(e),
        Ok(_) => if content.contains('\0') {
            Err(AppError::ContentContainsNul)
        } else {
            Ok(())
        },
    }
}

/// What replacing an instruction file gives: the snapshot of the new content.
pub open spec fn spec_replace(kind: OhMyPiPromptFileKind, expected: Seq<char>, content: Seq<char>, stored: Option<Seq<u8>>) -> Result<SnapshotView, AppError> {
    match spec_validate_instruction_content(content) {
        Err(e) => Err(e),
        Ok(_) => match spec_ensure_revision(stored, expected, RevisionSubject::PromptFile(kind)) {
            Err(e) => Err(e),
            Ok(_) => Ok(SnapshotView { exists: true, revision: spec_revision(encode_utf8(content)), content }),
        },
    }
}

/// What deleting an instruction file gives: whether there was a file to remove.
pub open spec fn spec_delete(kind: OhMyPiPromptFileKind, expected: Seq<char>, stored: Option<Seq<u8>>) -> Result<bool, AppError> {
    match spec_ensure_revision(stored, expected, RevisionSubject::PromptFile(kind)) {
        Err(e) => Err(e),
        Ok(_) => Ok(stored is Some),
    }
}

/// Refuses a stored file of `file_len` bytes when it exceeds the size limit.
pub fn read_limited(file_len: u64) -> (r: Result<(), AppError>)
    ensures
        r == spec_read_limited(file_len as int),
{
    if file_len > MAX_PROMPT_FILE_BYTES {
        Err(AppError::FileTooLarge)
    } else {
        Ok(())
    }
}

/// Refuses content over the size limit.
pub fn validate_content_size(content: &str, label: ContentLabel) -> (r: Result<(), AppError>)
    ensures
        r == spec_validate_content_size(content@, label),
{
    let len = content.as_bytes().len();
    if len as u64 > MAX_PROMPT_FILE_BYTES {
        Err(AppError::ContentTooLarge(label))
    } else {
        Ok(())
    }
}

/// Refuses instruction content over the size limit or holding NUL.
pub fn validate_instruction_content(content: &str) -> (r: Result<(), AppError>)
    ensures
        r == spec_validate_instruction_content(content@),
{
    match validate_content_size(content, ContentLabel::InstructionFile) {
        Err(e) => Err(e),
        Ok(()) => if str_contains_char(content, '\0') {
            Err(AppError::ContentContainsNul)
        } else {
            Ok(())
        },
    }
}

/// Reads an instruction file from its stored bytes.
pub fn read_prompt_file(kind: OhMyPiPromptFileKind, stored: Option<Vec<u8>>) -> (r: Result<OhMyPiPromptFileSnapshot, AppError>)
    ensures
        snapshot_result(r) == spec_read_prompt_file(kind, stored_view(stored)),
{
    match stored {
        None => Ok(OhMyPiPromptFileSnapshot {
            exists: false,
            revision: MISSING_REVISION.to_owned(),
            content: String::new(),
        }),
        Some(bytes) => {
            match read_limited(bytes.len() as u64) {
                Err(e) => {
                    return Err(e);
                },
                Ok(()) => {},
            }
            let rev = revision(bytes.as_slice());
            match string_from_utf8(bytes) {
                Err(failure) => Err(AppError::PromptFileNotUtf8(kind, failure)),
                Ok(content) => Ok(OhMyPiPromptFileSnapshot { exists: true, revision: rev, content }),
            }
        },
    }
}

/// The revision guard on a stored file.
pub fn ensure_revision(stored: &Option<Vec<u8>>, expected_revision: &str, subject: RevisionSubject) -> (r: Result<(), AppError>)
    ensures
        r == spec_ensure_revision(stored_view(*stored), expected_revision@, subject),
{
    let actual = match stored {
        Some(bytes) => {
            match read_limited(bytes.len() as u64) {
                Err(e) => {
                    return Err(e);
                },
                Ok(()) => {},
            }
            revision(bytes.as_slice())
        },
        None => MISSING_REVISION.to_owned(),
    };
    if str_equal(actual.as_str(), expected_revision) {
        Ok(())
    } else {
        Err(AppError::Conflict(subject))
    }
}

/// The instruction-file service.
pub struct OhMyPiPromptFileService;

impl OhMyPiPromptFileService {
    /// Reads an instruction file; `stored` is its content, `None` when it does not exist.
    pub fn read(kind: OhMyPiPromptFileKind, stored: Option<Vec<u8>>) -> (r: Result<OhMyPiPromptFileSnapshot, AppError>)
        ensures
            snapshot_result(r) == spec_read_prompt_file(kind, stored_view(stored)),
    {
        read_prompt_file(kind, stored)
    }

    /// Decides a replace of an instruction file whose stored content is `stored`.
    /// `Ok` means that `content` is to be written; it carries the snapshot of the file then.
    pub fn replace(kind: OhMyPiPromptFileKind, expected_revision: &str, content: &str, stored: &Option<Vec<u8>>) -> (r: Result<OhMyPiPromptFileSnapshot, AppError>)
        ensures
            snapshot_result(r) == spec_replace(kind, expected_revision@, content@, stored_view(*stored)),
    {
        match validate_instruction_content(content) {
            Err(e) => {
                return Err(e);
            },
            Ok(()) => {},
        }
        match ensure_revision(stored, expected_revision, RevisionSubject::PromptFile(kind)) {
            Err(e) => {
                return Err(e);
            },
            Ok(()) => {},
        }
        Ok(OhMyPiPromptFileSnapshot {
            exists: true,
            revision: revision(content.as_bytes()),
            content: content.to_owned(),
        })
    }

    /// Decides a delete of an instruction file whose stored content is `stored`.
    /// `Ok(true)` means that the file is to be removed; `Ok(false)` that there is none.
    pub fn delete(kind: OhMyPiPromptFileKind, expected_revision: &str, stored: &Option<Vec<u8>>) -> (r: Result<bool, AppError>)
        ensures
            r == spec_delete(kind, expected_revision@, stored_view(*stored)),
    {
        match ensure_revision(stored, expected_revision, RevisionSubject::PromptFile(kind)) {
            Err(e) => Err(e),
            Ok(()) => Ok(stored.is_some()),
        }
    }
}

/// A revision text is made of lower-case hexadecimal digits only.
pub open spec fn is_hex_text(s: Seq<char>) -> bool {
    forall|i: int| 0 <= i < s.len() ==> ('0' <= #[trigger] s[i] <= '9' || 'a' <= s[i] <= 'f')
}

proof fn lemma_hex_lower_is_hex_text(bytes: Seq<u8>)
    ensures
        is_hex_text(crate::revision::hex_lower(bytes)),
    decreases bytes.len(),
{
    if bytes.len() > 0 {
        lemma_hex_lower_is_hex_text(bytes.drop_first());
        let head = seq![
            crate::revision::hex_digit(bytes[0] as int / 16),
            crate::revision::hex_digit(bytes[0] as int % 16),
        ];
        assert(is_hex_text(head));
        let whole = head + crate::revision::hex_lower(bytes.drop_first());
        assert forall|i: int| 0 <= i < whole.len() implies ('0' <= #[trigger] whole[i] <= '9'
            || 'a' <= whole[i] <= 'f') by {
            if i >= 2 {
                assert(whole[i] == crate::revision::hex_lower(bytes.drop_first())[i - 2]);
            }
        }
    }
}

/// No file content has the revision that marks a missing file: the guard
/// for "must not exist" refuses every stored file.
pub proof fn law_revision_never_missing(bytes: Seq<u8>)
    ensures
        spec_revision(bytes) != missing_revision(),
{
    reveal_strlit("missing");
    lemma_hex_lower_is_hex_text(crate::external::sha256_digest(bytes));
    let r = spec_revision(bytes);
    if r.len() == missing_revision().len() {
        assert(r[0] != missing_revision()[0]);
    }
}

/// What a replace reports is what a read of the written content gives back.
pub proof fn law_read_after_replace(
    kind: OhMyPiPromptFileKind,
    expected: Seq<char>,
    content: Seq<char>,
    stored: Option<Seq<u8>>,
)
    requires
        spec_replace(kind, expected, content, stored) is Ok,
    ensures
        spec_read_prompt_file(kind, Some(encode_utf8(content))) == spec_replace(kind, expected, content, stored),
{
    vstd::utf8::encode_utf8_valid_utf8(content);
    vstd::utf8::encode_utf8_decode_utf8(content);
}

/// A replace that names the revision that a read reported goes through,
/// whenever the new content is valid.
pub proof fn law_read_revision_admits_replace(
    kind: OhMyPiPromptFileKind,
    content: Seq<char>,
    stored: Option<Seq<u8>>,
)
    requires
        spec_read_prompt_file(kind, stored) is Ok,
        spec_validate_instruction_content(content) is Ok,
    ensures
        spec_replace(kind, spec_read_prompt_file(kind, stored)->Ok_0.revision, content, stored) is Ok,
{
}

/// A replace or a delete that names any other revision than the stored one is
/// refused as a conflict, and nothing is written.
pub proof fn law_stale_revision_conflicts(
    kind: OhMyPiPromptFileKind,
    expected: Seq<char>,
    content: Seq<char>,
    stored: Option<Seq<u8>>,
)
    requires
        stored_revision(stored) is Ok,
        stored_revision(stored)->Ok_0 != expected,
        spec_validate_instruction_content(content) is Ok,
    ensures
        spec_replace(kind, expected, content, stored) == Err::<SnapshotView, AppError>(
            AppError::Conflict(RevisionSubject::PromptFile(kind)),
        ),
        spec_delete(kind, expected, stored) == Err::<bool, AppError>(
            AppError::Conflict(RevisionSubject::PromptFile(kind)),
        ),
{
}

/// The revision that a replace reports is the one that the next replace of
/// the written file must name, and naming it lets that replace through.
pub proof fn law_replace_revision_admits_next_replace(
    kind: OhMyPiPromptFileKind,
    expected: Seq<char>,
    content: Seq<char>,
    stored: Option<Seq<u8>>,
    next_content: Seq<char>,
)
    requires
        spec_replace(kind, expected, content, stored) is Ok,
        spec_validate_instruction_content(next_content) is Ok,
    ensures
        spec_replace(
            kind,
            spec_replace(kind, expected, content, stored)->Ok_0.revision,
            next_content,
            Some(encode_utf8(content)),
        ) is Ok,
{
    law_read_after_replace(kind, expected, content, stored);
    law_read_revision_admits_replace(kind, next_content, Some(encode_utf8(content)));
}

/// An instruction file may hold any text of at most 1 MiB of UTF-8 without
/// NUL: a replace that names the stored file's current revision (`missing`
/// when there is none) writes it and reports it as an existing file with that
/// content and the digest of its bytes. Content over 1 MiB is refused as too
/// large, and content within the limit that holds NUL is refused for the NUL,
/// whatever the revision.
pub proof fn law_replace_accepts_text_without_nul(
    kind: OhMyPiPromptFileKind,
    expected: Seq<char>,
    content: Seq<char>,
    stored: Option<Seq<u8>>,
)
    ensures
        ({
            let current = match stored {
                Some(b) => spec_revision(b),
                None => MISSING_REVISION@,
            };
            (stored matches Some(b) ==> b.len() <= 1048576) && expected == current
                && encode_utf8(content).len() <= 1048576 && !content.contains('\0')
        }) ==> spec_replace(kind, expected, content, stored) == Ok::<SnapshotView, AppError>(
            SnapshotView { exists: true, revision: spec_revision(encode_utf8(content)), content },
        ),
        encode_utf8(content).len() > 1048576 ==> spec_replace(kind, expected, content, stored)
            == Err::<SnapshotView, AppError>(AppError::ContentTooLarge(ContentLabel::InstructionFile)),
        encode_utf8(content).len() <= 1048576 && content.contains('\0') ==> spec_replace(kind, expected, content, stored)
            == Err::<SnapshotView, AppError>(AppError::ContentContainsNul),
{
}

/// What a read reports of a stored instruction file: a missing file as
/// missing with empty content; the UTF-8 bytes of a text of at most 1 MiB as an
/// existing file holding that text, at the digest of those bytes; a file over
/// 1 MiB as too large; and bytes within the limit that are not UTF-8 as such.
pub proof fn law_read_reports_stored_text(kind: OhMyPiPromptFileKind, text: Seq<char>, bytes: Seq<u8>)
    ensures
        spec_read_prompt_file(kind, None) == Ok::<SnapshotView, AppError>(
            SnapshotView { exists: false, revision: MISSING_REVISION@, content: Seq::empty() },
        ),
        encode_utf8(text).len() <= 1048576 ==> spec_read_prompt_file(kind, Some(encode_utf8(text)))
            == Ok::<SnapshotView, AppError>(
            SnapshotView { exists: true, revision: spec_revision(encode_utf8(text)), content: text },
        ),
        bytes.len() > 1048576 ==> spec_read_prompt_file(kind, Some(bytes)) == Err::<SnapshotView, AppError>(
            AppError::FileTooLarge,
        ),
        bytes.len() <= 1048576 && !valid_utf8(bytes) ==> (spec_read_prompt_file(kind, Some(bytes)) matches Err(
            AppError::PromptFileNotUtf8(k, _),
        ) && k == kind),
{
    vstd::utf8::encode_utf8_valid_utf8(text);
    vstd::utf8::encode_utf8_decode_utf8(text);
}

/// The revision guard of an instruction file: a delete removes the file
/// (reporting whether there was one) exactly when the caller names its current
/// revision (`missing` when there is none), and a replace with valid content
/// is refused with a conflict when the caller names any other revision text.
pub proof fn law_prompt_file_guard(
    kind: OhMyPiPromptFileKind,
    expected: Seq<char>,
    content: Seq<char>,
    stored: Option<Seq<u8>>,
)
    requires
        stored matches Some(b) ==> b.len() <= 1048576,
    ensures
        ({
            let current = match stored {
                Some(b) => spec_revision(b),
                None => MISSING_REVISION@,
            };
            &&& expected == current ==> spec_delete(kind, expected, stored) == Ok::<bool, AppError>(stored is Some)
            &&& expected != current ==> spec_delete(kind, expected, stored) == Err::<bool, AppError>(
                AppError::Conflict(RevisionSubject::PromptFile(kind)),
            )
            &&& expected != current && encode_utf8(content).len() <= 1048576 && !content.contains('\0')
                ==> spec_replace(kind, expected, content, stored) == Err::<SnapshotView, AppError>(
                AppError::Conflict(RevisionSubject::PromptFile(kind)),
            )
        }),
{
}

} // verus!
