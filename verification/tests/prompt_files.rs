use ohmypi_prompt_files::error::{AppError, ContentLabel, RevisionSubject, Utf8Failure};
use ohmypi_prompt_files::prompt_files::{
    ensure_revision, read_limited, read_prompt_file, validate_content_size,
    validate_instruction_content, OhMyPiPromptFileKind, OhMyPiPromptFileService,
    MAX_PROMPT_FILE_BYTES, MISSING_REVISION,
};
use ohmypi_prompt_files::revision::{hex_encode, revision};
use ohmypi_prompt_files::text::{bytes_le_exec, str_contains_char, str_equal};

const HELLO_SHA256: &str = "2cf24dba5fb0a30e26e83b2ac5b9e29e1b161e5c1fa7425e73043362938b9824";
const EMPTY_SHA256: &str = "e3b0c44298fc1c149afbf4c8996fb92427ae41e4649b934ca495991b7852b855";

#[test]
fn agents_file_uses_agents_md() {
    assert_eq!(OhMyPiPromptFileKind::Agents.filename(), "AGENTS.md");
    assert_eq!(OhMyPiPromptFileKind::SystemOverride.filename(), "SYSTEM.md");
}

#[test]
fn labels_name_the_files() {
    assert_eq!(OhMyPiPromptFileKind::Agents.label(), "AGENTS.md");
    assert_eq!(OhMyPiPromptFileKind::SystemOverride.label(), "SYSTEM.md");
}

#[test]
fn revision_is_lower_hex_sha256() {
    assert_eq!(revision(b"hello"), HELLO_SHA256);
    assert_eq!(revision(b""), EMPTY_SHA256);
    assert_eq!(revision(b"hello").len(), 64);
}

#[test]
fn hex_encode_two_digits_per_byte() {
    assert_eq!(hex_encode(&[0x0a, 0x14, 0x1e]), "0a141e");
    assert_eq!(hex_encode(&[0xff, 0x00]), "ff00");
    assert_eq!(hex_encode(&[]), "");
}

#[test]
fn read_missing_file() {
    let snapshot = OhMyPiPromptFileService::read(OhMyPiPromptFileKind::Agents, None).unwrap();
    assert!(!snapshot.exists);
    assert_eq!(snapshot.revision, MISSING_REVISION);
    assert_eq!(snapshot.content, "");
}

#[test]
fn read_existing_file() {
    let snapshot =
        OhMyPiPromptFileService::read(OhMyPiPromptFileKind::SystemOverride, Some(b"hello".to_vec()))
            .unwrap();
    assert!(snapshot.exists);
    assert_eq!(snapshot.revision, HELLO_SHA256);
    assert_eq!(snapshot.content, "hello");
}

#[test]
fn read_rejects_non_utf8() {
    let result = read_prompt_file(OhMyPiPromptFileKind::Agents, Some(vec![0xff, 0xfe]));
    assert_eq!(
        result.unwrap_err(),
        AppError::PromptFileNotUtf8(
            OhMyPiPromptFileKind::Agents,
            Utf8Failure { valid_up_to: 0, error_len: Some(1) }
        )
    );
    // a character cut off at the end is reported as incomplete, after the valid prefix
    let result = read_prompt_file(OhMyPiPromptFileKind::SystemOverride, Some(vec![b'o', b'k', 0xe2, 0x82]));
    assert_eq!(
        result.unwrap_err(),
        AppError::PromptFileNotUtf8(
            OhMyPiPromptFileKind::SystemOverride,
            Utf8Failure { valid_up_to: 2, error_len: None }
        )
    );
}

#[test]
fn read_rejects_oversized_file() {
    let big = vec![b'a'; MAX_PROMPT_FILE_BYTES as usize + 1];
    let result = OhMyPiPromptFileService::read(OhMyPiPromptFileKind::Agents, Some(big));
    assert_eq!(result.unwrap_err(), AppError::FileTooLarge);
    let at_limit = vec![b'a'; MAX_PROMPT_FILE_BYTES as usize];
    assert!(OhMyPiPromptFileService::read(OhMyPiPromptFileKind::Agents, Some(at_limit)).is_ok());
}

#[test]
fn read_limited_boundary() {
    assert_eq!(read_limited(1048576), Ok(()));
    assert_eq!(read_limited(1048577), Err(AppError::FileTooLarge));
    assert_eq!(read_limited(0), Ok(()));
}

#[test]
fn content_size_boundary() {
    let at_limit = "a".repeat(1048576);
    let over = "a".repeat(1048577);
    assert_eq!(validate_content_size(&at_limit, ContentLabel::PromptTemplate), Ok(()));
    assert_eq!(
        validate_content_size(&over, ContentLabel::PromptTemplate),
        Err(AppError::ContentTooLarge(ContentLabel::PromptTemplate))
    );
    // the limit is on bytes, not characters: 'é' takes two bytes
    let wide = "é".repeat(524289);
    assert_eq!(
        validate_content_size(&wide, ContentLabel::InstructionFile),
        Err(AppError::ContentTooLarge(ContentLabel::InstructionFile))
    );
}

#[test]
fn instruction_content_rejects_nul() {
    assert_eq!(validate_instruction_content("plain text"), Ok(()));
    assert_eq!(validate_instruction_content("a\0b"), Err(AppError::ContentContainsNul));
    let over = "a".repeat(1048577);
    assert_eq!(
        validate_instruction_content(&over),
        Err(AppError::ContentTooLarge(ContentLabel::InstructionFile))
    );
}

#[test]
fn replace_missing_file_with_missing_revision() {
    let snapshot = OhMyPiPromptFileService::replace(
        OhMyPiPromptFileKind::Agents,
        MISSING_REVISION,
        "hello",
        &None,
    )
    .unwrap();
    assert!(snapshot.exists);
    assert_eq!(snapshot.content, "hello");
    assert_eq!(snapshot.revision, HELLO_SHA256);
}

#[test]
fn read_after_replace_gives_the_same_snapshot() {
    let stored = Some(b"old".to_vec());
    let current = OhMyPiPromptFileService::read(OhMyPiPromptFileKind::Agents, stored.clone()).unwrap();
    let written = OhMyPiPromptFileService::replace(
        OhMyPiPromptFileKind::Agents,
        &current.revision,
        "new content ✓",
        &stored,
    )
    .unwrap();
    let reread = OhMyPiPromptFileService::read(
        OhMyPiPromptFileKind::Agents,
        Some("new content ✓".as_bytes().to_vec()),
    )
    .unwrap();
    assert_eq!(reread.exists, written.exists);
    assert_eq!(reread.revision, written.revision);
    assert_eq!(reread.content, written.content);
}

#[test]
fn replace_with_stale_revision_conflicts() {
    let stored = Some(b"hello".to_vec());
    let result = OhMyPiPromptFileService::replace(
        OhMyPiPromptFileKind::SystemOverride,
        MISSING_REVISION,
        "x",
        &stored,
    );
    assert_eq!(
        result.unwrap_err(),
        AppError::Conflict(RevisionSubject::PromptFile(OhMyPiPromptFileKind::SystemOverride))
    );
    let result = OhMyPiPromptFileService::replace(OhMyPiPromptFileKind::Agents, HELLO_SHA256, "x", &None);
    assert_eq!(
        result.unwrap_err(),
        AppError::Conflict(RevisionSubject::PromptFile(OhMyPiPromptFileKind::Agents))
    );
}

#[test]
fn replace_validates_content_before_revision() {
    let stored = Some(b"hello".to_vec());
    let result = OhMyPiPromptFileService::replace(OhMyPiPromptFileKind::Agents, "stale", "a\0", &stored);
    assert_eq!(result.unwrap_err(), AppError::ContentContainsNul);
}

#[test]
fn replace_reports_oversized_stored_file() {
    let stored = Some(vec![b'a'; 1048577]);
    let result = OhMyPiPromptFileService::replace(OhMyPiPromptFileKind::Agents, "x", "ok", &stored);
    assert_eq!(result.unwrap_err(), AppError::FileTooLarge);
}

#[test]
fn delete_reports_whether_a_file_exists() {
    let stored = Some(b"hello".to_vec());
    assert_eq!(
        OhMyPiPromptFileService::delete(OhMyPiPromptFileKind::Agents, HELLO_SHA256, &stored),
        Ok(true)
    );
    assert_eq!(
        OhMyPiPromptFileService::delete(OhMyPiPromptFileKind::Agents, MISSING_REVISION, &None),
        Ok(false)
    );
    assert_eq!(
        OhMyPiPromptFileService::delete(OhMyPiPromptFileKind::Agents, MISSING_REVISION, &stored),
        Err(AppError::Conflict(RevisionSubject::PromptFile(OhMyPiPromptFileKind::Agents)))
    );
}

#[test]
fn ensure_revision_cases() {
    assert_eq!(ensure_revision(&None, "missing", RevisionSubject::PromptTemplate), Ok(()));
    assert_eq!(
        ensure_revision(&Some(b"hello".to_vec()), HELLO_SHA256, RevisionSubject::PromptTemplate),
        Ok(())
    );
    assert_eq!(
        ensure_revision(&Some(b"hello".to_vec()), EMPTY_SHA256, RevisionSubject::PromptTemplate),
        Err(AppError::Conflict(RevisionSubject::PromptTemplate))
    );
    // an existing empty file is not "missing"
    assert_eq!(
        ensure_revision(&Some(Vec::new()), MISSING_REVISION, RevisionSubject::PromptTemplate),
        Err(AppError::Conflict(RevisionSubject::PromptTemplate))
    );
}

#[test]
fn text_helpers() {
    assert!(str_equal("abc", "abc"));
    assert!(!str_equal("abc", "abd"));
    assert!(!str_equal("ab", "abc"));
    assert!(str_contains_char("a\0", '\0'));
    assert!(!str_contains_char("abc", 'd'));
    assert!(bytes_le_exec(b"ab", b"abc"));
    assert!(!bytes_le_exec(b"b", b"abc"));
    assert!(bytes_le_exec(b"", b""));
}
