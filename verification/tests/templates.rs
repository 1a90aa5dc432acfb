use ohmypi_prompt_files::error::{AppError, ContentLabel, RevisionSubject, Utf8Failure};
use ohmypi_prompt_files::prompt_files::MISSING_REVISION;
use ohmypi_prompt_files::revision::revision;
use ohmypi_prompt_files::templates::{
    rename_source, template_path, TemplateListError, template_slug_of_file, validate_template_slug, validate_upsert_request,
    OhMyPiPromptTemplateService,
};

#[test]
fn template_slug_validation() {
    assert!(validate_template_slug("hello-world").is_ok());
    assert!(validate_template_slug("hello world").is_err());
    assert!(validate_template_slug("").is_err());
}

#[test]
fn slug_errors_in_order() {
    assert_eq!(validate_template_slug(""), Err(AppError::SlugEmpty));
    assert_eq!(validate_template_slug("  \t"), Err(AppError::SlugEmpty));
    assert_eq!(validate_template_slug(&"a".repeat(129)), Err(AppError::SlugTooLong));
    assert_eq!(validate_template_slug(&"a".repeat(128)), Ok(()));
    // too long wins over bad characters
    assert_eq!(validate_template_slug(&"!".repeat(129)), Err(AppError::SlugTooLong));
    assert_eq!(validate_template_slug("hello world"), Err(AppError::SlugInvalidCharacters));
    assert_eq!(validate_template_slug("a.b"), Err(AppError::SlugInvalidCharacters));
    assert_eq!(validate_template_slug("snake_case-1"), Ok(()));
    assert_eq!(validate_template_slug("héllo"), Ok(()));
    assert_eq!(validate_template_slug("日本"), Ok(()));
}

#[test]
fn template_path_appends_md() {
    assert_eq!(template_path("hello"), "hello.md");
    assert_eq!(template_path("a-b_c"), "a-b_c.md");
}

#[test]
fn slug_of_file_names() {
    assert_eq!(template_slug_of_file("hello.md"), Some("hello".to_string()));
    assert_eq!(template_slug_of_file("héllo.md"), Some("héllo".to_string()));
    assert_eq!(template_slug_of_file(".md"), None);
    assert_eq!(template_slug_of_file("md"), None);
    assert_eq!(template_slug_of_file("hello.txt"), None);
    assert_eq!(template_slug_of_file("hello.MD"), None);
    assert_eq!(template_slug_of_file("a.b.md"), None);
    assert_eq!(template_slug_of_file("hello world.md"), None);
    assert_eq!(template_slug_of_file(" .md"), None);
}

#[test]
fn slug_round_trips_through_file_name() {
    for slug in ["a", "review-pr", "x_1", "ünï"] {
        assert_eq!(template_slug_of_file(&template_path(slug)), Some(slug.to_string()));
    }
}

fn entry(name: &str, content: &[u8]) -> (String, Vec<u8>) {
    (name.to_string(), content.to_vec())
}

#[test]
fn list_sorts_by_slug_and_skips_other_files() {
    let entries = vec![
        entry("zeta.md", b"z"),
        entry("notes.txt", &[0xff]),
        entry("alpha.md", b"a"),
        entry("Beta.md", b"b"),
        entry(".md", &[0xff]),
        entry("bad name.md", &[0xff]),
    ];
    let templates = OhMyPiPromptTemplateService::list(entries).unwrap();
    let slugs: Vec<&str> = templates.iter().map(|t| t.slug.as_str()).collect();
    assert_eq!(slugs, vec!["Beta", "alpha", "zeta"]);
    assert_eq!(templates[1].content, "a");
    assert_eq!(templates[1].revision, revision(b"a"));
}

#[test]
fn list_of_empty_directory() {
    assert!(OhMyPiPromptTemplateService::list(Vec::new()).unwrap().is_empty());
}

#[test]
fn list_reports_first_bad_entry() {
    let entries = vec![entry("a.md", b"ok"), entry("b.md", &[b'x', 0xff]), entry("c.md", &vec![b'a'; 1048577])];
    assert_eq!(
        OhMyPiPromptTemplateService::list(entries).unwrap_err(),
        TemplateListError {
            entry: 1,
            error: AppError::TemplateNotUtf8(Utf8Failure { valid_up_to: 1, error_len: Some(1) })
        }
    );
    let entries = vec![entry("notes.txt", &[0xff]), entry("c.md", &vec![b'a'; 1048577]), entry("b.md", &[0xff])];
    assert_eq!(
        OhMyPiPromptTemplateService::list(entries).unwrap_err(),
        TemplateListError { entry: 1, error: AppError::FileTooLarge }
    );
}

#[test]
fn upsert_new_template() {
    let t = OhMyPiPromptTemplateService::upsert("greet", None, MISSING_REVISION, "hi", &None, &None).unwrap();
    assert_eq!(t.slug, "greet");
    assert_eq!(t.content, "hi");
    assert_eq!(t.revision, revision(b"hi"));
}

#[test]
fn list_after_upsert_gives_the_written_template() {
    let t = OhMyPiPromptTemplateService::upsert("greet", None, MISSING_REVISION, "hi ✓", &None, &None).unwrap();
    let listed = OhMyPiPromptTemplateService::list(vec![entry(&template_path("greet"), "hi ✓".as_bytes())]).unwrap();
    assert_eq!(listed.len(), 1);
    assert_eq!(listed[0].slug, t.slug);
    assert_eq!(listed[0].content, t.content);
    assert_eq!(listed[0].revision, t.revision);
}

#[test]
fn upsert_in_place_needs_current_revision() {
    let stored = Some(b"old".to_vec());
    let ok = OhMyPiPromptTemplateService::upsert("greet", Some("greet"), &revision(b"old"), "new", &stored, &None);
    assert!(ok.is_ok());
    let stale = OhMyPiPromptTemplateService::upsert("greet", None, MISSING_REVISION, "new", &stored, &None);
    assert_eq!(stale.unwrap_err(), AppError::Conflict(RevisionSubject::PromptTemplate));
}

#[test]
fn upsert_rename() {
    let original = Some(b"old".to_vec());
    let renamed = OhMyPiPromptTemplateService::upsert("new", Some("old"), &revision(b"old"), "body", &None, &original);
    assert_eq!(renamed.unwrap().slug, "new");
    // the rename target must not exist
    let taken = Some(b"other".to_vec());
    let refused = OhMyPiPromptTemplateService::upsert("new", Some("old"), &revision(b"old"), "body", &taken, &original);
    assert_eq!(refused.unwrap_err(), AppError::Conflict(RevisionSubject::PromptTemplate));
    // the source must be at the expected revision
    let stale = OhMyPiPromptTemplateService::upsert("new", Some("old"), MISSING_REVISION, "body", &None, &original);
    assert_eq!(stale.unwrap_err(), AppError::Conflict(RevisionSubject::PromptTemplate));
}

#[test]
fn upsert_validates_slugs_and_content_first() {
    assert_eq!(
        OhMyPiPromptTemplateService::upsert("bad slug", None, "x", "c", &None, &None).unwrap_err(),
        AppError::SlugInvalidCharacters
    );
    assert_eq!(
        OhMyPiPromptTemplateService::upsert("good", Some(""), "x", "c", &None, &None).unwrap_err(),
        AppError::SlugEmpty
    );
    let big = "a".repeat(1048577);
    assert_eq!(
        OhMyPiPromptTemplateService::upsert("good", None, "x", &big, &None, &None).unwrap_err(),
        AppError::ContentTooLarge(ContentLabel::PromptTemplate)
    );
}

#[test]
fn rename_source_only_when_slugs_differ() {
    assert_eq!(rename_source("a", Some("b")), Some("b"));
    assert_eq!(rename_source("a", Some("a")), None);
    assert_eq!(rename_source("a", None), None);
}

#[test]
fn delete_template() {
    let stored = Some(b"x".to_vec());
    assert_eq!(OhMyPiPromptTemplateService::delete("t", &revision(b"x"), &stored), Ok(true));
    assert_eq!(OhMyPiPromptTemplateService::delete("t", MISSING_REVISION, &None), Ok(false));
    assert_eq!(
        OhMyPiPromptTemplateService::delete("t", MISSING_REVISION, &stored),
        Err(AppError::Conflict(RevisionSubject::PromptTemplate))
    );
    assert_eq!(OhMyPiPromptTemplateService::delete("", MISSING_REVISION, &None), Err(AppError::SlugEmpty));
}

#[test]
fn upsert_request_checks_before_files() {
    assert_eq!(validate_upsert_request("ok", None, "body"), Ok(()));
    assert_eq!(validate_upsert_request("ok", Some("also-ok"), "body"), Ok(()));
    assert_eq!(validate_upsert_request("", Some("bad slug"), "body"), Err(AppError::SlugEmpty));
    assert_eq!(validate_upsert_request("ok", Some("bad slug"), "body"), Err(AppError::SlugInvalidCharacters));
}

#[test]
fn slugs_cannot_leave_the_commands_directory() {
    assert_eq!(validate_template_slug("a/b"), Err(AppError::SlugInvalidCharacters));
    assert_eq!(validate_template_slug("../AGENTS"), Err(AppError::SlugInvalidCharacters));
    assert_eq!(validate_template_slug("a\\b"), Err(AppError::SlugInvalidCharacters));
    assert_eq!(validate_template_slug("c:x"), Err(AppError::SlugInvalidCharacters));
    assert_eq!(validate_template_slug("\u{3000}\u{a0}"), Err(AppError::SlugEmpty));
}

#[test]
fn list_after_rename_in_a_directory_with_other_templates() {
    let original = Some(b"old body".to_vec());
    let t = OhMyPiPromptTemplateService::upsert("new", Some("old"), &revision(b"old body"), "body", &None, &original)
        .unwrap();
    let entries = vec![
        entry("zz.md", b"z"),
        entry(&template_path("new"), b"body"),
        entry("aa.md", b"a"),
        entry("readme.txt", b"r"),
    ];
    let listed = OhMyPiPromptTemplateService::list(entries).unwrap();
    let matching: Vec<_> = listed.iter().filter(|x| x.slug == "new").collect();
    assert_eq!(matching.len(), 1);
    assert_eq!(matching[0].content, t.content);
    assert_eq!(matching[0].revision, t.revision);
    assert!(listed.iter().all(|x| x.slug != "old"));
    let slugs: Vec<&str> = listed.iter().map(|x| x.slug.as_str()).collect();
    assert_eq!(slugs, vec!["aa", "new", "zz"]);
}
