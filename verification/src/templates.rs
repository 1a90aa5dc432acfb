//! Oh My Pi slash-command templates (`commands/<slug>.md`): slug validation,
//! the file name of a template, listing, and the revision guards of an upsert
//! (possibly a rename) and of a delete.
//!
//! The services take the stored state of each file as plain values: `None`
//! for a file that does not exist, `Some(bytes)` for one that does.

use vstd::prelude::*;
use vstd::relations::sorted_by;
use vstd::string::StrSliceExecFns;
use vstd::utf8::{decode_utf8, encode_utf8, valid_utf8};
use crate::error::{AppError, ContentLabel, RevisionSubject};
use crate::external::{
    char_is_alphanumeric, char_is_whitespace, is_ascii_alphanumeric, is_white_space, spec_utf8_failure,
    string_from_utf8,
    string_push, unicode_alphanumeric,
};
use crate::prompt_files::{
    ensure_revision, missing_revision, read_limited, spec_ensure_revision,
    spec_validate_content_size, stored_view, utf8_len, validate_content_size, MAX_PROMPT_FILE_BYTES,
    MISSING_REVISION,
};
use crate::revision::{revision, spec_revision};
use crate::text::{bytes_le, bytes_le_exec, str_equal};

verus! {

broadcast use vstd::string::group_string_axioms;

/// The longest template slug, in bytes.
pub const MAX_TEMPLATE_SLUG_BYTES: usize = 128;

/// A character that a slug may hold: a letter, a digit, `-` or `_`. Among
/// ASCII characters the letters and digits are `a`-`z`, `A`-`Z` and `0`-`9`;
/// beyond ASCII they are those with the Unicode `Alphabetic` or `Numeric` property.
pub open spec fn is_slug_char(c: char) -> bool {
    if (c as u32) < 128 {
        is_ascii_alphanumeric(c) || c == '-' || c == '_'
    } else {
        unicode_alphanumeric(c)
    }
}

/// A slug is refused when it is empty or only whitespace, when it exceeds 128
/// bytes, or when it holds another character than a letter, a digit, `-` or `_`;
/// checked in that order.
pub open spec fn spec_validate_template_slug(slug: Seq<char>) -> Result<(), AppError> {
    if forall|i: int| 0 <= i < slug.len() ==> is_white_space(#[trigger] slug[i]) {
        Err(AppError::SlugEmpty)
    } else if utf8_len(slug) > MAX_TEMPLATE_SLUG_BYTES {
        Err(AppError::SlugTooLong)
    } else if !(forall|i: int| 0 <= i < slug.len() ==> is_slug_char(#[trigger] slug[i])) {
        Err(AppError::SlugInvalidCharacters)
    } else {
        Ok(())
    }
}

/// Refuses an invalid template slug.
pub fn validate_template_slug(slug: &str) -> (r: Result<(), AppError>)
    ensures
        r == spec_validate_template_slug(slug@),
{
    let mut blank = true;
    for c in it: slug.chars()
        invariant
            it.seq() == slug@,
            blank == forall|j: int| 0 <= j < it.index() ==> is_white_space(#[trigger] slug@[j]),
    {
        if !char_is_whitespace(c) {
            blank = false;
        }
    }
    if blank {
        return Err(AppError::SlugEmpty);
    }
    if slug.as_bytes().len() > MAX_TEMPLATE_SLUG_BYTES {
        return Err(AppError::SlugTooLong);
    }
    let mut allowed = true;
    for c in it: slug.chars()
        invariant
            it.seq() == slug@,
            allowed == forall|j: int| 0 <= j < it.index() ==> is_slug_char(#[trigger] slug@[j]),
    {
        if !(char_is_alphanumeric(c) || c == '-' || c == '_') {
            allowed = false;
        }
    }
    if !allowed {
        return Err(AppError::SlugInvalidCharacters);
    }
    Ok(())
}

/// The file name of the template with slug `slug`, under the `commands` directory.
pub open spec fn spec_template_path(slug: Seq<char>) -> Seq<char> {
    slug + ".md"@
}

/// The file name of a template: the slug followed by `.md`.
pub fn template_path(slug: &str) -> (name: String)
    ensures
        name@ == spec_template_path(slug@),
{
    let mut name = slug.to_owned();
    string_push(&mut name, '.');
    string_push(&mut name, 'm');
    string_push(&mut name, 'd');
    proof {
        reveal_strlit(".md");
        assert(name@ =~= spec_template_path(slug@));
    }
    name
}

/// The slug of a directory entry named `name`, when it is a template: its
/// extension is `md` (after a non-empty stem) and its stem is a valid slug.
pub open spec fn spec_template_slug_of_file(name: Seq<char>) -> Option<Seq<char>> {
    if name.len() > 3 && name.skip(name.len() - 3) == ".md"@
        && spec_validate_template_slug(name.take(name.len() - 3)) is Ok {
        Some(name.take(name.len() - 3))
    } else {
        None
    }
}

/// The slug of a directory entry, or `None` when the entry is no template.
pub fn template_slug_of_file(name: &str) -> (slug: Option<String>)
    ensures
        slug matches Some(s) ==> spec_template_slug_of_file(name@) == Some(s@),
        slug is None ==> spec_template_slug_of_file(name@) is None,
{
    proof {
        reveal_strlit(".md");
    }
    let n = name.unicode_len();
    if n <= 3 {
        return None;
    }
    let is_md = name.get_char(n - 3) == '.' && name.get_char(n - 2) == 'm' && name.get_char(n - 1) == 'd';
    if !is_md {
        assert(name@.skip(n - 3) != ".md"@) by {
            let tail = name@.skip(n - 3);
            if tail == ".md"@ {
                assert(tail[0] == name@[n - 3]);
                assert(tail[1] == name@[n - 2]);
                assert(tail[2] == name@[n - 1]);
            }
        }
        return None;
    }
    assert(name@.skip(n - 3) =~= ".md"@);
    let stem = name.substring_char(0, n - 3);
    assert(stem@ =~= name@.take(n - 3));
    match validate_template_slug(stem) {
        Err(_) => None,
        Ok(()) => Some(stem.to_owned()),
    }
}

/// A slash-command template.
#[derive(Clone, Debug)]
pub struct OhMyPiPromptTemplate {
    pub slug: String,
    pub content: String,
    pub revision: String,
}

/// A template as plain values.
pub struct TemplateView {
    pub slug: Seq<char>,
    pub content: Seq<char>,
    pub revision: Seq<char>,
}

impl View for OhMyPiPromptTemplate {
    type V = TemplateView;

    open spec fn view(&self) -> TemplateView {
        TemplateView { slug: self.slug@, content: self.content@, revision: self.revision@ }
    }
}

/// A template result as plain values.
pub open spec fn template_result(r: Result<OhMyPiPromptTemplate, AppError>) -> Result<TemplateView, AppError> {
    match r {
        Ok(t) => Ok(t@),
        Err(e) => Err(e),
    }
}

/// The template of content `content` under slug `slug`.
pub open spec fn template_of_content(slug: Seq<char>, content: Seq<char>) -> TemplateView {
    TemplateView { slug, content, revision: spec_revision(encode_utf8(content)) }
}

/// A directory listing: each entry's name and stored bytes, as plain values.
pub open spec fn entries_view(entries: Seq<(String, Vec<u8>)>) -> Seq<(Seq<char>, Seq<u8>)> {
    entries.map_values(|e: (String, Vec<u8>)| (e.0@, e.1@))
}

/// What one directory entry contributes to a listing: nothing when it is no
/// template, else its template or the reason it cannot be read.
pub open spec fn spec_template_entry(name: Seq<char>, bytes: Seq<u8>) -> Option<Result<TemplateView, AppError>> {
    match spec_template_slug_of_file(name) {
        None => None,
        Some(slug) => Some(
            if bytes.len() > MAX_PROMPT_FILE_BYTES {
                Err(AppError::FileTooLarge)
            } else if !valid_utf8(bytes) {
                Err(AppError::TemplateNotUtf8(spec_utf8_failure(bytes)))
            } else {
                Ok(TemplateView { slug, content: decode_utf8(bytes), revision: spec_revision(bytes) })
            },
        ),
    }
}

/// Why a listing failed: the position of the first entry that could not be
/// read, and why.
#[derive(Clone, Copy, Debug, PartialEq, Eq, Structural)]
pub struct TemplateListError {
    pub entry: usize,
    pub error: AppError,
}

/// The templates of a directory listing, in listing order, or the first
/// failing entry's position and error.
pub open spec fn spec_collect_templates(entries: Seq<(Seq<char>, Seq<u8>)>) -> Result<Seq<TemplateView>, TemplateListError>
    decreases entries.len(),
{
    if entries.len() == 0 {
        Ok(Seq::empty())
    } else {
        match spec_collect_templates(entries.drop_last()) {
            Err(e) => Err(e),
            Ok(prev) => match spec_template_entry(entries.last().0, entries.last().1) {
                None => Ok(prev),
                Some(Err(e)) => Err(TemplateListError { entry: (entries.len() - 1) as usize, error: e }),
                Some(Ok(t)) => Ok(prev.push(t)),
            },
        }
    }
}

/// Templates are listed in the order of their slugs' bytes.
pub open spec fn template_le(a: TemplateView, b: TemplateView) -> bool {
    bytes_le(encode_utf8(a.slug), encode_utf8(b.slug))
}

/// The listing order as a relation.
pub open spec fn template_order() -> spec_fn(TemplateView, TemplateView) -> bool {
    |a: TemplateView, b: TemplateView| template_le(a, b)
}

/// Templates as plain values.
pub open spec fn template_views(ts: Seq<OhMyPiPromptTemplate>) -> Seq<TemplateView> {
    ts.map_values(|t: OhMyPiPromptTemplate| t@)
}

proof fn lemma_collect_error_persists(entries: Seq<(Seq<char>, Seq<u8>)>, k: int, m: int)
    requires
        0 <= k <= m <= entries.len(),
        spec_collect_templates(entries.take(k)) is Err,
    ensures
        spec_collect_templates(entries.take(m)) == spec_collect_templates(entries.take(k)),
    decreases m - k,
{
    if m > k {
        lemma_collect_error_persists(entries, k, m - 1);
        assert(entries.take(m).drop_last() =~= entries.take(m - 1));
    }
}

proof fn lemma_multiset_insert<A>(s: Seq<A>, pos: int, x: A)
    requires
        0 <= pos <= s.len(),
    ensures
        s.insert(pos, x).to_multiset() =~= s.to_multiset().insert(x),
{
    broadcast use vstd::seq_lib::group_to_multiset_ensures;
    let front = s.take(pos);
    let back = s.skip(pos);
    assert(s.insert(pos, x) =~= front.push(x) + back);
    assert(s =~= front + back);
    vstd::seq_lib::lemma_multiset_commutative(front.push(x), back);
    vstd::seq_lib::lemma_multiset_commutative(front, back);
}

/// Inserts `t` after every template that does not come after it.
fn insert_sorted(sorted: &mut Vec<OhMyPiPromptTemplate>, t: OhMyPiPromptTemplate)
    requires
        sorted_by(template_views(old(sorted)@), template_order()),
    ensures
        template_views(final(sorted)@).to_multiset() =~= template_views(old(sorted)@).to_multiset().insert(t@),
        sorted_by(template_views(final(sorted)@), template_order()),
{
    let ghost before = template_views(sorted@);
    let mut pos: usize = 0;
    while pos < sorted.len()
        invariant_except_break
            pos <= sorted@.len(),
            template_views(sorted@) == before,
            forall|j: int| 0 <= j < pos ==> template_le(#[trigger] before[j], t@),
        ensures
            pos <= sorted@.len(),
            template_views(sorted@) == before,
            forall|j: int| 0 <= j < pos ==> template_le(#[trigger] before[j], t@),
            pos < sorted@.len() ==> !template_le(before[pos as int], t@),
        decreases sorted@.len() - pos,
    {
        if !bytes_le_exec(sorted[pos].slug.as_str().as_bytes(), t.slug.as_str().as_bytes()) {
            break;
        }
        pos = pos + 1;
    }
    let ghost tv = t@;
    sorted.insert(pos, t);
    let ghost after = template_views(sorted@);
    assert(after =~= before.insert(pos as int, tv));
    proof {
        lemma_multiset_insert(before, pos as int, tv);
        let ord = template_order();
        assert forall|i: int, j: int| 0 <= i < j < after.len() implies #[trigger] ord(after[i], after[j]) by {
            let p = pos as int;
            if j < p {
                assert(ord(before[i], before[j]));
            } else if j == p {
                assert(template_le(before[i], tv));
            } else if i == p {
                // tv comes before before[p] and before[p] is at most before[j - 1]
                crate::text::lemma_bytes_le_total(encode_utf8(before[p].slug), encode_utf8(tv.slug));
                if j - 1 > p {
                    assert(ord(before[p], before[j - 1]));
                    crate::text::lemma_bytes_le_transitive(
                        encode_utf8(tv.slug),
                        encode_utf8(before[p].slug),
                        encode_utf8(before[j - 1].slug),
                    );
                }
            } else if i < p {
                assert(ord(before[i], before[j - 1]));
            } else {
                assert(ord(before[i - 1], before[j - 1]));
            }
        }
    }
}

/// What listing the `commands` directory gives: the templates sorted by slug,
/// or the first entry's error.
pub open spec fn spec_list_matches(entries: Seq<(Seq<char>, Seq<u8>)>, r: Result<Vec<OhMyPiPromptTemplate>, TemplateListError>) -> bool {
    match spec_collect_templates(entries) {
        Err(e) => r == Err::<Vec<OhMyPiPromptTemplate>, TemplateListError>(e),
        Ok(ts) => r is Ok && template_views(r->Ok_0@).to_multiset() == ts.to_multiset()
            && sorted_by(template_views(r->Ok_0@), template_order()),
    }
}

/// The template that an upsert renames into `slug`: `original`, when it names
/// another template than `slug`.
pub open spec fn spec_rename_source(slug: Seq<char>, original: Option<Seq<char>>) -> Option<Seq<char>> {
    match original {
        Some(o) => if o != slug {
            Some(o)
        } else {
            None
        },
        None => None,
    }
}

/// The revision guards of an upsert: on a rename, the source must be at the
/// expected revision and the target must not exist; otherwise the target must
/// be at the expected revision.
pub open spec fn spec_upsert_guard(
    slug: Seq<char>,
    original: Option<Seq<char>>,
    expected: Seq<char>,
    stored_target: Option<Seq<u8>>,
    stored_original: Option<Seq<u8>>,
) -> Result<(), AppError> {
    match spec_rename_source(slug, original) {
        Some(_) => match spec_ensure_revision(stored_original, expected, RevisionSubject::PromptTemplate) {
            Err(e) => Err(e),
            Ok(_) => spec_ensure_revision(stored_target, missing_revision(), RevisionSubject::PromptTemplate),
        },
        None => spec_ensure_revision(stored_target, expected, RevisionSubject::PromptTemplate),
    }
}

/// The checks of an upsert's request that need no file: the slug, the
/// original slug when given, and the content size, in that order.
pub open spec fn spec_validate_upsert_request(slug: Seq<char>, original: Option<Seq<char>>, content: Seq<char>) -> Result<(), AppError> {
    if spec_validate_template_slug(slug) is Err {
        Err(spec_validate_template_slug(slug)->Err_0)
    } else if original is Some && spec_validate_template_slug(original->Some_0) is Err {
        Err(spec_validate_template_slug(original->Some_0)->Err_0)
    } else if spec_validate_content_size(content, ContentLabel::PromptTemplate) is Err {
        Err(AppError::ContentTooLarge(ContentLabel::PromptTemplate))
    } else {
        Ok(())
    }
}

/// What an upsert gives: the request is checked, then the revision guards; on
/// success the template as written.
pub open spec fn spec_upsert(
    slug: Seq<char>,
    original: Option<Seq<char>>,
    expected: Seq<char>,
    content: Seq<char>,
    stored_target: Option<Seq<u8>>,
    stored_original: Option<Seq<u8>>,
) -> Result<TemplateView, AppError> {
    if spec_validate_upsert_request(slug, original, content) is Err {
        Err(spec_validate_upsert_request(slug, original, content)->Err_0)
    } else if spec_upsert_guard(slug, original, expected, stored_target, stored_original) is Err {
        Err(spec_upsert_guard(slug, original, expected, stored_target, stored_original)->Err_0)
    } else {
        Ok(template_of_content(slug, content))
    }
}

/// What deleting a template gives: whether there was a file to remove.
pub open spec fn spec_delete_template(slug: Seq<char>, expected: Seq<char>, stored: Option<Seq<u8>>) -> Result<bool, AppError> {
    if spec_validate_template_slug(slug) is Err {
        Err(spec_validate_template_slug(slug)->Err_0)
    } else if spec_ensure_revision(stored, expected, RevisionSubject::PromptTemplate) is Err {
        Err(spec_ensure_revision(stored, expected, RevisionSubject::PromptTemplate)->Err_0)
    } else {
        Ok(stored is Some)
    }
}

/// An optional string as plain values.
pub open spec fn opt_str_view(s: Option<&str>) -> Option<Seq<char>> {
    match s {
        Some(t) => Some(t@),
        None => None,
    }
}

/// The slug of the template that an upsert renames, when `original_slug` names
/// another template than `slug`.
pub fn rename_source<'a>(slug: &str, original_slug: Option<&'a str>) -> (source: Option<&'a str>)
    ensures
        opt_str_view(source) == spec_rename_source(slug@, opt_str_view(original_slug)),
{
    match original_slug {
        Some(o) => if str_equal(o, slug) {
            None
        } else {
            Some(o)
        },
        None => None,
    }
}

/// Checks an upsert's request before any file is read: the slug, the original
/// slug when given, and the content size.
pub fn validate_upsert_request(slug: &str, original_slug: Option<&str>, content: &str) -> (r: Result<(), AppError>)
    ensures
        r == spec_validate_upsert_request(slug@, opt_str_view(original_slug), content@),
{
    match validate_template_slug(slug) {
        Err(e) => {
            return Err(e);
        },
        Ok(()) => {},
    }
    match original_slug {
        Some(o) => match validate_template_slug(o) {
            Err(e) => {
                return Err(e);
            },
            Ok(()) => {},
        },
        None => {},
    }
    validate_content_size(content, ContentLabel::PromptTemplate)
}

/// The template service.
pub struct OhMyPiPromptTemplateService;

impl OhMyPiPromptTemplateService {
    /// Lists the templates of the `commands` directory, given each entry's file
    /// name and stored bytes in listing order; entries that are no templates
    /// are skipped, whatever their bytes.
    pub fn list(entries: Vec<(String, Vec<u8>)>) -> (r: Result<Vec<OhMyPiPromptTemplate>, TemplateListError>)
        ensures
            spec_list_matches(entries_view(entries@), r),
    {
        let ghost ev = entries_view(entries@);
        let mut sorted: Vec<OhMyPiPromptTemplate> = Vec::new();
        let ghost mut collected: Seq<TemplateView> = Seq::empty();
        let n = entries.len();
        let mut i: usize = 0;
        assert(ev.take(0) =~= Seq::<(Seq<char>, Seq<u8>)>::empty());
        assert(template_views(sorted@) =~= collected);
        while i < n
            invariant
                n == entries@.len(),
                ev == entries_view(entries@),
                ev.len() == n,
                i <= n,
                spec_collect_templates(ev.take(i as int)) == Ok::<Seq<TemplateView>, TemplateListError>(collected),
                template_views(sorted@).to_multiset() == collected.to_multiset(),
                sorted_by(template_views(sorted@), template_order()),
            decreases n - i,
        {
            let name = &entries[i].0;
            let bytes = &entries[i].1;
            assert(ev[i as int] == (name@, bytes@));
            assert(ev.take(i + 1).drop_last() =~= ev.take(i as int));
            assert(ev.take(i + 1).last() == ev[i as int]);
            match template_slug_of_file(name.as_str()) {
                None => {},
                Some(slug) => {
                    match read_limited(bytes.len() as u64) {
                        Err(e) => {
                            proof {
                                lemma_collect_error_persists(ev, i + 1, n as int);
                                assert(ev.take(n as int) =~= ev);
                            }
                            return Err(TemplateListError { entry: i, error: e });
                        },
                        Ok(()) => {},
                    }
                    let rev = revision(bytes.as_slice());
                    let copy = bytes.clone();
                    assert(copy@ =~= bytes@);
                    match string_from_utf8(copy) {
                        Err(failure) => {
                            proof {
                                lemma_collect_error_persists(ev, i + 1, n as int);
                                assert(ev.take(n as int) =~= ev);
                            }
                            return Err(TemplateListError { entry: i, error: AppError::TemplateNotUtf8(failure) });
                        },
                        Ok(content) => {
                            let t = OhMyPiPromptTemplate { slug, content, revision: rev };
                            let ghost tv = t@;
                            insert_sorted(&mut sorted, t);
                            proof {
                                broadcast use vstd::seq_lib::group_to_multiset_ensures;
                                collected = collected.push(tv);
                            }
                        },
                    }
                },
            }
            i = i + 1;
        }
        assert(ev.take(n as int) =~= ev);
        Ok(sorted)
    }

    /// Decides an upsert of the template `slug`, possibly renamed from
    /// `original_slug`; `stored_target` is the stored content of `slug`'s file
    /// and `stored_original` that of `original_slug`'s (read only on a rename).
    /// `Ok` means that the content is to be written (after the rename, if any);
    /// it carries the template as written.
    pub fn upsert(
        slug: &str,
        original_slug: Option<&str>,
        expected_revision: &str,
        content: &str,
        stored_target: &Option<Vec<u8>>,
        stored_original: &Option<Vec<u8>>,
    ) -> (r: Result<OhMyPiPromptTemplate, AppError>)
        ensures
            template_result(r) == spec_upsert(
                slug@,
                opt_str_view(original_slug),
                expected_revision@,
                content@,
                stored_view(*stored_target),
                stored_view(*stored_original),
            ),
    {
        match validate_upsert_request(slug, original_slug, content) {
            Err(e) => {
                return Err(e);
            },
            Ok(()) => {},
        }
        match rename_source(slug, original_slug) {
            Some(_) => {
                match ensure_revision(stored_original, expected_revision, RevisionSubject::PromptTemplate) {
                    Err(e) => {
                        return Err(e);
                    },
                    Ok(()) => {},
                }
                match ensure_revision(stored_target, MISSING_REVISION, RevisionSubject::PromptTemplate) {
                    Err(e) => {
                        return Err(e);
                    },
                    Ok(()) => {},
                }
            },
            None => {
                match ensure_revision(stored_target, expected_revision, RevisionSubject::PromptTemplate) {
                    Err(e) => {
                        return Err(e);
                    },
                    Ok(()) => {},
                }
            },
        }
        Ok(OhMyPiPromptTemplate {
            slug: slug.to_owned(),
            content: content.to_owned(),
            revision: revision(content.as_bytes()),
        })
    }

    /// Decides a delete of the template `slug` whose stored content is `stored`.
    /// `Ok(true)` means that the file is to be removed; `Ok(false)` that there is none.
    pub fn delete(slug: &str, expected_revision: &str, stored: &Option<Vec<u8>>) -> (r: Result<bool, AppError>)
        ensures
            r == spec_delete_template(slug@, expected_revision@, stored_view(*stored)),
    {
        match validate_template_slug(slug) {
            Err(e) => {
                return Err(e);
            },
            Ok(()) => {},
        }
        match ensure_revision(stored, expected_revision, RevisionSubject::PromptTemplate) {
            Err(e) => Err(e),
            Ok(()) => Ok(stored.is_some()),
        }
    }
}

/// A valid slug names a template file that the listing maps back to that
/// slug, and every template file is named after its slug.
pub proof fn law_template_path_round_trip(slug: Seq<char>, name: Seq<char>)
    ensures
        spec_validate_template_slug(slug) is Ok ==> spec_template_slug_of_file(spec_template_path(slug)) == Some(slug),
        spec_template_slug_of_file(name) matches Some(s) ==> spec_template_path(s) == name,
{
    reveal_strlit(".md");
    let path = spec_template_path(slug);
    assert(path.take(path.len() - 3) =~= slug);
    assert(path.skip(path.len() - 3) =~= ".md"@);
    if spec_validate_template_slug(slug) is Ok {
        assert(slug.len() > 0);
    }
    if spec_template_slug_of_file(name) is Some {
        assert(name =~= name.take(name.len() - 3) + name.skip(name.len() - 3));
    }
}

/// The directory entry that an upsert writes lists as the upsert's template.
proof fn lemma_written_entry(slug: Seq<char>, content: Seq<char>)
    requires
        spec_validate_template_slug(slug) is Ok,
        spec_validate_content_size(content, ContentLabel::PromptTemplate) is Ok,
    ensures
        spec_template_entry(spec_template_path(slug), encode_utf8(content)) == Some(
            Ok::<TemplateView, AppError>(template_of_content(slug, content)),
        ),
{
    law_template_path_round_trip(slug, spec_template_path(slug));
    vstd::utf8::encode_utf8_valid_utf8(content);
    vstd::utf8::encode_utf8_decode_utf8(content);
}

proof fn lemma_listing_with_written_entry(
    dir: Seq<(Seq<char>, Seq<u8>)>,
    pos: int,
    t: TemplateView,
    renamed: Option<Seq<char>>,
    n: int,
)
    requires
        0 <= pos < dir.len(),
        0 <= n <= dir.len(),
        spec_template_entry(dir[pos].0, dir[pos].1) == Some(Ok::<TemplateView, AppError>(t)),
        forall|i: int| 0 <= i < dir.len() && i != pos ==> (#[trigger] dir[i]).0 != spec_template_path(t.slug),
        renamed matches Some(o) ==> o != t.slug && forall|i: int|
            0 <= i < dir.len() && i != pos ==> (#[trigger] dir[i]).0 != spec_template_path(o),
        spec_collect_templates(dir.take(n)) is Ok,
    ensures
        spec_collect_templates(dir.take(n))->Ok_0.to_multiset().count(t) == (if n > pos { 1nat } else { 0nat }),
        forall|j: int| 0 <= j < spec_collect_templates(dir.take(n))->Ok_0.len()
            && (#[trigger] spec_collect_templates(dir.take(n))->Ok_0[j]).slug == t.slug
            ==> spec_collect_templates(dir.take(n))->Ok_0[j] == t,
        renamed matches Some(o) ==> forall|j: int| 0 <= j < spec_collect_templates(dir.take(n))->Ok_0.len()
            ==> (#[trigger] spec_collect_templates(dir.take(n))->Ok_0[j]).slug != o,
    decreases n,
{
    broadcast use vstd::seq_lib::group_to_multiset_ensures, vstd::multiset::group_multiset_axioms;
    if n == 0 {
        assert(dir.take(0) =~= Seq::<(Seq<char>, Seq<u8>)>::empty());
        assert(spec_collect_templates(dir.take(0))->Ok_0 =~= Seq::<TemplateView>::empty());
    } else {
        let prefix = dir.take(n);
        assert(prefix.drop_last() =~= dir.take(n - 1));
        assert(prefix.last() == dir[n - 1]);
        lemma_listing_with_written_entry(dir, pos, t, renamed, n - 1);
        let prev = spec_collect_templates(dir.take(n - 1))->Ok_0;
        let ps = spec_collect_templates(prefix)->Ok_0;
        let (name, bytes) = dir[n - 1];
        match spec_template_entry(name, bytes) {
            None => {
                assert(ps == prev);
            },
            Some(Err(_)) => {
                assert(false);
            },
            Some(Ok(x)) => {
                assert(ps == prev.push(x));
                assert(ps.to_multiset() =~= prev.to_multiset().insert(x));
                if n - 1 != pos {
                    law_template_path_round_trip(x.slug, name);
                    assert(spec_template_path(x.slug) == name);
                    assert(x.slug != t.slug);
                    if let Some(o) = renamed {
                        assert(x.slug != o);
                    }
                    assert(x != t);
                } else {
                    assert(x == t);
                }
                assert forall|j: int| 0 <= j < ps.len() && (#[trigger] ps[j]).slug == t.slug implies ps[j] == t by {
                    if j < prev.len() {
                        assert(ps[j] == prev[j]);
                    }
                }
                if let Some(o) = renamed {
                    assert forall|j: int| 0 <= j < ps.len() implies (#[trigger] ps[j]).slug != o by {
                        if j < prev.len() {
                            assert(ps[j] == prev[j]);
                        }
                    }
                }
            },
        }
    }
}

/// What an upsert writes is what the next listing of the directory gives back,
/// whatever else the directory holds: `others` are the directory's other
/// entries (no other file is named after the slug, and on a rename the source
/// file is gone), the written file stands at position `pos` of the listing,
/// and `listed` is the listing in any order (such as `list`'s, sorted by slug).
/// Then the upsert's template is listed exactly once, no other listed template
/// has its slug, and after a rename no listed template has the old slug.
pub proof fn law_list_after_upsert(
    slug: Seq<char>,
    original: Option<Seq<char>>,
    expected: Seq<char>,
    content: Seq<char>,
    stored_target: Option<Seq<u8>>,
    stored_original: Option<Seq<u8>>,
    others: Seq<(Seq<char>, Seq<u8>)>,
    pos: int,
    listed: Seq<TemplateView>,
)
    requires
        spec_upsert(slug, original, expected, content, stored_target, stored_original) is Ok,
        0 <= pos <= others.len(),
        forall|i: int| 0 <= i < others.len() ==> (#[trigger] others[i]).0 != spec_template_path(slug),
        spec_rename_source(slug, original) matches Some(o) ==> forall|i: int|
            0 <= i < others.len() ==> (#[trigger] others[i]).0 != spec_template_path(o),
        spec_collect_templates(others.insert(pos, (spec_template_path(slug), encode_utf8(content)))) is Ok,
        listed.to_multiset() == spec_collect_templates(
            others.insert(pos, (spec_template_path(slug), encode_utf8(content))),
        )->Ok_0.to_multiset(),
    ensures
        listed.to_multiset().count(spec_upsert(slug, original, expected, content, stored_target, stored_original)->Ok_0) == 1,
        forall|j: int| 0 <= j < listed.len() && (#[trigger] listed[j]).slug == slug
            ==> listed[j] == spec_upsert(slug, original, expected, content, stored_target, stored_original)->Ok_0,
        spec_rename_source(slug, original) matches Some(o) ==> forall|j: int|
            0 <= j < listed.len() ==> (#[trigger] listed[j]).slug != o,
{
    broadcast use vstd::seq_lib::group_to_multiset_ensures;
    let t = template_of_content(slug, content);
    lemma_written_entry(slug, content);
    let w = (spec_template_path(slug), encode_utf8(content));
    let dir = others.insert(pos, w);
    others.insert_ensures(pos, w);
    assert forall|i: int| 0 <= i < dir.len() && i != pos implies (#[trigger] dir[i]).0 != spec_template_path(t.slug) by {
        if i < pos {
            assert(dir[i] == others[i]);
        } else {
            assert(dir[i] == others[i - 1]);
        }
    }
    if let Some(o) = spec_rename_source(slug, original) {
        assert forall|i: int| 0 <= i < dir.len() && i != pos implies (#[trigger] dir[i]).0 != spec_template_path(o) by {
            if i < pos {
                assert(dir[i] == others[i]);
            } else {
                assert(dir[i] == others[i - 1]);
            }
        }
    }
    assert(dir.take(dir.len() as int) =~= dir);
    lemma_listing_with_written_entry(dir, pos, t, spec_rename_source(slug, original), dir.len() as int);
    let ts = spec_collect_templates(dir)->Ok_0;
    assert forall|j: int| 0 <= j < listed.len() implies ts.contains(#[trigger] listed[j]) by {
        assert(listed.contains(listed[j]));
        assert(listed.to_multiset().count(listed[j]) > 0);
        assert(ts.to_multiset().count(listed[j]) > 0);
    }
    assert forall|j: int| 0 <= j < listed.len() && (#[trigger] listed[j]).slug == slug implies listed[j] == t by {
        assert(ts.contains(listed[j]));
        let k = choose|k: int| 0 <= k < ts.len() && ts[k] == listed[j];
        assert(ts[k].slug == t.slug);
    }
    if let Some(o) = spec_rename_source(slug, original) {
        assert forall|j: int| 0 <= j < listed.len() implies (#[trigger] listed[j]).slug != o by {
            assert(ts.contains(listed[j]));
            let k = choose|k: int| 0 <= k < ts.len() && ts[k] == listed[j];
            assert(ts[k].slug != o);
        }
    }
}

/// A rename never overwrites an existing template: when the target file
/// exists, the upsert is refused.
pub proof fn law_rename_never_overwrites(
    slug: Seq<char>,
    original: Option<Seq<char>>,
    expected: Seq<char>,
    content: Seq<char>,
    target_bytes: Seq<u8>,
    stored_original: Option<Seq<u8>>,
)
    requires
        spec_rename_source(slug, original) is Some,
    ensures
        spec_upsert(slug, original, expected, content, Some(target_bytes), stored_original) is Err,
{
    crate::prompt_files::law_revision_never_missing(target_bytes);
}

/// An upsert in place that names the revision that a listing reported goes
/// through, whenever the new content fits the size limit.
pub proof fn law_listed_revision_admits_upsert(name: Seq<char>, bytes: Seq<u8>, content: Seq<char>)
    requires
        spec_template_entry(name, bytes) matches Some(Ok(_)),
        spec_validate_content_size(content, ContentLabel::PromptTemplate) is Ok,
    ensures
        spec_upsert(
            spec_template_entry(name, bytes)->Some_0->Ok_0.slug,
            None,
            spec_template_entry(name, bytes)->Some_0->Ok_0.revision,
            content,
            Some(bytes),
            None,
        ) is Ok,
{
}

/// The revision that an upsert reports is the one that the next in-place
/// upsert of the written file must name, and naming it lets that upsert
/// through whenever the new content fits the size limit.
pub proof fn law_upsert_revision_admits_next_upsert(
    slug: Seq<char>,
    original: Option<Seq<char>>,
    expected: Seq<char>,
    content: Seq<char>,
    stored_target: Option<Seq<u8>>,
    stored_original: Option<Seq<u8>>,
    next_content: Seq<char>,
)
    requires
        spec_upsert(slug, original, expected, content, stored_target, stored_original) is Ok,
        spec_validate_content_size(next_content, ContentLabel::PromptTemplate) is Ok,
    ensures
        spec_upsert(
            slug,
            None,
            spec_upsert(slug, original, expected, content, stored_target, stored_original)->Ok_0.revision,
            next_content,
            Some(encode_utf8(content)),
            None,
        ) is Ok,
{
}

proof fn lemma_slug_order_antisymmetric(x: TemplateView, y: TemplateView)
    requires
        template_le(x, y),
        template_le(y, x),
    ensures
        x.slug == y.slug,
{
    crate::text::lemma_bytes_le_antisymmetric(encode_utf8(x.slug), encode_utf8(y.slug));
    vstd::utf8::encode_utf8_decode_utf8(x.slug);
    vstd::utf8::encode_utf8_decode_utf8(y.slug);
}

/// A listing is determined by the templates it holds: two arrangements of the
/// same templates, both in slug order, are the same when no two templates
/// share a slug (as no two files of one directory do).
pub proof fn law_sorted_listing_is_unique(a: Seq<TemplateView>, b: Seq<TemplateView>)
    requires
        sorted_by(a, template_order()),
        sorted_by(b, template_order()),
        a.to_multiset() == b.to_multiset(),
        forall|i: int, j: int| 0 <= i < j < a.len() ==> (#[trigger] a[i]).slug != (#[trigger] a[j]).slug,
    ensures
        a == b,
    decreases a.len(),
{
    broadcast use vstd::seq_lib::group_to_multiset_ensures;
    assert(a.to_multiset().len() == a.len());
    assert(b.to_multiset().len() == b.len());
    if a.len() == 0 {
        assert(b.len() == 0);
        assert(a =~= b);
    } else {
        assert(b.len() == a.len());
        let ord = template_order();
        assert(a.contains(a[0]));
        assert(b.to_multiset().count(a[0]) > 0);
        assert(b.contains(a[0]));
        let k = choose|k: int| 0 <= k < b.len() && b[k] == a[0];
        assert(b.contains(b[0]));
        assert(a.to_multiset().count(b[0]) > 0);
        assert(a.contains(b[0]));
        let m = choose|m: int| 0 <= m < a.len() && a[m] == b[0];
        if k > 0 {
            assert(ord(b[0], b[k]));
        }
        if m > 0 {
            assert(ord(a[0], a[m]));
        }
        crate::text::lemma_bytes_le_reflexive(encode_utf8(a[0].slug));
        lemma_slug_order_antisymmetric(a[0], b[0]);
        if m > 0 {
            assert(a[0].slug != a[m].slug);
        }
        assert(a[0] == b[0]);
        let ra = a.drop_first();
        let rb = b.drop_first();
        assert(a.remove(0) =~= ra);
        assert(b.remove(0) =~= rb);
        assert(ra.to_multiset() =~= a.to_multiset().remove(a[0]));
        assert(rb.to_multiset() =~= b.to_multiset().remove(b[0]));
        assert forall|i: int, j: int| 0 <= i < j < ra.len() implies #[trigger] ord(ra[i], ra[j]) by {
            assert(ord(a[i + 1], a[j + 1]));
        }
        assert forall|i: int, j: int| 0 <= i < j < rb.len() implies #[trigger] ord(rb[i], rb[j]) by {
            assert(ord(b[i + 1], b[j + 1]));
        }
        assert forall|i: int, j: int| 0 <= i < j < ra.len() implies (#[trigger] ra[i]).slug != (#[trigger] ra[j]).slug by {
            assert(a[i + 1].slug != a[j + 1].slug);
        }
        law_sorted_listing_is_unique(ra, rb);
        assert forall|i: int| 0 <= i < a.len() implies a[i] == b[i] by {
            if i > 0 {
                assert(a[i] == ra[i - 1]);
                assert(b[i] == rb[i - 1]);
            }
        }
        assert(a =~= b);
    }
}

/// A valid slug holds no path separator, no dot, no colon and no NUL: the
/// template's file name stays inside the `commands` directory.
pub proof fn law_valid_slug_stays_in_directory(slug: Seq<char>)
    requires
        spec_validate_template_slug(slug) is Ok,
    ensures
        forall|i: int|
            0 <= i < slug.len() ==> {
                let c = #[trigger] slug[i];
                &&& c != '/'
                &&& c != '\\'
                &&& c != '.'
                &&& c != ':'
                &&& c != '\0'
            },
{
    assert forall|i: int| 0 <= i < slug.len() implies is_slug_char(#[trigger] slug[i]) by {}
}

proof fn lemma_distinct_names_give_distinct_slugs(entries: Seq<(Seq<char>, Seq<u8>)>, n: int)
    requires
        0 <= n <= entries.len(),
        forall|i: int, j: int| 0 <= i < j < entries.len() ==> (#[trigger] entries[i]).0 != (#[trigger] entries[j]).0,
        spec_collect_templates(entries.take(n)) is Ok,
    ensures
        forall|j: int| 0 <= j < spec_collect_templates(entries.take(n))->Ok_0.len() ==> exists|i: int|
            0 <= i < n && (#[trigger] entries[i]).0 == spec_template_path(
                (#[trigger] spec_collect_templates(entries.take(n))->Ok_0[j]).slug,
            ),
        forall|j: int, k: int| 0 <= j < k < spec_collect_templates(entries.take(n))->Ok_0.len()
            ==> (#[trigger] spec_collect_templates(entries.take(n))->Ok_0[j]).slug
                != (#[trigger] spec_collect_templates(entries.take(n))->Ok_0[k]).slug,
    decreases n,
{
    if n == 0 {
        assert(entries.take(0) =~= Seq::<(Seq<char>, Seq<u8>)>::empty());
        assert(spec_collect_templates(entries.take(0))->Ok_0 =~= Seq::<TemplateView>::empty());
    } else {
        let prefix = entries.take(n);
        assert(prefix.drop_last() =~= entries.take(n - 1));
        assert(prefix.last() == entries[n - 1]);
        lemma_distinct_names_give_distinct_slugs(entries, n - 1);
        let prev = spec_collect_templates(entries.take(n - 1))->Ok_0;
        let ps = spec_collect_templates(prefix)->Ok_0;
        let (name, bytes) = entries[n - 1];
        match spec_template_entry(name, bytes) {
            None => {
                assert(ps == prev);
                assert forall|j: int| 0 <= j < ps.len() implies exists|i: int|
                    0 <= i < n && (#[trigger] entries[i]).0 == spec_template_path(#[trigger] ps[j].slug) by {
                    let i = choose|i: int| 0 <= i < n - 1 && (#[trigger] entries[i]).0 == spec_template_path(prev[j].slug);
                }
            },
            Some(Err(_)) => {
                assert(false);
            },
            Some(Ok(x)) => {
                assert(ps == prev.push(x));
                law_template_path_round_trip(x.slug, name);
                assert forall|j: int| 0 <= j < ps.len() implies exists|i: int|
                    0 <= i < n && (#[trigger] entries[i]).0 == spec_template_path(#[trigger] ps[j].slug) by {
                    if j < prev.len() {
                        assert(ps[j] == prev[j]);
                        let i = choose|i: int| 0 <= i < n - 1 && (#[trigger] entries[i]).0 == spec_template_path(prev[j].slug);
                    } else {
                        assert(entries[n - 1].0 == spec_template_path(ps[j].slug));
                    }
                }
                assert forall|j: int, k: int| 0 <= j < k < ps.len() implies (#[trigger] ps[j]).slug != (#[trigger] ps[k]).slug by {
                    assert(ps[j] == prev[j]);
                    if k == prev.len() {
                        if ps[j].slug == x.slug {
                            let i = choose|i: int| 0 <= i < n - 1 && (#[trigger] entries[i]).0 == spec_template_path(prev[j].slug);
                            assert(entries[i].0 == entries[n - 1].0);
                        }
                    } else {
                        assert(ps[k] == prev[k]);
                    }
                }
            },
        }
    }
}

proof fn lemma_two_positions_count<A>(s: Seq<A>, i: int, j: int)
    requires
        0 <= i < j < s.len(),
        s[i] == s[j],
    ensures
        s.to_multiset().count(s[i]) >= 2,
{
    broadcast use vstd::seq_lib::group_to_multiset_ensures, vstd::multiset::group_multiset_axioms;
    let r = s.remove(i);
    s.remove_ensures(i);
    assert(r[j - 1] == s[i]);
    assert(r.contains(s[i]));
    assert(r.to_multiset().count(s[i]) > 0);
    assert(r.to_multiset() =~= s.to_multiset().remove(s[i]));
}

proof fn lemma_count_two_gives_two_positions<A>(s: Seq<A>, x: A)
    requires
        s.to_multiset().count(x) >= 2,
    ensures
        exists|i: int, j: int| 0 <= i < j < s.len() && s[i] == x && s[j] == x,
{
    broadcast use vstd::seq_lib::group_to_multiset_ensures, vstd::multiset::group_multiset_axioms;
    assert(s.contains(x));
    let i = choose|i: int| 0 <= i < s.len() && s[i] == x;
    let r = s.remove(i);
    s.remove_ensures(i);
    assert(r.to_multiset() =~= s.to_multiset().remove(x));
    assert(r.to_multiset().count(x) > 0);
    assert(r.contains(x));
    let k = choose|k: int| 0 <= k < r.len() && r[k] == x;
    if k < i {
        assert(s[k] == x);
    } else {
        assert(s[k + 1] == x);
    }
}

/// When no two directory entries share a name (as in one directory), no two
/// listed templates share a slug: a listing in slug order has strictly
/// increasing slugs.
pub proof fn law_listing_slugs_strictly_increase(entries: Seq<(Seq<char>, Seq<u8>)>, listed: Seq<TemplateView>)
    requires
        forall|i: int, j: int| 0 <= i < j < entries.len() ==> (#[trigger] entries[i]).0 != (#[trigger] entries[j]).0,
        spec_collect_templates(entries) is Ok,
        listed.to_multiset() == spec_collect_templates(entries)->Ok_0.to_multiset(),
        sorted_by(listed, template_order()),
    ensures
        forall|i: int, j: int| 0 <= i < j < listed.len() ==> {
            &&& template_le(#[trigger] listed[i], #[trigger] listed[j])
            &&& listed[i].slug != listed[j].slug
        },
{
    broadcast use vstd::seq_lib::group_to_multiset_ensures, vstd::multiset::group_multiset_axioms;
    assert(entries.take(entries.len() as int) =~= entries);
    lemma_distinct_names_give_distinct_slugs(entries, entries.len() as int);
    let ts = spec_collect_templates(entries)->Ok_0;
    let ord = template_order();
    assert forall|i: int, j: int| 0 <= i < j < listed.len() implies {
        &&& template_le(#[trigger] listed[i], #[trigger] listed[j])
        &&& listed[i].slug != listed[j].slug
    } by {
        assert(ord(listed[i], listed[j]));
        if listed[i].slug == listed[j].slug {
            assert(listed.contains(listed[i]));
            assert(listed.contains(listed[j]));
            assert(ts.to_multiset().count(listed[i]) > 0);
            assert(ts.to_multiset().count(listed[j]) > 0);
            let a = choose|a: int| 0 <= a < ts.len() && ts[a] == listed[i];
            let b = choose|b: int| 0 <= b < ts.len() && ts[b] == listed[j];
            if a != b {
                if a < b {
                    assert(ts[a].slug != ts[b].slug);
                } else {
                    assert(ts[b].slug != ts[a].slug);
                }
            }
            assert(listed[i] == listed[j]);
            lemma_two_positions_count(listed, i, j);
            lemma_count_two_gives_two_positions(ts, listed[i]);
            let (p, q) = choose|p: int, q: int| 0 <= p < q < ts.len() && ts[p] == listed[i] && ts[q] == listed[i];
            assert(ts[p].slug != ts[q].slug);
        }
    }
}

/// The slug rules, character by character: a slug is accepted exactly when
/// some character is not whitespace, its UTF-8 takes at most 128 bytes, and
/// each character is an ASCII letter or digit, `-`, `_`, or a non-ASCII letter
/// or digit, wherever it stands. A blank slug is refused as empty, an
/// over-long one as too long, and one with another character for it.
pub proof fn law_slug_rules(slug: Seq<char>)
    ensures
        spec_validate_template_slug(slug) is Ok <==> {
            &&& exists|i: int| 0 <= i < slug.len() && !is_white_space(#[trigger] slug[i])
            &&& encode_utf8(slug).len() <= 128
            &&& forall|i: int| 0 <= i < slug.len() ==> {
                let c = #[trigger] slug[i];
                ||| 'a' <= c <= 'z'
                ||| 'A' <= c <= 'Z'
                ||| '0' <= c <= '9'
                ||| c == '-'
                ||| c == '_'
                ||| (c as u32) >= 128 && unicode_alphanumeric(c)
            }
        },
        (forall|i: int| 0 <= i < slug.len() ==> is_white_space(#[trigger] slug[i]))
            ==> spec_validate_template_slug(slug) == Err::<(), AppError>(AppError::SlugEmpty),
        (exists|i: int| 0 <= i < slug.len() && !is_white_space(#[trigger] slug[i])) && encode_utf8(slug).len() > 128
            ==> spec_validate_template_slug(slug) == Err::<(), AppError>(AppError::SlugTooLong),
{
    if (exists|i: int| 0 <= i < slug.len() && !is_white_space(#[trigger] slug[i])) {
        let i = choose|i: int| 0 <= i < slug.len() && !is_white_space(#[trigger] slug[i]);
        assert(!(forall|j: int| 0 <= j < slug.len() ==> is_white_space(#[trigger] slug[j])));
    }
    if spec_validate_template_slug(slug) is Ok {
        let i = choose|i: int| 0 <= i < slug.len() && !is_white_space(#[trigger] slug[i]);
    }
}

/// The revision guard of an upsert in place (no rename): it writes the content
/// exactly when the caller names the stored template's current revision
/// (`missing` when there is none), and otherwise refuses with a conflict,
/// whatever revision text the caller names, so a concurrent change is never
/// overwritten.
pub proof fn law_in_place_upsert_guard(
    slug: Seq<char>,
    original: Option<Seq<char>>,
    expected: Seq<char>,
    content: Seq<char>,
    stored_target: Option<Seq<u8>>,
    stored_original: Option<Seq<u8>>,
)
    requires
        original is None || original == Some(slug),
        spec_validate_template_slug(slug) is Ok,
        encode_utf8(content).len() <= 1048576,
        stored_target matches Some(b) ==> b.len() <= 1048576,
    ensures
        ({
            let current = match stored_target {
                Some(b) => spec_revision(b),
                None => MISSING_REVISION@,
            };
            &&& expected == current ==> spec_upsert(slug, original, expected, content, stored_target, stored_original)
                == Ok::<TemplateView, AppError>(
                TemplateView { slug, content, revision: spec_revision(encode_utf8(content)) },
            )
            &&& expected != current ==> spec_upsert(slug, original, expected, content, stored_target, stored_original)
                == Err::<TemplateView, AppError>(AppError::Conflict(RevisionSubject::PromptTemplate))
        }),
{
}

/// The revision guard of a template delete: the file is removed (reporting
/// whether there was one) exactly when the caller names its current revision
/// (`missing` when there is none); any other revision text is refused with a
/// conflict and nothing is removed.
pub proof fn law_template_delete_guard(slug: Seq<char>, expected: Seq<char>, stored: Option<Seq<u8>>)
    requires
        spec_validate_template_slug(slug) is Ok,
        stored matches Some(b) ==> b.len() <= 1048576,
    ensures
        ({
            let current = match stored {
                Some(b) => spec_revision(b),
                None => MISSING_REVISION@,
            };
            &&& expected == current ==> spec_delete_template(slug, expected, stored) == Ok::<bool, AppError>(
                stored is Some,
            )
            &&& expected != current ==> spec_delete_template(slug, expected, stored) == Err::<bool, AppError>(
                AppError::Conflict(RevisionSubject::PromptTemplate),
            )
        }),
{
}

/// The revision guards of a rename (`original` names another template than
/// `slug`): it writes the content under the new slug exactly when the caller
/// names the source's current revision (`missing` when there is none) and no
/// file has the new slug yet; naming any other revision is a conflict.
pub proof fn law_rename_guard(
    slug: Seq<char>,
    original: Seq<char>,
    expected: Seq<char>,
    content: Seq<char>,
    stored_target: Option<Seq<u8>>,
    stored_original: Option<Seq<u8>>,
)
    requires
        original != slug,
        spec_validate_template_slug(slug) is Ok,
        spec_validate_template_slug(original) is Ok,
        encode_utf8(content).len() <= 1048576,
        stored_original matches Some(b) ==> b.len() <= 1048576,
    ensures
        ({
            let current = match stored_original {
                Some(b) => spec_revision(b),
                None => MISSING_REVISION@,
            };
            &&& expected == current && stored_target is None ==> spec_upsert(
                slug,
                Some(original),
                expected,
                content,
                stored_target,
                stored_original,
            ) == Ok::<TemplateView, AppError>(
                TemplateView { slug, content, revision: spec_revision(encode_utf8(content)) },
            )
            &&& expected != current ==> spec_upsert(slug, Some(original), expected, content, stored_target, stored_original)
                == Err::<TemplateView, AppError>(AppError::Conflict(RevisionSubject::PromptTemplate))
        }),
{
}

/// Template content over 1 MiB of UTF-8 is refused as too large, whatever the
/// revision, once the slugs are valid.
pub proof fn law_upsert_refuses_large_content(
    slug: Seq<char>,
    original: Option<Seq<char>>,
    expected: Seq<char>,
    content: Seq<char>,
    stored_target: Option<Seq<u8>>,
    stored_original: Option<Seq<u8>>,
)
    requires
        spec_validate_template_slug(slug) is Ok,
        original matches Some(o) ==> spec_validate_template_slug(o) is Ok,
        encode_utf8(content).len() > 1048576,
    ensures
        spec_upsert(slug, original, expected, content, stored_target, stored_original) == Err::<TemplateView, AppError>(
            AppError::ContentTooLarge(ContentLabel::PromptTemplate),
        ),
{
}

/// The listing order is the byte order of the slugs' UTF-8: a prefix comes
/// first, and otherwise the first differing byte decides.
pub proof fn law_listing_order_is_byte_order(a: TemplateView, b: TemplateView, k: int)
    ensures
        encode_utf8(a.slug).is_prefix_of(encode_utf8(b.slug)) ==> template_le(a, b),
        ({
            let x = encode_utf8(a.slug);
            let y = encode_utf8(b.slug);
            0 <= k < x.len() && k < y.len() && x.take(k) == y.take(k) && x[k] != y[k] ==> (template_le(a, b)
                <==> x[k] < y[k])
        }),
{
    crate::text::law_byte_order(encode_utf8(a.slug), encode_utf8(b.slug), k);
}

} // verus!
