//! Names of works and stored objects, and the rules that keep them safe as
//! path segments.

use crate::text;
use vstd::prelude::*;

verus! {

/// The longest source name, in bytes.
pub const MAX_SOURCE_BYTES: usize = 64;

/// The longest identifier of a work within its source, in bytes.
pub const MAX_SOURCE_ID_BYTES: usize = 256;

/// The longest identifier of a work, in bytes.
pub const MAX_WORK_ID_BYTES: usize = 320;

/// The longest key of a stored object that a request may name, in bytes.
pub const MAX_KEY_BYTES: usize = 1024;

/// The longest identifier of a decision, in bytes.
pub const MAX_DECISION_BYTES: usize = 160;

/// What a message about an absent stored object holds.
pub const MISSING_OBJECT: &'static str = "R2 object not found";

// ---------------------------------------------------------------------------
// Sources and identifiers
// ---------------------------------------------------------------------------

/// The characters of a source name.
pub open spec fn source_char(c: char) -> bool {
    'a' <= c <= 'z' || '0' <= c <= '9' || c == '_' || c == '-'
}

/// A source name: one to sixty-four lower-case letters, digits, underscores and
/// hyphens.
pub open spec fn safe_source(s: Seq<char>) -> bool {
    &&& 0 < s.len() <= MAX_SOURCE_BYTES
    &&& forall|i: int| 0 <= i < s.len() ==> source_char(#[trigger] s[i])
}

/// An identifier that stays one path segment: not empty, at most 256 bytes, no
/// separators, no NUL and no `..`.
pub open spec fn safe_source_id(s: Seq<char>) -> bool {
    &&& s.len() > 0
    &&& text::byte_len(s) <= MAX_SOURCE_ID_BYTES
    &&& !s.contains('/')
    &&& !s.contains('\\')
    &&& !s.contains('\0')
    &&& !text::has_part(s, ".."@)
}

/// A source name has as many bytes as characters.
pub proof fn lemma_source_byte_len(s: Seq<char>)
    requires
        forall|i: int| 0 <= i < s.len() ==> source_char(#[trigger] s[i]),
    ensures
        text::byte_len(s) == s.len(),
{
    assert forall|i: int| 0 <= i < s.len() implies '\0' <= #[trigger] s[i] <= '\u{7f}' by {
        assert(source_char(s[i]));
    }
    vstd::utf8::is_ascii_chars_encode_utf8(s);
}

/// Whether `source` is a source name.
pub fn is_safe_source(source: &str) -> (r: bool)
    ensures
        r == safe_source(source@),
{
    let chars = text::to_chars(source);
    let mut i: usize = 0;
    while i < chars.len()
        invariant
            chars@ == source@,
            i <= chars@.len(),
            forall|j: int| 0 <= j < i ==> source_char(#[trigger] source@[j]),
        decreases chars@.len() - i,
    {
        let c = chars[i];
        if !(('a' <= c && c <= 'z') || ('0' <= c && c <= '9') || c == '_' || c == '-') {
            assert(!source_char(source@[i as int]));
            return false;
        }
        i += 1;
    }
    proof {
        lemma_source_byte_len(source@);
    }
    let bytes: usize = text::count_bytes(source);
    bytes > 0 && bytes <= MAX_SOURCE_BYTES
}

/// Whether `source_id` is safe as one path segment.
pub fn is_safe_source_id(source_id: &str) -> (r: bool)
    ensures
        r == safe_source_id(source_id@),
{
    !source_id.is_empty() && text::count_bytes(source_id) <= MAX_SOURCE_ID_BYTES
        && !text::has_char(source_id, '/') && !text::has_char(source_id, '\\') && !text::contains(
        source_id,
        "..",
    ) && !text::has_char(source_id, '\0')
}

// ---------------------------------------------------------------------------
// Work identifiers
// ---------------------------------------------------------------------------

/// The identifier of a work: its source, a colon, its identifier there.
pub open spec fn work_id_text(source: Seq<char>, source_id: Seq<char>) -> Seq<char> {
    source + seq![':'] + source_id
}

/// What an identifier of a work looks like.
pub open spec fn valid_work_id(s: Seq<char>) -> bool {
    let colon = text::len_before(s, ':') as int;
    &&& text::trimmed(s).len() > 0
    &&& text::byte_len(s) <= MAX_WORK_ID_BYTES
    &&& colon < s.len()
    &&& safe_source(s.take(colon))
    &&& safe_source_id(s.skip(colon + 1))
}

/// What is wrong with an identifier of a work.
pub open spec fn work_id_fault(s: Seq<char>) -> Option<Seq<char>> {
    if valid_work_id(s) {
        None
    } else {
        Some("invalid work id"@)
    }
}

/// The identifier of the work `source_id` of `source`.
pub fn work_id(source: &str, source_id: &str) -> (r: String)
    ensures
        r@ == work_id_text(source@, source_id@),
{
    let r = text::concat3(source, ":", source_id);
    proof {
        reveal_strlit(":");
        assert(":"@ =~= seq![':']);
    }
    r
}

/// Checks an identifier of a work.
pub fn validate_work_id_value(work_id: &str) -> (r: Result<(), &'static str>)
    ensures
        text::fault_of(r) == work_id_fault(work_id@),
{
    if text::trim(work_id).is_empty() || text::count_bytes(work_id) > MAX_WORK_ID_BYTES {
        return Err("invalid work id");
    }
    let colon: usize = text::find_char(work_id, ':');
    let len: usize = work_id.unicode_len();
    if colon >= len {
        return Err("invalid work id");
    }
    let source = work_id.substring_char(0, colon);
    let source_id = work_id.substring_char(colon + 1, len);
    assert(source@ =~= work_id@.take(colon as int));
    assert(source_id@ =~= work_id@.skip(colon + 1));
    if !is_safe_source(source) || !is_safe_source_id(source_id) {
        return Err("invalid work id");
    }
    Ok(())
}

/// The source of a work is what stands before the first colon of its
/// identifier, and the rest is its identifier there: no two works share one.
pub proof fn law_work_id_parts(source: Seq<char>, source_id: Seq<char>)
    requires
        safe_source(source),
    ensures
        ({
            let id = work_id_text(source, source_id);
            let colon = text::len_before(id, ':') as int;
            &&& colon == source.len()
            &&& id.take(colon) == source
            &&& id.skip(colon + 1) == source_id
        }),
{
    let id = work_id_text(source, source_id);
    let n = source.len() as int;
    assert forall|i: int| 0 <= i < n implies #[trigger] id[i] != ':' by {
        assert(id[i] == source[i]);
        assert(source_char(source[i]));
    }
    text::lemma_len_before_is(id, ':', n);
    assert(id.take(n) =~= source);
    assert(id.skip(n + 1) =~= source_id);
}

/// Works with different sources or different identifiers there have different
/// identifiers.
pub proof fn law_work_id_injective(
    source: Seq<char>,
    source_id: Seq<char>,
    other: Seq<char>,
    other_id: Seq<char>,
)
    requires
        safe_source(source),
        safe_source(other),
        work_id_text(source, source_id) == work_id_text(other, other_id),
    ensures
        source == other,
        source_id == other_id,
{
    law_work_id_parts(source, source_id);
    law_work_id_parts(other, other_id);
}

/// Every identifier made of a safe source and a safe identifier there is
/// accepted again, as long as it has at most 320 bytes.
pub proof fn law_work_id_accepted(source: Seq<char>, source_id: Seq<char>)
    requires
        safe_source(source),
        safe_source_id(source_id),
    ensures
        valid_work_id(work_id_text(source, source_id)) <==> text::byte_len(
            work_id_text(source, source_id),
        ) <= MAX_WORK_ID_BYTES,
{
    law_work_id_parts(source, source_id);
    let id = work_id_text(source, source_id);
    assert(id[0] == source[0]);
    assert(source_char(source[0]));
    assert(text::trim_front(id) == id);
    text::lemma_trim_keeps_ink(id, 0);
}

// ---------------------------------------------------------------------------
// Keys of stored objects
// ---------------------------------------------------------------------------

/// The key of a page: source, identifier, ingest and the page with at least two
/// digits, then the extension.
pub open spec fn versioned_key(
    source: Seq<char>,
    source_id: Seq<char>,
    ingest_id: Seq<char>,
    page: nat,
    ext: Seq<char>,
) -> Seq<char> {
    source + seq!['/'] + source_id + seq!['/'] + ingest_id + seq!['/'] + text::two_digits(page)
        + seq!['.'] + ext
}

/// The key of a page of one ingest of a work.
pub fn versioned_r2_key(
    source: &str,
    source_id: &str,
    ingest_id: &str,
    page: usize,
    ext: &str,
) -> (r: String)
    ensures
        r@ == versioned_key(source@, source_id@, ingest_id@, page as nat, ext@),
{
    let mut out = source.to_owned();
    out.push('/');
    out.append(source_id);
    out.push('/');
    out.append(ingest_id);
    out.push('/');
    out.append(text::two_digit_text(page as u64).as_str());
    out.push('.');
    out.append(ext);
    assert(out@ =~= versioned_key(source@, source_id@, ingest_id@, page as nat, ext@));
    out
}

/// The key of a page names its source, its work, its ingest and its page: no two
/// pages, ingests or works share one.
pub proof fn law_versioned_key_injective(
    source: Seq<char>,
    source_id: Seq<char>,
    ingest_id: Seq<char>,
    page: nat,
    ext: Seq<char>,
    source2: Seq<char>,
    source_id2: Seq<char>,
    ingest_id2: Seq<char>,
    page2: nat,
    ext2: Seq<char>,
)
    requires
        safe_source(source),
        safe_source(source2),
        safe_source_id(source_id),
        safe_source_id(source_id2),
        !ingest_id.contains('/'),
        !ingest_id2.contains('/'),
        versioned_key(source, source_id, ingest_id, page, ext) == versioned_key(
            source2,
            source_id2,
            ingest_id2,
            page2,
            ext2,
        ),
    ensures
        source == source2,
        source_id == source_id2,
        ingest_id == ingest_id2,
        page == page2,
        ext == ext2,
{
    let leaf = text::two_digits(page) + seq!['.'] + ext;
    let leaf2 = text::two_digits(page2) + seq!['.'] + ext2;
    let tail = ingest_id + seq!['/'] + leaf;
    let tail2 = ingest_id2 + seq!['/'] + leaf2;
    let rest = source_id + seq!['/'] + tail;
    let rest2 = source_id2 + seq!['/'] + tail2;
    assert(versioned_key(source, source_id, ingest_id, page, ext) =~= source + seq!['/'] + rest);
    assert(versioned_key(source2, source_id2, ingest_id2, page2, ext2) =~= source2 + seq!['/']
        + rest2);
    lemma_source_has_no(source, '/');
    lemma_source_has_no(source2, '/');
    text::lemma_cut_at_first(source, rest, source2, rest2, '/');
    text::lemma_cut_at_first(source_id, tail, source_id2, tail2, '/');
    text::lemma_cut_at_first(ingest_id, leaf, ingest_id2, leaf2, '/');
    text::lemma_two_digits_value(page);
    text::lemma_two_digits_value(page2);
    assert(!text::two_digits(page).contains('.')) by {
        if text::two_digits(page).contains('.') {
            let i = choose|i: int|
                0 <= i < text::two_digits(page).len() && text::two_digits(page)[i] == '.';
            assert(text::ascii_digit(text::two_digits(page)[i]));
        }
    }
    assert(!text::two_digits(page2).contains('.')) by {
        if text::two_digits(page2).contains('.') {
            let i = choose|i: int|
                0 <= i < text::two_digits(page2).len() && text::two_digits(page2)[i] == '.';
            assert(text::ascii_digit(text::two_digits(page2)[i]));
        }
    }
    text::lemma_cut_at_first(text::two_digits(page), ext, text::two_digits(page2), ext2, '.');
}

/// A source name holds only its own characters.
proof fn lemma_source_has_no(source: Seq<char>, c: char)
    requires
        safe_source(source),
        !source_char(c),
    ensures
        !source.contains(c),
{
    if source.contains(c) {
        let i = choose|i: int| 0 <= i < source.len() && source[i] == c;
        assert(source_char(source[i]));
    }
}

/// The characters that a decision keeps in the name of its backup directory.
pub open spec fn directory_char(c: char) -> bool {
    text::ascii_alphanumeric(c) || c == '-' || c == '_'
}

/// A decision as a directory name: every other character is an underscore.
pub open spec fn directory_name(decision_id: Seq<char>) -> Seq<char> {
    decision_id.map_values(
        |c: char|
            if directory_char(c) {
                c
            } else {
                '_'
            },
    )
}

/// The key of the backup that a decision makes of an object.
pub open spec fn backup_key(decision_id: Seq<char>, original: Seq<char>) -> Seq<char> {
    "review-trash/"@ + directory_name(decision_id) + seq!['/'] + original
}

/// The key of the backup that `decision_id` makes of the object `original`.
pub fn catalog_backup_key(decision_id: &str, original: &str) -> (r: String)
    ensures
        r@ == backup_key(decision_id@, original@),
{
    let chars = text::to_chars(decision_id);
    let mut out = "review-trash/".to_owned();
    let mut i: usize = 0;
    while i < chars.len()
        invariant
            chars@ == decision_id@,
            i <= chars@.len(),
            out@ == "review-trash/"@ + directory_name(decision_id@).take(i as int),
        decreases chars@.len() - i,
    {
        let c = chars[i];
        let ghost names = directory_name(decision_id@);
        if ('a' <= c && c <= 'z') || ('A' <= c && c <= 'Z') || ('0' <= c && c <= '9') || c == '-'
            || c == '_' {
            out.push(c);
        } else {
            out.push('_');
        }
        assert(out@ =~= "review-trash/"@ + names.take(i as int).push(names[i as int]));
        assert(names.take(i + 1) =~= names.take(i as int).push(names[i as int]));
        i += 1;
    }
    assert(directory_name(decision_id@).take(chars@.len() as int) =~= directory_name(decision_id@));
    out.push('/');
    out.append(original);
    assert(out@ =~= backup_key(decision_id@, original@));
    out
}

/// A decision's backups stand in a directory of their own: its name has no
/// separator, and different objects have different backups.
pub proof fn law_backup_key_injective(
    decision_id: Seq<char>,
    original: Seq<char>,
    other: Seq<char>,
)
    ensures
        !directory_name(decision_id).contains('/'),
        backup_key(decision_id, original) == backup_key(decision_id, other) ==> original == other,
{
    let names = directory_name(decision_id);
    assert forall|i: int| 0 <= i < names.len() implies #[trigger] names[i] != '/' by {
        assert(names[i] == if directory_char(decision_id[i]) {
            decision_id[i]
        } else {
            '_'
        });
    }
    let head = "review-trash/"@ + names + seq!['/'];
    let n = head.len() as int;
    assert(backup_key(decision_id, original).skip(n) =~= original);
    assert(backup_key(decision_id, other).skip(n) =~= other);
}

/// The identifier of a page: the work, a number sign, the page.
pub open spec fn image_id_text(work_id: Seq<char>, page: nat) -> Seq<char> {
    work_id + seq!['#'] + text::decimal(page)
}

/// The identifier of the page `page` of the work `work_id`.
pub fn image_id(work_id: &str, page: usize) -> (r: String)
    ensures
        r@ == image_id_text(work_id@, page as nat),
{
    let mut out = work_id.to_owned();
    out.push('#');
    out.append(text::decimal_text(page as u64).as_str());
    assert(out@ =~= image_id_text(work_id@, page as nat));
    out
}

/// The message about a stored object that is not there.
pub fn missing_object_message(key: &str) -> (r: String)
    ensures
        r@ == MISSING_OBJECT@ + ": "@ + key@,
{
    text::concat3(MISSING_OBJECT, ": ", key)
}

/// Whether a message says that a stored object is not there.
pub fn is_missing_r2_object_message(message: &str) -> (r: bool)
    ensures
        r == text::has_part(message@, MISSING_OBJECT@),
{
    text::contains(message, MISSING_OBJECT)
}

/// The message about an absent object is recognised, whatever its key.
pub proof fn law_missing_object_recognised(key: Seq<char>)
    ensures
        text::has_part(MISSING_OBJECT@ + ": "@ + key, MISSING_OBJECT@),
{
    let message = MISSING_OBJECT@ + ": "@ + key;
    assert(message.subrange(0, MISSING_OBJECT@.len() as int) =~= MISSING_OBJECT@);
    assert(text::stands_at(message, MISSING_OBJECT@, 0));
}

// ---------------------------------------------------------------------------
// Content types
// ---------------------------------------------------------------------------

/// The content type that a file name suggests.
pub open spec fn content_type_of_name(name: Seq<char>) -> Seq<char> {
    let lower = text::ascii_lower(name);
    if text::has_suffix(lower, ".png"@) {
        "image/png"@
    } else if text::has_suffix(lower, ".webp"@) {
        "image/webp"@
    } else if text::has_suffix(lower, ".gif"@) {
        "image/gif"@
    } else if text::has_suffix(lower, ".bmp"@) {
        "image/bmp"@
    } else {
        "image/jpeg"@
    }
}

/// The file extension of a content type.
pub open spec fn extension_of(content_type: Seq<char>) -> Seq<char> {
    let lower = text::ascii_lower(content_type);
    if text::has_part(lower, "png"@) {
        "png"@
    } else if text::has_part(lower, "webp"@) {
        "webp"@
    } else if text::has_part(lower, "gif"@) {
        "gif"@
    } else if text::has_part(lower, "bmp"@) {
        "bmp"@
    } else {
        "jpg"@
    }
}

/// Guesses the content type from a file name.
pub fn guess_content_type(name: &str) -> (r: &'static str)
    ensures
        r@ == content_type_of_name(name@),
{
    let lower = text::to_ascii_lower(name);
    if text::ends_with(lower.as_str(), ".png") {
        "image/png"
    } else if text::ends_with(lower.as_str(), ".webp") {
        "image/webp"
    } else if text::ends_with(lower.as_str(), ".gif") {
        "image/gif"
    } else if text::ends_with(lower.as_str(), ".bmp") {
        "image/bmp"
    } else {
        "image/jpeg"
    }
}

/// The file extension for a content type.
pub fn ext_from_content_type(ct: &str) -> (r: &'static str)
    ensures
        r@ == extension_of(ct@),
{
    let lower = text::to_ascii_lower(ct);
    if text::contains(lower.as_str(), "png") {
        "png"
    } else if text::contains(lower.as_str(), "webp") {
        "webp"
    } else if text::contains(lower.as_str(), "gif") {
        "gif"
    } else if text::contains(lower.as_str(), "bmp") {
        "bmp"
    } else {
        "jpg"
    }
}

/// The content type of an uploaded file: the declared one, or the guess from
/// its name where none is declared.
pub open spec fn content_type_of_file(name: Seq<char>, declared: Seq<char>) -> Seq<char> {
    if declared.len() == 0 {
        content_type_of_name(name)
    } else {
        declared
    }
}

/// The content type of an uploaded file.
pub fn file_content_type(name: &str, declared: &str) -> (r: String)
    ensures
        r@ == content_type_of_file(name@, declared@),
{
    if declared.is_empty() {
        guess_content_type(name).to_owned()
    } else {
        declared.to_owned()
    }
}

/// What is safe in a path, letter by letter: a source is one to sixty-four
/// lower-case letters, digits, underscores and hyphens; an identifier is not empty,
/// has at most 256 bytes, and holds neither separators nor NUL nor two dots in a
/// row; a work is the two with a colon between them, in at most 320 bytes.
pub proof fn law_what_is_safe(s: Seq<char>)
    ensures
        safe_source(s) <==> 0 < s.len() <= 64 && forall|i: int|
            0 <= i < s.len() ==> {
                let c = #[trigger] s[i];
                'a' <= c <= 'z' || '0' <= c <= '9' || c == '_' || c == '-'
            },
        safe_source_id(s) <==> s.len() > 0 && vstd::utf8::encode_utf8(s).len() <= 256 && !s.contains(
            '/',
        ) && !s.contains('\\') && !s.contains('\0') && !text::has_part(s, ".."@),
        valid_work_id(s) ==> vstd::utf8::encode_utf8(s).len() <= 320,
{
}

/// The name of a backup directory keeps the letters, digits, hyphens and
/// underscores of the decision, each in its place, and has an underscore for
/// everything else.
pub proof fn law_directory_names(decision_id: Seq<char>)
    ensures
        directory_name(decision_id).len() == decision_id.len(),
        forall|i: int|
            0 <= i < decision_id.len() ==> {
                let c = #[trigger] decision_id[i];
                let kept = 'a' <= c <= 'z' || 'A' <= c <= 'Z' || '0' <= c <= '9' || c == '-' || c
                    == '_';
                directory_name(decision_id)[i] == if kept {
                    c
                } else {
                    '_'
                }
            },
{
}

/// Which content type a file has: the one that is declared, else the one of its
/// name, in any case; a name that says nothing is taken for a JPEG.
pub proof fn law_content_types(name: Seq<char>, declared: Seq<char>)
    ensures
        ({
            let lower = text::ascii_lower(name);
            let guess = content_type_of_file(name, Seq::empty());
            let png = text::has_suffix(lower, ".png"@);
            let webp = text::has_suffix(lower, ".webp"@);
            let gif = text::has_suffix(lower, ".gif"@);
            let bmp = text::has_suffix(lower, ".bmp"@);
            &&& declared.len() > 0 ==> content_type_of_file(name, declared) == declared
            &&& png ==> guess == "image/png"@
            &&& !png && webp ==> guess == "image/webp"@
            &&& !png && !webp && gif ==> guess == "image/gif"@
            &&& !png && !webp && !gif && bmp ==> guess == "image/bmp"@
            &&& !png && !webp && !gif && !bmp ==> guess == "image/jpeg"@
        }),
{
}

/// Which extension a content type has: the format that it names, in any case, and
/// `jpg` where it names none.
pub proof fn law_extensions(content_type: Seq<char>)
    ensures
        ({
            let lower = text::ascii_lower(content_type);
            let ext = extension_of(content_type);
            let png = text::has_part(lower, "png"@);
            let webp = text::has_part(lower, "webp"@);
            let gif = text::has_part(lower, "gif"@);
            let bmp = text::has_part(lower, "bmp"@);
            &&& png ==> ext == "png"@
            &&& !png && webp ==> ext == "webp"@
            &&& !png && !webp && gif ==> ext == "gif"@
            &&& !png && !webp && !gif && bmp ==> ext == "bmp"@
            &&& !png && !webp && !gif && !bmp ==> ext == "jpg"@
        }),
{
}

/// The names of works, pages and stored objects, written out.
pub proof fn law_names_written_out(
    source: Seq<char>,
    source_id: Seq<char>,
    ingest_id: Seq<char>,
    page: nat,
    ext: Seq<char>,
)
    ensures
        work_id_text(source, source_id) == source + ":"@ + source_id,
        image_id_text(work_id_text(source, source_id), page) == source + ":"@ + source_id + "#"@
            + text::decimal(page),
        versioned_key(source, source_id, ingest_id, page, ext) == source + "/"@ + source_id + "/"@
            + ingest_id + "/"@ + text::two_digits(page) + "."@ + ext,
{
    reveal_strlit(":");
    reveal_strlit("#");
    reveal_strlit("/");
    reveal_strlit(".");
    assert(":"@ =~= seq![':']);
    assert("#"@ =~= seq!['#']);
    assert("/"@ =~= seq!['/']);
    assert("."@ =~= seq!['.']);
}

/// Whether a text is made of a safe source, a colon and a safe identifier there.
pub open spec fn names_a_work(s: Seq<char>, source: Seq<char>, source_id: Seq<char>) -> bool {
    &&& s == source + ":"@ + source_id
    &&& safe_source(source)
    &&& safe_source_id(source_id)
}

/// The identifiers of works are exactly the texts of at most 320 bytes that are made
/// of a safe source, a colon and a safe identifier there; every other text is
/// refused.
pub proof fn law_identifiers_of_works(s: Seq<char>)
    ensures
        valid_work_id(s) <==> vstd::utf8::encode_utf8(s).len() <= 320 && exists|
            source: Seq<char>,
            source_id: Seq<char>,
        | #[trigger] names_a_work(s, source, source_id),
        valid_work_id(s) ==> work_id_fault(s) is None,
        !valid_work_id(s) ==> work_id_fault(s) == Some("invalid work id"@),
{
    reveal_strlit(":");
    assert(":"@ =~= seq![':']);
    if valid_work_id(s) {
        let colon = text::len_before(s, ':') as int;
        text::lemma_len_before(s, ':');
        assert(s =~= s.take(colon) + ":"@ + s.skip(colon + 1));
        assert(names_a_work(s, s.take(colon), s.skip(colon + 1)));
    }
    if exists|source: Seq<char>, source_id: Seq<char>| #[trigger] names_a_work(s, source, source_id) {
        let (source, source_id) = choose|source: Seq<char>, source_id: Seq<char>| #[trigger]
            names_a_work(s, source, source_id);
        assert(s =~= work_id_text(source, source_id));
        law_work_id_accepted(source, source_id);
    }
}

} // verus!
