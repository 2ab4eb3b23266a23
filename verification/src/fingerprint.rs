//! Digests, fingerprints and identifiers derived from them.

use crate::meta::ValidatedMeta;
use crate::outside;
use crate::text;
use vstd::prelude::*;

verus! {

/// The number of hexadecimal digits of an ingest identifier.
pub const INGEST_ID_CHARS: usize = 32;

/// The bytes of each part, each followed by a zero byte.
pub open spec fn framed(parts: Seq<Seq<char>>) -> Seq<u8>
    decreases parts.len(),
{
    if parts.len() == 0 {
        Seq::empty()
    } else {
        framed(parts.drop_last()) + vstd::utf8::encode_utf8(parts.last()) + seq![0u8]
    }
}

/// The SHA-256 digest of a byte sequence in hexadecimal.
pub open spec fn digest_text(bytes: Seq<u8>) -> Seq<char> {
    outside::hex_text(outside::sha256_of(bytes))
}

/// What a fingerprint covers: the fields of the metadata, its tags joined by
/// commas, and the digests of the files in their order.
pub open spec fn fingerprint_parts(
    meta: crate::meta::MetaView,
    digests: Seq<Seq<char>>,
) -> Seq<Seq<char>> {
    Seq::<Seq<char>>::empty().push(meta.source).push(meta.source_id).push(meta.source_url).push(
        meta.title,
    ).push(meta.author_name).push(meta.author_url).push(
        if meta.is_r18 {
            "1"@
        } else {
            "0"@
        },
    ).push(meta.origin).push(text::joined(meta.tags, ","@)) + digests
}

/// The fingerprint of an ingest.
pub open spec fn fingerprint_of(meta: crate::meta::MetaView, digests: Seq<Seq<char>>) -> Seq<char> {
    digest_text(framed(fingerprint_parts(meta, digests)))
}

/// The identifier derived from some parts.
pub open spec fn derived_id(parts: Seq<Seq<char>>) -> Seq<char> {
    digest_text(framed(parts)).take(INGEST_ID_CHARS as int)
}

/// The views of a list of texts.
pub open spec fn part_views(parts: Seq<&str>) -> Seq<Seq<char>> {
    parts.map_values(|p: &str| p@)
}

/// Hexadecimal digits are no path separators.
proof fn lemma_hex_has_no_slash(bytes: Seq<u8>)
    ensures
        !outside::hex_text(bytes).contains('/'),
{
    let t = outside::hex_text(bytes);
    assert forall|i: int| 0 <= i < t.len() implies #[trigger] t[i] != '/' by {
        let b = bytes[i / 2] as nat;
        let d = if i % 2 == 0 {
            b / 16
        } else {
            b % 16
        };
        assert(t[i] == outside::hex_digit(d));
        assert(d < 16);
    }
}

/// The SHA-256 digest of `bytes` in hexadecimal.
pub fn sha256_hex(bytes: &[u8]) -> (r: String)
    ensures
        r@ == digest_text(bytes@),
        r@.len() == 64,
{
    let digest = outside::sha256(bytes);
    outside::hex_encode(digest.as_slice())
}

/// One more part behind the others.
fn add_part(buffer: &mut Vec<u8>, Ghost(parts): Ghost<Seq<Seq<char>>>, part: &str)
    requires
        old(buffer)@ == framed(parts),
    ensures
        final(buffer)@ == framed(parts.push(part@)),
{
    let bytes = part.as_bytes();
    let mut i: usize = 0;
    let ghost before = buffer@;
    while i < bytes.len()
        invariant
            i <= bytes@.len(),
            buffer@ == before + bytes@.take(i as int),
        decreases bytes@.len() - i,
    {
        buffer.push(bytes[i]);
        assert(before + bytes@.take(i + 1) =~= (before + bytes@.take(i as int)).push(
            bytes@[i as int],
        ));
        i += 1;
    }
    assert(bytes@.take(bytes@.len() as int) =~= bytes@);
    buffer.push(0);
    proof {
        let more = parts.push(part@);
        assert(more.drop_last() =~= parts);
        assert(more.last() == part@);
        assert(buffer@ =~= framed(parts) + bytes@ + seq![0u8]);
    }
}

/// The fingerprint of the metadata and the digests of the files.
pub fn compute_fingerprint(meta: &ValidatedMeta, file_sha256s: &[String]) -> (r: String)
    ensures
        r@ == fingerprint_of(meta@, text::texts(file_sha256s@)),
        r@.len() == 64,
{
    let mut buffer: Vec<u8> = Vec::new();
    let ghost mut parts: Seq<Seq<char>> = Seq::empty();
    let tags = text::join(meta.tags.as_slice(), ",");
    let flag = if meta.is_r18 {
        "1"
    } else {
        "0"
    };
    let heads: [&str; 9] = [
        meta.source.as_str(),
        meta.source_id.as_str(),
        meta.source_url.as_str(),
        meta.title.as_str(),
        meta.author_name.as_str(),
        meta.author_url.as_str(),
        flag,
        meta.origin.as_str(),
        tags.as_str(),
    ];
    let mut i: usize = 0;
    while i < 9
        invariant
            i <= 9,
            buffer@ == framed(parts),
            parts == part_views(heads@).take(i as int),
        decreases 9 - i,
    {
        add_part(&mut buffer, Ghost(parts), heads[i]);
        proof {
            parts = parts.push(heads@[i as int]@);
            assert(part_views(heads@).take(i + 1) =~= parts);
        }
        i += 1;
    }
    let ghost fixed = part_views(heads@);
    assert(parts =~= fixed);
    let mut k: usize = 0;
    let ghost digests = text::texts(file_sha256s@);
    while k < file_sha256s.len()
        invariant
            k <= file_sha256s@.len(),
            digests == text::texts(file_sha256s@),
            buffer@ == framed(parts),
            parts == fixed + digests.take(k as int),
        decreases file_sha256s@.len() - k,
    {
        add_part(&mut buffer, Ghost(parts), file_sha256s[k].as_str());
        proof {
            parts = parts.push(file_sha256s@[k as int]@);
            assert(fixed + digests.take(k + 1) =~= parts);
        }
        k += 1;
    }
    proof {
        assert(digests.take(digests.len() as int) =~= digests);
        assert(parts =~= fingerprint_parts(meta@, digests));
    }
    sha256_hex(buffer.as_slice())
}

/// Derives an identifier of thirty-two hexadecimal digits from `parts`.
pub fn shape_ingest_id(parts: &[&str]) -> (r: String)
    ensures
        r@ == derived_id(part_views(parts@)),
        r@.len() == INGEST_ID_CHARS,
        !r@.contains('/'),
{
    let mut buffer: Vec<u8> = Vec::new();
    let mut i: usize = 0;
    let ghost all = part_views(parts@);
    while i < parts.len()
        invariant
            i <= parts@.len(),
            all == part_views(parts@),
            buffer@ == framed(all.take(i as int)),
        decreases parts@.len() - i,
    {
        add_part(&mut buffer, Ghost(all.take(i as int)), parts[i]);
        assert(all.take(i + 1) =~= all.take(i as int).push(parts@[i as int]@));
        i += 1;
    }
    assert(all.take(parts@.len() as int) =~= all);
    let full = sha256_hex(buffer.as_slice());
    proof {
        lemma_hex_has_no_slash(outside::sha256_of(buffer@));
    }
    let r = full.as_str().substring_char(0, INGEST_ID_CHARS).to_owned();
    assert(r@ =~= full@.take(INGEST_ID_CHARS as int));
    r
}

/// What a new ingest identifier is derived from.
pub open spec fn ingest_id_parts(
    now: Seq<char>,
    work_id: Seq<char>,
    fingerprint: Seq<char>,
    entropy: Seq<u8>,
) -> Seq<Seq<char>> {
    Seq::<Seq<char>>::empty().push(now).push(work_id).push(fingerprint).push(
        outside::hex_text(entropy),
    )
}

/// The ingest identifier for the given random bytes.
pub fn ingest_id_with(now: &str, work_id: &str, fingerprint: &str, entropy: &[u8]) -> (r: String)
    ensures
        r@ == derived_id(ingest_id_parts(now@, work_id@, fingerprint@, entropy@)),
        r@.len() == INGEST_ID_CHARS,
        !r@.contains('/'),
{
    let noise = outside::hex_encode(entropy);
    let parts: [&str; 4] = [now, work_id, fingerprint, noise.as_str()];
    let r = shape_ingest_id(parts.as_slice());
    assert(part_views(parts@) =~= ingest_id_parts(now@, work_id@, fingerprint@, entropy@));
    r
}

// ---------------------------------------------------------------------------
// Laws
// ---------------------------------------------------------------------------

/// The frame of a list, seen from its first part.
proof fn lemma_framed_front(parts: Seq<Seq<char>>)
    requires
        parts.len() > 0,
    ensures
        framed(parts) == vstd::utf8::encode_utf8(parts[0]) + seq![0u8] + framed(
            parts.drop_first(),
        ),
    decreases parts.len(),
{
    if parts.len() == 1 {
        assert(parts.drop_last() =~= Seq::<Seq<char>>::empty());
        assert(parts.drop_first() =~= Seq::<Seq<char>>::empty());
        assert(framed(parts) =~= vstd::utf8::encode_utf8(parts[0]) + seq![0u8] + framed(
            parts.drop_first(),
        ));
    } else {
        lemma_framed_front(parts.drop_last());
        assert(parts.drop_last().drop_first() =~= parts.drop_first().drop_last());
        assert(framed(parts) =~= vstd::utf8::encode_utf8(parts[0]) + seq![0u8] + framed(
            parts.drop_first(),
        ));
    }
}

/// What is hashed tells the parts apart: lists of texts without NUL have the
/// same frame only if they are the same list.
pub proof fn law_framing_injective(a: Seq<Seq<char>>, b: Seq<Seq<char>>)
    requires
        forall|i: int| 0 <= i < a.len() ==> !(#[trigger] a[i]).contains('\0'),
        forall|i: int| 0 <= i < b.len() ==> !(#[trigger] b[i]).contains('\0'),
        framed(a) == framed(b),
    ensures
        a == b,
    decreases a.len(),
{
    if a.len() > 0 {
        lemma_framed_front(a);
    }
    if b.len() > 0 {
        lemma_framed_front(b);
    }
    if a.len() == 0 || b.len() == 0 {
        assert(a =~= b);
    } else {
        let x = vstd::utf8::encode_utf8(a[0]);
        let y = vstd::utf8::encode_utf8(b[0]);
        text::lemma_absent_byte(a[0], '\0');
        text::lemma_absent_byte(b[0], '\0');
        text::lemma_cut_at_first(x, framed(a.drop_first()), y, framed(b.drop_first()), 0u8);
        text::lemma_utf8_injective(a[0], b[0]);
        assert forall|i: int| 0 <= i < a.drop_first().len() implies !(
        #[trigger] a.drop_first()[i]).contains('\0') by {
            assert(a.drop_first()[i] == a[i + 1]);
        }
        assert forall|i: int| 0 <= i < b.drop_first().len() implies !(
        #[trigger] b.drop_first()[i]).contains('\0') by {
            assert(b.drop_first()[i] == b[i + 1]);
        }
        law_framing_injective(a.drop_first(), b.drop_first());
        assert(a =~= seq![a[0]] + a.drop_first());
        assert(b =~= seq![b[0]] + b.drop_first());
    }
}

/// Whether no text of the list holds a NUL.
pub open spec fn no_nul(parts: Seq<Seq<char>>) -> bool {
    forall|i: int| 0 <= i < parts.len() ==> !(#[trigger] parts[i]).contains('\0')
}

/// What the fingerprint of an ingest hashes tells ingests apart: where no text
/// holds a NUL and no tag is empty or holds a comma, the same hashed bytes mean
/// the same metadata and the same files in the same order.
pub proof fn law_fingerprint_covers_everything(
    meta: crate::meta::MetaView,
    digests: Seq<Seq<char>>,
    meta2: crate::meta::MetaView,
    digests2: Seq<Seq<char>>,
)
    requires
        no_nul(fingerprint_parts(meta, digests)),
        no_nul(fingerprint_parts(meta2, digests2)),
        forall|i: int|
            0 <= i < meta.tags.len() ==> (#[trigger] meta.tags[i]).len() > 0
                && !meta.tags[i].contains(','),
        forall|i: int|
            0 <= i < meta2.tags.len() ==> (#[trigger] meta2.tags[i]).len() > 0
                && !meta2.tags[i].contains(','),
        framed(fingerprint_parts(meta, digests)) == framed(fingerprint_parts(meta2, digests2)),
    ensures
        meta == meta2,
        digests == digests2,
{
    let p = fingerprint_parts(meta, digests);
    let q = fingerprint_parts(meta2, digests2);
    law_framing_injective(p, q);
    assert(p.skip(9) =~= digests);
    assert(q.skip(9) =~= digests2);
    assert(p[0] == meta.source && q[0] == meta2.source);
    assert(p[1] == meta.source_id && q[1] == meta2.source_id);
    assert(p[2] == meta.source_url && q[2] == meta2.source_url);
    assert(p[3] == meta.title && q[3] == meta2.title);
    assert(p[4] == meta.author_name && q[4] == meta2.author_name);
    assert(p[5] == meta.author_url && q[5] == meta2.author_url);
    assert(p[7] == meta.origin && q[7] == meta2.origin);
    reveal_strlit("1");
    reveal_strlit("0");
    assert("1"@[0] == '1');
    assert("0"@[0] == '0');
    assert(p[6] == q[6]);
    assert(p[8] == text::joined(meta.tags, ","@) && q[8] == text::joined(meta2.tags, ","@));
    crate::tags::law_tags_come_back(meta.tags);
    crate::tags::law_tags_come_back(meta2.tags);
}

/// What is hashed, in full: each part in UTF-8 with a zero byte behind it, the
/// parts in their order.
pub proof fn law_frames(parts: Seq<Seq<char>>, part: Seq<char>)
    ensures
        framed(Seq::<Seq<char>>::empty()).len() == 0,
        framed(parts.push(part)) == framed(parts) + vstd::utf8::encode_utf8(part) + seq![0u8],
{
    assert(parts.push(part).drop_last() =~= parts);
}

/// The fingerprint of an ingest is the digest, in hexadecimal, of its source, its
/// identifier, its address, its title, its author and their address, whether it is
/// R18, its origin, its tags, and the digests of its files, in this order.
pub proof fn law_fingerprint(meta: crate::meta::MetaView, digests: Seq<Seq<char>>)
    ensures
        fingerprint_of(meta, digests) == outside::hex_text(
            outside::sha256_of(
                framed(
                    seq![
                        meta.source,
                        meta.source_id,
                        meta.source_url,
                        meta.title,
                        meta.author_name,
                        meta.author_url,
                        if meta.is_r18 {
                            "1"@
                        } else {
                            "0"@
                        },
                        meta.origin,
                        text::joined(meta.tags, ","@),
                    ] + digests,
                ),
            ),
        ),
{
    assert(fingerprint_parts(meta, digests) =~= seq![
        meta.source,
        meta.source_id,
        meta.source_url,
        meta.title,
        meta.author_name,
        meta.author_url,
        if meta.is_r18 {
            "1"@
        } else {
            "0"@
        },
        meta.origin,
        text::joined(meta.tags, ","@),
    ] + digests);
}

/// An identifier is the first half of a digest.
pub proof fn law_identifiers(parts: Seq<Seq<char>>)
    ensures
        derived_id(parts) == outside::hex_text(outside::sha256_of(framed(parts))).take(32),
{
}

/// The identifier of an attempt is made of its time, its work, its fingerprint and
/// random bytes, in this order.
pub proof fn law_attempt_identifiers(
    now: Seq<char>,
    work_id: Seq<char>,
    fingerprint: Seq<char>,
    entropy: Seq<u8>,
)
    ensures
        ingest_id_parts(now, work_id, fingerprint, entropy) == seq![
            now,
            work_id,
            fingerprint,
            outside::hex_text(entropy),
        ],
{
    assert(ingest_id_parts(now, work_id, fingerprint, entropy) =~= seq![
        now,
        work_id,
        fingerprint,
        outside::hex_text(entropy),
    ]);
}

} // verus!
