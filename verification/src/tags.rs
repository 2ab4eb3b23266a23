//! Tags: how they are normalized, stored and listed.

use crate::text;
use vstd::prelude::*;

verus! {

/// The largest number of characters of a tag.
pub const MAX_TAG_CHARS: usize = 64;

/// The first `n` characters of `s`, or all of them.
pub open spec fn prefix(s: Seq<char>, n: nat) -> Seq<char> {
    if s.len() <= n {
        s
    } else {
        s.take(n as int)
    }
}

/// A tag as it is stored: without number signs in front, the words joined by
/// underscores, and cut to sixty-four characters.
pub open spec fn normalized(raw: Seq<char>) -> Seq<char> {
    let bare = text::trimmed(text::strip_front(text::trimmed(raw), '#'));
    prefix(text::joined(text::words(bare), "_"@), MAX_TAG_CHARS as nat)
}

/// The first `n` characters of `s`, or all of them.
pub fn first_chars(s: &str, n: usize) -> (r: String)
    ensures
        r@ == prefix(s@, n as nat),
{
    let len: usize = s.unicode_len();
    if len <= n {
        s.to_owned()
    } else {
        let r = s.substring_char(0, n).to_owned();
        assert(r@ =~= s@.take(n as int));
        r
    }
}

/// Normalizes a tag.
pub fn normalize_tag(raw: &str) -> (r: String)
    ensures
        r@ == normalized(raw@),
{
    let bare = text::trim(text::strip_start(text::trim(raw), '#'));
    let words = text::split_words(bare);
    let collapsed = text::join(words.as_slice(), "_");
    first_chars(collapsed.as_str(), MAX_TAG_CHARS)
}

/// Whether a text holds no white space.
pub open spec fn all_ink(s: Seq<char>) -> bool {
    forall|i: int| 0 <= i < s.len() ==> !text::white_space(#[trigger] s[i])
}

proof fn lemma_words_ink(s: Seq<char>)
    ensures
        forall|i: int| 0 <= i < text::words(s).len() ==> all_ink(#[trigger] text::words(s)[i]),
    decreases s.len(),
{
    let t = text::trim_front(s);
    text::lemma_trim_front_suffix(s);
    if t.len() > 0 {
        text::lemma_word_len(t);
        let n = text::word_len(t) as int;
        let first = t.take(n);
        let rest = text::words(t.skip(n));
        lemma_words_ink(t.skip(n));
        assert(all_ink(first)) by {
            assert forall|i: int| 0 <= i < first.len() implies !text::white_space(
                #[trigger] first[i],
            ) by {
                assert(first[i] == t[i]);
            }
        }
        assert forall|i: int| 0 <= i < text::words(s).len() implies all_ink(
            #[trigger] text::words(s)[i],
        ) by {
            if i > 0 {
                assert(text::words(s)[i] == rest[i - 1]);
            } else {
                assert(text::words(s)[0] == first);
            }
        }
    }
}

proof fn lemma_joined_ink(parts: Seq<Seq<char>>, sep: Seq<char>)
    requires
        forall|i: int| 0 <= i < parts.len() ==> all_ink(#[trigger] parts[i]),
        all_ink(sep),
    ensures
        all_ink(text::joined(parts, sep)),
    decreases parts.len(),
{
    if parts.len() > 1 {
        lemma_joined_ink(parts.drop_last(), sep);
        let a = text::joined(parts.drop_last(), sep);
        let b = parts.last();
        let all = a + sep + b;
        assert forall|i: int| 0 <= i < all.len() implies !text::white_space(#[trigger] all[i]) by {
            if i < a.len() {
                assert(all[i] == a[i]);
            } else if i < a.len() + sep.len() {
                assert(all[i] == sep[i - a.len()]);
            } else {
                assert(all[i] == b[i - a.len() - sep.len()]);
            }
        }
    }
}

/// A normalized tag has at most sixty-four characters and no white space.
pub proof fn law_normalized_shape(raw: Seq<char>)
    ensures
        normalized(raw).len() <= MAX_TAG_CHARS,
        all_ink(normalized(raw)),
{
    let bare = text::trimmed(text::strip_front(text::trimmed(raw), '#'));
    let words = text::words(bare);
    lemma_words_ink(bare);
    reveal_strlit("_");
    lemma_joined_ink(words, "_"@);
    let all = text::joined(words, "_"@);
    assert forall|i: int| 0 <= i < normalized(raw).len() implies !text::white_space(
        #[trigger] normalized(raw)[i],
    ) by {
        assert(normalized(raw)[i] == all[i]);
    }
}

/// Normalizing a tag again changes nothing, unless the tag still starts with a
/// number sign.
pub proof fn law_normalize_idempotent(raw: Seq<char>)
    requires
        normalized(raw).len() > 0 ==> normalized(raw)[0] != '#',
    ensures
        normalized(normalized(raw)) == normalized(raw),
{
    law_normalized_shape(raw);
    let t = normalized(raw);
    lemma_ink_is_normal(t);
}

proof fn lemma_ink_is_normal(t: Seq<char>)
    requires
        all_ink(t),
        t.len() <= MAX_TAG_CHARS,
        t.len() > 0 ==> t[0] != '#',
    ensures
        normalized(t) == t,
{
    assert(text::trimmed(t) == t);
    assert(text::strip_front(t, '#') == t);
    if t.len() > 0 {
        text::lemma_word_len_is(t, t.len() as int);
        assert(t.take(t.len() as int) =~= t);
        let rest = t.skip(t.len() as int);
        assert(rest.len() == 0);
        assert(text::words(rest) =~= Seq::<Seq<char>>::empty());
        assert(text::words(t) =~= seq![t]);
    } else {
        assert(text::words(t) =~= Seq::<Seq<char>>::empty());
        assert(t =~= Seq::<char>::empty());
    }
}

/// The tags of a concatenated list: what stands between commas, without the
/// empty parts.
pub open spec fn tags_of_list(raw: Option<Seq<char>>) -> Seq<Seq<char>> {
    match raw {
        Some(s) => nonempty(text::split_on(s, ',')),
        None => Seq::empty(),
    }
}

/// The texts of a list that are not empty, in order.
pub open spec fn nonempty(list: Seq<Seq<char>>) -> Seq<Seq<char>>
    decreases list.len(),
{
    if list.len() == 0 {
        Seq::empty()
    } else if list.last().len() > 0 {
        nonempty(list.drop_last()).push(list.last())
    } else {
        nonempty(list.drop_last())
    }
}

/// Leaves out the empty texts of a list.
pub fn keep_nonempty(list: &[String]) -> (r: Vec<String>)
    ensures
        text::texts(r@) == nonempty(text::texts(list@)),
{
    let mut out: Vec<String> = Vec::new();
    let mut i: usize = 0;
    let ghost all = text::texts(list@);
    assert(text::texts(out@) =~= nonempty(all.take(0)));
    while i < list.len()
        invariant
            i <= list@.len(),
            all == text::texts(list@),
            text::texts(out@) == nonempty(all.take(i as int)),
        decreases list@.len() - i,
    {
        proof {
            assert(all.take(i + 1).drop_last() =~= all.take(i as int));
            assert(all.take(i + 1).last() == list@[i as int]@);
        }
        if !list[i].as_str().is_empty() {
            let ghost before = text::texts(out@);
            out.push(list[i].clone());
            assert(text::texts(out@) =~= before.push(list@[i as int]@));
        }
        i += 1;
    }
    assert(all.take(list@.len() as int) =~= all);
    out
}

/// Splits a concatenated list of tags.
pub fn tags_from_group_concat(raw: Option<&str>) -> (r: Vec<String>)
    ensures
        text::texts(r@) == tags_of_list(text::view_of(raw)),
{
    match raw {
        Some(s) => {
            let parts = text::split_at_char(s, ',');
            keep_nonempty(parts.as_slice())
        },
        None => {
            let r: Vec<String> = Vec::new();
            assert(text::texts(r@) =~= Seq::<Seq<char>>::empty());
            r
        },
    }
}

/// A list without empty texts is what is left of it.
pub proof fn lemma_nonempty_all(list: Seq<Seq<char>>)
    requires
        forall|i: int| 0 <= i < list.len() ==> (#[trigger] list[i]).len() > 0,
    ensures
        nonempty(list) == list,
    decreases list.len(),
{
    if list.len() > 0 {
        lemma_nonempty_all(list.drop_last());
        assert(list.drop_last().push(list.last()) =~= list);
    } else {
        assert(list =~= Seq::<Seq<char>>::empty());
    }
}

/// Tags that hold no comma and are not empty come back from their concatenated
/// list as they were.
pub proof fn law_tags_come_back(tags: Seq<Seq<char>>)
    requires
        forall|i: int|
            0 <= i < tags.len() ==> (#[trigger] tags[i]).len() > 0 && !tags[i].contains(','),
    ensures
        tags_of_list(Some(text::joined(tags, ","@))) == tags,
{
    reveal_strlit(",");
    assert(","@ =~= seq![',']);
    if tags.len() > 0 {
        text::lemma_split_joined(tags, ',');
        lemma_nonempty_all(tags);
    } else {
        let empty = Seq::<char>::empty();
        assert(text::split_on(empty, ',') =~= seq![empty]);
        assert(seq![empty].drop_last() =~= Seq::<Seq<char>>::empty());
        assert(seq![empty].last().len() == 0);
        assert(nonempty(Seq::<Seq<char>>::empty()) == Seq::<Seq<char>>::empty());
        assert(nonempty(seq![empty]) == nonempty(seq![empty].drop_last()));
        assert(tags =~= Seq::<Seq<char>>::empty());
    }
}

/// The path of a cover: under `/media/`, if there is a key.
pub open spec fn cover_path(key: Option<Seq<char>>) -> Option<Seq<char>> {
    match key {
        Some(k) => if k.len() > 0 {
            Some("/media/"@ + k)
        } else {
            None
        },
        None => None,
    }
}

/// The path of the cover with the given key.
pub fn cover_url_from_key(cover_key: Option<&str>) -> (r: Option<String>)
    ensures
        crate::outside::opt_text(r) == cover_path(text::view_of(cover_key)),
{
    match cover_key {
        Some(k) => if k.is_empty() {
            None
        } else {
            Some(text::concat2("/media/", k))
        },
        None => None,
    }
}

/// A tag that needs no change is stored as it is, and so it is with number signs
/// in front.
pub proof fn law_plain_tags_stay(t: Seq<char>)
    requires
        0 < t.len() <= 64,
        all_ink(t),
        t[0] != '#',
    ensures
        normalized(t) == t,
        normalized(seq!['#'] + t) == t,
{
    lemma_ink_is_normal(t);
    let signed = seq!['#'] + t;
    assert forall|i: int| 0 <= i < signed.len() implies !text::white_space(#[trigger] signed[i]) by {
        if i > 0 {
            assert(signed[i] == t[i - 1]);
        }
    }
    assert(text::trimmed(signed) == signed);
    assert(signed.drop_first() =~= t);
    assert(text::strip_front(signed, '#') == text::strip_front(t, '#'));
    assert(text::strip_front(t, '#') == t);
    assert(text::trimmed(t) == t);
}

/// A cover is the path of an object, where there is one.
pub proof fn law_covers(key: Seq<char>)
    ensures
        cover_path(None) is None,
        key.len() == 0 ==> cover_path(Some(key)) is None,
        key.len() > 0 ==> cover_path(Some(key)) == Some("/media/"@ + key),
{
}

/// What is left of a list are its texts that are not empty, in their order.
pub proof fn law_nonempty(list: Seq<Seq<char>>)
    ensures
        nonempty(list) == list.filter(|t: Seq<char>| t.len() > 0),
    decreases list.len(),
{
    reveal(Seq::filter);
    if list.len() > 0 {
        law_nonempty(list.drop_last());
    }
}

/// White space round a tag is dropped, that between its words becomes an
/// underscore, and what is longer than sixty-four characters is cut.
pub proof fn law_words_of_a_tag_are_joined(a: Seq<char>, b: Seq<char>, c: char)
    requires
        text::white_space(c),
        a.len() > 0,
        b.len() > 0,
        all_ink(a),
        all_ink(b),
        a[0] != '#',
    ensures
        a.len() + b.len() < 64 ==> normalized(seq![c] + a + seq![c] + b + seq![c]) == a + "_"@ + b,
        normalized(seq![c] + a + seq![c] + b + seq![c]) == prefix(a + "_"@ + b, 64),
        prefix(a, 64).len() <= 64,
        forall|i: int|
            0 <= i < prefix(a, 64).len() ==> #[trigger] prefix(a, 64)[i] == a[i],
        a.len() <= 64 ==> prefix(a, 64) == a,
        a.len() > 64 ==> prefix(a, 64).len() == 64,
{
    reveal_strlit("_");
    let s = seq![c] + a + seq![c] + b + seq![c];
    let m = a + seq![c] + b;
    let s1 = m + seq![c];
    assert(s.drop_first() =~= s1);
    assert(s[0] == c);
    assert(s1[0] == a[0]);
    assert(text::trim_front(s1) == s1);
    assert(text::trim_front(s) == s1);
    assert(s1.last() == c);
    assert(s1.drop_last() =~= m);
    assert(m.last() == b[b.len() - 1]);
    assert(text::trim_back(m) == m);
    assert(text::trim_back(s1) == m);
    assert(m[0] == a[0]);
    assert(text::trim_front(m) == m);
    assert(text::strip_front(m, '#') == m);
    text::law_words(c, a, b);
    text::law_words(c, b, a);
    assert(text::words(m) =~= seq![a, b]);
    let list = seq![a, b];
    assert(list.drop_last() =~= seq![a]);
    assert(text::joined(seq![a], "_"@) == a);
    assert(text::joined(list, "_"@) =~= a + "_"@ + b);
}

} // verus!
