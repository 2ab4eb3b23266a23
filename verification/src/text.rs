//! Text as sequences of characters: trimming, splitting, joining, searching,
//! ASCII case folding and decimal numbers, each proved against a short
//! definition over `Seq<char>`.

use vstd::prelude::*;

verus! {

/// `String::push` of std appends one character to the end of the string.
pub assume_specification[ String::push ](s: &mut String, c: char)
    ensures
        final(s)@ == old(s)@.push(c),
;

// ---------------------------------------------------------------------------
// Character classes
// ---------------------------------------------------------------------------

/// The characters with the Unicode property `White_Space`.
pub open spec fn white_space(c: char) -> bool {
    ||| '\u{9}' <= c <= '\u{d}'
    ||| c == ' '
    ||| c == '\u{85}'
    ||| c == '\u{a0}'
    ||| c == '\u{1680}'
    ||| '\u{2000}' <= c <= '\u{200a}'
    ||| c == '\u{2028}'
    ||| c == '\u{2029}'
    ||| c == '\u{202f}'
    ||| c == '\u{205f}'
    ||| c == '\u{3000}'
}

/// Whether `c` has the Unicode property `White_Space`.
pub fn is_white_space(c: char) -> (r: bool)
    ensures
        r == white_space(c),
{
    ('\u{9}' <= c && c <= '\u{d}') || c == ' ' || c == '\u{85}' || c == '\u{a0}' || c == '\u{1680}'
        || ('\u{2000}' <= c && c <= '\u{200a}') || c == '\u{2028}' || c == '\u{2029}' || c
        == '\u{202f}' || c == '\u{205f}' || c == '\u{3000}'
}

/// The control characters of Unicode (general category `Cc`).
pub open spec fn control(c: char) -> bool {
    c <= '\u{1f}' || '\u{7f}' <= c <= '\u{9f}'
}

/// Whether `c` is a Unicode control character.
pub fn is_control(c: char) -> (r: bool)
    ensures
        r == control(c),
{
    c <= '\u{1f}' || ('\u{7f}' <= c && c <= '\u{9f}')
}

/// The ASCII decimal digits.
pub open spec fn ascii_digit(c: char) -> bool {
    '0' <= c <= '9'
}

/// The ASCII letters and digits.
pub open spec fn ascii_alphanumeric(c: char) -> bool {
    'a' <= c <= 'z' || 'A' <= c <= 'Z' || '0' <= c <= '9'
}

/// An ASCII capital letter in lower case; every other character as it is.
pub open spec fn ascii_lower_char(c: char) -> char {
    if 'A' <= c <= 'Z' {
        (c as u32 + 32) as char
    } else {
        c
    }
}

/// Lower case for the ASCII letters of a text, all else unchanged.
pub open spec fn ascii_lower(s: Seq<char>) -> Seq<char> {
    s.map_values(|c: char| ascii_lower_char(c))
}

// ---------------------------------------------------------------------------
// Conversions
// ---------------------------------------------------------------------------

/// The number of bytes of a text in UTF-8.
pub open spec fn byte_len(s: Seq<char>) -> nat {
    vstd::utf8::encode_utf8(s).len()
}

/// The views of a list of strings.
pub open spec fn texts(list: Seq<String>) -> Seq<Seq<char>> {
    list.map_values(|s: String| s@)
}

/// The view of an optional text.
pub open spec fn view_of(s: Option<&str>) -> Option<Seq<char>> {
    match s {
        Some(t) => Some(t@),
        None => None,
    }
}

/// The message of a check that failed, none where it passed.
pub open spec fn fault_of(r: Result<(), &'static str>) -> Option<Seq<char>> {
    match r {
        Ok(_) => None,
        Err(m) => Some(m@),
    }
}

/// The characters of `s`, in order.
pub fn to_chars(s: &str) -> (r: Vec<char>)
    ensures
        r@ == s@,
{
    let mut out: Vec<char> = Vec::new();
    for c in it: s.chars()
        invariant
            out@ == it.seq().take(it.index()),
            it.seq() == s@,
    {
        out.push(c);
    }
    out
}

/// The number of bytes of `s` in UTF-8.
pub fn count_bytes(s: &str) -> (r: usize)
    ensures
        r == byte_len(s@),
{
    s.as_bytes().len()
}

/// Two texts with the same bytes are the same text.
pub proof fn lemma_utf8_injective(a: Seq<char>, b: Seq<char>)
    requires
        vstd::utf8::encode_utf8(a) == vstd::utf8::encode_utf8(b),
    ensures
        a == b,
{
    vstd::utf8::encode_utf8_decode_utf8(a);
    vstd::utf8::encode_utf8_decode_utf8(b);
}

/// The bytes of a character hold no ASCII character but that itself.
proof fn lemma_scalar_bytes(c: char, ascii: char)
    requires
        c != ascii,
        ascii as u32 <= 0x7f,
    ensures
        !vstd::utf8::encode_scalar(c as u32).contains(ascii as u8),
{
    let v = c as u32;
    vstd::utf8::char_is_scalar(c);
    let bytes = vstd::utf8::encode_scalar(v);
    if vstd::utf8::has_width_1_encoding(v) {
        assert((v & 0x7F) as u8 == v) by (bit_vector)
            requires
                v <= 0x7F,
        ;
        assert(bytes[0] != ascii as u8);
    } else {
        assert(0xC0 | ((v >> 6) & 0x1F) as u8 >= 0x80) by (bit_vector);
        assert(0xE0 | ((v >> 12) & 0x0F) as u8 >= 0x80) by (bit_vector);
        assert(0xF0 | ((v >> 18) & 0x7) as u8 >= 0x80) by (bit_vector);
        assert(0x80 | (v & 0x3F) as u8 >= 0x80) by (bit_vector);
        assert(0x80 | ((v >> 6) & 0x3F) as u8 >= 0x80) by (bit_vector);
        assert(0x80 | ((v >> 12) & 0x3F) as u8 >= 0x80) by (bit_vector);
        assert(forall|i: int| 0 <= i < bytes.len() ==> bytes[i] >= 0x80);
    }
}

/// A text without an ASCII character has no byte of that value.
pub proof fn lemma_absent_byte(s: Seq<char>, ascii: char)
    requires
        !s.contains(ascii),
        ascii as u32 <= 0x7f,
    ensures
        !vstd::utf8::encode_utf8(s).contains(ascii as u8),
    decreases s.len(),
{
    if s.len() > 0 {
        let rest = s.drop_first();
        assert(s.contains(s[0]));
        lemma_scalar_bytes(s[0], ascii);
        assert(!rest.contains(ascii)) by {
            if rest.contains(ascii) {
                let i = choose|i: int| 0 <= i < rest.len() && rest[i] == ascii;
                assert(s[i + 1] == ascii);
            }
        }
        lemma_absent_byte(rest, ascii);
        let a = vstd::utf8::encode_scalar(s[0] as u32);
        let b = vstd::utf8::encode_utf8(rest);
        let all = a + b;
        if all.contains(ascii as u8) {
            let i = choose|i: int| 0 <= i < all.len() && all[i] == ascii as u8;
            if i < a.len() {
                assert(a[i] == ascii as u8);
            } else {
                assert(b[i - a.len()] == ascii as u8);
            }
        }
    }
}

/// Whether two texts are the same.
pub fn same_text(a: &str, b: &str) -> (r: bool)
    ensures
        r == (a@ == b@),
{
    let x = a.as_bytes();
    let y = b.as_bytes();
    if x.len() != y.len() {
        return false;
    }
    let mut i: usize = 0;
    while i < x.len()
        invariant
            x@ == vstd::utf8::encode_utf8(a@),
            y@ == vstd::utf8::encode_utf8(b@),
            x@.len() == y@.len(),
            i <= x@.len(),
            forall|j: int| 0 <= j < i ==> x@[j] == y@[j],
        decreases x@.len() - i,
    {
        if x[i] != y[i] {
            return false;
        }
        i += 1;
    }
    assert(x@ =~= y@);
    proof {
        lemma_utf8_injective(a@, b@);
    }
    true
}

/// A copy of a list of strings.
pub fn copy_texts(list: &[String]) -> (r: Vec<String>)
    ensures
        texts(r@) == texts(list@),
        r@.len() == list@.len(),
{
    let mut out: Vec<String> = Vec::new();
    let mut i: usize = 0;
    while i < list.len()
        invariant
            i <= list@.len(),
            texts(out@) == texts(list@.take(i as int)),
        decreases list@.len() - i,
    {
        out.push(list[i].clone());
        proof {
            assert(texts(list@.take(i + 1)) =~= texts(list@.take(i as int)).push(list@[i as int]@));
            assert(texts(out@) =~= texts(list@.take(i as int)).push(list@[i as int]@));
        }
        i += 1;
    }
    assert(list@.take(list@.len() as int) =~= list@);
    assert(texts(out@).len() == out@.len());
    out
}

/// Whether `t` is among the texts of `list`.
pub fn list_has(list: &[String], t: &str) -> (r: bool)
    ensures
        r == texts(list@).contains(t@),
{
    let mut i: usize = 0;
    while i < list.len()
        invariant
            i <= list@.len(),
            forall|j: int| 0 <= j < i ==> texts(list@)[j] != t@,
        decreases list@.len() - i,
    {
        if same_text(list[i].as_str(), t) {
            assert(texts(list@)[i as int] == t@);
            return true;
        }
        i += 1;
    }
    false
}

/// Both texts, one after the other.
pub fn concat2(a: &str, b: &str) -> (r: String)
    ensures
        r@ == a@ + b@,
{
    let mut out = a.to_owned();
    out.append(b);
    out
}

/// Three texts, one after the other.
pub fn concat3(a: &str, b: &str, c: &str) -> (r: String)
    ensures
        r@ == a@ + b@ + c@,
{
    let mut out = a.to_owned();
    out.append(b);
    out.append(c);
    out
}

// ---------------------------------------------------------------------------
// Trimming
// ---------------------------------------------------------------------------

/// `s` without its leading white space.
pub open spec fn trim_front(s: Seq<char>) -> Seq<char>
    decreases s.len(),
{
    if s.len() > 0 && white_space(s[0]) {
        trim_front(s.drop_first())
    } else {
        s
    }
}

/// `s` without its trailing white space.
pub open spec fn trim_back(s: Seq<char>) -> Seq<char>
    decreases s.len(),
{
    if s.len() > 0 && white_space(s.last()) {
        trim_back(s.drop_last())
    } else {
        s
    }
}

/// `s` without white space at either end.
pub open spec fn trimmed(s: Seq<char>) -> Seq<char> {
    trim_back(trim_front(s))
}

/// `s` without the characters `c` that it starts with.
pub open spec fn strip_front(s: Seq<char>, c: char) -> Seq<char>
    decreases s.len(),
{
    if s.len() > 0 && s[0] == c {
        strip_front(s.drop_first(), c)
    } else {
        s
    }
}

/// Trimming leaves a contiguous part of the text.
pub proof fn lemma_trim_front_suffix(s: Seq<char>)
    ensures
        trim_front(s).len() <= s.len(),
        trim_front(s) == s.skip(s.len() - trim_front(s).len()),
        trim_front(s).len() > 0 ==> !white_space(trim_front(s)[0]),
    decreases s.len(),
{
    if s.len() > 0 && white_space(s[0]) {
        lemma_trim_front_suffix(s.drop_first());
        let n = trim_front(s).len();
        assert(s.drop_first().skip(s.drop_first().len() - n) =~= s.skip(s.len() - n));
    } else {
        assert(s.skip(0) =~= s);
    }
}

/// What is not white space survives trimming.
pub proof fn lemma_trim_keeps_ink(s: Seq<char>, i: int)
    requires
        0 <= i < s.len(),
        !white_space(s[i]),
    ensures
        trimmed(s).len() > 0,
{
    lemma_trim_front_keeps_ink(s, i);
    let t = trim_front(s);
    let j = choose|j: int| 0 <= j < t.len() && !white_space(#[trigger] t[j]);
    lemma_trim_back_keeps_ink(t, j);
}

proof fn lemma_trim_front_keeps_ink(s: Seq<char>, i: int)
    requires
        0 <= i < s.len(),
        !white_space(s[i]),
    ensures
        exists|j: int| 0 <= j < trim_front(s).len() && !white_space(#[trigger] trim_front(s)[j]),
    decreases s.len(),
{
    if white_space(s[0]) {
        assert(s.drop_first()[i - 1] == s[i]);
        lemma_trim_front_keeps_ink(s.drop_first(), i - 1);
        let t = trim_front(s.drop_first());
        let j = choose|j: int| 0 <= j < t.len() && !white_space(#[trigger] t[j]);
        assert(!white_space(trim_front(s)[j]));
    } else {
        assert(!white_space(trim_front(s)[0]));
    }
}

proof fn lemma_trim_back_keeps_ink(s: Seq<char>, i: int)
    requires
        0 <= i < s.len(),
        !white_space(s[i]),
    ensures
        trim_back(s).len() > 0,
    decreases s.len(),
{
    if white_space(s.last()) {
        assert(s.drop_last()[i] == s[i]);
        lemma_trim_back_keeps_ink(s.drop_last(), i);
    }
}

/// Removes white space from both ends of `s`.
pub fn trim(s: &str) -> (r: &str)
    ensures
        r@ == trimmed(s@),
{
    let chars = to_chars(s);
    let mut from: usize = 0;
    assert(s@.skip(0) =~= s@);
    while from < chars.len() && is_white_space(chars[from])
        invariant
            chars@ == s@,
            from <= chars@.len(),
            trim_front(s@) == trim_front(s@.skip(from as int)),
        decreases chars@.len() - from,
    {
        assert(s@.skip(from as int).drop_first() =~= s@.skip(from + 1));
        from += 1;
    }
    let ghost front = s@.skip(from as int);
    assert(trim_front(s@) == front);
    let mut to: usize = chars.len();
    assert(s@.subrange(from as int, to as int) =~= front);
    while to > from && is_white_space(chars[to - 1])
        invariant
            chars@ == s@,
            from <= to <= chars@.len(),
            trim_back(front) == trim_back(s@.subrange(from as int, to as int)),
        decreases to,
    {
        assert(s@.subrange(from as int, to as int).drop_last() =~= s@.subrange(
            from as int,
            to - 1,
        ));
        to -= 1;
    }
    s.substring_char(from, to)
}

/// Removes the characters `c` that `s` starts with.
pub fn strip_start(s: &str, c: char) -> (r: &str)
    ensures
        r@ == strip_front(s@, c),
{
    let chars = to_chars(s);
    let mut from: usize = 0;
    assert(s@.skip(0) =~= s@);
    while from < chars.len() && chars[from] == c
        invariant
            chars@ == s@,
            from <= chars@.len(),
            strip_front(s@, c) == strip_front(s@.skip(from as int), c),
        decreases chars@.len() - from,
    {
        assert(s@.skip(from as int).drop_first() =~= s@.skip(from + 1));
        from += 1;
    }
    assert(s@.subrange(from as int, s@.len() as int) =~= s@.skip(from as int));
    s.substring_char(from, chars.len())
}

// ---------------------------------------------------------------------------
// Splitting and joining
// ---------------------------------------------------------------------------

/// The number of characters before the first white space of `s`.
pub open spec fn word_len(s: Seq<char>) -> nat
    decreases s.len(),
{
    if s.len() == 0 || white_space(s[0]) {
        0
    } else {
        1 + word_len(s.drop_first())
    }
}

/// The number of characters before the first `c` of `s`, or all of them.
pub open spec fn len_before(s: Seq<char>, c: char) -> nat
    decreases s.len(),
{
    if s.len() == 0 || s[0] == c {
        0
    } else {
        1 + len_before(s.drop_first(), c)
    }
}

/// The maximal runs of characters other than white space, in order.
pub open spec fn words(s: Seq<char>) -> Seq<Seq<char>>
    decreases s.len(),
{
    let t = trim_front(s);
    if t.len() == 0 {
        Seq::empty()
    } else {
        proof {
            lemma_trim_front_suffix(s);
            lemma_word_len(t);
        }
        seq![t.take(word_len(t) as int)] + words(t.skip(word_len(t) as int))
    }
}

/// The parts of `s` between the characters `c`: one more than it has of them.
pub open spec fn split_on(s: Seq<char>, c: char) -> Seq<Seq<char>>
    decreases s.len(),
{
    let n = len_before(s, c);
    if n >= s.len() {
        seq![s]
    } else {
        seq![s.take(n as int)] + split_on(s.skip(n as int + 1), c)
    }
}

/// The texts of `parts`, one after the other with `sep` between neighbours.
pub open spec fn joined(parts: Seq<Seq<char>>, sep: Seq<char>) -> Seq<char>
    decreases parts.len(),
{
    if parts.len() == 0 {
        Seq::empty()
    } else if parts.len() == 1 {
        parts[0]
    } else {
        joined(parts.drop_last(), sep) + sep + parts.last()
    }
}

/// Joining from the front.
pub proof fn lemma_joined_front(parts: Seq<Seq<char>>, sep: Seq<char>)
    requires
        parts.len() > 1,
    ensures
        joined(parts, sep) == parts[0] + sep + joined(parts.drop_first(), sep),
    decreases parts.len(),
{
    if parts.len() == 2 {
        assert(parts.drop_last() =~= seq![parts[0]]);
        assert(parts.drop_first() =~= seq![parts[1]]);
        assert(joined(parts.drop_last(), sep) == parts[0]);
        assert(joined(parts.drop_first(), sep) == parts[1]);
    } else {
        let rest = parts.drop_first();
        lemma_joined_front(parts.drop_last(), sep);
        assert(parts.drop_last().drop_first() =~= rest.drop_last());
        assert(joined(parts, sep) =~= parts[0] + sep + joined(rest, sep));
    }
}

/// Splitting undoes joining, where no part holds the separator.
pub proof fn lemma_split_joined(parts: Seq<Seq<char>>, c: char)
    requires
        parts.len() > 0,
        forall|i: int| 0 <= i < parts.len() ==> !(#[trigger] parts[i]).contains(c),
    ensures
        split_on(joined(parts, seq![c]), c) == parts,
    decreases parts.len(),
{
    let s = joined(parts, seq![c]);
    let first = parts[0];
    let n = first.len() as int;
    assert(!first.contains(c));
    if parts.len() == 1 {
        assert forall|i: int| 0 <= i < n implies #[trigger] s[i] != c by {
            assert(s[i] == first[i]);
        }
        lemma_len_before_is(s, c, n);
        assert(split_on(s, c) =~= parts);
    } else {
        let rest = parts.drop_first();
        lemma_joined_front(parts, seq![c]);
        assert forall|i: int| 0 <= i < rest.len() implies !(#[trigger] rest[i]).contains(c) by {
            assert(rest[i] == parts[i + 1]);
        }
        lemma_split_joined(rest, c);
        assert forall|i: int| 0 <= i < n implies #[trigger] s[i] != c by {
            assert(s[i] == first[i]);
        }
        assert(s[n] == c);
        lemma_len_before_is(s, c, n);
        assert(s.take(n) =~= first);
        assert(s.skip(n + 1) =~= joined(rest, seq![c]));
        assert(split_on(s, c) =~= parts);
    }
}

/// Where the first word of a text ends.
pub proof fn lemma_word_len(s: Seq<char>)
    ensures
        word_len(s) <= s.len(),
        s.len() > 0 && !white_space(s[0]) ==> word_len(s) > 0,
        forall|i: int| 0 <= i < word_len(s) ==> !white_space(#[trigger] s[i]),
        word_len(s) < s.len() ==> white_space(s[word_len(s) as int]),
    decreases s.len(),
{
    if s.len() == 0 || white_space(s[0]) {
    } else {
        let t = s.drop_first();
        lemma_word_len(t);
        assert forall|i: int| 0 <= i < word_len(s) implies !white_space(#[trigger] s[i]) by {
            if i > 0 {
                assert(s[i] == t[i - 1]);
            }
        }
    }
}

/// Where the first `c` of a text stands.
pub proof fn lemma_len_before(s: Seq<char>, c: char)
    ensures
        len_before(s, c) <= s.len(),
        forall|i: int| 0 <= i < len_before(s, c) ==> #[trigger] s[i] != c,
        len_before(s, c) < s.len() ==> s[len_before(s, c) as int] == c,
    decreases s.len(),
{
    if s.len() == 0 || s[0] == c {
    } else {
        let t = s.drop_first();
        lemma_len_before(t, c);
        assert forall|i: int| 0 <= i < len_before(s, c) implies #[trigger] s[i] != c by {
            if i > 0 {
                assert(s[i] == t[i - 1]);
            }
        }
    }
}

/// The place of the first `c` is fixed by what stands before it.
pub proof fn lemma_len_before_is(s: Seq<char>, c: char, n: int)
    requires
        0 <= n <= s.len(),
        forall|i: int| 0 <= i < n ==> #[trigger] s[i] != c,
        n < s.len() ==> s[n] == c,
    ensures
        len_before(s, c) == n,
{
    lemma_len_before(s, c);
    let m = len_before(s, c) as int;
    if m < n {
        assert(s[m] != c);
    }
}

/// The end of the first word is fixed by what stands before it.
pub proof fn lemma_word_len_is(s: Seq<char>, n: int)
    requires
        0 <= n <= s.len(),
        forall|i: int| 0 <= i < n ==> !white_space(#[trigger] s[i]),
        n < s.len() ==> white_space(s[n]),
    ensures
        word_len(s) == n,
{
    lemma_word_len(s);
    let m = word_len(s) as int;
    if m < n {
        assert(!white_space(s[m]));
    }
}

/// The position of the first `c` in `s`, or the number of its characters.
pub fn find_char(s: &str, c: char) -> (r: usize)
    ensures
        r == len_before(s@, c),
        r <= s@.len(),
{
    let chars = to_chars(s);
    let mut i: usize = 0;
    while i < chars.len() && chars[i] != c
        invariant
            chars@ == s@,
            i <= chars@.len(),
            forall|j: int| 0 <= j < i ==> #[trigger] s@[j] != c,
        decreases chars@.len() - i,
    {
        i += 1;
    }
    proof {
        lemma_len_before_is(s@, c, i as int);
    }
    i
}

/// Splits `s` at white space and leaves out the empty parts.
pub fn split_words(s: &str) -> (r: Vec<String>)
    ensures
        texts(r@) == words(s@),
{
    let chars = to_chars(s);
    let mut out: Vec<String> = Vec::new();
    let mut i: usize = 0;
    assert(s@.skip(0) =~= s@);
    assert(texts(out@) =~= Seq::<Seq<char>>::empty());
    assert(Seq::<Seq<char>>::empty() + words(s@) =~= words(s@));
    while i < chars.len()
        invariant
            chars@ == s@,
            i <= chars@.len(),
            texts(out@) + words(s@.skip(i as int)) == words(s@),
        decreases chars@.len() - i,
    {
        let ghost rest = s@.skip(i as int);
        if is_white_space(chars[i]) {
            assert(rest.drop_first() =~= s@.skip(i + 1));
            assert(trim_front(rest) == trim_front(s@.skip(i + 1)));
            assert(words(rest) == words(s@.skip(i + 1)));
            i += 1;
        } else {
            assert(trim_front(rest) == rest);
            let start: usize = i;
            while i < chars.len() && !is_white_space(chars[i])
                invariant
                    chars@ == s@,
                    start <= i <= chars@.len(),
                    forall|j: int| start <= j < i ==> !white_space(#[trigger] s@[j]),
                decreases chars@.len() - i,
            {
                i += 1;
            }
            proof {
                let n = i - start;
                assert forall|k: int| 0 <= k < n implies !white_space(#[trigger] rest[k]) by {
                    assert(rest[k] == s@[start + k]);
                }
                lemma_word_len_is(rest, n as int);
                assert(rest.take(n as int) =~= s@.subrange(start as int, i as int));
                assert(rest.skip(n as int) =~= s@.skip(i as int));
            }
            let word = s.substring_char(start, i).to_owned();
            let ghost before = texts(out@);
            out.push(word);
            proof {
                assert(texts(out@) =~= before.push(word@));
                assert(texts(out@) + words(s@.skip(i as int)) =~= before + words(rest));
            }
        }
    }
    proof {
        let rest = s@.skip(i as int);
        assert(rest.len() == 0);
        assert(texts(out@) + words(rest) =~= texts(out@));
    }
    out
}

/// Splits `s` at every `c`.
pub fn split_at_char(s: &str, c: char) -> (r: Vec<String>)
    ensures
        texts(r@) == split_on(s@, c),
{
    let chars = to_chars(s);
    let mut out: Vec<String> = Vec::new();
    let mut start: usize = 0;
    let mut i: usize = 0;
    assert(s@.skip(0) =~= s@);
    assert(texts(out@) =~= Seq::<Seq<char>>::empty());
    assert(Seq::<Seq<char>>::empty() + split_on(s@, c) =~= split_on(s@, c));
    while i < chars.len()
        invariant
            chars@ == s@,
            start <= i <= chars@.len(),
            forall|j: int| start <= j < i ==> #[trigger] s@[j] != c,
            texts(out@) + split_on(s@.skip(start as int), c) == split_on(s@, c),
        decreases chars@.len() - i,
    {
        if chars[i] == c {
            let ghost rest = s@.skip(start as int);
            let ghost before = texts(out@);
            let part = s.substring_char(start, i).to_owned();
            out.push(part);
            proof {
                let n = i - start;
                assert forall|k: int| 0 <= k < n implies #[trigger] rest[k] != c by {
                    assert(rest[k] == s@[start + k]);
                }
                lemma_len_before_is(rest, c, n as int);
                assert(rest.take(n as int) =~= part@);
                assert(rest.skip(n + 1) =~= s@.skip(i + 1));
                assert(texts(out@) =~= before.push(part@));
                assert(texts(out@) + split_on(s@.skip(i + 1), c) =~= before + split_on(rest, c));
            }
            start = i + 1;
        }
        i += 1;
    }
    let ghost before = texts(out@);
    let part = s.substring_char(start, chars.len()).to_owned();
    out.push(part);
    proof {
        let rest = s@.skip(start as int);
        assert forall|k: int| 0 <= k < rest.len() implies #[trigger] rest[k] != c by {
            assert(rest[k] == s@[start + k]);
        }
        lemma_len_before_is(rest, c, rest.len() as int);
        assert(rest =~= part@);
        assert(texts(out@) =~= before.push(part@));
        assert(texts(out@) =~= before + split_on(rest, c));
    }
    out
}

/// Joins `parts` with `sep` between neighbours.
pub fn join(parts: &[String], sep: &str) -> (r: String)
    ensures
        r@ == joined(texts(parts@), sep@),
{
    let mut out = String::new();
    let mut i: usize = 0;
    while i < parts.len()
        invariant
            i <= parts@.len(),
            out@ == joined(texts(parts@).take(i as int), sep@),
        decreases parts@.len() - i,
    {
        let ghost all = texts(parts@);
        if i > 0 {
            out.append(sep);
        }
        out.append(parts[i].as_str());
        proof {
            assert(all.take(i + 1).drop_last() =~= all.take(i as int));
            assert(all.take(i + 1).last() == parts@[i as int]@);
            if i == 0 {
                assert(out@ =~= parts@[0]@);
            }
        }
        i += 1;
    }
    assert(texts(parts@).take(parts@.len() as int) =~= texts(parts@));
    out
}

/// The order of texts by their characters.
pub open spec fn comes_before(a: Seq<char>, b: Seq<char>) -> bool
    decreases a.len(),
{
    if b.len() == 0 {
        false
    } else if a.len() == 0 {
        true
    } else if a[0] != b[0] {
        a[0] < b[0]
    } else {
        comes_before(a.drop_first(), b.drop_first())
    }
}

// ---------------------------------------------------------------------------
// Searching
// ---------------------------------------------------------------------------

/// Whether `part` stands in `s` at position `at`.
pub open spec fn stands_at(s: Seq<char>, part: Seq<char>, at: int) -> bool {
    0 <= at && at + part.len() <= s.len() && s.subrange(at, at + part.len()) == part
}

/// Whether `part` stands somewhere in `s`.
pub open spec fn has_part(s: Seq<char>, part: Seq<char>) -> bool {
    exists|at: int| stands_at(s, part, at)
}

/// Whether `s` ends with `part`.
pub open spec fn has_suffix(s: Seq<char>, part: Seq<char>) -> bool {
    stands_at(s, part, s.len() - part.len())
}

/// Whether `s` starts with `part`.
pub open spec fn has_prefix(s: Seq<char>, part: Seq<char>) -> bool {
    stands_at(s, part, 0)
}

/// Whether `part` stands in `s` at position `at`.
fn matches_at(s: &[char], part: &[char], at: usize) -> (r: bool)
    requires
        at + part@.len() <= s@.len(),
    ensures
        r == stands_at(s@, part@, at as int),
{
    let total: usize = s.len();
    let mut i: usize = 0;
    while i < part.len()
        invariant
            i <= part@.len(),
            at + part@.len() <= s@.len(),
            s@.len() == total,
            forall|j: int| 0 <= j < i ==> s@[at + j] == #[trigger] part@[j],
        decreases part@.len() - i,
    {
        if s[at + i] != part[i] {
            proof {
                let sub = s@.subrange(at as int, at + part@.len());
                assert(sub[i as int] == s@[at + i]);
            }
            return false;
        }
        i += 1;
    }
    assert(s@.subrange(at as int, at + part@.len()) =~= part@);
    true
}

/// Whether `part` stands somewhere in `s`.
pub fn contains(s: &str, part: &str) -> (r: bool)
    ensures
        r == has_part(s@, part@),
{
    let sc = to_chars(s);
    let pc = to_chars(part);
    if pc.len() > sc.len() {
        return false;
    }
    let last: usize = sc.len() - pc.len();
    let mut at: usize = 0;
    while at < last
        invariant
            sc@ == s@,
            pc@ == part@,
            last == sc@.len() - pc@.len(),
            at <= last,
            forall|k: int| 0 <= k < at ==> !#[trigger] stands_at(s@, part@, k),
        decreases last - at,
    {
        if matches_at(sc.as_slice(), pc.as_slice(), at) {
            return true;
        }
        at += 1;
    }
    let found = matches_at(sc.as_slice(), pc.as_slice(), last);
    proof {
        if !found {
            assert forall|k: int| !#[trigger] stands_at(s@, part@, k) by {
                if stands_at(s@, part@, k) {
                    assert(0 <= k <= last);
                }
            }
        }
    }
    found
}

/// Whether `s` ends with `part`.
pub fn ends_with(s: &str, part: &str) -> (r: bool)
    ensures
        r == has_suffix(s@, part@),
{
    let sc = to_chars(s);
    let pc = to_chars(part);
    if pc.len() > sc.len() {
        return false;
    }
    matches_at(sc.as_slice(), pc.as_slice(), sc.len() - pc.len())
}

/// Whether `s` starts with `part`.
pub fn starts_with(s: &str, part: &str) -> (r: bool)
    ensures
        r == has_prefix(s@, part@),
{
    let sc = to_chars(s);
    let pc = to_chars(part);
    if pc.len() > sc.len() {
        return false;
    }
    matches_at(sc.as_slice(), pc.as_slice(), 0)
}

/// Whether `c` occurs in `s`.
pub fn has_char(s: &str, c: char) -> (r: bool)
    ensures
        r == s@.contains(c),
{
    let chars = to_chars(s);
    let mut i: usize = 0;
    while i < chars.len()
        invariant
            chars@ == s@,
            i <= chars@.len(),
            forall|j: int| 0 <= j < i ==> s@[j] != c,
        decreases chars@.len() - i,
    {
        if chars[i] == c {
            return true;
        }
        i += 1;
    }
    false
}

/// Lower case for the ASCII letters of `s`.
pub fn to_ascii_lower(s: &str) -> (r: String)
    ensures
        r@ == ascii_lower(s@),
{
    let chars = to_chars(s);
    let mut out = String::new();
    let mut i: usize = 0;
    while i < chars.len()
        invariant
            chars@ == s@,
            i <= chars@.len(),
            out@ == ascii_lower(s@).take(i as int),
        decreases chars@.len() - i,
    {
        let c = chars[i];
        if 'A' <= c && c <= 'Z' {
            let low: u8 = (c as u8) + 32;
            assert(low as char == ascii_lower_char(c));
            out.push(low as char);
        } else {
            out.push(c);
        }
        assert(ascii_lower(s@).take(i + 1) =~= ascii_lower(s@).take(i as int).push(
            ascii_lower_char(c),
        ));
        i += 1;
    }
    assert(ascii_lower(s@).take(s@.len() as int) =~= ascii_lower(s@));
    out
}

// ---------------------------------------------------------------------------
// Decimal numbers
// ---------------------------------------------------------------------------

/// The decimal digit of a number below ten.
pub open spec fn digit(d: nat) -> char {
    ('0' as nat + d) as char
}

/// The decimal digits of `n`, without leading zeros.
pub open spec fn decimal(n: nat) -> Seq<char>
    decreases n,
{
    if n < 10 {
        seq![digit(n)]
    } else {
        decimal(n / 10).push(digit(n % 10))
    }
}

/// The decimal digits of `n` with a minus sign in front where it is negative.
pub open spec fn signed_decimal(n: int) -> Seq<char> {
    if n < 0 {
        seq!['-'] + decimal((-n) as nat)
    } else {
        decimal(n as nat)
    }
}

/// The decimal digits of `n`, at least two of them.
pub open spec fn two_digits(n: nat) -> Seq<char> {
    if n < 10 {
        seq!['0', digit(n)]
    } else {
        decimal(n)
    }
}

/// The value of a sequence of decimal digits.
pub open spec fn digits_value(s: Seq<char>) -> nat
    decreases s.len(),
{
    if s.len() == 0 {
        0
    } else {
        (digits_value(s.drop_last()) * 10 + (s.last() as nat - '0' as nat)) as nat
    }
}

/// Whether `s` is one or more decimal digits.
pub open spec fn all_digits(s: Seq<char>) -> bool {
    s.len() > 0 && forall|i: int| 0 <= i < s.len() ==> ascii_digit(#[trigger] s[i])
}

/// The number that `s` writes: an optional `+`, then only digits, and at most `max`.
pub open spec fn unsigned_value(s: Seq<char>, max: nat) -> Option<nat> {
    let body = if s.len() > 0 && s[0] == '+' {
        s.drop_first()
    } else {
        s
    };
    if all_digits(body) && digits_value(body) <= max {
        Some(digits_value(body))
    } else {
        None
    }
}

/// The 64-bit number that `s` writes: an optional sign, then only digits.
pub open spec fn signed_value(s: Seq<char>) -> Option<int> {
    if s.len() > 0 && s[0] == '-' {
        let body = s.drop_first();
        if all_digits(body) && digits_value(body) <= 0x8000_0000_0000_0000 {
            Some(-(digits_value(body) as int))
        } else {
            None
        }
    } else {
        match unsigned_value(s, 0x7fff_ffff_ffff_ffff) {
            Some(n) => Some(n as int),
            None => None,
        }
    }
}

/// The decimal digits of a number are digits, and their value is the number.
pub proof fn lemma_decimal_value(n: nat)
    ensures
        all_digits(decimal(n)),
        digits_value(decimal(n)) == n,
    decreases n,
{
    if n < 10 {
        let s = decimal(n);
        assert(s.drop_last() =~= Seq::<char>::empty());
        assert(digits_value(s.drop_last()) == 0);
        assert(s.last() == digit(n));
    } else {
        lemma_decimal_value(n / 10);
        let s = decimal(n);
        assert(s.drop_last() =~= decimal(n / 10));
        assert(s.last() == digit(n % 10));
        assert forall|i: int| 0 <= i < s.len() implies ascii_digit(#[trigger] s[i]) by {
            if i < s.len() - 1 {
                assert(s[i] == decimal(n / 10)[i]);
            }
        }
    }
}

/// The same for at least two digits.
pub proof fn lemma_two_digits_value(n: nat)
    ensures
        all_digits(two_digits(n)),
        digits_value(two_digits(n)) == n,
{
    if n < 10 {
        let s = two_digits(n);
        assert(s.drop_last() =~= seq!['0']);
        assert(seq!['0'].drop_last() =~= Seq::<char>::empty());
        assert(digits_value(seq!['0'].drop_last()) == 0);
        assert(digits_value(seq!['0']) == 0);
    } else {
        lemma_decimal_value(n);
    }
}

/// Sequences that are equal agree up to the first `c`, and behind it.
pub proof fn lemma_cut_at_first<T>(a: Seq<T>, x: Seq<T>, b: Seq<T>, y: Seq<T>, c: T)
    requires
        a + seq![c] + x == b + seq![c] + y,
        !a.contains(c),
        !b.contains(c),
    ensures
        a == b,
        x == y,
{
    let s = a + seq![c] + x;
    let n = a.len() as int;
    let m = b.len() as int;
    assert forall|i: int| 0 <= i < n implies #[trigger] s[i] != c by {
        assert(s[i] == a[i]);
    }
    assert forall|i: int| 0 <= i < m implies #[trigger] s[i] != c by {
        assert(s[i] == b[i]);
    }
    assert(s[n] == c);
    assert(s[m] == c);
    assert(n == m);
    assert(s.take(n) =~= a);
    assert(s.take(n) =~= b);
    assert(s.skip(n + 1) =~= x);
    assert(s.skip(n + 1) =~= y);
}

/// The decimal digits of `n`.
pub fn decimal_text(n: u64) -> (r: String)
    ensures
        r@ == decimal(n as nat),
{
    wide_decimal_text(n as u128)
}

fn wide_decimal_text(n: u128) -> (r: String)
    ensures
        r@ == decimal(n as nat),
    decreases n,
{
    let d: u8 = (n % 10) as u8;
    let c = (48 + d) as char;
    assert(c == digit((n % 10) as nat));
    let mut out = if n < 10 {
        String::new()
    } else {
        wide_decimal_text(n / 10)
    };
    out.push(c);
    assert(n < 10 ==> out@ =~= seq![digit(n as nat)]);
    out
}

/// The decimal digits of `n`, with a minus sign where it is negative.
pub fn signed_text(n: i128) -> (r: String)
    ensures
        r@ == signed_decimal(n as int),
{
    if n < 0 {
        let size: u128 = (-(n + 1)) as u128 + 1;
        let r = concat2("-", wide_decimal_text(size).as_str());
        proof {
            reveal_strlit("-");
            assert("-"@ =~= seq!['-']);
        }
        r
    } else {
        wide_decimal_text(n as u128)
    }
}

/// The decimal digits of `n`, at least two of them.
pub fn two_digit_text(n: u64) -> (r: String)
    ensures
        r@ == two_digits(n as nat),
{
    if n < 10 {
        let r = concat2("0", decimal_text(n).as_str());
        proof {
            reveal_strlit("0");
            assert(r@ =~= seq!['0', digit(n as nat)]);
        }
        r
    } else {
        decimal_text(n)
    }
}

/// The value of the digits `chars[from..]`, if they are digits and it is at most `max`.
fn digits_from(chars: &Vec<char>, from: usize, max: u64) -> (r: Option<u64>)
    requires
        from <= chars@.len(),
    ensures
        ({
            let body = chars@.skip(from as int);
            if all_digits(body) && digits_value(body) <= max {
                r == Some(digits_value(body) as u64)
            } else {
                r is None
            }
        }),
{
    let ghost body = chars@.skip(from as int);
    if from == chars.len() {
        return None;
    }
    let mut value: u64 = 0;
    let mut i: usize = from;
    assert(body.take(0) =~= Seq::<char>::empty());
    let mut over = false;
    while i < chars.len()
        invariant
            from <= i <= chars@.len(),
            body == chars@.skip(from as int),
            forall|j: int| 0 <= j < i - from ==> ascii_digit(#[trigger] body[j]),
            !over ==> value == digits_value(body.take(i - from)) && value <= max,
            over ==> digits_value(body.take(i - from)) > max,
        decreases chars@.len() - i,
    {
        let c = chars[i];
        assert(body[i - from] == c);
        if !('0' <= c && c <= '9') {
            return None;
        }
        let d: u64 = (c as u8 - 48) as u64;
        proof {
            assert(body.take(i + 1 - from).drop_last() =~= body.take(i - from));
            assert(body.take(i + 1 - from).last() == c);
            assert(digits_value(body.take(i + 1 - from)) == digits_value(body.take(i - from)) * 10
                + d);
        }
        if !over {
            let wide: u128 = (value as u128) * 10 + (d as u128);
            if wide > max as u128 {
                over = true;
            } else {
                value = wide as u64;
            }
        }
        i += 1;
    }
    assert(body.take(i - from) =~= body);
    if over {
        None
    } else {
        Some(value)
    }
}

/// Reads an unsigned number of at most `max`.
pub fn parse_unsigned(s: &str, max: u64) -> (r: Option<u64>)
    ensures
        match unsigned_value(s@, max as nat) {
            Some(n) => r == Some(n as u64) && n <= max,
            None => r is None,
        },
{
    let chars = to_chars(s);
    if chars.len() > 0 && chars[0] == '+' {
        assert(s@.drop_first() =~= s@.skip(1));
        digits_from(&chars, 1, max)
    } else {
        assert(s@ =~= s@.skip(0));
        digits_from(&chars, 0, max)
    }
}

/// Reads a signed 64-bit number.
pub fn parse_i64(s: &str) -> (r: Option<i64>)
    ensures
        match signed_value(s@) {
            Some(n) => r == Some(n as i64) && i64::MIN <= n <= i64::MAX,
            None => r is None,
        },
{
    let chars = to_chars(s);
    if chars.len() > 0 && chars[0] == '-' {
        assert(s@.drop_first() =~= s@.skip(1));
        match digits_from(&chars, 1, 0x8000_0000_0000_0000) {
            Some(n) => {
                let wide: i128 = -(n as i128);
                Some(wide as i64)
            },
            None => None,
        }
    } else {
        match parse_unsigned(s, 0x7fff_ffff_ffff_ffff) {
            Some(n) => Some(n as i64),
            None => None,
        }
    }
}

// ---------------------------------------------------------------------------
// Laws
// ---------------------------------------------------------------------------

/// Trimming takes white space from both ends and nothing else: what is left stands
/// in the text between two stretches of white space, and neither starts nor ends
/// with any.
pub proof fn law_trimming(s: Seq<char>)
    ensures
        exists|i: int, j: int|
            {
                &&& 0 <= i <= j <= s.len()
                &&& trimmed(s) == #[trigger] s.subrange(i, j)
                &&& forall|k: int| 0 <= k < i ==> white_space(#[trigger] s[k])
                &&& forall|k: int| j <= k < s.len() ==> white_space(#[trigger] s[k])
            },
        trimmed(s).len() > 0 ==> !white_space(trimmed(s)[0]) && !white_space(trimmed(s).last()),
{
    let i = lemma_front_cut(s);
    let rest = trim_front(s);
    let n = lemma_back_cut(rest);
    let j = i + n;
    assert(rest =~= s.skip(i));
    assert(trimmed(s) =~= s.subrange(i, j));
    assert forall|k: int| j <= k < s.len() implies white_space(#[trigger] s[k]) by {
        assert(rest[k - i] == s[k]);
    }
    if trimmed(s).len() > 0 {
        assert(trimmed(s)[0] == rest[0]);
    }
}

proof fn lemma_front_cut(s: Seq<char>) -> (i: int)
    ensures
        0 <= i <= s.len(),
        trim_front(s) == s.skip(i),
        forall|k: int| 0 <= k < i ==> white_space(#[trigger] s[k]),
        i < s.len() ==> !white_space(s[i]),
    decreases s.len(),
{
    if s.len() > 0 && white_space(s[0]) {
        let rest = s.drop_first();
        let i = lemma_front_cut(rest);
        assert(rest.skip(i) =~= s.skip(i + 1));
        assert forall|k: int| 0 <= k < i + 1 implies white_space(#[trigger] s[k]) by {
            if k > 0 {
                assert(rest[k - 1] == s[k]);
            }
        }
        i + 1
    } else {
        assert(s.skip(0) =~= s);
        0
    }
}

proof fn lemma_back_cut(s: Seq<char>) -> (n: int)
    ensures
        0 <= n <= s.len(),
        trim_back(s) == s.take(n),
        forall|k: int| n <= k < s.len() ==> white_space(#[trigger] s[k]),
        n > 0 ==> !white_space(s[n - 1]),
    decreases s.len(),
{
    if s.len() > 0 && white_space(s.last()) {
        let rest = s.drop_last();
        let n = lemma_back_cut(rest);
        assert(rest.take(n) =~= s.take(n));
        assert forall|k: int| n <= k < s.len() implies white_space(#[trigger] s[k]) by {
            if k < rest.len() {
                assert(rest[k] == s[k]);
            }
        }
        n
    } else {
        assert(s.take(s.len() as int) =~= s);
        s.len() as int
    }
}

/// Which characters are white space and which are control characters, by their
/// code points.
pub proof fn law_character_classes(c: char)
    ensures
        ({
            let n = c as nat;
            white_space(c) <==> 9 <= n <= 13 || n == 32 || n == 133 || n == 160 || n == 5760 || 8192
                <= n <= 8202 || n == 8232 || n == 8233 || n == 8239 || n == 8287 || n == 12288
        }),
        control(c) <==> (c as nat) < 32 || 127 <= c as nat <= 159,
{
}

/// Lower case changes the capital letters of ASCII, each into its small one, and
/// nothing else.
pub proof fn law_lower_case(s: Seq<char>)
    ensures
        ascii_lower(s).len() == s.len(),
        forall|i: int|
            0 <= i < s.len() ==> ascii_lower(s)[i] as nat == if 65 <= (#[trigger] s[i]) as nat <= 90 {
                s[i] as nat + 32
            } else {
                s[i] as nat
            },
        ascii_lower(ascii_lower(s)) == ascii_lower(s),
{
    assert(ascii_lower(ascii_lower(s)) =~= ascii_lower(s));
}

/// A part of a text is what can be cut out of it; a prefix and a suffix are parts
/// at its ends.
pub proof fn law_parts(s: Seq<char>, part: Seq<char>, a: Seq<char>, b: Seq<char>)
    ensures
        s == a + part + b ==> has_part(s, part),
        s == part + b ==> has_prefix(s, part),
        s == a + part ==> has_suffix(s, part),
        has_part(s, part) ==> exists|x: Seq<char>, y: Seq<char>| s == #[trigger] (x + part + y),
        has_prefix(s, part) ==> s == part + s.skip(part.len() as int),
        has_suffix(s, part) ==> s == s.take(s.len() - part.len()) + part,
{
    if s == a + part + b {
        assert(s.subrange(a.len() as int, (a.len() + part.len()) as int) =~= part);
        assert(stands_at(s, part, a.len() as int));
    }
    if s == part + b {
        assert(s.subrange(0, part.len() as int) =~= part);
    }
    if s == a + part {
        assert(s.subrange(a.len() as int, s.len() as int) =~= part);
    }
    if has_part(s, part) {
        let at = choose|at: int| stands_at(s, part, at);
        let x = s.take(at);
        let y = s.skip(at + part.len());
        assert(s =~= x + part + y);
    }
    if has_prefix(s, part) {
        assert(s =~= s.subrange(0, part.len() as int) + s.skip(part.len() as int));
    }
    if has_suffix(s, part) {
        assert(s =~= s.take(s.len() - part.len()) + s.subrange(
            s.len() - part.len(),
            s.len() as int,
        ));
    }
}

/// A number that was written in decimal is read as itself, with or without a plus
/// sign, and what is not a number is not read.
pub proof fn law_numbers_are_read(n: int, s: Seq<char>)
    ensures
        -0x8000_0000_0000_0000 <= n <= 0x7fff_ffff_ffff_ffff ==> signed_value(signed_decimal(n))
            == Some(n),
        0 <= n <= 0x7fff_ffff_ffff_ffff ==> signed_value(seq!['+'] + signed_decimal(n)) == Some(n),
        n > 0x7fff_ffff_ffff_ffff ==> signed_value(signed_decimal(n)) is None,
        n < -0x8000_0000_0000_0000 ==> signed_value(signed_decimal(n)) is None,
        signed_value(Seq::empty()) is None,
        (exists|i: int| 1 <= i < s.len() && !ascii_digit(#[trigger] s[i])) ==> signed_value(s) is None,
{
    let d = decimal(
        (if n < 0 {
            -n
        } else {
            n
        }) as nat,
    );
    lemma_decimal_value(
        (if n < 0 {
            -n
        } else {
            n
        }) as nat,
    );
    assert(ascii_digit(d[0]));
    if n < 0 {
        assert(signed_decimal(n).drop_first() =~= d);
    } else {
        assert((seq!['+'] + d).drop_first() =~= d);
    }
    if exists|i: int| 1 <= i < s.len() && !ascii_digit(#[trigger] s[i]) {
        let i = choose|i: int| 1 <= i < s.len() && !ascii_digit(#[trigger] s[i]);
        let rest = s.drop_first();
        assert(rest[i - 1] == s[i]);
        assert(!all_digits(rest));
        assert(!all_digits(s));
    }
}

/// Joining what was split gives the text again.
pub proof fn law_split_parts_join(s: Seq<char>, c: char)
    ensures
        joined(split_on(s, c), seq![c]) == s,
    decreases s.len(),
{
    lemma_len_before(s, c);
    let n = len_before(s, c) as int;
    let parts = split_on(s, c);
    if n >= s.len() {
        assert(parts =~= seq![s]);
    } else {
        let rest = s.skip(n + 1);
        law_split_parts_join(rest, c);
        let more = split_on(rest, c);
        assert(more.len() > 0);
        assert(parts.drop_first() =~= more);
        assert(parts[0] == s.take(n));
        lemma_joined_front(parts, seq![c]);
        assert(s =~= s.take(n) + seq![c] + rest);
    }
}

/// Texts are in one order: of two different ones exactly one comes first, and
/// none before itself.
pub proof fn law_order_of_texts(a: Seq<char>, b: Seq<char>)
    ensures
        !comes_before(a, a),
        a != b ==> (comes_before(a, b) <==> !comes_before(b, a)),
        comes_before(a, b) ==> a != b,
        a.len() > 0 ==> comes_before(Seq::empty(), a),
        a.len() > 0 && b.len() > 0 && a[0] < b[0] ==> comes_before(a, b),
    decreases a.len(),
{
    if a.len() > 0 {
        law_order_of_texts(a.drop_first(), a.drop_first());
    }
    if a.len() > 0 && b.len() > 0 && a[0] == b[0] {
        law_order_of_texts(a.drop_first(), b.drop_first());
        if a.drop_first() == b.drop_first() {
            assert(a =~= seq![a[0]] + a.drop_first());
            assert(b =~= seq![b[0]] + b.drop_first());
        }
    }
    if a.len() == 0 && b.len() == 0 {
        assert(a =~= b);
    }
}

/// Words are what stands between white space: white space in front counts for
/// nothing, and a word ends where the next white space stands.
pub proof fn law_words(c: char, word: Seq<char>, rest: Seq<char>)
    requires
        white_space(c),
        word.len() > 0,
        forall|i: int| 0 <= i < word.len() ==> !white_space(#[trigger] word[i]),
    ensures
        words(Seq::empty()).len() == 0,
        words(seq![c] + rest) == words(rest),
        words(word) == seq![word],
        words(word + seq![c] + rest) == seq![word] + words(rest),
{
    assert((seq![c] + rest).drop_first() =~= rest);
    assert(trim_front(seq![c] + rest) == trim_front(rest));
    lemma_word_len_is(word, word.len() as int);
    assert(word.take(word.len() as int) =~= word);
    assert(word.skip(word.len() as int) =~= Seq::<char>::empty());
    assert(!white_space(word[0]));
    assert(trim_front(word) == word);
    assert(words(Seq::<char>::empty()) =~= Seq::empty());
    assert(words(word) =~= seq![word]);
    let s = word + seq![c] + rest;
    assert(s[0] == word[0]);
    assert(trim_front(s) == s);
    assert forall|i: int| 0 <= i < word.len() implies !white_space(#[trigger] s[i]) by {
        assert(s[i] == word[i]);
    }
    assert(s[word.len() as int] == c);
    lemma_word_len_is(s, word.len() as int);
    assert(s.take(word.len() as int) =~= word);
    assert(s.skip(word.len() as int) =~= seq![c] + rest);
}

/// How numbers are written: in digits, the last of them first split off, without
/// zeros in front, with a minus sign where they are negative, and in at least two
/// digits where pages are counted.
pub proof fn law_numbers_are_written(n: nat, d: nat)
    requires
        d < 10,
    ensures
        decimal(d) == seq![(48 + d) as char],
        n > 0 ==> decimal(10 * n + d) == decimal(n) + seq![(48 + d) as char],
        n > 0 ==> signed_decimal(-n) == "-"@ + decimal(n),
        signed_decimal(n as int) == decimal(n),
        two_digits(d) == "0"@ + decimal(d),
        n >= 10 ==> two_digits(n) == decimal(n),
{
    reveal_strlit("-");
    reveal_strlit("0");
    assert((10 * n + d) / 10 == n);
    assert((10 * n + d) % 10 == d);
    assert("-"@ =~= seq!['-']);
    assert(two_digits(d) =~= "0"@ + decimal(d));
}

} // verus!
