//! Text primitives shared by both wire formats: UTF-8 decoding, Unicode
//! whitespace trimming and splitting on a separator character.

use vstd::prelude::*;
use vstd::utf8::*;
use vstd::string::StrSliceExecFns;
use vstd::string::StringSliceAdditionalSpecFns;

verus! {

/// The characters for which `char::is_whitespace` holds: those with the
/// Unicode `White_Space` property.
pub open spec fn is_white_space(c: char) -> bool {
    let u = c as u32;
    ||| 0x09 <= u <= 0x0d
    ||| u == 0x20
    ||| u == 0x85
    ||| u == 0xa0
    ||| u == 0x1680
    ||| 0x2000 <= u <= 0x200a
    ||| u == 0x2028
    ||| u == 0x2029
    ||| u == 0x202f
    ||| u == 0x205f
    ||| u == 0x3000
}

/// `t` without its leading whitespace.
pub open spec fn trim_start(t: Seq<char>) -> Seq<char>
    decreases t.len(),
{
    if t.len() > 0 && is_white_space(t[0]) {
        trim_start(t.drop_first())
    } else {
        t
    }
}

/// `t` without its trailing whitespace.
pub open spec fn trim_end(t: Seq<char>) -> Seq<char>
    decreases t.len(),
{
    if t.len() > 0 && is_white_space(t.last()) {
        trim_end(t.drop_last())
    } else {
        t
    }
}

/// `t` without leading and trailing whitespace.
pub open spec fn trim(t: Seq<char>) -> Seq<char> {
    trim_end(trim_start(t))
}

/// The text that a payload carries: its characters when the bytes are
/// valid UTF-8, nothing otherwise.
pub open spec fn payload_text(bytes: Seq<u8>) -> Option<Seq<char>> {
    if valid_utf8(bytes) {
        Some(decode_utf8(bytes))
    } else {
        None
    }
}

/// Position of the first `sep` in `t`, or `t.len()` when `t` holds none.
pub open spec fn find_sep(t: Seq<char>, sep: char) -> int
    decreases t.len(),
{
    if t.len() == 0 || t[0] == sep {
        0
    } else {
        1 + find_sep(t.drop_first(), sep)
    }
}

/// The pieces of `t` between occurrences of `sep`, as `str::split` yields
/// them: never empty, and one more piece than `t` holds separators.
pub open spec fn split_fields(t: Seq<char>, sep: char) -> Seq<Seq<char>>
    decreases t.len(),
{
    let i = find_sep(t, sep);
    if 0 <= i < t.len() {
        seq![t.take(i)] + split_fields(t.skip(i + 1), sep)
    } else {
        seq![t]
    }
}

/// The `k`-th piece of `t` split on `sep`, if there is one.
pub open spec fn field(t: Seq<char>, sep: char, k: int) -> Option<Seq<char>> {
    let pieces = split_fields(t, sep);
    if 0 <= k < pieces.len() {
        Some(pieces[k])
    } else {
        None
    }
}

pub proof fn lemma_find_sep_bounds(t: Seq<char>, sep: char)
    ensures
        0 <= find_sep(t, sep) <= t.len(),
        find_sep(t, sep) < t.len() ==> t[find_sep(t, sep)] == sep,
        forall|j: int| 0 <= j < find_sep(t, sep) ==> t[j] != sep,
    decreases t.len(),
{
    if t.len() > 0 && t[0] != sep {
        lemma_find_sep_bounds(t.drop_first(), sep);
        assert forall|j: int| 0 <= j < find_sep(t, sep) implies t[j] != sep by {
            if j > 0 {
                assert(t[j] == t.drop_first()[j - 1]);
            }
        }
    }
}

/// `std::str::from_utf8`: the bytes as a string slice when they are valid
/// UTF-8. The claim is that validity is `valid_utf8` and that the slice
/// holds exactly the given bytes.
#[verifier::external_body]
pub(crate) fn str_from_utf8(bytes: &[u8]) -> (r: Option<&str>)
    ensures
        r is Some <==> valid_utf8(bytes@),
        r matches Some(s) ==> s.spec_bytes() == bytes@,
{
    std::str::from_utf8(bytes).ok()
}

/// `str::trim`: the slice without leading and trailing characters that have
/// the Unicode `White_Space` property.
#[verifier::external_body]
pub(crate) fn str_trim(s: &str) -> (r: &str)
    ensures
        r@ == trim(s@),
{
    s.trim()
}

/// Decodes `bytes` as UTF-8, with the result described by `payload_text`.
pub fn decode_text(bytes: &[u8]) -> (r: Option<&str>)
    ensures
        match payload_text(bytes@) {
            Some(t) => r matches Some(s) && s@ == t,
            None => r is None,
        },
{
    let r = str_from_utf8(bytes);
    proof {
        if let Some(s) = r {
            encode_utf8_decode_utf8(s@);
        }
    }
    r
}

/// The characters of `s`, one by one.
pub fn chars_of(s: &str) -> (r: Vec<char>)
    ensures
        r@ == s@,
{
    let mut r: Vec<char> = Vec::new();
    for c in it: s.chars()
        invariant
            it.seq() == s@,
            r@ == it.seq().take(it.index()),
    {
        r.push(c);
    }
    r
}


/// How the pieces of `t` relate to its first separator.
pub proof fn lemma_split_step(t: Seq<char>, sep: char, k: int)
    requires
        0 <= k,
    ensures
        field(t, sep, 0) == Some(t.take(find_sep(t, sep))),
        find_sep(t, sep) < t.len() ==> field(t, sep, k + 1) == field(
            t.skip(find_sep(t, sep) + 1),
            sep,
            k,
        ),
        find_sep(t, sep) == t.len() ==> field(t, sep, k + 1) is None,
{
    lemma_find_sep_bounds(t, sep);
    let i = find_sep(t, sep);
    if i < t.len() {
        let rest = split_fields(t.skip(i + 1), sep);
        assert(split_fields(t, sep) == seq![t.take(i)] + rest);
        assert((seq![t.take(i)] + rest).len() == rest.len() + 1);
        if k < rest.len() {
            assert((seq![t.take(i)] + rest)[k + 1] == rest[k]);
        }
    } else {
        assert(t.take(i) =~= t);
    }
}

/// Index of the first `sep` at or after `from` in `chars`, or its length.
fn find_char(chars: &Vec<char>, from: usize, sep: char) -> (i: usize)
    requires
        from <= chars.len(),
    ensures
        i == from + find_sep(chars@.skip(from as int), sep),
        i <= chars.len(),
{
    let mut i = from;
    proof {
        lemma_find_sep_bounds(chars@.skip(from as int), sep);
    }
    while i < chars.len() && chars[i] != sep
        invariant
            from <= i <= chars.len(),
            find_sep(chars@.skip(from as int), sep) == (i - from) + find_sep(
                chars@.skip(i as int),
                sep,
            ),
        decreases chars.len() - i,
    {
        proof {
            let s = chars@.skip(i as int);
            assert(s.drop_first() =~= chars@.skip(i + 1));
            assert(s[0] == chars@[i as int]);
        }
        i = i + 1;
    }
    proof {
        lemma_find_sep_bounds(chars@.skip(i as int), sep);
    }
    i
}

/// The first three pieces of `t` split on `sep`: the first always exists.
pub fn split3<'a>(t: &'a str, sep: char) -> (r: (&'a str, Option<&'a str>, Option<&'a str>))
    ensures
        field(t@, sep, 0) == Some(r.0@),
        match field(t@, sep, 1) {
            Some(f) => r.1 matches Some(s) && s@ == f,
            None => r.1 is None,
        },
        match field(t@, sep, 2) {
            Some(f) => r.2 matches Some(s) && s@ == f,
            None => r.2 is None,
        },
{
    let chars = chars_of(t);
    let ghost v = chars@;
    let len = chars.len();
    let end1 = find_char(&chars, 0, sep);
    proof {
        assert(v.skip(0) =~= v);
        lemma_split_step(v, sep, 0);
        lemma_split_step(v, sep, 1);
    }
    let first = t.substring_char(0, end1);
    assert(first@ =~= v.take(end1 as int));
    if end1 == len {
        return (first, None, None);
    }
    let start2 = end1 + 1;
    let end2 = find_char(&chars, start2, sep);
    let ghost v2 = v.skip(start2 as int);
    proof {
        lemma_split_step(v2, sep, 0);
        lemma_split_step(v2, sep, 1);
    }
    let second = t.substring_char(start2, end2);
    assert(second@ =~= v2.take(find_sep(v2, sep)));
    if end2 == len {
        return (first, Some(second), None);
    }
    let start3 = end2 + 1;
    assert(v2.skip(find_sep(v2, sep) + 1) =~= v.skip(start3 as int));
    let end3 = find_char(&chars, start3, sep);
    let ghost v3 = v.skip(start3 as int);
    proof {
        lemma_split_step(v3, sep, 0);
    }
    let third = t.substring_char(start3, end3);
    assert(third@ =~= v3.take(find_sep(v3, sep)));
    (first, Some(second), Some(third))
}

/// Whether `a` and `b` hold the same characters.
pub fn same_text(a: &str, b: &str) -> (r: bool)
    ensures
        r == (a@ == b@),
{
    let x = chars_of(a);
    let y = chars_of(b);
    if x.len() != y.len() {
        return false;
    }
    let mut i: usize = 0;
    while i < x.len()
        invariant
            x@ == a@,
            y@ == b@,
            x.len() == y.len(),
            i <= x.len(),
            forall|j: int| 0 <= j < i ==> x@[j] == y@[j],
        decreases x.len() - i,
    {
        if x[i] != y[i] {
            return false;
        }
        i = i + 1;
    }
    assert(x@ =~= y@);
    true
}

/// Whether every character of `t` is whitespace.
pub open spec fn all_white_space(t: Seq<char>) -> bool {
    forall|i: int| 0 <= i < t.len() ==> is_white_space(#[trigger] t[i])
}

/// Leading whitespace does not change what `trim_start` leaves.
pub proof fn lemma_trim_start_skips(w: Seq<char>, z: Seq<char>)
    requires
        all_white_space(w),
    ensures
        trim_start(w + z) == trim_start(z),
    decreases w.len(),
{
    if w.len() > 0 {
        assert((w + z)[0] == w[0]);
        assert((w + z).drop_first() =~= w.drop_first() + z);
        lemma_trim_start_skips(w.drop_first(), z);
    } else {
        assert(w + z =~= z);
    }
}

/// Trailing whitespace does not change what `trim_end` leaves.
pub proof fn lemma_trim_end_skips(z: Seq<char>, w: Seq<char>)
    requires
        all_white_space(w),
    ensures
        trim_end(z + w) == trim_end(z),
    decreases w.len(),
{
    if w.len() > 0 {
        assert((z + w).last() == w.last());
        assert((z + w).drop_last() =~= z + w.drop_last());
        lemma_trim_end_skips(z, w.drop_last());
    } else {
        assert(z + w =~= z);
    }
}

/// `trim_start` of a text that holds a non-whitespace character stops
/// inside it.
pub proof fn lemma_trim_start_append(t: Seq<char>, w: Seq<char>)
    requires
        !all_white_space(t),
    ensures
        trim_start(t + w) == trim_start(t) + w,
    decreases t.len(),
{
    assert((t + w)[0] == t[0]);
    if is_white_space(t[0]) {
        assert((t + w).drop_first() =~= t.drop_first() + w);
        assert(!all_white_space(t.drop_first())) by {
            let i = choose|i: int| 0 <= i < t.len() && !is_white_space(#[trigger] t[i]);
            assert(t.drop_first()[i - 1] == t[i]);
        }
        lemma_trim_start_append(t.drop_first(), w);
    }
}

/// `trim_end` of a text that holds a non-whitespace character stops
/// inside it.
pub proof fn lemma_trim_end_append(p: Seq<char>, t: Seq<char>)
    requires
        !all_white_space(t),
    ensures
        trim_end(p + t) == p + trim_end(t),
    decreases t.len(),
{
    assert((p + t).last() == t.last());
    if is_white_space(t.last()) {
        assert((p + t).drop_last() =~= p + t.drop_last());
        assert(!all_white_space(t.drop_last())) by {
            let i = choose|i: int| 0 <= i < t.len() && !is_white_space(#[trigger] t[i]);
            assert(t.drop_last()[i] == t[i]);
        }
        lemma_trim_end_append(p, t.drop_last());
    }
}

/// Trimming a text that is all whitespace leaves nothing.
pub proof fn lemma_trim_all_white_space(w: Seq<char>)
    requires
        all_white_space(w),
    ensures
        trim_start(w) == Seq::<char>::empty(),
        trim_end(w) == Seq::<char>::empty(),
{
    lemma_trim_start_skips(w, Seq::empty());
    lemma_trim_end_skips(Seq::empty(), w);
    assert(w + Seq::<char>::empty() =~= w);
    assert(Seq::<char>::empty() + w =~= w);
}

/// What `trim_end` leaves is a prefix that does not end in whitespace and
/// keeps a first character that is not whitespace.
pub proof fn lemma_trim_end_prefix(t: Seq<char>)
    ensures
        trim_end(t).len() <= t.len(),
        trim_end(t) == t.take(trim_end(t).len() as int),
        trim_end(t).len() == 0 || !is_white_space(trim_end(t).last()),
        t.len() > 0 && !is_white_space(t[0]) ==> trim_end(t).len() > 0,
    decreases t.len(),
{
    if t.len() > 0 && is_white_space(t.last()) {
        lemma_trim_end_prefix(t.drop_last());
        let r = trim_end(t.drop_last());
        assert(t.drop_last().take(r.len() as int) =~= t.take(r.len() as int));
        if t.len() > 1 {
            assert(t.drop_last()[0] == t[0]);
        }
    } else {
        assert(t.take(t.len() as int) =~= t);
    }
}

/// Whitespace around a text does not change what `trim` leaves.
pub proof fn lemma_trim_padded(pre: Seq<char>, t: Seq<char>, post: Seq<char>)
    requires
        all_white_space(pre),
        all_white_space(post),
    ensures
        trim(pre + t + post) == trim(t),
{
    assert(pre + t + post =~= pre + (t + post));
    lemma_trim_start_skips(pre, t + post);
    if all_white_space(t) {
        assert(all_white_space(t + post)) by {
            assert forall|i: int| 0 <= i < (t + post).len() implies is_white_space(
                #[trigger] (t + post)[i],
            ) by {
                if i < t.len() {
                    assert((t + post)[i] == t[i]);
                } else {
                    assert((t + post)[i] == post[i - t.len()]);
                }
            }
        }
        lemma_trim_all_white_space(t + post);
        lemma_trim_all_white_space(t);
    } else {
        lemma_trim_start_append(t, post);
        lemma_trim_end_skips(trim_start(t), post);
    }
}

/// `trim` after `trim_end` is `trim`.
pub proof fn lemma_trim_after_trim_end(t: Seq<char>)
    ensures
        trim(trim_end(t)) == trim(t),
    decreases t.len(),
{
    lemma_trim_end_prefix(t);
    if t.len() == 0 {
    } else if all_white_space(t) {
        lemma_trim_all_white_space(t);
        assert(trim_end(t) =~= Seq::<char>::empty());
    } else if is_white_space(t[0]) {
        let rest = t.drop_first();
        assert(t =~= seq![t[0]] + rest);
        assert(!all_white_space(rest)) by {
            let i = choose|i: int| 0 <= i < t.len() && !is_white_space(#[trigger] t[i]);
            assert(rest[i - 1] == t[i]);
        }
        lemma_trim_end_append(seq![t[0]], rest);
        assert(all_white_space(seq![t[0]]));
        lemma_trim_start_skips(seq![t[0]], trim_end(rest));
        lemma_trim_start_skips(seq![t[0]], rest);
        lemma_trim_after_trim_end(rest);
    } else {
        let r = trim_end(t);
        assert(r[0] == t[0]);
        assert(trim_start(r) == r);
        lemma_trim_end_prefix(r);
        assert(trim_end(r) == r);
    }
}

/// The characters of a string that is encoded as UTF-8 are read back.
pub proof fn lemma_payload_text_of_encoding(t: Seq<char>)
    ensures
        payload_text(encode_utf8(t)) == Some(t),
{
    encode_utf8_valid_utf8(t);
    encode_utf8_decode_utf8(t);
}

/// The first separator after a separator-free prefix is the one that
/// follows it.
pub proof fn lemma_find_sep_after(a: Seq<char>, sep: char, rest: Seq<char>)
    requires
        !a.contains(sep),
    ensures
        find_sep(a + seq![sep] + rest, sep) == a.len(),
    decreases a.len(),
{
    let t = a + seq![sep] + rest;
    if a.len() > 0 {
        assert(t[0] == a[0]);
        assert(t.drop_first() =~= a.drop_first() + seq![sep] + rest);
        assert(!a.drop_first().contains(sep)) by {
            if a.drop_first().contains(sep) {
                let i = choose|i: int| 0 <= i < a.drop_first().len() && a.drop_first()[i] == sep;
                assert(a[i + 1] == sep);
            }
        }
        lemma_find_sep_after(a.drop_first(), sep, rest);
    } else {
        assert(t[0] == sep);
    }
}

/// A text without the separator is a single piece.
pub proof fn lemma_find_sep_none(a: Seq<char>, sep: char)
    requires
        !a.contains(sep),
    ensures
        find_sep(a, sep) == a.len(),
{
    lemma_find_sep_bounds(a, sep);
}

} // verus!
