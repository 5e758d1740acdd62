//! Shortening a text for excerpts: the cut falls on white space near the
//! wanted length, and always between two characters.

use vstd::prelude::*;
use vstd::utf8::{
    encode_scalar,
    encode_utf8,
    encode_utf8_first_scalar,
    encode_utf8_valid_utf8,
    is_char_boundary,
    pop_first_scalar,
};
use crate::text::{char_is_space, chars_of, is_space, string_of};

verus! {

/// The position of the last white space before position `i`, if there is one.
pub open spec fn last_space_before(s: Seq<char>, i: int) -> Option<int>
    decreases i,
{
    if i <= 0 || i > s.len() {
        None
    } else if is_space(s[i - 1]) {
        Some(i - 1)
    } else {
        last_space_before(s, i - 1)
    }
}

/// The position of the first white space at or after position `i`, if there
/// is one.
pub open spec fn first_space_from(s: Seq<char>, i: int) -> Option<int>
    decreases s.len() - i,
{
    if i < 0 || i >= s.len() {
        None
    } else if is_space(s[i]) {
        Some(i)
    } else {
        first_space_from(s, i + 1)
    }
}

/// How many characters of `s` stay when it is shortened to about `max`
/// characters.
///
/// A text of at most `max` characters stays whole. Otherwise the cut falls
/// at position `max` if white space stands there; else at the nearer of the
/// last white space before `max` and the first one after it, the earlier of
/// the two when they are equally near; and at `max` itself where the text
/// has no white space on either side.
pub open spec fn cut_point(s: Seq<char>, max: int) -> int {
    if s.len() <= max || max < 0 {
        s.len() as int
    } else if is_space(s[max]) {
        max
    } else {
        match (last_space_before(s, max), first_space_from(s, max + 1)) {
            (Some(p), Some(q)) => if max - p <= q - max {
                p
            } else {
                q
            },
            (Some(p), None) => p,
            (None, Some(q)) => q,
            (None, None) => max,
        }
    }
}

/// The text `s` shortened to about `max` characters.
pub open spec fn truncated(s: Seq<char>, max: int) -> Seq<char> {
    s.take(cut_point(s, max))
}

/// What `last_space_before` finds is white space before `i`, and nothing
/// between it and `i` is; where it finds nothing, no white space stands
/// before `i`.
pub proof fn lemma_last_space_before(s: Seq<char>, i: int)
    requires
        0 <= i <= s.len(),
    ensures
        match last_space_before(s, i) {
            Some(p) => 0 <= p < i && is_space(s[p]) && forall|k: int| p < k < i ==> !is_space(s[k]),
            None => forall|k: int| 0 <= k < i ==> !is_space(s[k]),
        },
    decreases i,
{
    if i > 0 && !is_space(s[i - 1]) {
        lemma_last_space_before(s, i - 1);
    }
}

/// What `first_space_from` finds is white space at or after `i`, and nothing
/// between `i` and it is; where it finds nothing, no white space stands at
/// or after `i`.
pub proof fn lemma_first_space_from(s: Seq<char>, i: int)
    requires
        0 <= i <= s.len(),
    ensures
        match first_space_from(s, i) {
            Some(q) => i <= q < s.len() && is_space(s[q]) && forall|k: int| i <= k < q ==> !is_space(s[k]),
            None => forall|k: int| i <= k < s.len() ==> !is_space(s[k]),
        },
    decreases s.len() - i,
{
    if i < s.len() && !is_space(s[i]) {
        lemma_first_space_from(s, i + 1);
    }
}

/// The cut lies inside the text. In a text longer than `max` it falls on
/// white space, unless the text has none on either side of `max`, and no
/// white space lies strictly between the cut and `max`.
pub proof fn lemma_cut_point(s: Seq<char>, max: int)
    requires
        0 <= max,
    ensures
        0 <= cut_point(s, max) <= s.len(),
        s.len() <= max ==> cut_point(s, max) == s.len(),
        s.len() > max ==> {
            let c = cut_point(s, max);
            &&& c < s.len()
            &&& is_space(s[c]) || (c == max && forall|k: int| 0 <= k < s.len() ==> !is_space(s[k]))
            &&& forall|k: int| (c < k <= max || max <= k < c) ==> !is_space(s[k])
        },
{
    if s.len() > max {
        lemma_last_space_before(s, max);
        lemma_first_space_from(s, max + 1);
    }
}

/// The first `k` characters of a text end, in the bytes of the text, where
/// a character ends: their bytes are the first bytes of the text, and what
/// follows them starts a character or is the end.
pub proof fn lemma_prefix_ends_on_boundary(chars: Seq<char>, k: int)
    requires
        0 <= k <= chars.len(),
    ensures
        encode_utf8(chars.take(k)).is_prefix_of(encode_utf8(chars)),
        is_char_boundary(encode_utf8(chars), encode_utf8(chars.take(k)).len() as int),
    decreases k,
{
    let bytes = encode_utf8(chars);
    encode_utf8_valid_utf8(chars);
    if k == 0 {
        assert(chars.take(0) =~= Seq::<char>::empty());
        assert(encode_utf8(chars.take(0)) =~= Seq::<u8>::empty());
    } else {
        let rest = chars.drop_first();
        let head = encode_scalar(chars[0] as u32);
        assert(chars.take(k)[0] == chars[0]);
        assert(chars.take(k).drop_first() =~= rest.take(k - 1));
        assert(encode_utf8(chars.take(k)) == head + encode_utf8(rest.take(k - 1)));
        assert(bytes == head + encode_utf8(rest));
        lemma_prefix_ends_on_boundary(rest, k - 1);
        encode_utf8_first_scalar(chars);
        assert(head.len() >= 1);
        assert(pop_first_scalar(bytes) =~= encode_utf8(rest));
        let short = encode_utf8(rest.take(k - 1));
        assert((head + short).is_prefix_of(head + encode_utf8(rest))) by {
            assert((head + encode_utf8(rest)).subrange(0, (head + short).len() as int) =~= head
                + short);
        }
    }
}

/// Shortens `text` to about `max_len` characters, cutting at white space.
///
/// The result is always a run of whole characters from the start of `text`,
/// and `text` itself when it has at most `max_len` characters. In the bytes
/// of `text` the cut never falls inside a character.
pub fn truncate(text: &str, max_len: usize) -> (r: String)
    ensures
        r@ == truncated(text@, max_len as int),
        r@.is_prefix_of(text@),
        text@.len() <= max_len ==> r@ == text@,
        encode_utf8(r@).is_prefix_of(encode_utf8(text@)),
        is_char_boundary(encode_utf8(text@), encode_utf8(r@).len() as int),
{
    let chars = chars_of(text);
    let n = chars.len();
    proof {
        lemma_cut_point(text@, max_len as int);
        lemma_prefix_ends_on_boundary(text@, cut_point(text@, max_len as int));
    }
    if n <= max_len {
        assert(text@.take(text@.len() as int) == text@);
        return text.to_owned();
    }
    let cut = if char_is_space(chars[max_len]) {
        max_len
    } else {
        let before = find_space_before(&chars, max_len);
        let after = find_space_from(&chars, max_len + 1);
        proof {
            lemma_last_space_before(text@, max_len as int);
            lemma_first_space_from(text@, max_len + 1);
        }
        match (before, after) {
            (Some(p), Some(q)) => if max_len - p <= q - max_len {
                p
            } else {
                q
            },
            (Some(p), None) => p,
            (None, Some(q)) => q,
            (None, None) => max_len,
        }
    };
    string_of(&chars, 0, cut)
}

fn find_space_before(chars: &Vec<char>, i: usize) -> (r: Option<usize>)
    requires
        i <= chars.len(),
    ensures
        match r {
            Some(p) => last_space_before(chars@, i as int) == Some(p as int),
            None => last_space_before(chars@, i as int) is None,
        },
{
    let mut k: usize = i;
    while k > 0
        invariant
            k <= i <= chars.len(),
            last_space_before(chars@, i as int) == last_space_before(chars@, k as int),
        decreases k,
    {
        if char_is_space(chars[k - 1]) {
            return Some(k - 1);
        }
        k -= 1;
    }
    None
}

fn find_space_from(chars: &Vec<char>, i: usize) -> (r: Option<usize>)
    requires
        i <= chars.len(),
    ensures
        match r {
            Some(q) => first_space_from(chars@, i as int) == Some(q as int),
            None => first_space_from(chars@, i as int) is None,
        },
{
    let mut k: usize = i;
    while k < chars.len()
        invariant
            i <= k <= chars.len(),
            first_space_from(chars@, i as int) == first_space_from(chars@, k as int),
        decreases chars.len() - k,
    {
        if char_is_space(chars[k]) {
            return Some(k);
        }
        k += 1;
    }
    None
}

} // verus!
