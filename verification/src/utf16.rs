use std::ops::Range;

use vstd::prelude::*;
use vstd::utf8::{char_is_scalar, encode_scalar, encode_utf8};

use crate::page::{byte_len, utf8_len};

verus! {

/// UTF-16 code units of one character.
pub open spec fn utf16_width(c: char) -> int {
    if (c as u32) >= 0x10000 {
        2
    } else {
        1
    }
}

/// UTF-8 bytes of one character.
pub open spec fn utf8_width(c: char) -> int {
    encode_scalar(c as u32).len() as int
}

/// UTF-16 code units of the first `k` characters.
pub open spec fn utf16_prefix(s: Seq<char>, k: int) -> int
    decreases k,
{
    if k <= 0 {
        0
    } else {
        utf16_prefix(s, k - 1) + utf16_width(s[k - 1])
    }
}

/// UTF-8 bytes of the first `k` characters.
pub open spec fn utf8_prefix(s: Seq<char>, k: int) -> int
    decreases k,
{
    if k <= 0 {
        0
    } else {
        utf8_prefix(s, k - 1) + utf8_width(s[k - 1])
    }
}

/// The character count at which `s` reaches exactly `target` UTF-16 code units, if any.
pub open spec fn utf16_boundary(s: Seq<char>, target: int) -> Option<int> {
    if exists|k: int| 0 <= k <= s.len() && #[trigger] utf16_prefix(s, k) == target {
        Some(choose|k: int| 0 <= k <= s.len() && #[trigger] utf16_prefix(s, k) == target)
    } else {
        None
    }
}

/// The UTF-8 byte offset of UTF-16 offset `target` in `s`, if `target` falls on a
/// character boundary.
pub open spec fn utf16_to_utf8(s: Seq<char>, target: int) -> Option<int> {
    match utf16_boundary(s, target) {
        Some(k) => Some(utf8_prefix(s, k)),
        None => None,
    }
}

/// The character count at which `s` reaches exactly `target` UTF-8 bytes, if any.
pub open spec fn utf8_boundary(s: Seq<char>, target: int) -> Option<int> {
    if exists|k: int| 0 <= k <= s.len() && #[trigger] utf8_prefix(s, k) == target {
        Some(choose|k: int| 0 <= k <= s.len() && #[trigger] utf8_prefix(s, k) == target)
    } else {
        None
    }
}

/// The UTF-16 offset of UTF-8 byte offset `target` in `s`, if `target` falls on a character
/// boundary.
pub open spec fn utf8_to_utf16(s: Seq<char>, target: int) -> Option<int> {
    match utf8_boundary(s, target) {
        Some(k) => Some(utf16_prefix(s, k)),
        None => None,
    }
}

/// Returns the UTF-16 code units of one character.
pub fn char_utf16_width(c: char) -> (r: usize)
    ensures
        r == utf16_width(c),
{
    if (c as u32) >= 0x10000 {
        2
    } else {
        1
    }
}

/// Returns the UTF-8 bytes of one character.
pub fn char_utf8_width(c: char) -> (r: usize)
    ensures
        r == utf8_width(c),
        1 <= r <= 4,
{
    proof {
        char_is_scalar(c);
    }
    let v = c as u32;
    if v < 0x80 {
        1
    } else if v < 0x800 {
        2
    } else if v < 0x10000 {
        3
    } else {
        4
    }
}

/// Widths of characters are positive and bounded.
pub(crate) proof fn lemma_widths(c: char)
    ensures
        1 <= utf16_width(c) <= 2,
        1 <= utf8_width(c) <= 4,
        utf16_width(c) <= utf8_width(c),
{
    char_is_scalar(c);
}

/// UTF-16 prefixes grow strictly with the character count.
pub(crate) proof fn lemma_utf16_prefix_increasing(s: Seq<char>, j: int, k: int)
    requires
        0 <= j <= k <= s.len(),
    ensures
        utf16_prefix(s, j) + (k - j) <= utf16_prefix(s, k),
        utf16_prefix(s, j) >= 0,
    decreases k,
{
    if j < k {
        lemma_utf16_prefix_increasing(s, j, k - 1);
        lemma_widths(s[k - 1]);
    } else if k > 0 {
        lemma_utf16_prefix_increasing(s, k - 1, k - 1);
        lemma_widths(s[k - 1]);
    }
}

/// UTF-8 prefixes grow strictly with the character count.
pub(crate) proof fn lemma_utf8_prefix_increasing(s: Seq<char>, j: int, k: int)
    requires
        0 <= j <= k <= s.len(),
    ensures
        utf8_prefix(s, j) + (k - j) <= utf8_prefix(s, k),
        utf8_prefix(s, j) >= 0,
    decreases k,
{
    if j < k {
        lemma_utf8_prefix_increasing(s, j, k - 1);
        lemma_widths(s[k - 1]);
    } else if k > 0 {
        lemma_utf8_prefix_increasing(s, k - 1, k - 1);
        lemma_widths(s[k - 1]);
    }
}

/// A UTF-16 offset names at most one character boundary.
pub(crate) proof fn lemma_utf16_boundary_unique(s: Seq<char>, j: int, k: int)
    requires
        0 <= j <= s.len(),
        0 <= k <= s.len(),
        utf16_prefix(s, j) == utf16_prefix(s, k),
    ensures
        j == k,
{
    if j < k {
        lemma_utf16_prefix_increasing(s, j, k);
    } else if k < j {
        lemma_utf16_prefix_increasing(s, k, j);
    }
}

/// A UTF-8 offset names at most one character boundary.
pub(crate) proof fn lemma_utf8_boundary_unique(s: Seq<char>, j: int, k: int)
    requires
        0 <= j <= s.len(),
        0 <= k <= s.len(),
        utf8_prefix(s, j) == utf8_prefix(s, k),
    ensures
        j == k,
{
    if j < k {
        lemma_utf8_prefix_increasing(s, j, k);
    } else if k < j {
        lemma_utf8_prefix_increasing(s, k, j);
    }
}

/// UTF-8 encoding distributes over concatenation.
pub(crate) proof fn lemma_encode_concat(a: Seq<char>, b: Seq<char>)
    ensures
        encode_utf8(a + b) == encode_utf8(a) + encode_utf8(b),
    decreases a.len(),
{
    if a.len() == 0 {
        assert(a + b =~= b);
        assert(encode_utf8(a) =~= Seq::<u8>::empty());
        assert(encode_utf8(a) + encode_utf8(b) =~= encode_utf8(b));
    } else {
        assert((a + b).drop_first() =~= a.drop_first() + b);
        assert((a + b)[0] == a[0]);
        lemma_encode_concat(a.drop_first(), b);
        assert(encode_utf8(a) + encode_utf8(b) =~= encode_scalar(a[0] as u32) + (encode_utf8(
            a.drop_first(),
        ) + encode_utf8(b)));
    }
}

/// The UTF-8 prefix of `k` characters is the length of their encoding.
pub(crate) proof fn lemma_utf8_prefix_encodes(s: Seq<char>, k: int)
    requires
        0 <= k <= s.len(),
    ensures
        utf8_prefix(s, k) == encode_utf8(s.take(k)).len(),
    decreases k,
{
    if k == 0 {
        assert(s.take(0) =~= Seq::<char>::empty());
    } else {
        lemma_utf8_prefix_encodes(s, k - 1);
        assert(s.take(k) =~= s.take(k - 1) + seq![s[k - 1]]);
        lemma_encode_concat(s.take(k - 1), seq![s[k - 1]]);
        assert(seq![s[k - 1]].drop_first() =~= Seq::<char>::empty());
        assert(encode_utf8(seq![s[k - 1]]) =~= encode_scalar(s[k - 1] as u32) + encode_utf8(
            Seq::<char>::empty(),
        ));
    }
}

/// The UTF-8 prefix of a whole text is its byte length.
pub(crate) proof fn lemma_utf8_prefix_total(s: Seq<char>)
    ensures
        utf8_prefix(s, s.len() as int) == utf8_len(s),
{
    lemma_utf8_prefix_encodes(s, s.len() as int);
    assert(s.take(s.len() as int) =~= s);
}

/// Prefixes of a text followed by more text: the first `|t|` characters are `t`, and the
/// `k` characters after them are the first `k` of `s`.
pub(crate) proof fn lemma_prefix_concat(t: Seq<char>, s: Seq<char>, k: int)
    requires
        0 <= k <= s.len(),
    ensures
        utf16_prefix(t + s, t.len() + k) == utf16_prefix(t, t.len() as int) + utf16_prefix(s, k),
        utf8_prefix(t + s, t.len() + k) == utf8_prefix(t, t.len() as int) + utf8_prefix(s, k),
    decreases k,
{
    if k == 0 {
        lemma_prefix_of_extension(t, s, t.len() as int);
    } else {
        lemma_prefix_concat(t, s, k - 1);
        assert((t + s)[t.len() + k - 1] == s[k - 1]);
    }
}

/// The first `k` characters of `t` followed by more text are those of `t`.
pub(crate) proof fn lemma_prefix_of_extension(t: Seq<char>, s: Seq<char>, k: int)
    requires
        0 <= k <= t.len(),
    ensures
        utf16_prefix(t + s, k) == utf16_prefix(t, k),
        utf8_prefix(t + s, k) == utf8_prefix(t, k),
    decreases k,
{
    if k > 0 {
        lemma_prefix_of_extension(t, s, k - 1);
        assert((t + s)[k - 1] == t[k - 1]);
    }
}

/// Returns the UTF-8 byte offset of UTF-16 offset `target` in `text`, or `None` when
/// `target` splits a character or lies beyond the text.
pub fn utf16_byte_offset(text: &str, target: usize) -> (r: Option<usize>)
    ensures
        match utf16_to_utf8(text@, target as int) {
            Some(b) => 0 <= b <= utf8_len(text@) && r == Some(b as usize),
            None => r is None,
        },
{
    let ghost s = text@;
    let total = byte_len(text);
    proof {
        lemma_utf8_prefix_total(s);
    }
    let mut utf16: usize = 0;
    let mut byte: usize = 0;
    for ch in it: text.chars()
        invariant
            it.seq() == s,
            s == text@,
            total == utf8_len(s),
            utf8_prefix(s, s.len() as int) == utf8_len(s),
            0 <= it.index() <= s.len(),
            utf16 == utf16_prefix(s, it.index() as int),
            byte == utf8_prefix(s, it.index() as int),
            utf16 <= target,
            forall|k: int| 0 <= k < it.index() ==> #[trigger] utf16_prefix(s, k) != target,
    {
        let ghost k = it.index() as int;
        proof {
            lemma_utf8_prefix_increasing(s, k + 1, s.len() as int);
            lemma_utf8_prefix_increasing(s, k, k + 1);
            lemma_utf16_prefix_increasing(s, k, k + 1);
        }
        if utf16 == target {
            proof {
                lemma_utf16_boundary_unique(s, k, choose|j: int| 0 <= j <= s.len() && #[trigger] utf16_prefix(s, j) == target as int);
            }
            return Some(byte);
        }
        let width16 = char_utf16_width(ch);
        let width8 = char_utf8_width(ch);
        byte = byte + width8;
        if width16 > target - utf16 {
            proof {
                assert forall|j: int| 0 <= j <= s.len() implies #[trigger] utf16_prefix(s, j) != target by {
                    if j > k {
                        lemma_utf16_prefix_increasing(s, k + 1, j);
                    }
                }
            }
            return None;
        }
        utf16 = utf16 + width16;
    }
    proof {
        lemma_utf16_prefix_increasing(s, s.len() as int, s.len() as int);
    }
    if utf16 == target {
        proof {
            lemma_utf16_boundary_unique(s, s.len() as int, choose|j: int| 0 <= j <= s.len() && #[trigger] utf16_prefix(s, j) == target as int);
        }
        Some(byte)
    } else {
        None
    }
}

/// Returns the UTF-16 offset of UTF-8 byte offset `target` in `text`, or `None` when
/// `target` splits a character or lies beyond the text.
pub fn utf8_to_utf16_offset(text: &str, target: usize) -> (r: Option<usize>)
    ensures
        match utf8_to_utf16(text@, target as int) {
            Some(u) => 0 <= u <= target && r == Some(u as usize),
            None => r is None,
        },
{
    let ghost s = text@;
    let mut utf16: usize = 0;
    let mut byte: usize = 0;
    for ch in it: text.chars()
        invariant
            it.seq() == s,
            s == text@,
            0 <= it.index() <= s.len(),
            utf16 == utf16_prefix(s, it.index() as int),
            byte == utf8_prefix(s, it.index() as int),
            utf16 <= byte <= target,
            forall|k: int| 0 <= k < it.index() ==> #[trigger] utf8_prefix(s, k) != target,
    {
        let ghost k = it.index() as int;
        proof {
            lemma_utf8_prefix_increasing(s, k, k + 1);
            lemma_widths(s[k]);
        }
        if byte == target {
            proof {
                lemma_utf8_boundary_unique(
                    s,
                    k,
                    choose|j: int| 0 <= j <= s.len() && #[trigger] utf8_prefix(s, j) == target as int,
                );
            }
            return Some(utf16);
        }
        let width8 = char_utf8_width(ch);
        if width8 > target - byte {
            proof {
                assert forall|j: int| 0 <= j <= s.len() implies #[trigger] utf8_prefix(s, j)
                    != target by {
                    if j > k {
                        lemma_utf8_prefix_increasing(s, k + 1, j);
                    }
                }
            }
            return None;
        }
        utf16 = utf16 + char_utf16_width(ch);
        byte = byte + width8;
    }
    if byte == target {
        proof {
            lemma_utf8_boundary_unique(
                s,
                s.len() as int,
                choose|j: int| 0 <= j <= s.len() && #[trigger] utf8_prefix(s, j) == target as int,
            );
        }
        Some(utf16)
    } else {
        None
    }
}

/// Converts a UTF-16 range of `text` to its UTF-8 byte range, or `None` when either end
/// splits a character or lies beyond the text.
pub fn utf16_range_in_text(text: &str, range: Range<usize>) -> (r: Option<Range<usize>>)
    ensures
        match (utf16_to_utf8(text@, range.start as int), utf16_to_utf8(text@, range.end as int)) {
            (Some(b0), Some(b1)) => {
                &&& r == Some(Range { start: b0 as usize, end: b1 as usize })
                &&& 0 <= b0 <= utf8_len(text@)
                &&& 0 <= b1 <= utf8_len(text@)
            },
            _ => r is None,
        },
{
    let first = match utf16_byte_offset(text, range.start) {
        Some(value) => value,
        None => {
            return None;
        },
    };
    let last = match utf16_byte_offset(text, range.end) {
        Some(value) => value,
        None => {
            return None;
        },
    };
    Some(Range { start: first, end: last })
}

} // verus!
