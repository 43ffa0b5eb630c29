use vstd::prelude::*;

use std::ops::Range;

use crate::coordinates::{ByteOffset, ByteRange};
use crate::page::{byte_len, utf8_len, RangePage};
use crate::replay::{landing, lemma_found, offset16};
use crate::utf16::{
    char_utf16_width, char_utf8_width, lemma_encode_concat, lemma_prefix_concat,
    lemma_prefix_of_extension, lemma_utf16_boundary_unique, lemma_utf16_prefix_increasing,
    lemma_utf8_boundary_unique,
    lemma_utf8_prefix_increasing, lemma_utf8_prefix_total, lemma_widths, utf16_prefix,
    utf16_to_utf8, utf8_prefix, utf8_to_utf16, utf8_to_utf16_offset,
};

verus! {

/// Where a page starting at `key` goes among the pages listed in `order`, scanning from
/// position `p`: before the first page that starts later.
pub open spec fn insertion_point(
    order: Seq<usize>,
    pages: Seq<RangePage>,
    key: u64,
    p: int,
) -> int
    decreases order.len() - p,
{
    if p < 0 || p >= order.len() {
        order.len() as int
    } else if pages[order[p] as int].byte_range().lo() > key {
        p
    } else {
        insertion_point(order, pages, key, p + 1)
    }
}

/// The first `n` pages listed by start offset; pages with equal starts keep their given order.
pub open spec fn start_order(pages: Seq<RangePage>, n: int) -> Seq<usize>
    decreases n,
{
    if n <= 0 {
        Seq::empty()
    } else {
        let order = start_order(pages, n - 1);
        order.insert(
            insertion_point(order, pages, pages[n - 1].byte_range().lo(), 0),
            (n - 1) as usize,
        )
    }
}

proof fn lemma_insertion_point_bounds(order: Seq<usize>, pages: Seq<RangePage>, key: u64, p: int)
    requires
        0 <= p <= order.len(),
    ensures
        p <= insertion_point(order, pages, key, p) <= order.len(),
    decreases order.len() - p,
{
    if p < order.len() && pages[order[p] as int].byte_range().lo() <= key {
        lemma_insertion_point_bounds(order, pages, key, p + 1);
    }
}

proof fn lemma_start_order_len(pages: Seq<RangePage>, n: int)
    requires
        0 <= n,
    ensures
        start_order(pages, n).len() == n,
        forall|i: int| 0 <= i < n ==> #[trigger] start_order(pages, n)[i] < n,
    decreases n,
{
    if n > 0 {
        let order = start_order(pages, n - 1);
        lemma_start_order_len(pages, n - 1);
        lemma_insertion_point_bounds(order, pages, pages[n - 1].byte_range().lo(), 0);
    }
}

/// Lists the pages by start offset, equal starts in their given order.
pub fn order_by_start(pages: &[RangePage]) -> (r: Vec<usize>)
    ensures
        r@ == start_order(pages@, pages@.len() as int),
{
    let mut order: Vec<usize> = Vec::new();
    let mut n: usize = 0;
    while n < pages.len()
        invariant
            0 <= n <= pages@.len(),
            order@ == start_order(pages@, n as int),
        decreases pages@.len() - n,
    {
        proof {
            lemma_start_order_len(pages@, n as int);
        }
        let key = pages[n].range().start().get();
        let mut p: usize = 0;
        while p < order.len() && pages[order[p]].range().start().get() <= key
            invariant
                0 <= p <= order@.len(),
                order@ == start_order(pages@, n as int),
                order@.len() == n,
                n < pages@.len(),
                forall|i: int| 0 <= i < n ==> #[trigger] order@[i] < n,
                key == pages@[n as int].byte_range().lo(),
                insertion_point(order@, pages@, key, p as int) == insertion_point(
                    order@,
                    pages@,
                    key,
                    0,
                ),
            decreases order@.len() - p,
        {
            p = p + 1;
        }
        order.insert(p, n);
        n = n + 1;
    }
    order
}

/// Walks the pages listed in `order` from position `i` along the contiguous chain that starts
/// at byte `cursor`, counting UTF-16 units (`utf16` so far) up to byte `offset`; `None` when the
/// chain does not reach `offset`, `offset` splits a character, or the count leaves `usize`.
pub open spec fn offset_walk(
    pages: Seq<RangePage>,
    order: Seq<usize>,
    offset: u64,
    i: int,
    cursor: u64,
    utf16: int,
) -> Option<int>
    decreases order.len() - i,
{
    if i < 0 || i >= order.len() {
        None
    } else {
        let page = pages[order[i] as int];
        if page.byte_range().lo() != cursor {
            offset_walk(pages, order, offset, i + 1, cursor, utf16)
        } else {
            let end = if page.byte_range().hi() < offset {
                page.byte_range().hi()
            } else {
                offset
            };
            let local = end - page.byte_range().lo();
            if local > usize::MAX {
                None
            } else {
                match utf8_to_utf16(page.text_chars(), local) {
                    None => None,
                    Some(units) => if utf16 + units > usize::MAX {
                        None
                    } else if end == offset {
                        Some(utf16 + units)
                    } else {
                        offset_walk(pages, order, offset, i + 1, end, utf16 + units)
                    },
                }
            }
        }
    }
}

/// The UTF-16 offset of byte `offset` in the text that resident pages hold contiguously from
/// the document start.
pub open spec fn resident_offset(pages: Seq<RangePage>, offset: u64) -> Option<int> {
    if offset == 0 {
        Some(0)
    } else {
        offset_walk(pages, start_order(pages, pages.len() as int), offset, 0, 0, 0)
    }
}

/// Returns the UTF-16 offset of byte `offset` in the text that `pages` hold contiguously from
/// the document start, following the pages by start offset; `None` when the pages do not
/// reach `offset` from the start or `offset` splits a character.
pub fn resident_utf16_offset(pages: &[RangePage], offset: ByteOffset) -> (r: Option<usize>)
    ensures
        match resident_offset(pages@, offset.value()) {
            Some(units) => r == Some(units as usize),
            None => r is None,
        },
{
    let target = offset.get();
    if target == 0 {
        return Some(0);
    }
    let order = order_by_start(pages);
    proof {
        lemma_start_order_len(pages@, pages@.len() as int);
    }
    let mut cursor: u64 = 0;
    let mut utf16: usize = 0;
    let mut i: usize = 0;
    while i < order.len()
        invariant
            order@ == start_order(pages@, pages@.len() as int),
            order@.len() == pages@.len(),
            forall|j: int| 0 <= j < order@.len() ==> #[trigger] order@[j] < pages@.len(),
            0 <= i <= order@.len(),
            cursor < target,
            target == offset.value(),
            target != 0,
            offset_walk(pages@, order@, target, i as int, cursor, utf16 as int) == offset_walk(
                pages@,
                order@,
                target,
                0,
                0,
                0,
            ),
        decreases order@.len() - i,
    {
        let page = &pages[order[i]];
        let range = page.range();
        let start = range.start().get();
        if start == cursor {
            let page_end = range.end().get();
            let end = if page_end < target {
                page_end
            } else {
                target
            };
            let local = end - start;
            if local > usize::MAX as u64 {
                return None;
            }
            let units = match utf8_to_utf16_offset(page.text(), local as usize) {
                Some(value) => value,
                None => {
                    return None;
                },
            };
            if utf16 > usize::MAX - units {
                return None;
            }
            utf16 = utf16 + units;
            cursor = end;
            if cursor == target {
                return Some(utf16);
            }
        }
        i = i + 1;
    }
    None
}

/// Scans one page from UTF-16 offset `c0` and records where the range ends `first` and `last`
/// land on it; returns the UTF-16 offset after the page with the two landings, or `None` when
/// that offset leaves `usize`.
fn scan_page(
    page: &RangePage,
    c0: usize,
    first: usize,
    last: usize,
    start: Option<ByteOffset>,
    end: Option<ByteOffset>,
) -> (r: Option<(usize, Option<ByteOffset>, Option<ByteOffset>)>)
    ensures
        match r {
            Some((after, found_start, found_end)) => {
                &&& after == offset16(c0 as int, page.text_chars(), page.text_chars().len() as int)
                &&& found_start == landing(*page, c0 as int, first as int, start)
                &&& found_end == landing(*page, c0 as int, last as int, end)
            },
            None => offset16(c0 as int, page.text_chars(), page.text_chars().len() as int)
                > usize::MAX,
        },
{
    let ghost s = page.text_chars();
    let range = page.range();
    let page_start = range.start().get();
    let text = page.text();
    proof {
        use_type_invariant(page);
        lemma_utf8_prefix_total(s);
    }
    let total = byte_len(text);
    let mut utf16 = c0;
    let mut local: usize = 0;
    let mut found_start = start;
    let mut found_end = end;
    for ch in it: text.chars()
        invariant
            it.seq() == s,
            s == page.text_chars(),
            text@ == s,
            range == page.byte_range(),
            page_start == range.lo(),
            page.valid(),
            total == utf8_len(s),
            utf8_prefix(s, s.len() as int) == utf8_len(s),
            utf8_len(s) == range.hi() - range.lo(),
            0 <= it.index() <= s.len(),
            utf16 == offset16(c0 as int, s, it.index() as int),
            local == utf8_prefix(s, it.index() as int),
            (forall|k: int| 0 <= k < it.index() ==> #[trigger] offset16(c0 as int, s, k)
                != first) ==> found_start == start,
            forall|k: int|
                0 <= k < it.index() && #[trigger] offset16(c0 as int, s, k) == first
                    ==> found_start == Some(page.char_offset(k)),
            (forall|k: int| 0 <= k < it.index() ==> #[trigger] offset16(c0 as int, s, k)
                != last) ==> found_end == end,
            forall|k: int|
                0 <= k < it.index() && #[trigger] offset16(c0 as int, s, k) == last
                    ==> found_end == Some(page.char_offset(k)),
    {
        let ghost m = it.index() as int;
        proof {
            assert(s[m] == ch);
            lemma_utf8_prefix_increasing(s, m + 1, s.len() as int);
            lemma_widths(ch);
            assert forall|k: int| 0 <= k < m implies #[trigger] offset16(c0 as int, s, k)
                < offset16(c0 as int, s, m) by {
                lemma_utf16_prefix_increasing(s, k, m);
            }
        }
        let global = ByteOffset::new(page_start + local as u64);
        proof {
            assert(page.char_offset(m) == global);
        }
        if utf16 == first {
            found_start = Some(global);
        }
        if utf16 == last {
            found_end = Some(global);
        }
        let width16 = char_utf16_width(ch);
        if utf16 > usize::MAX - width16 {
            proof {
                lemma_utf16_prefix_increasing(s, m + 1, s.len() as int);
            }
            return None;
        }
        utf16 = utf16 + width16;
        local = local + char_utf8_width(ch);
    }
    proof {
        lemma_utf16_prefix_increasing(s, s.len() as int, s.len() as int);
        assert forall|k: int| 0 <= k < s.len() implies #[trigger] offset16(c0 as int, s, k)
            < offset16(c0 as int, s, s.len() as int) by {
            lemma_utf16_prefix_increasing(s, k, s.len() as int);
        }
    }
    let page_end = range.end();
    if utf16 == first {
        found_start = Some(page_end);
    }
    if utf16 == last {
        found_end = Some(page_end);
    }
    proof {
        lemma_found(*page, c0 as int, first as int, start, found_start);
        lemma_found(*page, c0 as int, last as int, end, found_end);
    }
    Some((utf16, found_start, found_end))
}

/// Walks every page listed in `order` from position `i` with UTF-16 offset `c0`, recording where
/// `first` and `last` land, until both have landed; `None` when the running UTF-16 offset leaves
/// `usize`.
pub open spec fn range_walk(
    pages: Seq<RangePage>,
    order: Seq<usize>,
    first: int,
    last: int,
    i: int,
    c0: int,
    start: Option<ByteOffset>,
    end: Option<ByteOffset>,
) -> Option<(Option<ByteOffset>, Option<ByteOffset>)>
    decreases order.len() - i,
{
    if i < 0 || i >= order.len() {
        Some((start, end))
    } else {
        let page = pages[order[i] as int];
        let s = page.text_chars();
        let next = offset16(c0, s, s.len() as int);
        if next > usize::MAX {
            None
        } else {
            let start_after = landing(page, c0, first, start);
            let end_after = landing(page, c0, last, end);
            if start_after is Some && end_after is Some {
                Some((start_after, end_after))
            } else {
                range_walk(pages, order, first, last, i + 1, next, start_after, end_after)
            }
        }
    }
}

/// The byte range of the UTF-16 range `range` of the text the resident pages hold, counted
/// over the pages in start order.
pub open(crate) spec fn resident_range(pages: Seq<RangePage>, range: Range<usize>) -> Option<
    ByteRange,
> {
    match range_walk(
        pages,
        start_order(pages, pages.len() as int),
        range.start as int,
        range.end as int,
        0,
        0,
        None,
        None,
    ) {
        Some((Some(first), Some(last))) => if first.value() <= last.value() {
            Some(ByteRange { start: first, end: last })
        } else {
            None
        },
        _ => None,
    }
}

/// Returns the byte range of the UTF-16 range `range`, counting UTF-16 units over `pages` in
/// start order; `None` when an end is not reached, the count leaves `usize`, or the ends are
/// reversed.
pub fn resident_byte_range(pages: &[RangePage], range: Range<usize>) -> (r: Option<ByteRange>)
    ensures
        r == resident_range(pages@, range),
{
    let order = order_by_start(pages);
    proof {
        lemma_start_order_len(pages@, pages@.len() as int);
    }
    let ghost whole = range_walk(
        pages@,
        order@,
        range.start as int,
        range.end as int,
        0,
        0,
        None,
        None,
    );
    let mut utf16: usize = 0;
    let mut start: Option<ByteOffset> = None;
    let mut end: Option<ByteOffset> = None;
    let mut i: usize = 0;
    while i < order.len()
        invariant
            order@ == start_order(pages@, pages@.len() as int),
            order@.len() == pages@.len(),
            forall|j: int| 0 <= j < order@.len() ==> #[trigger] order@[j] < pages@.len(),
            0 <= i <= order@.len(),
            range_walk(
                pages@,
                order@,
                range.start as int,
                range.end as int,
                i as int,
                utf16 as int,
                start,
                end,
            ) == whole,
            whole == range_walk(
                pages@,
                order@,
                range.start as int,
                range.end as int,
                0,
                0,
                None,
                None,
            ),
        decreases order@.len() - i,
    {
        let page = &pages[order[i]];
        match scan_page(page, utf16, range.start, range.end, start, end) {
            None => {
                return None;
            },
            Some((next, found_start, found_end)) => {
                utf16 = next;
                start = found_start;
                end = found_end;
            },
        }
        if start.is_some() && end.is_some() {
            return checked_range(start, end);
        }
        i = i + 1;
    }
    checked_range(start, end)
}

/// The byte range between two landed ends, or `None` when an end did not land or the ends
/// are reversed.
fn checked_range(start: Option<ByteOffset>, end: Option<ByteOffset>) -> (r: Option<ByteRange>)
    ensures
        r == match (start, end) {
            (Some(first), Some(last)) => if first.value() <= last.value() {
                Some(ByteRange { start: first, end: last })
            } else {
                None
            },
            _ => None,
        },
{
    let first = match start {
        Some(value) => value,
        None => {
            return None;
        },
    };
    let last = match end {
        Some(value) => value,
        None => {
            return None;
        },
    };
    match ByteRange::new(first, last) {
        Ok(found) => Some(found),
        Err(_) => None,
    }
}

/// The texts of the first `n` pages, one after another.
pub open spec fn joined_text(pages: Seq<RangePage>, n: int) -> Seq<char>
    decreases n,
{
    if n <= 0 {
        Seq::empty()
    } else {
        joined_text(pages, n - 1) + pages[n - 1].text_chars()
    }
}

/// The pages follow one another without gaps from the document start, in the given order.
pub open spec fn contiguous_from_start(pages: Seq<RangePage>) -> bool {
    &&& pages.len() > 0 ==> pages[0].byte_range().lo() == 0
    &&& forall|i: int|
        0 < i < pages.len() ==> #[trigger] pages[i].byte_range().lo() == pages[i
            - 1].byte_range().hi()
}

/// Every page is a validated page.
pub open spec fn all_valid(pages: Seq<RangePage>) -> bool {
    forall|i: int| 0 <= i < pages.len() ==> #[trigger] pages[i].valid()
}

/// The identity listing of `n` pages.
pub open spec fn in_given_order(n: int) -> Seq<usize> {
    Seq::new(n as nat, |i: int| i as usize)
}

proof fn lemma_insertion_at_end(order: Seq<usize>, pages: Seq<RangePage>, key: u64, p: int)
    requires
        0 <= p <= order.len(),
        forall|j: int| 0 <= j < order.len() ==> order[j] < pages.len(),
        forall|j: int|
            p <= j < order.len() ==> #[trigger] pages[order[j] as int].byte_range().lo() <= key,
    ensures
        insertion_point(order, pages, key, p) == order.len(),
    decreases order.len() - p,
{
    if p < order.len() {
        lemma_insertion_at_end(order, pages, key, p + 1);
    }
}

/// Pages whose starts never decrease are listed in their given order.
proof fn lemma_sorted_order_is_given(pages: Seq<RangePage>, n: int)
    requires
        0 <= n <= pages.len(),
        n <= usize::MAX,
        forall|i: int, j: int|
            0 <= i <= j < pages.len() ==> #[trigger] pages[i].byte_range().lo()
                <= #[trigger] pages[j].byte_range().lo(),
    ensures
        start_order(pages, n) == in_given_order(n),
    decreases n,
{
    if n > 0 {
        lemma_sorted_order_is_given(pages, n - 1);
        let order = start_order(pages, n - 1);
        let key = pages[n - 1].byte_range().lo();
        assert forall|j: int| 0 <= j < order.len() implies #[trigger] pages[order[j] as int].byte_range().lo()
            <= key by {
            assert(order[j] == j as usize);
        }
        lemma_insertion_at_end(order, pages, key, 0);
        assert(order.insert(order.len() as int, (n - 1) as usize) =~= in_given_order(n));
    }
}

/// The byte offset the first `n` pages reach: the end of page `n - 1`, or the document start.
pub open spec fn reach(pages: Seq<RangePage>, n: int) -> int {
    if n <= 0 {
        0
    } else {
        pages[n - 1].byte_range().hi() as int
    }
}

proof fn lemma_joined_reach(pages: Seq<RangePage>, n: int)
    requires
        0 <= n <= pages.len(),
        all_valid(pages),
        contiguous_from_start(pages),
    ensures
        utf8_len(joined_text(pages, n)) == reach(pages, n),
    decreases n,
{
    if n > 0 {
        lemma_joined_reach(pages, n - 1);
        lemma_encode_concat(joined_text(pages, n - 1), pages[n - 1].text_chars());
        assert(pages[n - 1].valid());
    }
}

proof fn lemma_starts_nondecreasing(pages: Seq<RangePage>)
    requires
        all_valid(pages),
        contiguous_from_start(pages),
    ensures
        forall|i: int, j: int|
            0 <= i <= j < pages.len() ==> #[trigger] pages[i].byte_range().lo()
                <= #[trigger] pages[j].byte_range().lo(),
{
    assert forall|i: int, j: int|
        0 <= i <= j < pages.len() implies #[trigger] pages[i].byte_range().lo()
        <= #[trigger] pages[j].byte_range().lo() by {
        lemma_start_below(pages, i, j);
    }
}

proof fn lemma_start_below(pages: Seq<RangePage>, i: int, j: int)
    requires
        0 <= i <= j < pages.len(),
        all_valid(pages),
        contiguous_from_start(pages),
    ensures
        pages[i].byte_range().lo() <= pages[j].byte_range().lo(),
    decreases j - i,
{
    if i < j {
        lemma_start_below(pages, i, j - 1);
        assert(pages[j - 1].valid());
        assert(pages[j].byte_range().lo() == pages[j - 1].byte_range().hi());
    }
}

proof fn lemma_joined_prefix(pages: Seq<RangePage>, m: int, n: int)
    requires
        0 <= m <= n <= pages.len(),
    ensures
        joined_text(pages, m).len() <= joined_text(pages, n).len(),
        joined_text(pages, n) =~= joined_text(pages, m) + joined_text(pages, n).subrange(
            joined_text(pages, m).len() as int,
            joined_text(pages, n).len() as int,
        ),
    decreases n,
{
    if m < n {
        lemma_joined_prefix(pages, m, n - 1);
    }
}

proof fn lemma_utf16_below_utf8(s: Seq<char>, k: int)
    requires
        0 <= k <= s.len(),
    ensures
        0 <= utf16_prefix(s, k) <= utf8_prefix(s, k),
    decreases k,
{
    if k > 0 {
        lemma_utf16_below_utf8(s, k - 1);
        lemma_widths(s[k - 1]);
    }
}

/// The UTF-16 and UTF-8 prefixes of the whole text at the boundary of page `i`'s character
/// `k` are those of the text before the page plus those of the page's first `k` characters.
proof fn lemma_page_prefix(pages: Seq<RangePage>, i: int, k: int)
    requires
        0 <= i < pages.len(),
        0 <= k <= pages[i].text_chars().len(),
    ensures
        utf8_prefix(joined_text(pages, pages.len() as int), joined_text(pages, i).len() + k)
            == utf8_prefix(joined_text(pages, i), joined_text(pages, i).len() as int)
            + utf8_prefix(pages[i].text_chars(), k),
        utf16_prefix(joined_text(pages, pages.len() as int), joined_text(pages, i).len() + k)
            == utf16_prefix(joined_text(pages, i), joined_text(pages, i).len() as int)
            + utf16_prefix(pages[i].text_chars(), k),
{
    let whole = joined_text(pages, pages.len() as int);
    let upto = joined_text(pages, i + 1);
    lemma_joined_prefix(pages, i + 1, pages.len() as int);
    lemma_prefix_of_extension(
        upto,
        whole.subrange(upto.len() as int, whole.len() as int),
        joined_text(pages, i).len() + k,
    );
    lemma_prefix_concat(joined_text(pages, i), pages[i].text_chars(), k);
}

/// The offset walk over pages that follow one another from the document start finds the
/// UTF-16 offset that translating their joined text gives.
proof fn lemma_offset_walk(pages: Seq<RangePage>, offset: u64, i: int)
    requires
        0 <= i <= pages.len(),
        pages.len() <= usize::MAX,
        all_valid(pages),
        contiguous_from_start(pages),
        reach(pages, i) < offset,
        offset <= usize::MAX,
    ensures
        offset_walk(
            pages,
            in_given_order(pages.len() as int),
            offset,
            i,
            reach(pages, i) as u64,
            utf16_prefix(joined_text(pages, i), joined_text(pages, i).len() as int),
        ) == utf8_to_utf16(joined_text(pages, pages.len() as int), offset as int),
    decreases pages.len() - i,
{
    let n = pages.len() as int;
    let whole = joined_text(pages, n);
    let before = joined_text(pages, i);
    let base = before.len() as int;
    lemma_joined_reach(pages, i);
    lemma_joined_reach(pages, n);
    lemma_utf8_prefix_total(before);
    lemma_utf8_prefix_total(whole);
    lemma_joined_prefix(pages, i, n);
    lemma_prefix_of_extension(before, whole.subrange(base, whole.len() as int), base);
    if i == n {
        assert forall|j: int| 0 <= j <= whole.len() implies #[trigger] utf8_prefix(whole, j)
            != offset by {
            lemma_utf8_prefix_increasing(whole, j, whole.len() as int);
        }
    } else {
        let page = pages[i];
        let s = page.text_chars();
        assert(page.valid());
        assert(in_given_order(n)[i] == i as usize);
        assert(page.byte_range().lo() == reach(pages, i));
        lemma_utf8_prefix_total(s);
        lemma_page_prefix(pages, i, s.len() as int);
        lemma_joined_reach(pages, i + 1);
        lemma_joined_prefix(pages, i + 1, n);
        lemma_utf16_below_utf8(whole, base + s.len());
        if offset <= page.byte_range().hi() {
            let local = offset - page.byte_range().lo();
            if exists|k: int| 0 <= k <= s.len() && #[trigger] utf8_prefix(s, k) == local {
                let k = choose|k: int| 0 <= k <= s.len() && #[trigger] utf8_prefix(s, k) == local;
                lemma_page_prefix(pages, i, k);
                assert(utf8_prefix(whole, base + k) == offset);
                let j = choose|j: int| 0 <= j <= whole.len() && #[trigger] utf8_prefix(whole, j)
                    == offset;
                lemma_utf8_boundary_unique(whole, j, base + k);
                lemma_utf16_below_utf8(whole, j);
            } else {
                assert forall|j: int| 0 <= j <= whole.len() implies #[trigger] utf8_prefix(
                    whole,
                    j,
                ) != offset by {
                    if utf8_prefix(whole, j) == offset {
                        if j <= base {
                            lemma_utf8_prefix_increasing(whole, j, base);
                        } else if j > base + s.len() {
                            lemma_utf8_prefix_increasing(whole, base + s.len(), j);
                        } else {
                            lemma_page_prefix(pages, i, j - base);
                            assert(utf8_prefix(s, j - base) == local);
                        }
                    }
                }
            }
        } else {
            lemma_utf8_boundary_unique(
                s,
                s.len() as int,
                choose|k: int| 0 <= k <= s.len() && #[trigger] utf8_prefix(s, k)
                    == page.byte_range().hi() - page.byte_range().lo(),
            );
            lemma_prefix_concat(before, s, s.len() as int);
            lemma_offset_walk(pages, offset, i + 1);
            assert(before + s == joined_text(pages, i + 1));
        }
    }
}

/// For pages that follow one another from the document start, the resident UTF-16 offset of a
/// byte offset is the one that translating their joined text gives.
pub proof fn lemma_resident_offset_matches_text(pages: Seq<RangePage>, offset: u64)
    requires
        all_valid(pages),
        contiguous_from_start(pages),
        offset <= usize::MAX,
        pages.len() <= usize::MAX,
    ensures
        resident_offset(pages, offset) == utf8_to_utf16(
            joined_text(pages, pages.len() as int),
            offset as int,
        ),
{
    let whole = joined_text(pages, pages.len() as int);
    if offset == 0 {
        assert(utf8_prefix(whole, 0) == 0);
        lemma_utf8_boundary_unique(
            whole,
            0,
            choose|k: int| 0 <= k <= whole.len() && #[trigger] utf8_prefix(whole, k) == 0,
        );
    } else {
        lemma_starts_nondecreasing(pages);
        lemma_sorted_order_is_given(pages, pages.len() as int);
        lemma_offset_walk(pages, offset, 0);
    }
}

/// The byte offset of character boundary `j` of the joined text of pages that start at the
/// document start.
pub open spec fn joined_offset(pages: Seq<RangePage>, j: int) -> ByteOffset {
    ByteOffset::from_value(utf8_prefix(joined_text(pages, pages.len() as int), j) as u64)
}

/// Where UTF-16 offset `t` lands once the first `i` pages are walked: at the joined-text
/// boundary that reaches it, if that boundary lies within those pages.
pub open spec fn landed_by(pages: Seq<RangePage>, t: int, i: int) -> Option<ByteOffset> {
    let whole = joined_text(pages, pages.len() as int);
    if i > 0 && exists|j: int|
        0 <= j <= joined_text(pages, i).len() && #[trigger] utf16_prefix(whole, j) == t {
        Some(
            joined_offset(
                pages,
                choose|j: int|
                    0 <= j <= joined_text(pages, i).len() && #[trigger] utf16_prefix(whole, j)
                        == t,
            ),
        )
    } else {
        None
    }
}

/// Where UTF-16 offset `t` lands on page `i` walked from the UTF-16 offset of the joined text
/// before it.
proof fn lemma_page_landing(
    pages: Seq<RangePage>,
    t: int,
    i: int,
    prior: Option<ByteOffset>,
)
    requires
        0 <= i < pages.len(),
        all_valid(pages),
        contiguous_from_start(pages),
        reach(pages, pages.len() as int) <= u64::MAX,
        prior == landed_by(pages, t, i),
    ensures
        landing(
            pages[i],
            utf16_prefix(joined_text(pages, i), joined_text(pages, i).len() as int),
            t,
            prior,
        ) == landed_by(pages, t, i + 1),
{
    let n = pages.len() as int;
    let whole = joined_text(pages, n);
    let before = joined_text(pages, i);
    let base = before.len() as int;
    let page = pages[i];
    let s = page.text_chars();
    let c0 = utf16_prefix(before, base);
    assert(page.valid());
    lemma_joined_reach(pages, i);
    lemma_joined_reach(pages, i + 1);
    lemma_joined_reach(pages, n);
    lemma_utf8_prefix_total(before);
    lemma_utf8_prefix_total(s);
    lemma_utf8_prefix_total(whole);
    lemma_joined_prefix(pages, i + 1, n);
    lemma_joined_prefix(pages, i, i + 1);
    assert(joined_text(pages, i + 1) == before + s);
    assert(page.byte_range().lo() == reach(pages, i));
    lemma_page_prefix(pages, i, 0);
    if exists|k: int| 0 <= k <= s.len() && #[trigger] offset16(c0, s, k) == t {
        let k = choose|k: int| 0 <= k <= s.len() && #[trigger] offset16(c0, s, k) == t;
        lemma_page_prefix(pages, i, k);
        lemma_utf8_prefix_increasing(whole, base + k, whole.len() as int);
        assert(page.char_offset(k) == joined_offset(pages, base + k)) by {
            if k == s.len() {
                lemma_page_prefix(pages, i, s.len() as int);
            }
        }
        assert(utf16_prefix(whole, base + k) == t);
        let j = choose|j: int|
            0 <= j <= joined_text(pages, i + 1).len() && #[trigger] utf16_prefix(whole, j) == t;
        lemma_utf16_boundary_unique(whole, j, base + k);
    } else {
        assert forall|j: int|
            base <= j <= base + s.len() implies #[trigger] utf16_prefix(whole, j) != t by {
            lemma_page_prefix(pages, i, j - base);
            assert(offset16(c0, s, j - base) == utf16_prefix(whole, j));
        }
        if i > 0 && exists|j: int| 0 <= j <= base && #[trigger] utf16_prefix(whole, j) == t {
            let j = choose|j: int| 0 <= j <= base && #[trigger] utf16_prefix(whole, j) == t;
            let h = choose|h: int|
                0 <= h <= joined_text(pages, i + 1).len() && #[trigger] utf16_prefix(whole, h)
                    == t;
            lemma_utf16_boundary_unique(whole, j, h);
        }
    }
}

/// The range walk over pages that follow one another from the document start lands each end
/// where translating their joined text puts it.
proof fn lemma_range_walk(pages: Seq<RangePage>, first: int, last: int, i: int)
    requires
        0 <= i <= pages.len(),
        pages.len() <= usize::MAX,
        all_valid(pages),
        contiguous_from_start(pages),
        reach(pages, pages.len() as int) <= usize::MAX,
        !(landed_by(pages, first, i) is Some && landed_by(pages, last, i) is Some),
    ensures
        range_walk(
            pages,
            in_given_order(pages.len() as int),
            first,
            last,
            i,
            utf16_prefix(joined_text(pages, i), joined_text(pages, i).len() as int),
            landed_by(pages, first, i),
            landed_by(pages, last, i),
        ) == Some(
            (
                landed_by(pages, first, pages.len() as int),
                landed_by(pages, last, pages.len() as int),
            ),
        ),
    decreases pages.len() - i,
{
    let n = pages.len() as int;
    if i < n {
        let whole = joined_text(pages, n);
        let before = joined_text(pages, i);
        let s = pages[i].text_chars();
        let c0 = utf16_prefix(before, before.len() as int);
        assert(in_given_order(n)[i] == i as usize);
        lemma_page_landing(pages, first, i, landed_by(pages, first, i));
        lemma_page_landing(pages, last, i, landed_by(pages, last, i));
        lemma_joined_prefix(pages, i, i + 1);
        assert(joined_text(pages, i + 1) == before + s);
        lemma_prefix_concat(before, s, s.len() as int);
        lemma_joined_reach(pages, i + 1);
        lemma_utf8_prefix_total(before + s);
        lemma_utf16_below_utf8(before + s, (before + s).len() as int);
        lemma_reach_bounded(pages, i + 1);
        if landed_by(pages, first, i + 1) is Some && landed_by(pages, last, i + 1) is Some {
            lemma_landed_stays(pages, first, i + 1);
            lemma_landed_stays(pages, last, i + 1);
        } else {
            lemma_range_walk(pages, first, last, i + 1);
        }
    }
}

proof fn lemma_reach_bounded(pages: Seq<RangePage>, i: int)
    requires
        0 <= i <= pages.len(),
        all_valid(pages),
        contiguous_from_start(pages),
    ensures
        reach(pages, i) <= reach(pages, pages.len() as int),
{
    let n = pages.len() as int;
    lemma_joined_reach(pages, i);
    lemma_joined_reach(pages, n);
    lemma_joined_prefix(pages, i, n);
    lemma_encode_concat(
        joined_text(pages, i),
        joined_text(pages, n).subrange(joined_text(pages, i).len() as int, joined_text(pages, n).len() as int),
    );
}

/// Once an end has landed within the first `i` pages, it lands there for all the pages.
proof fn lemma_landed_stays(pages: Seq<RangePage>, t: int, i: int)
    requires
        0 < i <= pages.len(),
        landed_by(pages, t, i) is Some,
    ensures
        landed_by(pages, t, pages.len() as int) == landed_by(pages, t, i),
{
    let n = pages.len() as int;
    let whole = joined_text(pages, n);
    lemma_joined_prefix(pages, i, n);
    let j = choose|j: int|
        0 <= j <= joined_text(pages, i).len() && #[trigger] utf16_prefix(whole, j) == t;
    let h = choose|h: int|
        0 <= h <= joined_text(pages, n).len() && #[trigger] utf16_prefix(whole, h) == t;
    lemma_utf16_boundary_unique(whole, j, h);
}

/// For pages that follow one another from the document start, the resident byte range of a
/// UTF-16 range is the one that translating their joined text gives, when its ends are in
/// order.
pub proof fn lemma_resident_range_matches_text(pages: Seq<RangePage>, range: Range<usize>)
    requires
        all_valid(pages),
        contiguous_from_start(pages),
        pages.len() > 0,
        pages.len() <= usize::MAX,
        reach(pages, pages.len() as int) <= usize::MAX,
    ensures
        match (
            utf16_to_utf8(joined_text(pages, pages.len() as int), range.start as int),
            utf16_to_utf8(joined_text(pages, pages.len() as int), range.end as int),
        ) {
            (Some(first), Some(last)) => if first <= last {
                resident_range(pages, range) matches Some(found) && found.lo() == first
                    && found.hi() == last
            } else {
                resident_range(pages, range) is None
            },
            _ => resident_range(pages, range) is None,
        },
{
    let n = pages.len() as int;
    let whole = joined_text(pages, n);
    lemma_starts_nondecreasing(pages);
    lemma_sorted_order_is_given(pages, n);
    assert(utf16_prefix(joined_text(pages, 0), 0) == 0);
    lemma_range_walk(pages, range.start as int, range.end as int, 0);
    lemma_landed_matches_text(pages, range.start as int);
    lemma_landed_matches_text(pages, range.end as int);
}

/// Where an end lands over all the pages is where translating the joined text puts it.
proof fn lemma_landed_matches_text(pages: Seq<RangePage>, t: int)
    requires
        pages.len() > 0,
        all_valid(pages),
        contiguous_from_start(pages),
    ensures
        landed_by(pages, t, pages.len() as int) == match utf16_to_utf8(
            joined_text(pages, pages.len() as int),
            t,
        ) {
            Some(b) => Some(ByteOffset::from_value(b as u64)),
            None => None,
        },
        utf16_to_utf8(joined_text(pages, pages.len() as int), t) matches Some(b) ==> 0 <= b
            <= reach(pages, pages.len() as int),
{
    let whole = joined_text(pages, pages.len() as int);
    if exists|j: int| 0 <= j <= whole.len() && #[trigger] utf16_prefix(whole, j) == t {
        let j = choose|j: int| 0 <= j <= whole.len() && #[trigger] utf16_prefix(whole, j) == t;
        lemma_utf8_prefix_increasing(whole, j, whole.len() as int);
        lemma_utf8_prefix_total(whole);
        lemma_joined_reach(pages, pages.len() as int);
    }
}

} // verus!
