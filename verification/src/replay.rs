use std::ops::Range;

use vstd::prelude::*;

use crate::coordinates::ByteOffset;
use crate::page::{byte_len, utf8_len, RangePage};
use crate::request::PageRequestKey;
use crate::utf16::{
    char_utf16_width, char_utf8_width, lemma_encode_concat, lemma_prefix_concat,
    lemma_utf16_boundary_unique, lemma_utf16_prefix_increasing, lemma_utf8_prefix_increasing,
    lemma_utf8_prefix_total, lemma_widths, utf16_prefix, utf16_to_utf8, utf16_width,
    utf8_prefix, utf8_width,
};

verus! {

/// Appends one character to a string, as std's `String::push` does.
#[verifier::external_body]
fn push_char(text: &mut String, c: char)
    ensures
        final(text)@ == old(text)@.push(c),
{
    text.push(c);
}

/// Selection that stays marked after a replacement, in UTF-16 units of the new text.
#[derive(Debug)]
pub struct PlatformMarkedText {
    pub selected: Option<Range<usize>>,
}

/// What a platform replay is for: reading the text of a UTF-16 range, or replacing it.
#[derive(Debug)]
pub enum PlatformReplayKind {
    Query,
    Replace { text: String, marked: Option<PlatformMarkedText> },
}

/// Progress after one page of a platform replay.
#[derive(Debug)]
pub enum ReplayProgress {
    /// Both ends are not yet found; the next page starts at this offset.
    Continue(ByteOffset),
    /// The text of the queried range.
    QueryReady(String),
    /// The byte range to replace, with its replacement and the line breaks it removes.
    ReplaceReady {
        bytes: Range<u64>,
        text: String,
        marked: Option<PlatformMarkedText>,
        removed_line_breaks: u64,
    },
}

/// Replays the source page by page to translate a platform UTF-16 range to UTF-8 bytes.
#[derive(Debug)]
pub struct PlatformReplay {
    pub utf16: Range<usize>,
    pub kind: PlatformReplayKind,
    pub(crate) pending: PageRequestKey,
    pub(crate) utf16_cursor: usize,
    pub(crate) byte_start: Option<ByteOffset>,
    pub(crate) byte_end: Option<ByteOffset>,
    pub(crate) output: String,
    pub(crate) removed_line_breaks: u64,
    pub(crate) max_output_bytes: usize,
}

/// UTF-16 offset of character `k` of a page replayed from cursor `c0`.
pub open spec fn offset16(c0: int, s: Seq<char>, k: int) -> int {
    c0 + utf16_prefix(s, k)
}

/// Character `k` lies wholly inside the UTF-16 range `[start, end)`.
pub open spec fn selected(c0: int, s: Seq<char>, start: int, end: int, k: int) -> bool {
    offset16(c0, s, k) >= start && offset16(c0, s, k + 1) <= end
}

/// An end of the range falls strictly inside character `k`'s UTF-16 span.
pub open spec fn splits(c0: int, s: Seq<char>, start: int, end: int, k: int) -> bool {
    ||| start > offset16(c0, s, k) && start < offset16(c0, s, k + 1)
    ||| end > offset16(c0, s, k) && end < offset16(c0, s, k + 1)
}

/// The characters among the first `m` that lie wholly inside the range, in order.
pub open spec fn picked(c0: int, s: Seq<char>, start: int, end: int, m: int) -> Seq<char>
    decreases m,
{
    if m <= 0 {
        Seq::empty()
    } else if selected(c0, s, start, end, m - 1) {
        picked(c0, s, start, end, m - 1).push(s[m - 1])
    } else {
        picked(c0, s, start, end, m - 1)
    }
}

/// Number of line breaks in `t`.
pub open spec fn line_breaks(t: Seq<char>) -> int
    decreases t.len(),
{
    if t.len() == 0 {
        0
    } else {
        line_breaks(t.drop_last()) + if t.last() == '\n' {
            1int
        } else {
            0
        }
    }
}

/// The character count at which a page replayed from `c0` reaches UTF-16 offset `target`.
pub open spec fn hit(c0: int, s: Seq<char>, target: int) -> Option<int> {
    if exists|k: int| 0 <= k <= s.len() && #[trigger] offset16(c0, s, k) == target {
        Some(choose|k: int| 0 <= k <= s.len() && #[trigger] offset16(c0, s, k) == target)
    } else {
        None
    }
}

/// Where `target` lands on `page` replayed from UTF-16 offset `c0`: the byte offset of the
/// character position that reaches it, or `prior` when the page does not reach it.
pub open spec fn landing(
    page: RangePage,
    c0: int,
    target: int,
    prior: Option<ByteOffset>,
) -> Option<ByteOffset> {
    match hit(c0, page.text_chars(), target) {
        Some(k) => Some(page.char_offset(k)),
        None => prior,
    }
}

impl PlatformReplay {
    /// The UTF-16 range being replayed.
    pub open(crate) spec fn span(&self) -> Range<usize> {
        self.utf16
    }

    /// What the replay is for.
    pub open(crate) spec fn purpose(&self) -> PlatformReplayKind {
        self.kind
    }

    /// The key of the page the replay waits for.
    pub open(crate) spec fn awaited(&self) -> PageRequestKey {
        self.pending
    }

    /// UTF-16 units replayed so far.
    pub open(crate) spec fn cursor(&self) -> usize {
        self.utf16_cursor
    }

    /// The byte offset found for the range start, if any.
    pub open(crate) spec fn found_start(&self) -> Option<ByteOffset> {
        self.byte_start
    }

    /// The byte offset found for the range end, if any.
    pub open(crate) spec fn found_end(&self) -> Option<ByteOffset> {
        self.byte_end
    }

    /// The queried text collected so far.
    pub open(crate) spec fn collected(&self) -> Seq<char> {
        self.output@
    }

    /// Line breaks inside the range seen so far.
    pub open(crate) spec fn breaks(&self) -> u64 {
        self.removed_line_breaks
    }

    /// The ceiling on collected query bytes.
    pub open(crate) spec fn output_ceiling(&self) -> usize {
        self.max_output_bytes
    }

    /// Whether the replay answers a query.
    pub open(crate) spec fn is_query(&self) -> bool {
        self.kind is Query
    }

    /// Whether replaying `page` fails.
    pub open spec fn page_fails(&self, page: RangePage) -> bool {
        let s = page.text_chars();
        let c0 = self.cursor() as int;
        let start = self.span().start as int;
        let end = self.span().end as int;
        let chosen = picked(c0, s, start, end, s.len() as int);
        ||| page.request_key() != self.awaited()
        ||| offset16(c0, s, s.len() as int) > usize::MAX
        ||| exists|k: int| 0 <= k < s.len() && #[trigger] splits(c0, s, start, end, k)
        ||| self.is_query() && chosen.len() > 0 && utf8_len(self.collected()) + utf8_len(chosen)
            > self.output_ceiling()
        ||| self.breaks() + line_breaks(chosen) > u64::MAX
    }

    /// The offset recorded for `target` after replaying `page` on top of `prior`.
    pub open spec fn found_after(
        &self,
        page: RangePage,
        target: int,
        prior: Option<ByteOffset>,
    ) -> Option<ByteOffset> {
        landing(page, self.cursor() as int, target, prior)
    }

    /// Starts a replay of `utf16` that waits for page `pending`.
    pub fn new(
        utf16: Range<usize>,
        kind: PlatformReplayKind,
        pending: PageRequestKey,
        max_output_bytes: usize,
    ) -> (r: Self)
        ensures
            r.span() == utf16,
            r.purpose() == kind,
            r.awaited() == pending,
            r.cursor() == 0,
            r.found_start() is None,
            r.found_end() is None,
            r.collected() == Seq::<char>::empty(),
            r.breaks() == 0,
            r.output_ceiling() == max_output_bytes,
    {
        PlatformReplay {
            utf16,
            kind,
            pending,
            utf16_cursor: 0,
            byte_start: None,
            byte_end: None,
            output: String::new(),
            removed_line_breaks: 0,
            max_output_bytes,
        }
    }

    /// Returns the key of the page the replay waits for.
    pub fn pending_key(&self) -> (r: PageRequestKey)
        ensures
            r == self.awaited(),
    {
        self.pending
    }

    /// Waits for another page.
    pub fn set_pending(&mut self, pending: PageRequestKey)
        ensures
            final(self).awaited() == pending,
            final(self).span() == old(self).span(),
            final(self).purpose() == old(self).purpose(),
            final(self).cursor() == old(self).cursor(),
            final(self).found_start() == old(self).found_start(),
            final(self).found_end() == old(self).found_end(),
            final(self).collected() == old(self).collected(),
            final(self).breaks() == old(self).breaks(),
            final(self).output_ceiling() == old(self).output_ceiling(),
    {
        self.pending = pending;
    }

    /// Replays one page: advances the UTF-16 cursor over its characters, records the byte
    /// offsets of the range ends it reaches, and collects queried text and removed line
    /// breaks. Fails on a page for another request, a range end inside a character, an
    /// exhausted source, or counts beyond their bounds.
    #[verifier::loop_isolation(false)]
    pub fn admit_page(self, page: &RangePage) -> (r: Result<(Self, Option<ReplayProgress>), ()>)
        ensures
            r is Err <==> self.page_fails(*page) || (!self.page_fails(*page) && (self.found_after(
                *page,
                self.span().start as int,
                self.found_start(),
            ) is None || self.found_after(*page, self.span().end as int, self.found_end()) is None)
                && page.at_source_end()),
            r matches Ok((next, progress)) ==> {
                let s = page.text_chars();
                let c0 = self.cursor() as int;
                let chosen = picked(c0, s, self.span().start as int, self.span().end as int, s.len() as int);
                let found_start = self.found_after(*page, self.span().start as int, self.found_start());
                let found_end = self.found_after(*page, self.span().end as int, self.found_end());
                &&& next.span() == self.span()
                &&& next.awaited() == self.awaited()
                &&& next.output_ceiling() == self.output_ceiling()
                &&& next.cursor() == offset16(c0, s, s.len() as int)
                &&& next.found_start() == found_start
                &&& next.found_end() == found_end
                &&& next.breaks() == self.breaks() + line_breaks(chosen)
                &&& match (found_start, found_end) {
                    (Some(first), Some(last)) => {
                        &&& next.is_query()
                        &&& match self.purpose() {
                            PlatformReplayKind::Query => {
                                &&& next.collected() == Seq::<char>::empty()
                                &&& progress matches Some(ReplayProgress::QueryReady(text))
                                    && text@ == self.collected() + chosen
                            },
                            PlatformReplayKind::Replace { text, marked } => {
                                &&& next.collected() == self.collected()
                                &&& progress == Some(
                                    ReplayProgress::ReplaceReady {
                                        bytes: Range { start: first.value(), end: last.value() },
                                        text,
                                        marked,
                                        removed_line_breaks: next.breaks(),
                                    },
                                )
                            },
                        }
                    },
                    _ => {
                        &&& next.purpose() == self.purpose()
                        &&& next.collected() == if self.is_query() {
                            self.collected() + chosen
                        } else {
                            self.collected()
                        }
                        &&& progress == Some(
                            ReplayProgress::Continue(page.byte_range().end_offset()),
                        )
                    },
                }
            },
    {
        if page.key() != self.pending {
            return Err(());
        }
        let ghost s = page.text_chars();
        let ghost c0 = self.cursor() as int;
        let ghost prior_start = self.byte_start;
        let ghost prior_end = self.byte_end;
        let ghost prior_output = self.output@;
        let ghost prior_breaks = self.removed_line_breaks;
        let ghost query = self.purpose() is Query;
        let ghost entry = self;
        let PlatformReplay {
            utf16,
            kind,
            pending,
            mut utf16_cursor,
            mut byte_start,
            mut byte_end,
            mut output,
            mut removed_line_breaks,
            max_output_bytes,
        } = self;
        let is_query = match kind {
            PlatformReplayKind::Query => true,
            PlatformReplayKind::Replace { .. } => false,
        };
        let range = page.range();
        let page_start = range.start().get();
        let text = page.text();
        proof {
            use_type_invariant(page);
            lemma_utf8_prefix_total(s);
        }
        let total = byte_len(text);
        let mut local: usize = 0;
        for ch in it: text.chars()
            invariant
                total == utf8_len(s),
                it.seq() == s,
                s == page.text_chars(),
                text@ == s,
                range == page.byte_range(),
                page_start == range.lo(),
                page.valid(),
                utf8_prefix(s, s.len() as int) == utf8_len(s),
                utf8_len(s) == range.hi() - range.lo(),
                is_query == query,
                0 <= it.index() <= s.len(),
                utf16_cursor == offset16(c0, s, it.index() as int),
                local == utf8_prefix(s, it.index() as int),
                forall|k: int| 0 <= k < it.index() ==> !#[trigger] splits(
                    c0,
                    s,
                    utf16.start as int,
                    utf16.end as int,
                    k,
                ),
                (forall|k: int| 0 <= k < it.index() ==> #[trigger] offset16(c0, s, k)
                    != utf16.start) ==> byte_start == prior_start,
                forall|k: int|
                    0 <= k < it.index() && #[trigger] offset16(c0, s, k) == utf16.start
                        ==> byte_start == Some(page.char_offset(k)),
                (forall|k: int| 0 <= k < it.index() ==> #[trigger] offset16(c0, s, k)
                    != utf16.end) ==> byte_end == prior_end,
                forall|k: int|
                    0 <= k < it.index() && #[trigger] offset16(c0, s, k) == utf16.end
                        ==> byte_end == Some(page.char_offset(k)),
                output@ == if query {
                    prior_output + picked(c0, s, utf16.start as int, utf16.end as int, it.index() as int)
                } else {
                    prior_output
                },
                query && picked(c0, s, utf16.start as int, utf16.end as int, it.index() as int).len()
                    > 0 ==> utf8_len(output@) <= max_output_bytes,
                max_output_bytes == entry.output_ceiling(),
                entry.cursor() as int == c0,
                utf16 == entry.span(),
                prior_output == entry.collected(),
                prior_breaks == entry.breaks(),
                query == entry.is_query(),
                page.request_key() == entry.awaited(),
                removed_line_breaks == prior_breaks + line_breaks(
                    picked(c0, s, utf16.start as int, utf16.end as int, it.index() as int),
                ),
        {
            let ghost m = it.index() as int;
            proof {
                assert(s[m] == ch);
                lemma_utf8_prefix_increasing(s, m + 1, s.len() as int);
                lemma_widths(ch);
                lemma_utf16_prefix_increasing(s, m, m);
            }
            let global = ByteOffset::new(page_start + local as u64);
            proof {
                assert forall|k: int| 0 <= k < m implies #[trigger] offset16(c0, s, k) < offset16(
                    c0,
                    s,
                    m,
                ) by {
                    lemma_utf16_prefix_increasing(s, k, m);
                }
                assert(page.char_offset(m) == global);
            }
            if utf16_cursor == utf16.start {
                byte_start = Some(global);
            }
            if utf16_cursor == utf16.end {
                byte_end = Some(global);
            }
            let width16 = char_utf16_width(ch);
            let width8 = char_utf8_width(ch);
            if utf16_cursor > usize::MAX - width16 {
                proof {
                    lemma_utf16_prefix_increasing(s, m + 1, s.len() as int);
                    assert(offset16(c0, s, m + 1) > usize::MAX);
                    assert(offset16(c0, s, s.len() as int) > usize::MAX);
                    assert(entry.page_fails(*page));
                }
                return Err(());
            }
            let next = utf16_cursor + width16;
            if (utf16.start > utf16_cursor && utf16.start < next) || (utf16.end > utf16_cursor
                && utf16.end < next) {
                proof {
                    assert(splits(c0, s, utf16.start as int, utf16.end as int, m));
                    assert(entry.page_fails(*page));
                }
                return Err(());
            }
            if utf16_cursor >= utf16.start && next <= utf16.end {
                if is_query {
                    let used = byte_len(output.as_str());
                    if width8 > max_output_bytes || used > max_output_bytes - width8 {
                        proof {
                            lemma_picked_grows(c0, s, utf16.start as int, utf16.end as int, m + 1, s.len() as int);
                            lemma_utf8_len_push(output@, ch);
                            lemma_utf8_len_concat(prior_output, picked(c0, s, utf16.start as int, utf16.end as int, s.len() as int));
                            lemma_utf8_len_concat(prior_output, picked(c0, s, utf16.start as int, utf16.end as int, m + 1));
                            assert(picked(c0, s, utf16.start as int, utf16.end as int, m + 1) == picked(c0, s, utf16.start as int, utf16.end as int, m).push(ch));
                            assert(prior_output + picked(c0, s, utf16.start as int, utf16.end as int, m + 1) =~= output@.push(ch));
                            assert(entry.page_fails(*page));
                        }
                        return Err(());
                    }
                    proof {
                        lemma_utf8_len_push(output@, ch);
                    }
                    push_char(&mut output, ch);
                }
                if ch == '\n' {
                    if removed_line_breaks == u64::MAX {
                        proof {
                            lemma_picked_grows(c0, s, utf16.start as int, utf16.end as int, m + 1, s.len() as int);
                            lemma_line_breaks_push(picked(c0, s, utf16.start as int, utf16.end as int, m), ch);
                            assert(entry.page_fails(*page));
                        }
                        return Err(());
                    }
                    removed_line_breaks = removed_line_breaks + 1;
                }
                proof {
                    lemma_line_breaks_push(picked(c0, s, utf16.start as int, utf16.end as int, m), ch);
                    if query {
                        assert(prior_output + picked(c0, s, utf16.start as int, utf16.end as int, m).push(ch)
                            =~= (prior_output + picked(c0, s, utf16.start as int, utf16.end as int, m)).push(ch));
                    }
                }
            }
            utf16_cursor = next;
            local = local + width8;
        }
        proof {
            lemma_utf16_prefix_increasing(s, s.len() as int, s.len() as int);
        }
        let page_end = range.end();
        if utf16_cursor == utf16.start {
            byte_start = Some(page_end);
        }
        if utf16_cursor == utf16.end {
            byte_end = Some(page_end);
        }
        proof {
            assert forall|k: int| 0 <= k < s.len() implies #[trigger] offset16(c0, s, k) < offset16(
                c0,
                s,
                s.len() as int,
            ) by {
                lemma_utf16_prefix_increasing(s, k, s.len() as int);
            }
            lemma_found(*page, c0, utf16.start as int, prior_start, byte_start);
            lemma_found(*page, c0, utf16.end as int, prior_end, byte_end);
            lemma_picked_grows(c0, s, utf16.start as int, utf16.end as int, s.len() as int, s.len() as int);
            if query {
                lemma_utf8_len_concat(prior_output, picked(c0, s, utf16.start as int, utf16.end as int, s.len() as int));
            }
            assert(!entry.page_fails(*page));
        }
        match (byte_start, byte_end) {
            (Some(first), Some(last)) => {
                let (progress, output) = match kind {
                    PlatformReplayKind::Query => (ReplayProgress::QueryReady(output), String::new()),
                    PlatformReplayKind::Replace { text, marked } => (
                        ReplayProgress::ReplaceReady {
                            bytes: Range { start: first.get(), end: last.get() },
                            text,
                            marked,
                            removed_line_breaks,
                        },
                        output,
                    ),
                };
                let next = PlatformReplay {
                    utf16,
                    kind: PlatformReplayKind::Query,
                    pending,
                    utf16_cursor,
                    byte_start,
                    byte_end,
                    output,
                    removed_line_breaks,
                    max_output_bytes,
                };
                return Ok((next, Some(progress)));
            },
            _ => {},
        }
        if page.end_of_source() {
            return Err(());
        }
        let next = PlatformReplay {
            utf16,
            kind,
            pending,
            utf16_cursor,
            byte_start,
            byte_end,
            output,
            removed_line_breaks,
            max_output_bytes,
        };
        Ok((next, Some(ReplayProgress::Continue(page_end))))
    }
}

/// A replay whose cursor has passed exactly the text before a page finds, for a range end that
/// the page reaches, the byte offset that translating the whole text up to the page's end
/// gives; and after the page its cursor has passed exactly that text too.
pub proof fn lemma_replay_matches_text_offsets(
    replay: PlatformReplay,
    page: RangePage,
    before: Seq<char>,
    target: int,
    prior: Option<ByteOffset>,
)
    requires
        page.valid(),
        replay.cursor() == utf16_prefix(before, before.len() as int),
        utf8_len(before) == page.byte_range().lo(),
        replay.cursor() <= target,
        utf16_to_utf8(before + page.text_chars(), target) is Some,
    ensures
        replay.found_after(page, target, prior) == Some(
            ByteOffset::from_value(
                utf16_to_utf8(before + page.text_chars(), target)->0 as u64,
            ),
        ),
        offset16(replay.cursor() as int, page.text_chars(), page.text_chars().len() as int)
            == utf16_prefix(before + page.text_chars(), (before + page.text_chars()).len() as int),
{
    let s = page.text_chars();
    let whole = before + s;
    let c0 = replay.cursor() as int;
    let n = before.len() as int;
    lemma_prefix_concat(before, s, s.len() as int);
    lemma_utf8_prefix_total(before);
    lemma_utf8_prefix_total(s);
    let j = choose|j: int| 0 <= j <= whole.len() && #[trigger] utf16_prefix(whole, j) == target;
    if j < n {
        lemma_prefix_concat(before, s, 0);
        lemma_utf16_prefix_increasing(whole, j, n);
    }
    let k = j - n;
    lemma_prefix_concat(before, s, k);
    assert(offset16(c0, s, k) == target);
    let h = choose|h: int| 0 <= h <= s.len() && #[trigger] offset16(c0, s, h) == target;
    lemma_prefix_concat(before, s, h);
    lemma_utf16_boundary_unique(whole, n + h, j);
    lemma_utf8_prefix_increasing(s, h, s.len() as int);
}

/// When both ends of the range land on a page, at character positions `first` and `last` in
/// order, the characters a replay of the page collects are exactly those between them.
pub proof fn lemma_query_collects_the_range(
    c0: int,
    s: Seq<char>,
    start: int,
    end: int,
    first: int,
    last: int,
)
    requires
        0 <= first <= last <= s.len(),
        offset16(c0, s, first) == start,
        offset16(c0, s, last) == end,
    ensures
        picked(c0, s, start, end, s.len() as int) == s.subrange(first, last),
{
    lemma_picked_prefix(c0, s, start, end, first, last, s.len() as int);
}

proof fn lemma_picked_prefix(
    c0: int,
    s: Seq<char>,
    start: int,
    end: int,
    first: int,
    last: int,
    m: int,
)
    requires
        0 <= first <= last <= s.len(),
        0 <= m <= s.len(),
        offset16(c0, s, first) == start,
        offset16(c0, s, last) == end,
    ensures
        picked(c0, s, start, end, m) == s.subrange(
            if m < first {
                m
            } else {
                first
            },
            if m < first {
                m
            } else if m < last {
                m
            } else {
                last
            },
        ),
    decreases m,
{
    if m > 0 {
        lemma_picked_prefix(c0, s, start, end, first, last, m - 1);
        let k = m - 1;
        if k < first {
            lemma_utf16_prefix_increasing(s, k, first);
            lemma_utf16_prefix_increasing(s, k + 1, first);
            if k + 1 < first {
                lemma_utf16_prefix_increasing(s, k + 1, first);
            }
            assert(!selected(c0, s, start, end, k));
        } else if k < last {
            lemma_utf16_prefix_increasing(s, first, k);
            lemma_utf16_prefix_increasing(s, k + 1, last);
            assert(selected(c0, s, start, end, k));
        } else {
            lemma_utf16_prefix_increasing(s, last, k);
            lemma_utf16_prefix_increasing(s, k, k + 1);
            assert(!selected(c0, s, start, end, k));
        }
    }
}

/// Encoded length distributes over concatenation.
proof fn lemma_utf8_len_concat(a: Seq<char>, b: Seq<char>)
    ensures
        utf8_len(a + b) == utf8_len(a) + utf8_len(b),
{
    lemma_encode_concat(a, b);
}

/// Appending a character adds its width.
proof fn lemma_utf8_len_push(a: Seq<char>, c: char)
    ensures
        utf8_len(a.push(c)) == utf8_len(a) + utf8_width(c),
{
    lemma_encode_concat(a, seq![c]);
    assert(a.push(c) =~= a + seq![c]);
    assert(seq![c].drop_first() =~= Seq::<char>::empty());
    assert(vstd::utf8::encode_utf8(seq![c]) =~= vstd::utf8::encode_scalar(c as u32)
        + vstd::utf8::encode_utf8(Seq::<char>::empty()));
}

/// Appending a character adds one line break when it is one.
proof fn lemma_line_breaks_push(a: Seq<char>, c: char)
    ensures
        line_breaks(a.push(c)) == line_breaks(a) + if c == '\n' {
            1int
        } else {
            0
        },
{
    assert(a.push(c).drop_last() =~= a);
}

/// Picking more characters never shrinks the picked text's bytes or line breaks.
proof fn lemma_picked_grows(c0: int, s: Seq<char>, start: int, end: int, m: int, n: int)
    requires
        0 <= m <= n <= s.len(),
    ensures
        utf8_len(picked(c0, s, start, end, m)) <= utf8_len(picked(c0, s, start, end, n)),
        line_breaks(picked(c0, s, start, end, m)) <= line_breaks(picked(c0, s, start, end, n)),
        line_breaks(picked(c0, s, start, end, m)) >= 0,
        picked(c0, s, start, end, m).len() <= picked(c0, s, start, end, n).len(),
    decreases n,
{
    if m < n {
        lemma_picked_grows(c0, s, start, end, m, n - 1);
        if selected(c0, s, start, end, n - 1) {
            lemma_utf8_len_push(picked(c0, s, start, end, n - 1), s[n - 1]);
            lemma_line_breaks_push(picked(c0, s, start, end, n - 1), s[n - 1]);
        }
    } else {
        lemma_line_breaks_nonnegative(picked(c0, s, start, end, m));
    }
}

/// Line-break counts are not negative.
proof fn lemma_line_breaks_nonnegative(t: Seq<char>)
    ensures
        line_breaks(t) >= 0,
    decreases t.len(),
{
    if t.len() > 0 {
        lemma_line_breaks_nonnegative(t.drop_last());
    }
}

/// What a page scan records for one range end, stated through `landing`.
pub(crate) proof fn lemma_found(
    page: RangePage,
    c0: int,
    target: int,
    prior: Option<ByteOffset>,
    found: Option<ByteOffset>,
)
    requires
        (forall|k: int|
            0 <= k <= page.text_chars().len() ==> #[trigger] offset16(c0, page.text_chars(), k)
                != target) ==> found == prior,
        forall|k: int|
            0 <= k <= page.text_chars().len() && #[trigger] offset16(c0, page.text_chars(), k)
                == target ==> found == Some(page.char_offset(k)),
    ensures
        found == landing(page, c0, target, prior),
{
    let s = page.text_chars();
    if exists|k: int| 0 <= k <= s.len() && #[trigger] offset16(c0, s, k) == target {
        let k = choose|k: int| 0 <= k <= s.len() && #[trigger] offset16(c0, s, k) == target;
        assert(found == Some(page.char_offset(k)));
    }
}

} // verus!
