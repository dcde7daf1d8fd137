//! Cutting a PEM text into its certificate blocks.
//!
//! A block starts with a line that begins with `-----BEGIN CERTIFICATE-----`
//! and ends with the next line that begins with `-----END CERTIFICATE-----`.
//! What stands between blocks is passed over, and so is a block that is never
//! ended.

use vstd::prelude::*;

verus! {

/// How a line begins that starts a certificate.
pub open spec fn begin_mark() -> Seq<char> {
    "-----BEGIN CERTIFICATE-----"@
}

/// How a line begins that ends a certificate.
pub open spec fn end_mark() -> Seq<char> {
    "-----END CERTIFICATE-----"@
}

/// Whether a line starts at `at`: at the start of the text, or after a line
/// feed.
pub open spec fn is_line_start(text: Seq<char>, at: int) -> bool {
    at == 0 || (0 < at <= text.len() && text[at - 1] == '\n')
}

/// Whether `mark` stands in `text` at `at`.
pub open spec fn stands_at(text: Seq<char>, at: int, mark: Seq<char>) -> bool {
    &&& 0 <= at
    &&& at + mark.len() <= text.len()
    &&& text.subrange(at, at + mark.len()) == mark
}

/// Where the line ends that holds the position `at`: after its line feed, or
/// at the end of the text.
pub open spec fn line_end(text: Seq<char>, at: int) -> int
    decreases text.len() - at,
{
    if at < 0 || at >= text.len() {
        text.len() as int
    } else if text[at] == '\n' {
        at + 1
    } else {
        line_end(text, at + 1)
    }
}

/// The blocks that end at or after `at`, in their order, where `open` is the
/// start of the block that `at` lies in, if it lies in one.
pub open spec fn blocks_from(text: Seq<char>, at: int, open: Option<int>) -> Seq<Seq<char>>
    decreases text.len() - at,
{
    if at < 0 || at >= text.len() {
        Seq::empty()
    } else if !is_line_start(text, at) {
        blocks_from(text, at + 1, open)
    } else {
        match open {
            None => if stands_at(text, at, begin_mark()) {
                blocks_from(text, at + 1, Some(at))
            } else {
                blocks_from(text, at + 1, None)
            },
            Some(start) => if stands_at(text, at, end_mark()) {
                seq![text.subrange(start, line_end(text, at))] + blocks_from(text, at + 1, None)
            } else {
                blocks_from(text, at + 1, open)
            },
        }
    }
}

/// The certificate blocks of a text, in their order, each from the start of
/// its first line to the end of its last.
pub open spec fn certificate_blocks(text: Seq<char>) -> Seq<Seq<char>> {
    blocks_from(text, 0, None)
}

/// The start of the block that is still open where the text ends, if one is;
/// `at` and `open` as for `blocks_from`.
pub open spec fn open_from(text: Seq<char>, at: int, open: Option<int>) -> Option<int>
    decreases text.len() - at,
{
    if at < 0 || at >= text.len() {
        open
    } else if !is_line_start(text, at) {
        open_from(text, at + 1, open)
    } else {
        match open {
            None => if stands_at(text, at, begin_mark()) {
                open_from(text, at + 1, Some(at))
            } else {
                open_from(text, at + 1, None)
            },
            Some(start) => if stands_at(text, at, end_mark()) {
                open_from(text, at + 1, None)
            } else {
                open_from(text, at + 1, open)
            },
        }
    }
}

/// Whether a text ends where a line ends, with every block ended.
pub open spec fn is_whole(text: Seq<char>) -> bool {
    &&& text.len() == 0 || text.last() == '\n'
    &&& open_from(text, 0, None) is None
}

/// The parts of `text` that the ranges cut out.
pub open spec fn cut(text: Seq<char>, ranges: Seq<(usize, usize)>) -> Seq<Seq<char>> {
    Seq::new(ranges.len(), |k: int| text.subrange(ranges[k].0 as int, ranges[k].1 as int))
}

/// The characters of `s`, in their order.
pub fn chars_of(s: &str) -> (out: Vec<char>)
    ensures
        out@ == s@,
{
    broadcast use vstd::string::group_string_axioms;

    let mut out: Vec<char> = Vec::new();
    for c in it: s.chars()
        invariant
            it.seq() == s@,
            out@ == s@.take(it.index()),
    {
        out.push(c);
        assert(s@.take(it.index() + 1) =~= s@.take(it.index()).push(s@[it.index()]));
    }
    assert(s@.take(s@.len() as int) =~= s@);
    out
}

/// Whether `mark` stands in `text` at `at`.
pub fn mark_stands_at(text: &Vec<char>, at: usize, mark: &Vec<char>) -> (yes: bool)
    ensures
        yes == stands_at(text@, at as int, mark@),
{
    if mark.len() > text.len() || at > text.len() - mark.len() {
        return false;
    }
    let mut i: usize = 0;
    while i < mark.len()
        invariant
            i <= mark.len(),
            at + mark.len() <= text.len(),
            forall|j: int| 0 <= j < i ==> text@[at + j] == mark@[j],
        decreases mark.len() - i,
    {
        if text[at + i] != mark[i] {
            assert(text@.subrange(at as int, at + mark.len())[i as int] != mark@[i as int]);
            return false;
        }
        i += 1;
    }
    assert(text@.subrange(at as int, at + mark.len()) =~= mark@);
    true
}

/// Finds where the line ends that holds the position `at`.
pub fn find_line_end(text: &Vec<char>, at: usize) -> (end: usize)
    ensures
        end == line_end(text@, at as int),
        end <= text@.len(),
        at < text@.len() ==> at < end,
{
    let mut j: usize = at;
    while j < text.len() && text[j] != '\n'
        invariant
            at <= j,
            line_end(text@, at as int) == line_end(text@, j as int),
        decreases text.len() - j,
    {
        j += 1;
    }
    if j < text.len() {
        j + 1
    } else {
        text.len()
    }
}

/// Finds the certificate blocks of a text: for each block, in their order,
/// where it starts and where it ends.
pub fn find_blocks(text: &Vec<char>) -> (ranges: Vec<(usize, usize)>)
    ensures
        cut(text@, ranges@) == certificate_blocks(text@),
        forall|k: int|
            0 <= k < ranges@.len() ==> (#[trigger] ranges@[k]).0 <= ranges@[k].1 <= text@.len(),
{
    let begin = chars_of("-----BEGIN CERTIFICATE-----");
    let end = chars_of("-----END CERTIFICATE-----");
    let mut ranges: Vec<(usize, usize)> = Vec::new();
    let mut open: Option<usize> = None;
    let mut i: usize = 0;
    assert(cut(text@, ranges@) + blocks_from(text@, 0, None) =~= certificate_blocks(text@));
    while i < text.len()
        invariant
            i <= text.len(),
            begin@ == begin_mark(),
            end@ == end_mark(),
            open matches Some(start) ==> start < i,
            certificate_blocks(text@) == cut(text@, ranges@) + blocks_from(
                text@,
                i as int,
                match open {
                    Some(start) => Some(start as int),
                    None => None,
                },
            ),
            forall|k: int|
                0 <= k < ranges@.len() ==> (#[trigger] ranges@[k]).0 <= ranges@[k].1 <= text@.len(),
        decreases text.len() - i,
    {
        let ghost before = cut(text@, ranges@);
        if i == 0 || text[i - 1] == '\n' {
            match open {
                None => {
                    if mark_stands_at(text, i, &begin) {
                        open = Some(i);
                    }
                },
                Some(start) => {
                    if mark_stands_at(text, i, &end) {
                        let stop = find_line_end(text, i);
                        ranges.push((start, stop));
                        open = None;
                        proof {
                            let block = text@.subrange(start as int, stop as int);
                            assert(cut(text@, ranges@) =~= before.push(block));
                            assert(before + (seq![block] + blocks_from(text@, i + 1, None))
                                =~= before.push(block) + blocks_from(text@, i + 1, None));
                        }
                    }
                },
            }
        }
        i += 1;
    }
    assert(cut(text@, ranges@) + Seq::<Seq<char>>::empty() =~= cut(text@, ranges@));
    ranges
}

/// Neither mark holds a line feed.
proof fn lemma_marks_hold_no_line_feed()
    ensures
        forall|i: int| 0 <= i < begin_mark().len() ==> begin_mark()[i] != '\n',
        forall|i: int| 0 <= i < end_mark().len() ==> end_mark()[i] != '\n',
{
    reveal_strlit("-----BEGIN CERTIFICATE-----");
    reveal_strlit("-----END CERTIFICATE-----");
}

/// A mark that holds no line feed stands in a text that ends in one where it
/// stands in the text with more behind it.
proof fn lemma_mark_in_first(first: Seq<char>, second: Seq<char>, at: int, mark: Seq<char>)
    requires
        first.len() > 0,
        first.last() == '\n',
        0 <= at < first.len(),
        forall|i: int| 0 <= i < mark.len() ==> mark[i] != '\n',
    ensures
        stands_at(first + second, at, mark) == stands_at(first, at, mark),
{
    let whole = first + second;
    if at + mark.len() <= first.len() {
        assert(whole.subrange(at, at + mark.len()) =~= first.subrange(at, at + mark.len()));
    } else if stands_at(whole, at, mark) {
        let i = first.len() - 1 - at;
        assert(whole.subrange(at, at + mark.len())[i] == whole[first.len() - 1]);
    }
}

/// A line of a text that ends in a line feed ends where it does with more
/// behind the text.
proof fn lemma_line_end_in_first(first: Seq<char>, second: Seq<char>, at: int)
    requires
        first.len() > 0,
        first.last() == '\n',
        0 <= at < first.len(),
    ensures
        line_end(first + second, at) == line_end(first, at),
        at < line_end(first, at) <= first.len(),
    decreases first.len() - at,
{
    let whole = first + second;
    assert(whole[at] == first[at]);
    if first[at] != '\n' {
        lemma_line_end_in_first(first, second, at + 1);
    }
}

/// A line of a text ends as far behind its start with more before the text.
proof fn lemma_line_end_in_second(first: Seq<char>, second: Seq<char>, at: int)
    requires
        0 <= at <= second.len(),
    ensures
        line_end(first + second, first.len() + at) == first.len() + line_end(second, at),
    decreases second.len() - at,
{
    let whole = first + second;
    if at < second.len() {
        assert(whole[first.len() + at] == second[at]);
        if second[at] != '\n' {
            lemma_line_end_in_second(first, second, at + 1);
        }
    }
}

/// The blocks of a text that ends in a line feed, with more behind it: those
/// of the text, then what follows from where the text leaves off.
proof fn lemma_blocks_in_first(first: Seq<char>, second: Seq<char>, at: int, open: Option<int>)
    requires
        first.len() > 0,
        first.last() == '\n',
        0 <= at <= first.len(),
        open matches Some(start) ==> 0 <= start <= at,
    ensures
        blocks_from(first + second, at, open) == blocks_from(first, at, open) + blocks_from(
            first + second,
            first.len() as int,
            open_from(first, at, open),
        ),
    decreases first.len() - at,
{
    let whole = first + second;
    let rest = blocks_from(whole, first.len() as int, open_from(first, at, open));
    if at == first.len() {
        assert(Seq::<Seq<char>>::empty() + rest =~= rest);
    } else {
        lemma_marks_hold_no_line_feed();
        lemma_mark_in_first(first, second, at, begin_mark());
        lemma_mark_in_first(first, second, at, end_mark());
        assert(at > 0 ==> whole[at - 1] == first[at - 1]);
        assert(is_line_start(whole, at) == is_line_start(first, at));
        if !is_line_start(first, at) {
            lemma_blocks_in_first(first, second, at + 1, open);
        } else {
            match open {
                None => {
                    if stands_at(first, at, begin_mark()) {
                        lemma_blocks_in_first(first, second, at + 1, Some(at));
                    } else {
                        lemma_blocks_in_first(first, second, at + 1, None);
                    }
                },
                Some(start) => {
                    if stands_at(first, at, end_mark()) {
                        lemma_line_end_in_first(first, second, at);
                        lemma_blocks_in_first(first, second, at + 1, None);
                        let stop = line_end(first, at);
                        assert(whole.subrange(start, stop) =~= first.subrange(start, stop));
                        let block = first.subrange(start, stop);
                        assert(seq![block] + (blocks_from(first, at + 1, None) + rest) =~= (seq![
                            block,
                        ] + blocks_from(first, at + 1, None)) + rest);
                    } else {
                        lemma_blocks_in_first(first, second, at + 1, open);
                    }
                },
            }
        }
    }
}

/// A line ends at or behind every position in it, and not behind the text.
proof fn lemma_line_end_bounds(text: Seq<char>, at: int)
    requires
        0 <= at <= text.len(),
    ensures
        at <= line_end(text, at) <= text.len(),
    decreases text.len() - at,
{
    if at < text.len() && text[at] != '\n' {
        lemma_line_end_bounds(text, at + 1);
    }
}

/// The blocks of a text with more before it, where that ends with a line:
/// those of the text alone.
proof fn lemma_blocks_in_second(first: Seq<char>, second: Seq<char>, at: int, open: Option<int>)
    requires
        first.len() == 0 || first.last() == '\n',
        0 <= at <= second.len(),
        open matches Some(start) ==> 0 <= start <= at,
    ensures
        blocks_from(
            first + second,
            first.len() + at,
            match open {
                Some(start) => Some(first.len() + start),
                None => None,
            },
        ) == blocks_from(second, at, open),
    decreases second.len() - at,
{
    let whole = first + second;
    let here = first.len() + at;
    if at < second.len() {
        assert(at > 0 ==> whole[here - 1] == second[at - 1]);
        assert(at == 0 && first.len() > 0 ==> whole[here - 1] == first.last());
        assert(is_line_start(whole, here) == is_line_start(second, at));
        assert(stands_at(whole, here, begin_mark()) == stands_at(second, at, begin_mark())) by {
            if at + begin_mark().len() <= second.len() {
                assert(whole.subrange(here, here + begin_mark().len()) =~= second.subrange(
                    at,
                    at + begin_mark().len(),
                ));
            }
        }
        assert(stands_at(whole, here, end_mark()) == stands_at(second, at, end_mark())) by {
            if at + end_mark().len() <= second.len() {
                assert(whole.subrange(here, here + end_mark().len()) =~= second.subrange(
                    at,
                    at + end_mark().len(),
                ));
            }
        }
        if !is_line_start(second, at) {
            lemma_blocks_in_second(first, second, at + 1, open);
        } else {
            match open {
                None => {
                    if stands_at(second, at, begin_mark()) {
                        lemma_blocks_in_second(first, second, at + 1, Some(at));
                    } else {
                        lemma_blocks_in_second(first, second, at + 1, None);
                    }
                },
                Some(start) => {
                    if stands_at(second, at, end_mark()) {
                        lemma_line_end_in_second(first, second, at);
                        lemma_blocks_in_second(first, second, at + 1, None);
                        let stop = line_end(second, at);
                        assert(whole.subrange(first.len() + start, first.len() + stop)
                            =~= second.subrange(start, stop)) by {
                            lemma_line_end_bounds(second, at);
                        }
                    } else {
                        lemma_blocks_in_second(first, second, at + 1, open);
                    }
                },
            }
        }
    }
}

/// The blocks of two texts written one after the other are those of the
/// first and then those of the second, where the first ends with a line and
/// leaves no block open.
pub proof fn lemma_blocks_of_joined_texts(first: Seq<char>, second: Seq<char>)
    requires
        is_whole(first),
    ensures
        certificate_blocks(first + second) == certificate_blocks(first) + certificate_blocks(
            second,
        ),
{
    if first.len() == 0 {
        assert(first + second =~= second);
        assert(Seq::<Seq<char>>::empty() + certificate_blocks(second) =~= certificate_blocks(
            second,
        ));
    } else {
        lemma_blocks_in_first(first, second, 0, None);
        lemma_blocks_in_second(first, second, 0, None);
    }
}

} // verus!
