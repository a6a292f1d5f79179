//! Which files of a Metalink document are wanted.
use vstd::prelude::*;
use crate::metalink_types::{MetalinkError, MAX_METALINK_FILES};
use crate::order::{sort_keys, sorted_keys, OrderKey};
use crate::text::{
    byte_len, char_from, char_lists, chars_of, find_char, parse_unsigned, parsed_unsigned, parts, slice_chars,
    split_chars,
};

verus! {

/// How many ranges a selection may hold.
pub const MAX_SELECTION_RANGES: usize = 1024;

/// How many bytes a selection may hold.
pub const MAX_SELECTION_BYTES: usize = 65536;

/// The two ends of a range: around the first dash, or the same number twice.
pub open spec fn range_ends(part: Seq<char>) -> (Seq<char>, Seq<char>) {
    match char_from(part, '-', 0) {
        Some(i) => (part.subrange(0, i), part.subrange(i + 1, part.len() as int)),
        None => (part, part),
    }
}

/// The range that a part spells, if it is one: from a positive number up to one
/// no smaller, within what a document can hold.
pub open spec fn range_of(part: Seq<char>) -> Option<(int, int)> {
    let (start, end) = range_ends(part);
    match (parsed_unsigned(start, u32::MAX as int), parsed_unsigned(end, u32::MAX as int)) {
        (Some(start), Some(end)) => if start == 0 || end < start || end > MAX_METALINK_FILES {
            None
        } else {
            Some((start, end))
        },
        _ => None,
    }
}

/// The ranges of the first `n` parts as sort keys, or the first fault.
pub open spec fn ranges_of(all: Seq<Seq<char>>, n: int) -> Result<Seq<OrderKey>, MetalinkError>
    decreases n,
{
    if n <= 0 {
        Ok(Seq::empty())
    } else {
        match ranges_of(all, n - 1) {
            Err(error) => Err(error),
            Ok(before) => if before.len() == MAX_SELECTION_RANGES {
                Err(MetalinkError::Limit)
            } else {
                match range_of(all[n - 1]) {
                    Some((start, end)) => Ok(
                        before.push(OrderKey { rank: start as u64, position: end as u64, id: 0 }),
                    ),
                    None => Err(MetalinkError::Selection),
                }
            },
        }
    }
}

/// Whether a range ends before the next begins.
pub open spec fn ends_before_next(ranges: Seq<OrderKey>, i: int) -> bool {
    ranges[i].position < ranges[i + 1].rank
}

/// Whether each range ends before the next begins.
pub open spec fn apart(ranges: Seq<OrderKey>) -> bool {
    forall|i: int| 0 <= i < ranges.len() - 1 ==> #[trigger] ends_before_next(ranges, i)
}

/// The ranges that a selection spells, in ascending order; none where there is
/// no selection.
pub open spec fn selection(text: Option<Seq<char>>) -> Result<Seq<OrderKey>, MetalinkError> {
    match text {
        None => Ok(Seq::empty()),
        Some(text) => if text.len() == 0 || byte_len(text) > MAX_SELECTION_BYTES {
            Err(MetalinkError::Selection)
        } else {
            match ranges_of(parts(text, ','), parts(text, ',').len() as int) {
                Err(error) => Err(error),
                Ok(ranges) => if apart(sorted_keys(ranges)) {
                    Ok(sorted_keys(ranges))
                } else {
                    Err(MetalinkError::Selection)
                },
            }
        },
    }
}

fn parse_range(part: &Vec<char>) -> (r: Option<OrderKey>)
    ensures
        r is Some <==> range_of(part@) is Some,
        r matches Some(key) ==> range_of(part@) == Some((key.rank as int, key.position as int)) && key.id == 0,
{
    let (start, end) = match find_char(part, '-', 0) {
        Some(i) => (slice_chars(part, 0, i), slice_chars(part, i + 1, part.len())),
        None => (slice_chars(part, 0, part.len()), slice_chars(part, 0, part.len())),
    };
    assert(part@.subrange(0, part@.len() as int) =~= part@);
    match (parse_unsigned(&start, u32::MAX as u64), parse_unsigned(&end, u32::MAX as u64)) {
        (Some(start), Some(end)) => {
            if start == 0 || end < start || end > MAX_METALINK_FILES as u64 {
                None
            } else {
                Some(OrderKey { rank: start, position: end, id: 0 })
            }
        },
        _ => None,
    }
}

/// A fault among the first parts is the fault of them all.
proof fn lemma_ranges_fault(all: Seq<Seq<char>>, n: int, m: int)
    requires
        0 <= n <= m,
        ranges_of(all, n) is Err,
    ensures
        ranges_of(all, m) == ranges_of(all, n),
    decreases m - n,
{
    if n < m {
        lemma_ranges_fault(all, n, m - 1);
    }
}

/// Reads a selection such as `1,3-5`.
pub fn parse_selection(value: Option<&str>) -> (r: Result<Vec<OrderKey>, MetalinkError>)
    ensures
        (match r {
            Ok(ranges) => Ok::<Seq<OrderKey>, MetalinkError>(ranges@),
            Err(error) => Err::<Seq<OrderKey>, MetalinkError>(error),
        }) == selection(
            match value {
                Some(value) => Some(value@),
                None => None,
            },
        ),
{
    let text = match value {
        Some(text) => text,
        None => {
            let none: Vec<OrderKey> = Vec::new();
            assert(none@ =~= Seq::empty());
            return Ok(none);
        },
    };
    if text.is_empty() || text.len() > MAX_SELECTION_BYTES {
        return Err(MetalinkError::Selection);
    }
    let chars = chars_of(text);
    let all = split_chars(&chars, ',');
    let ghost texts = parts(text@, ',');
    let mut ranges: Vec<OrderKey> = Vec::new();
    let mut i: usize = 0;
    while i < all.len()
        invariant
            i <= all.len(),
            char_lists(all@) == texts,
            ranges_of(texts, i as int) == Ok::<Seq<OrderKey>, MetalinkError>(ranges@),
            texts == parts(text@, ','),
            value == Some(text),
            text@.len() != 0,
            byte_len(text@) <= MAX_SELECTION_BYTES,
        decreases all.len() - i,
    {
        assert(char_lists(all@)[i as int] == all@[i as int]@);
        proof {
            if ranges_of(texts, i as int + 1) is Err {
                lemma_ranges_fault(texts, i as int + 1, texts.len() as int);
            }
        }
        if ranges.len() == MAX_SELECTION_RANGES {
            return Err(MetalinkError::Limit);
        }
        match parse_range(&all[i]) {
            Some(key) => ranges.push(key),
            None => return Err(MetalinkError::Selection),
        }
        i = i + 1;
    }
    let sorted = sort_keys(&ranges);
    let mut k: usize = 0;
    while k + 1 < sorted.len()
        invariant
            sorted@ == sorted_keys(ranges@),
            k <= sorted.len(),
            k < sorted.len() || k == 0,
            value == Some(text),
            selection(Some(text@)) == (if apart(sorted@) {
                Ok::<Seq<OrderKey>, MetalinkError>(sorted@)
            } else {
                Err::<Seq<OrderKey>, MetalinkError>(MetalinkError::Selection)
            }),
            forall|i: int| 0 <= i < k ==> #[trigger] ends_before_next(sorted@, i),
        decreases sorted.len() - k,
    {
        if sorted[k].position >= sorted[k + 1].rank {
            assert(!ends_before_next(sorted@, k as int));
            return Err(MetalinkError::Selection);
        }
        k = k + 1;
    }
    Ok(sorted)
}

/// Whether a file is wanted: every file where nothing was selected, else those
/// in a range.
pub open spec fn wanted(ranges: Seq<OrderKey>, index: u32) -> bool {
    ranges.len() == 0 || exists|i: int|
        0 <= i < ranges.len() && (#[trigger] ranges[i]).rank <= index <= ranges[i].position
}

pub(crate) fn is_wanted(ranges: &Vec<OrderKey>, index: u32) -> (r: bool)
    ensures
        r == wanted(ranges@, index),
{
    if ranges.len() == 0 {
        return true;
    }
    let mut i: usize = 0;
    while i < ranges.len()
        invariant
            i <= ranges.len(),
            ranges.len() > 0,
            forall|k: int| 0 <= k < i ==> !((#[trigger] ranges@[k]).rank <= index <= ranges@[k].position),
        decreases ranges.len() - i,
    {
        if ranges[i].rank <= index as u64 && index as u64 <= ranges[i].position {
            return true;
        }
        i = i + 1;
    }
    false
}

} // verus!
