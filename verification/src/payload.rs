//! The payload of an info cell: a record of line-feed-delimited fields.

use vstd::prelude::*;

use crate::error::Error;

verus! {

/// The byte that ends a field.
pub const LINE_FEED: u8 = 10;

/// How many delimiter bytes `data` holds.
pub open spec fn delimiter_count(data: Seq<u8>) -> nat
    decreases data.len(),
{
    if data.len() == 0 {
        0
    } else {
        delimiter_count(data.drop_last()) + if data.last() == LINE_FEED {
            1nat
        } else {
            0nat
        }
    }
}

/// The length of the first field: the number of bytes before the first
/// delimiter, or the whole length where there is none.
pub open spec fn first_segment_len(data: Seq<u8>) -> nat
    decreases data.len(),
{
    if data.len() == 0 || data[0] == LINE_FEED {
        0
    } else {
        1 + first_segment_len(data.drop_first())
    }
}

/// The fields of `data`: the runs of bytes between delimiters, in order.
/// Delimiters are never merged: two neighbouring ones enclose an empty
/// field, a leading one follows an empty field, and a trailing one is
/// followed by one.
pub open spec fn segments(data: Seq<u8>) -> Seq<Seq<u8>>
    decreases data.len(),
{
    let n = first_segment_len(data) as int;
    if n >= data.len() {
        seq![data]
    } else {
        seq![data.take(n)] + segments(data.skip(n + 1))
    }
}

/// A payload is a record when it is not empty, has more than two fields,
/// and its first field is a single byte.
pub open spec fn well_formed(data: Seq<u8>) -> bool {
    &&& data.len() > 0
    &&& segments(data).len() > 2
    &&& segments(data)[0].len() == 1
}

/// The fields put together again, one delimiter between neighbours.
pub open spec fn join(fields: Seq<Seq<u8>>) -> Seq<u8>
    decreases fields.len(),
{
    if fields.len() == 0 {
        Seq::empty()
    } else if fields.len() == 1 {
        fields[0]
    } else {
        fields[0] + seq![LINE_FEED] + join(fields.drop_first())
    }
}

/// What validation of a payload returns.
pub open spec fn validation_outcome(data: Seq<u8>) -> Result<bool, Error> {
    if well_formed(data) {
        Ok(true)
    } else {
        Err(Error::WrongDataStruct)
    }
}

/// The first field ends at the first delimiter, or at the end of the data.
pub proof fn lemma_first_segment(data: Seq<u8>)
    ensures
        first_segment_len(data) <= data.len(),
        forall|i: int| 0 <= i < first_segment_len(data) ==> data[i] != LINE_FEED,
        first_segment_len(data) < data.len() ==> data[first_segment_len(data) as int]
            == LINE_FEED,
    decreases data.len(),
{
    if data.len() == 0 || data[0] == LINE_FEED {
    } else {
        let rest = data.drop_first();
        lemma_first_segment(rest);
        assert forall|i: int| 0 <= i < first_segment_len(data) implies data[i] != LINE_FEED by {
            if i > 0 {
                assert(data[i] == rest[i - 1]);
            }
        }
        if first_segment_len(data) < data.len() {
            assert(data[first_segment_len(data) as int] == rest[first_segment_len(rest) as int]);
        }
    }
}

/// Counting delimiters distributes over concatenation.
pub proof fn lemma_delimiter_count_concat(a: Seq<u8>, b: Seq<u8>)
    ensures
        delimiter_count(a + b) == delimiter_count(a) + delimiter_count(b),
    decreases b.len(),
{
    if b.len() == 0 {
        assert(a + b =~= a);
    } else {
        assert((a + b).drop_last() =~= a + b.drop_last());
        lemma_delimiter_count_concat(a, b.drop_last());
    }
}

/// The count is zero exactly when no byte is a delimiter, and it never
/// exceeds the length.
pub proof fn lemma_delimiter_count_zero(data: Seq<u8>)
    ensures
        delimiter_count(data) <= data.len(),
        delimiter_count(data) == 0 <==> forall|i: int|
            0 <= i < data.len() ==> data[i] != LINE_FEED,
    decreases data.len(),
{
    if data.len() > 0 {
        let front = data.drop_last();
        lemma_delimiter_count_zero(front);
        if delimiter_count(data) == 0 {
            assert forall|i: int| 0 <= i < data.len() implies data[i] != LINE_FEED by {
                if i < front.len() {
                    assert(data[i] == front[i]);
                }
            }
        }
        if forall|i: int| 0 <= i < data.len() ==> data[i] != LINE_FEED {
            assert forall|i: int| 0 <= i < front.len() implies front[i] != LINE_FEED by {
                assert(front[i] == data[i]);
            }
        }
    }
}

/// There is one field more than there are delimiters.
pub proof fn lemma_segments_len(data: Seq<u8>)
    ensures
        segments(data).len() == delimiter_count(data) + 1,
    decreases data.len(),
{
    let n = first_segment_len(data) as int;
    lemma_first_segment(data);
    if n >= data.len() {
        lemma_delimiter_count_zero(data);
    } else {
        let head = data.take(n);
        let rest = data.skip(n + 1);
        lemma_segments_len(rest);
        lemma_delimiter_count_zero(head);
        assert(delimiter_count(seq![LINE_FEED]) == 1) by {
            assert(seq![LINE_FEED].drop_last() =~= Seq::<u8>::empty());
            reveal_with_fuel(delimiter_count, 2);
        }
        assert(data =~= head + seq![LINE_FEED] + rest);
        lemma_delimiter_count_concat(head, seq![LINE_FEED]);
        lemma_delimiter_count_concat(head + seq![LINE_FEED], rest);
    }
}

/// Splitting is a pure partition: no field holds a delimiter, and the
/// fields joined by single delimiters are the data again, byte for byte.
pub proof fn lemma_segments_partition(data: Seq<u8>)
    ensures
        join(segments(data)) == data,
        forall|k: int, i: int|
            0 <= k < segments(data).len() && 0 <= i < segments(data)[k].len()
                ==> segments(data)[k][i] != LINE_FEED,
    decreases data.len(),
{
    let n = first_segment_len(data) as int;
    lemma_first_segment(data);
    if n >= data.len() {
    } else {
        let head = data.take(n);
        let rest = data.skip(n + 1);
        let tail = segments(rest);
        lemma_segments_partition(rest);
        lemma_segments_len(rest);
        let all = segments(data);
        assert(all == seq![head] + tail);
        assert(all.drop_first() =~= tail);
        assert(join(all) == head + seq![LINE_FEED] + join(tail));
        assert(data =~= head + seq![LINE_FEED] + rest);
        assert forall|k: int, i: int|
            0 <= k < all.len() && 0 <= i < all[k].len() implies all[k][i] != LINE_FEED by {
            if k == 0 {
                assert(all[0][i] == data[i]);
            } else {
                assert(all[k] == tail[k - 1]);
            }
        }
    }
}

/// A payload is a record exactly when it holds at least two delimiters and
/// its first field is one byte long.
pub proof fn lemma_well_formed(data: Seq<u8>)
    ensures
        well_formed(data) <==> delimiter_count(data) >= 2 && first_segment_len(data) == 1,
        segments(data).len() >= 1,
        segments(data)[0].len() == first_segment_len(data),
{
    lemma_segments_len(data);
    lemma_first_segment(data);
    lemma_delimiter_count_zero(data);
}

/// A payload is a record exactly when its first byte is no delimiter, its
/// second byte is one, and another delimiter follows somewhere.
pub proof fn lemma_well_formed_bytes(data: Seq<u8>)
    ensures
        well_formed(data) <==> {
            &&& data.len() >= 3
            &&& data[0] != LINE_FEED
            &&& data[1] == LINE_FEED
            &&& exists|j: int| 2 <= j < data.len() && data[j] == LINE_FEED
        },
{
    lemma_well_formed(data);
    lemma_first_segment(data);
    lemma_delimiter_count_zero(data);
    if data.len() >= 2 {
        let head = data.take(2);
        let tail = data.skip(2);
        assert(data =~= head + tail);
        lemma_delimiter_count_concat(head, tail);
        lemma_delimiter_count_zero(tail);
        assert(delimiter_count(head) == if data[1] == LINE_FEED { 1nat } else { 0nat } + if data[0]
            == LINE_FEED { 1nat } else { 0nat }) by {
            assert(head.drop_last().drop_last() =~= Seq::<u8>::empty());
            reveal_with_fuel(delimiter_count, 3);
        }
        assert(first_segment_len(data) == 1 <==> data[0] != LINE_FEED && data[1] == LINE_FEED) by {
            reveal_with_fuel(first_segment_len, 2);
        }
        if well_formed(data) {
            assert(delimiter_count(tail) >= 1);
            let i = choose|i: int| 0 <= i < tail.len() && tail[i] == LINE_FEED;
            assert(data[i + 2] == LINE_FEED);
        }
        if data[0] != LINE_FEED && data[1] == LINE_FEED && exists|j: int|
            2 <= j < data.len() && data[j] == LINE_FEED {
            let j = choose|j: int| 2 <= j < data.len() && data[j] == LINE_FEED;
            assert(tail[j - 2] == LINE_FEED);
        }
    }
}

/// Counts the delimiters of `data` in one pass.
pub fn count_delimiters(data: &[u8]) -> (n: usize)
    ensures
        n == delimiter_count(data@),
        n + 1 == segments(data@).len(),
{
    proof {
        lemma_segments_len(data@);
    }
    let mut n: usize = 0;
    let mut i: usize = 0;
    while i < data.len()
        invariant
            i <= data.len(),
            n <= i,
            n == delimiter_count(data@.take(i as int)),
        decreases data.len() - i,
    {
        proof {
            assert(data@.take(i + 1).drop_last() =~= data@.take(i as int));
        }
        if data[i] == LINE_FEED {
            n = n + 1;
        }
        i = i + 1;
    }
    proof {
        assert(data@.take(i as int) =~= data@);
    }
    n
}

/// Measures the first field of `data`: the bytes before its first delimiter.
pub fn measure_first_segment(data: &[u8]) -> (n: usize)
    ensures
        n == first_segment_len(data@),
        n == segments(data@)[0].len(),
{
    proof {
        lemma_well_formed(data@);
    }
    let mut i: usize = 0;
    proof {
        assert(data@.skip(0) =~= data@);
    }
    while i < data.len() && data[i] != LINE_FEED
        invariant
            i <= data.len(),
            first_segment_len(data@) == i + first_segment_len(data@.skip(i as int)),
        decreases data.len() - i,
    {
        proof {
            assert(data@.skip(i as int).drop_first() =~= data@.skip(i + 1));
        }
        i = i + 1;
    }
    i
}

/// Decides whether `data` is a record, in two passes over the bytes.
pub fn is_record(data: &[u8]) -> (yes: bool)
    ensures
        yes == well_formed(data@),
{
    data.len() > 0 && count_delimiters(data) >= 2 && measure_first_segment(data) == 1
}

/// Validates the payload of the info cell.
///
/// Returns `Ok(true)` for a record and `WrongDataStruct` for anything else:
/// for the empty payload, for one with fewer than two delimiters, and for
/// one whose first field is not exactly one byte, whatever the later fields
/// hold.
pub fn check_data_struct(data: Vec<u8>) -> (r: Result<bool, Error>)
    ensures
        r == validation_outcome(data@),
        data@.len() == 0 ==> r == Err::<bool, Error>(Error::WrongDataStruct),
        delimiter_count(data@) < 2 ==> r == Err::<bool, Error>(Error::WrongDataStruct),
        segments(data@)[0].len() != 1 ==> r == Err::<bool, Error>(Error::WrongDataStruct),
{
    proof {
        lemma_well_formed(data@);
    }
    if is_record(data.as_slice()) {
        Ok(true)
    } else {
        Err(Error::WrongDataStruct)
    }
}

} // verus!
