//! The plaintext line format: one record per line, each line closed by a
//! single line feed, nothing before, between or after the lines.

use vstd::prelude::*;
use vstd::string::StringSliceAdditionalSpecFns;
use vstd::utf8::{char_u32_cast, encode_scalar, encode_utf8};

verus! {

/// The byte that closes every record on the wire.
pub const LINE_FEED: u8 = 0x0a;

/// One record as it stands on the wire: its bytes, then the line feed.
pub open spec fn line(record: Seq<u8>) -> Seq<u8> {
    record.push(LINE_FEED)
}

/// A batch on the wire: the lines of its records, in order.
pub open spec fn frame(records: Seq<Seq<u8>>) -> Seq<u8>
    decreases records.len(),
{
    if records.len() == 0 {
        Seq::empty()
    } else {
        frame(records.drop_last()) + line(records.last())
    }
}

/// The UTF-8 bytes of each record of a batch of strings.
pub open spec fn record_bytes(data: Seq<&str>) -> Seq<Seq<u8>> {
    Seq::new(data.len(), |i: int| data[i].spec_bytes())
}

/// Encodes a batch for the wire.
pub fn encode(data: &[&str]) -> (out: Vec<u8>)
    ensures
        out@ == frame(record_bytes(data@)),
{
    let mut out: Vec<u8> = Vec::new();
    let mut i: usize = 0;
    while i < data.len()
        invariant
            i <= data.len(),
            out@ == frame(record_bytes(data@).take(i as int)),
        decreases data.len() - i,
    {
        proof {
            let done = record_bytes(data@).take(i as int);
            let next = record_bytes(data@).take(i + 1);
            assert(next.drop_last() =~= done);
            assert(next.last() == data@[i as int].spec_bytes());
        }
        out.extend_from_slice(data[i].as_bytes());
        out.push(LINE_FEED);
        i += 1;
    }
    proof {
        assert(record_bytes(data@).take(i as int) =~= record_bytes(data@));
    }
    out
}

/// Where the record `k` of a batch begins on the wire: behind the lines of
/// the records before it.
pub open spec fn offset(records: Seq<Seq<u8>>, k: int) -> int
    decreases k,
{
    if k <= 0 {
        0
    } else {
        offset(records, k - 1) + records[k - 1].len() + 1
    }
}

/// Whether a record is free of line feeds, so that it makes one line.
pub open spec fn one_line(record: Seq<u8>) -> bool {
    forall|i: int| 0 <= i < record.len() ==> record[i] != LINE_FEED
}

/// The bytes before the first line feed.
pub open spec fn head(bytes: Seq<u8>) -> Seq<u8>
    decreases bytes.len(),
{
    if bytes.len() == 0 || bytes.first() == LINE_FEED {
        Seq::empty()
    } else {
        seq![bytes.first()] + head(bytes.drop_first())
    }
}

/// The closed lines that a reader finds on the wire, each without its line
/// feed. Bytes behind the last line feed belong to no closed line.
pub open spec fn lines(bytes: Seq<u8>) -> Seq<Seq<u8>>
    decreases bytes.len(),
{
    let first = head(bytes);
    if first.len() < bytes.len() {
        seq![first] + lines(bytes.skip(first.len() as int + 1))
    } else {
        Seq::empty()
    }
}

/// A line in front of a stream is found again as the stream's head.
proof fn lemma_head_of_line(record: Seq<u8>, rest: Seq<u8>)
    requires
        one_line(record),
    ensures
        head(line(record) + rest) == record,
    decreases record.len(),
{
    let stream = line(record) + rest;
    if record.len() == 0 {
        assert(stream.first() == LINE_FEED);
        assert(head(stream) =~= record);
    } else {
        let tail = record.drop_first();
        assert(stream.first() == record[0]);
        assert(stream.drop_first() =~= line(tail) + rest);
        assert forall|i: int| 0 <= i < tail.len() implies tail[i] != LINE_FEED by {
            assert(tail[i] == record[i + 1]);
        }
        lemma_head_of_line(tail, rest);
        assert(seq![record[0]] + tail =~= record);
    }
}

/// The wire bytes of two batches in a row are those of the first batch,
/// then those of the second.
pub proof fn lemma_frame_concat(a: Seq<Seq<u8>>, b: Seq<Seq<u8>>)
    ensures
        frame(a + b) == frame(a) + frame(b),
    decreases b.len(),
{
    if b.len() == 0 {
        assert(a + b =~= a);
        assert(frame(a) + frame(b) =~= frame(a));
    } else {
        assert((a + b).drop_last() =~= a + b.drop_last());
        assert((a + b).last() == b.last());
        lemma_frame_concat(a, b.drop_last());
        assert(frame(a + b) =~= frame(a) + frame(b));
    }
}

/// The wire bytes of a batch begin with the line of its first record.
pub proof fn lemma_frame_first(records: Seq<Seq<u8>>)
    requires
        records.len() > 0,
    ensures
        frame(records) == line(records.first()) + frame(records.drop_first()),
{
    let one = seq![records.first()];
    assert(one + records.drop_first() =~= records);
    lemma_frame_concat(one, records.drop_first());
    assert(one.drop_last() =~= Seq::<Seq<u8>>::empty());
    assert(frame(one.drop_last()) =~= Seq::<u8>::empty());
    assert(frame(one) =~= line(records.first()));
}

/// The layout of a batch on the wire: every record stands at its offset,
/// with a line feed right behind it, and the last line feed ends the bytes.
/// So the wire holds one line for each record, in the order of the batch, and
/// not a byte more.
pub proof fn lemma_frame_layout(records: Seq<Seq<u8>>)
    ensures
        frame(records).len() == offset(records, records.len() as int),
        forall|k: int|
            0 <= k < records.len() ==> {
                let at = #[trigger] offset(records, k);
                &&& 0 <= at
                &&& at + records[k].len() < frame(records).len()
                &&& frame(records).subrange(at, at + records[k].len()) == records[k]
                &&& frame(records)[at + records[k].len()] == LINE_FEED
            },
    decreases records.len(),
{
    if records.len() > 0 {
        let n = records.len() as int;
        let front = records.drop_last();
        lemma_frame_layout(front);
        lemma_offset_of_prefix(records, front, n - 1);
        assert forall|k: int| 0 <= k < records.len() implies {
            let at = #[trigger] offset(records, k);
            &&& 0 <= at
            &&& at + records[k].len() < frame(records).len()
            &&& frame(records).subrange(at, at + records[k].len()) == records[k]
            &&& frame(records)[at + records[k].len()] == LINE_FEED
        } by {
            let at = offset(records, k);
            if k < n - 1 {
                lemma_offset_of_prefix(records, front, k);
                assert(front[k] == records[k]);
                assert(offset(front, k) == at);
                assert(frame(records).subrange(at, at + records[k].len()) =~= frame(
                    front,
                ).subrange(at, at + records[k].len()));
            } else {
                assert(frame(records).subrange(at, at + records[k].len()) =~= records[k]);
            }
        }
    }
}

/// Offsets depend only on the records before them.
proof fn lemma_offset_of_prefix(records: Seq<Seq<u8>>, front: Seq<Seq<u8>>, k: int)
    requires
        0 <= k <= front.len() <= records.len(),
        forall|j: int| 0 <= j < front.len() ==> front[j] == records[j],
    ensures
        offset(front, k) == offset(records, k),
    decreases k,
{
    if k > 0 {
        lemma_offset_of_prefix(records, front, k - 1);
    }
}

/// Where no record holds a line feed, a reader of the wire finds the records
/// of the batch again: as many lines as records, in the same order, each
/// line one record, byte for byte.
pub proof fn lemma_lines_of_frame(records: Seq<Seq<u8>>)
    requires
        forall|k: int| 0 <= k < records.len() ==> one_line(#[trigger] records[k]),
    ensures
        lines(frame(records)) == records,
    decreases records.len(),
{
    if records.len() == 0 {
        assert(lines(frame(records)) =~= records);
    } else {
        let first = records.first();
        let rest = records.drop_first();
        lemma_frame_first(records);
        lemma_head_of_line(first, frame(rest));
        assert(frame(records).skip(first.len() as int + 1) =~= frame(rest));
        assert forall|k: int| 0 <= k < rest.len() implies one_line(#[trigger] rest[k]) by {
            assert(rest[k] == records[k + 1]);
        }
        lemma_lines_of_frame(rest);
        assert(seq![first] + rest =~= records);
    }
}

/// Whether a string is free of line feed characters.
pub open spec fn one_line_str(s: &str) -> bool {
    forall|i: int| 0 <= i < s@.len() ==> s@[i] != '\n'
}

/// No byte of the UTF-8 encoding of a scalar value other than the line feed
/// is a line feed: a scalar of one byte is that byte, and every byte of a
/// longer encoding has its high bit set.
proof fn lemma_scalar_has_no_feed(v: u32)
    by (bit_vector)
    requires
        v != 0x0a,
    ensures
        v <= 0x7f ==> (v & 0x7f) as u8 != 0x0a,
        0xc0 | ((v >> 6) & 0x1f) as u8 != 0x0a,
        0xe0 | ((v >> 12) & 0x0f) as u8 != 0x0a,
        0xf0 | ((v >> 18) & 0x07) as u8 != 0x0a,
        0x80 | (v & 0x3f) as u8 != 0x0a,
        0x80 | ((v >> 6) & 0x3f) as u8 != 0x0a,
        0x80 | ((v >> 12) & 0x3f) as u8 != 0x0a,
{
}

/// The UTF-8 bytes of characters other than the line feed hold no line feed.
proof fn lemma_chars_have_no_feed(chars: Seq<char>)
    requires
        forall|i: int| 0 <= i < chars.len() ==> chars[i] != '\n',
    ensures
        one_line(encode_utf8(chars)),
    decreases chars.len(),
{
    if chars.len() > 0 {
        let v = chars[0] as u32;
        let first = encode_scalar(v);
        let rest = chars.drop_first();
        assert(v != 0x0a) by {
            if v == 0x0a {
                char_u32_cast(chars[0], v);
                assert(chars[0] == '\n');
            }
        }
        lemma_scalar_has_no_feed(v);
        assert forall|i: int| 0 <= i < rest.len() implies rest[i] != '\n' by {
            assert(rest[i] == chars[i + 1]);
        }
        lemma_chars_have_no_feed(rest);
        assert forall|i: int| 0 <= i < encode_utf8(chars).len() implies encode_utf8(chars)[i]
            != LINE_FEED by {
            if i >= first.len() {
                assert(encode_utf8(chars)[i] == encode_utf8(rest)[i - first.len()]);
            }
        }
    }
}

/// A string without a line feed character makes one line on the wire.
pub proof fn lemma_one_line_str(s: &str)
    requires
        one_line_str(s),
    ensures
        one_line(s.spec_bytes()),
{
    lemma_chars_have_no_feed(s@);
}

/// Where no record of a batch of strings holds a line feed character, a
/// reader of the wire finds as many lines as the batch has records, and each
/// line is the UTF-8 encoding of its record.
pub proof fn lemma_lines_of_batch(data: Seq<&str>)
    requires
        forall|k: int| 0 <= k < data.len() ==> one_line_str(#[trigger] data[k]),
    ensures
        lines(frame(record_bytes(data))) == record_bytes(data),
        lines(frame(record_bytes(data))).len() == data.len(),
{
    assert forall|k: int| 0 <= k < record_bytes(data).len() implies one_line(
        #[trigger] record_bytes(data)[k],
    ) by {
        lemma_one_line_str(data[k]);
    }
    lemma_lines_of_frame(record_bytes(data));
}

} // verus!
