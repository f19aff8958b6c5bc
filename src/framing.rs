use vstd::prelude::*;
use vstd::utf8::{decode_utf8, valid_utf8};

verus! {

/// The byte that ends a frame.
pub const NEWLINE: u8 = 10;

/// Whether a byte string holds a frame terminator.
pub open spec fn has_newline(s: Seq<u8>) -> bool {
    exists|i: int| 0 <= i < s.len() && s[i] == NEWLINE
}

/// Splits a byte string into its complete frames and its unterminated tail.
///
/// Read from the front, every terminator closes the bytes seen since the
/// previous one as a frame; what follows the last terminator is the tail.
pub open spec fn split_frames(s: Seq<u8>) -> (Seq<Seq<u8>>, Seq<u8>)
    decreases s.len(),
{
    if s.len() == 0 {
        (Seq::empty(), Seq::empty())
    } else {
        let (frames, tail) = split_frames(s.drop_last());
        if s.last() == NEWLINE {
            (frames.push(tail), Seq::empty())
        } else {
            (frames, tail.push(s.last()))
        }
    }
}

/// The bytes of a sequence of lines, each followed by a terminator.
pub open spec fn join_lines(lines: Seq<Seq<u8>>) -> Seq<u8>
    decreases lines.len(),
{
    if lines.len() == 0 {
        Seq::empty()
    } else {
        join_lines(lines.drop_last()) + lines.last().push(NEWLINE)
    }
}

/// The bytes of a sequence of chunks, one after the other.
pub open spec fn concat_chunks(chunks: Seq<Seq<u8>>) -> Seq<u8>
    decreases chunks.len(),
{
    if chunks.len() == 0 {
        Seq::empty()
    } else {
        concat_chunks(chunks.drop_last()) + chunks.last()
    }
}

/// What a framer that starts empty has emitted, and what it holds, after it
/// was fed the chunks one by one: each chunk is appended to the held tail and
/// the result split again.
pub open spec fn feed_chunks(chunks: Seq<Seq<u8>>) -> (Seq<Seq<u8>>, Seq<u8>)
    decreases chunks.len(),
{
    if chunks.len() == 0 {
        (Seq::empty(), Seq::empty())
    } else {
        let (emitted, held) = feed_chunks(chunks.drop_last());
        let (frames, tail) = split_frames(held + chunks.last());
        (emitted + frames, tail)
    }
}

/// The frames of a byte string as a sequence of views.
pub open spec fn frames_view(frames: Seq<Vec<u8>>) -> Seq<Seq<u8>> {
    frames.map_values(|f: Vec<u8>| f@)
}

/// A string without terminators is all tail.
pub proof fn lemma_split_without_newline(s: Seq<u8>)
    requires
        !has_newline(s),
    ensures
        split_frames(s) == (Seq::<Seq<u8>>::empty(), s),
    decreases s.len(),
{
    if s.len() > 0 {
        assert(!has_newline(s.drop_last())) by {
            if has_newline(s.drop_last()) {
                let i = choose|i: int| 0 <= i < s.drop_last().len() && s.drop_last()[i] == NEWLINE;
                assert(s[i] == NEWLINE);
            }
        }
        lemma_split_without_newline(s.drop_last());
        assert(s.last() != NEWLINE) by {
            assert(s[s.len() - 1] == s.last());
        }
        assert(s.drop_last().push(s.last()) =~= s);
    }
}

/// The tail never holds a terminator, nor does any frame.
pub proof fn lemma_split_parts_have_no_newline(s: Seq<u8>)
    ensures
        !has_newline(split_frames(s).1),
        forall|k: int|
            0 <= k < split_frames(s).0.len() ==> !has_newline(#[trigger] split_frames(s).0[k]),
    decreases s.len(),
{
    if s.len() > 0 {
        lemma_split_parts_have_no_newline(s.drop_last());
        let (frames, tail) = split_frames(s.drop_last());
        if s.last() != NEWLINE {
            let t2 = tail.push(s.last());
            assert forall|i: int| 0 <= i < t2.len() implies t2[i] != NEWLINE by {
                if i < tail.len() {
                    assert(t2[i] == tail[i]);
                }
            }
        } else {
            assert forall|k: int|
                0 <= k < frames.push(tail).len() implies !has_newline(
                #[trigger] frames.push(tail)[k],
            ) by {
                if k < frames.len() {
                    assert(frames.push(tail)[k] == frames[k]);
                }
            }
        }
    }
}

/// Splitting in two steps: splitting `x`, then splitting its tail followed by
/// `y`, emits the same frames and keeps the same tail as splitting `x + y`.
pub proof fn lemma_split_append(x: Seq<u8>, y: Seq<u8>)
    ensures
        ({
            let (f1, t1) = split_frames(x);
            let (f2, t2) = split_frames(t1 + y);
            split_frames(x + y) == (f1 + f2, t2)
        }),
    decreases y.len(),
{
    let (f1, t1) = split_frames(x);
    if y.len() == 0 {
        lemma_split_parts_have_no_newline(x);
        lemma_split_without_newline(t1);
        assert(x + y =~= x);
        assert(t1 + y =~= t1);
        assert(f1 + Seq::<Seq<u8>>::empty() =~= f1);
    } else {
        let y0 = y.drop_last();
        lemma_split_append(x, y0);
        assert((x + y).drop_last() =~= x + y0);
        assert((t1 + y).drop_last() =~= t1 + y0);
        assert((x + y).last() == y.last());
        assert((t1 + y).last() == y.last());
        let (f2, t2) = split_frames(t1 + y0);
        assert((f1 + f2).push(t2) =~= f1 + f2.push(t2));
    }
}

/// Framing round trip: whatever the split of a byte stream into chunks, a
/// stream made of complete lines followed by an unterminated remainder
/// yields exactly those lines, in order and byte for byte, and leaves
/// exactly the remainder held.
pub proof fn lemma_framing_round_trip(
    lines: Seq<Seq<u8>>,
    remainder: Seq<u8>,
    chunks: Seq<Seq<u8>>,
)
    requires
        forall|k: int| 0 <= k < lines.len() ==> !has_newline(#[trigger] lines[k]),
        !has_newline(remainder),
        concat_chunks(chunks) == join_lines(lines) + remainder,
    ensures
        feed_chunks(chunks) == (lines, remainder),
{
    lemma_feed_is_split(chunks);
    lemma_split_joined_lines(lines);
    lemma_split_append(join_lines(lines), remainder);
    lemma_split_without_newline(remainder);
    assert(Seq::<u8>::empty() + remainder =~= remainder);
    assert(lines + Seq::<Seq<u8>>::empty() =~= lines);
}

/// Feeding chunks one by one splits their concatenation.
pub proof fn lemma_feed_is_split(chunks: Seq<Seq<u8>>)
    ensures
        feed_chunks(chunks) == split_frames(concat_chunks(chunks)),
    decreases chunks.len(),
{
    if chunks.len() > 0 {
        lemma_feed_is_split(chunks.drop_last());
        lemma_split_append(concat_chunks(chunks.drop_last()), chunks.last());
    }
}

/// Lines with no terminator of their own, each terminated, split back into
/// themselves with nothing held.
pub proof fn lemma_split_joined_lines(lines: Seq<Seq<u8>>)
    requires
        forall|k: int| 0 <= k < lines.len() ==> !has_newline(#[trigger] lines[k]),
    ensures
        split_frames(join_lines(lines)) == (lines, Seq::<u8>::empty()),
    decreases lines.len(),
{
    if lines.len() > 0 {
        let l0 = lines.drop_last();
        let line = lines.last();
        assert forall|k: int| 0 <= k < l0.len() implies !has_newline(#[trigger] l0[k]) by {
            assert(l0[k] == lines[k]);
        }
        lemma_split_joined_lines(l0);
        lemma_split_append(join_lines(l0), line.push(NEWLINE));
        assert(!has_newline(line)) by {
            assert(line == lines[lines.len() - 1]);
        }
        lemma_split_without_newline(line);
        assert(line.push(NEWLINE).drop_last() =~= line);
        assert(Seq::<u8>::empty() + line.push(NEWLINE) =~= line.push(NEWLINE));
        assert(l0.push(line) =~= lines);
        assert(l0 + seq![line] =~= lines);
    }
}

/// Splits accumulated bytes into the complete frames they hold, in order,
/// and the unterminated tail that must wait for more bytes.
pub fn take_messages(data: Vec<u8>) -> (r: (Vec<u8>, Vec<Vec<u8>>))
    ensures
        (frames_view(r.1@), r.0@) == split_frames(data@),
{
    let mut frames: Vec<Vec<u8>> = Vec::new();
    let mut current: Vec<u8> = Vec::new();
    let mut i: usize = 0;
    while i < data.len()
        invariant
            i <= data.len(),
            (frames_view(frames@), current@) == split_frames(data@.subrange(0, i as int)),
        decreases data.len() - i,
    {
        let b = data[i];
        proof {
            let next = data@.subrange(0, i + 1);
            assert(next.drop_last() =~= data@.subrange(0, i as int));
            assert(next.last() == b);
        }
        if b == NEWLINE {
            let ghost before = frames@;
            let ghost line = current@;
            frames.push(current);
            current = Vec::new();
            assert(frames_view(frames@) =~= frames_view(before).push(line));
        } else {
            current.push(b);
        }
        i = i + 1;
    }
    assert(data@.subrange(0, data@.len() as int) =~= data@);
    (current, frames)
}

} // verus!
