use vstd::prelude::*;
use vstd::utf8::{decode_utf8, encode_utf8, valid_utf8};
use crate::framing::{split_frames, take_messages, frames_view, NEWLINE};

verus! {

/// Relies on `String::from_utf8`: it accepts exactly the well-formed UTF-8
/// byte strings and decodes them.
#[verifier::external_body]
fn utf8_text(bytes: Vec<u8>) -> (r: Option<String>)
    ensures
        match r {
            Some(s) => valid_utf8(bytes@) && s@ == decode_utf8(bytes@),
            None => !valid_utf8(bytes@),
        },
{
    String::from_utf8(bytes).ok()
}

/// What one read on a connection produced.
pub enum ReadEvent {
    /// Bytes arrived; an empty chunk means that the peer closed the stream.
    Data(Vec<u8>),
    /// The stream ended.
    End,
    /// The read failed.
    Failed,
}

/// Whether every frame is well-formed UTF-8.
pub open spec fn all_text(frames: Seq<Seq<u8>>) -> bool {
    forall|k: int| 0 <= k < frames.len() ==> valid_utf8(#[trigger] frames[k])
}

/// Whether a read ends the connection: the stream ended or failed, or a frame
/// it completed is not text. A reader that has already let go never does.
pub open spec fn read_disconnects(open: bool, buffer: Seq<u8>, event: ReadEvent) -> bool {
    open && match event {
        ReadEvent::Data(chunk) => chunk@.len() == 0 || !all_text(split_frames(buffer + chunk@).0),
        ReadEvent::End => true,
        ReadEvent::Failed => true,
    }
}

/// The bytes a reader holds after a read.
pub open spec fn read_buffer_after(open: bool, buffer: Seq<u8>, event: ReadEvent) -> Seq<u8> {
    match event {
        ReadEvent::Data(chunk) => if open && chunk@.len() > 0 {
            split_frames(buffer + chunk@).1
        } else {
            buffer
        },
        _ => buffer,
    }
}

/// A reader run over a sequence of reads: whether it is still open, what it
/// holds, and how many times it has reported a disconnect.
pub open spec fn reader_run(open: bool, buffer: Seq<u8>, events: Seq<ReadEvent>) -> (
    bool,
    Seq<u8>,
    nat,
)
    decreases events.len(),
{
    if events.len() == 0 {
        (open, buffer, 0)
    } else {
        let (o, b, n) = reader_run(open, buffer, events.drop_last());
        let e = events.last();
        let d = read_disconnects(o, b, e);
        (o && !d, read_buffer_after(o, b, e), if d {
            n + 1
        } else {
            n
        })
    }
}

/// A connection reports its disconnect once: a reader that starts open
/// reports at most one over any sequence of reads, and exactly one when the
/// stream ends somewhere in it.
pub proof fn lemma_single_disconnect(buffer: Seq<u8>, events: Seq<ReadEvent>)
    ensures
        reader_run(true, buffer, events).2 <= 1,
        reader_run(true, buffer, events).2 == if reader_run(true, buffer, events).0 {
            0nat
        } else {
            1nat
        },
        (exists|i: int| 0 <= i < events.len() && events[i] is End) ==> reader_run(
            true,
            buffer,
            events,
        ).2 == 1,
    decreases events.len(),
{
    if events.len() > 0 {
        let e0 = events.drop_last();
        lemma_single_disconnect(buffer, e0);
        if exists|i: int| 0 <= i < events.len() && events[i] is End {
            let i = choose|i: int| 0 <= i < events.len() && events[i] is End;
            if i < e0.len() {
                assert(e0[i] is End);
            } else {
                assert(events.last() is End);
            }
        }
    }
}

/// The reading side of one connection: it accumulates bytes, hands out
/// complete frames as text, and reports when the connection must be dropped.
pub struct Reader {
    pub client_id: usize,
    pub buffer: Vec<u8>,
    pub open: bool,
}

/// What a reader hands out after one read.
pub struct ReadOutcome {
    /// Frames completed by the read, in order.
    pub frames: Vec<String>,
    /// The connection is over: its client must be removed.
    pub disconnect: bool,
}

impl Reader {
    pub fn new(client_id: usize) -> (r: Reader)
        ensures
            r.client_id == client_id,
            r.buffer@.len() == 0,
            r.open,
    {
        Reader { client_id, buffer: Vec::new(), open: true }
    }

    /// Takes the result of one read. Complete frames are handed out in order
    /// up to the first that is not UTF-8 text; that frame, the end of the
    /// stream or a failed read disconnects the reader.
    pub fn on_read(&mut self, event: ReadEvent) -> (r: ReadOutcome)
        ensures
            final(self).client_id == old(self).client_id,
            r.disconnect == read_disconnects(old(self).open, old(self).buffer@, event),
            final(self).open == (old(self).open && !r.disconnect),
            final(self).buffer@ == read_buffer_after(old(self).open, old(self).buffer@, event),
            ({
                let frames = split_frames(old(self).buffer@ + event->Data_0@).0;
                if old(self).open && event is Data && event->Data_0@.len() > 0 {
                    &&& r.frames@.len() <= frames.len()
                    &&& r.disconnect == (r.frames@.len() < frames.len())
                    &&& forall|k: int| 0 <= k < r.frames@.len() ==> valid_utf8(#[trigger] frames[k])
                    &&& forall|k: int|
                        0 <= k < r.frames@.len() ==> #[trigger] r.frames@[k]@ == decode_utf8(frames[k])
                } else {
                    r.frames@.len() == 0
                }
            }),
    {
        if !self.open {
            return ReadOutcome { frames: Vec::new(), disconnect: false };
        }
        match event {
            ReadEvent::Data(mut chunk) => {
                if chunk.len() == 0 {
                    self.open = false;
                    return ReadOutcome { frames: Vec::new(), disconnect: true };
                }
                let ghost joined = self.buffer@ + chunk@;
                let mut data: Vec<u8> = Vec::new();
                std::mem::swap(&mut data, &mut self.buffer);
                data.append(&mut chunk);
                assert(data@ == joined);
                let (rest, raw) = take_messages(data);
                self.buffer = rest;
                let ghost fs = frames_view(raw@);
                let mut frames: Vec<String> = Vec::new();
                let mut k: usize = 0;
                let mut failed = false;
                while k < raw.len() && !failed
                    invariant
                        fs == frames_view(raw@),
                        fs == split_frames(joined).0,
                        k <= raw.len(),
                        frames@.len() == k,
                        failed ==> k < fs.len() && !valid_utf8(fs[k as int]),
                        forall|j: int| 0 <= j < k ==> valid_utf8(#[trigger] fs[j]),
                        forall|j: int| 0 <= j < k ==> #[trigger] frames@[j]@ == decode_utf8(fs[j]),
                    decreases raw.len() - k, if failed { 0int } else { 1int },
                {
                    let bytes = raw[k].clone();
                    assert(bytes@ == fs[k as int]);
                    match utf8_text(bytes) {
                        Some(text) => {
                            let ghost before = frames@;
                            frames.push(text);
                            assert forall|j: int| 0 <= j < k + 1 implies #[trigger] frames@[j]@
                                == decode_utf8(fs[j]) by {
                                if j < k {
                                    assert(frames@[j] == before[j]);
                                    assert(before[j]@ == decode_utf8(fs[j]));
                                }
                            }
                            k = k + 1;
                        },
                        None => {
                            failed = true;
                        },
                    }
                }
                if failed {
                    self.open = false;
                } else {
                    assert(all_text(fs));
                }
                ReadOutcome { frames, disconnect: failed }
            },
            _ => {
                self.open = false;
                ReadOutcome { frames: Vec::new(), disconnect: true }
            },
        }
    }
}

/// A message for one client's writer.
pub enum Outbound {
    /// A line of text to send.
    Line(String),
    /// Shut the connection down.
    Close,
}

/// What a writer does with one message.
pub enum WriterStep {
    /// Write these bytes to the connection.
    Write(Vec<u8>),
    /// Shut both directions of the connection down and stop.
    Shutdown,
}

/// The bytes of one outbound frame: the line followed by a terminator.
pub fn encode_frame(line: &str) -> (r: Vec<u8>)
    ensures
        r@ == encode_utf8(line@).push(NEWLINE),
{
    let mut bytes = vstd::slice::slice_to_vec(line.as_bytes());
    bytes.push(NEWLINE);
    bytes
}

/// Decides what a writer does with a message: a line is written as one frame,
/// the close sentinel shuts the connection down without being written.
pub fn writer_step(message: Outbound) -> (r: WriterStep)
    ensures
        match message {
            Outbound::Line(s) => r matches WriterStep::Write(b) && b@ == encode_utf8(s@).push(NEWLINE),
            Outbound::Close => r is Shutdown,
        },
{
    match message {
        Outbound::Line(s) => WriterStep::Write(encode_frame(s.as_str())),
        Outbound::Close => WriterStep::Shutdown,
    }
}

} // verus!
