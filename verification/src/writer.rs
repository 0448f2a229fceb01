use crate::codec::spec_into_bytes;
use crate::packet::{
    lemma_table_sum_bounds, spec_lacing, spec_table_sum, spec_write_len, OggPacket,
    OggPacketType, OggPacketView,
};
use vstd::prelude::*;
use vstd::slice::slice_subrange;

verus! {

/// Decides the granule position of a page that `write` seals because it is
/// full.
pub trait OnSeal: Sized {
    /// What a call with `inner_data_size` gives: the granule position, and
    /// the callback as it is after the call.
    spec fn spec_on_seal(&self, inner_data_size: usize) -> (u64, Self);

    /// Is called with the number of payload bytes in the full page, which
    /// is never more than 65025, and returns the granule position to stamp
    /// on it.
    fn on_seal(&mut self, inner_data_size: usize) -> (granule_position: u64)
        requires
            inner_data_size <= 65025,
        ensures
            (granule_position, *final(self)) == old(self).spec_on_seal(inner_data_size),
    ;
}

/// The callback that a new writer has: the granule position of a full page
/// is the number of payload bytes in it.
#[derive(Clone, Copy, Debug)]
pub struct InnerDataSize;

impl OnSeal for InnerDataSize {
    open spec fn spec_on_seal(&self, inner_data_size: usize) -> (u64, Self) {
        (inner_data_size as u64, *self)
    }

    fn on_seal(&mut self, inner_data_size: usize) -> (granule_position: u64) {
        inner_data_size as u64
    }
}

/// Cuts the bytes written to it into the pages of one logical stream and
/// appends each sealed page, serialized, to `writer`.
pub struct OggStreamWriter<S: OnSeal> {
    /// The sealed pages, as bytes on the wire, in the order they were sealed.
    pub writer: Vec<u8>,
    /// The stream that every page of this writer belongs to.
    pub stream_id: u32,
    /// The number of pages sealed since the stream began.
    pub packet_index: u32,
    /// The page in progress.
    pub cur_packet: OggPacket,
    /// The granule position of the page sealed last, or the one set by the
    /// caller.
    pub granule_position: u64,
    /// Is asked for a granule position whenever `write` seals a full page.
    pub on_seal: S,
    /// The number of bytes written to the stream since it began.
    pub bytes_written: u64,
    /// Whether the page that ends the stream has been sealed.
    pub finished: bool,
}

/// What a writer holds, as mathematical values.
#[verifier::ext_equal]
pub struct OggStreamWriterView<S> {
    pub writer: Seq<u8>,
    pub stream_id: u32,
    pub packet_index: u32,
    pub cur_packet: OggPacketView,
    pub granule_position: u64,
    pub on_seal: S,
    pub bytes_written: u64,
    pub finished: bool,
}

impl<S: OnSeal> View for OggStreamWriter<S> {
    type V = OggStreamWriterView<S>;

    open spec fn view(&self) -> OggStreamWriterView<S> {
        OggStreamWriterView {
            writer: self.writer@,
            stream_id: self.stream_id,
            packet_index: self.packet_index,
            cur_packet: self.cur_packet@,
            granule_position: self.granule_position,
            on_seal: self.on_seal,
            bytes_written: self.bytes_written,
            finished: self.finished,
        }
    }
}

/// The number of pages that `write` seals when `n` bytes are written to a
/// page in progress of `table_len` segments: none while the page takes them
/// all, else one for the page and one for each further 65025 bytes but for
/// the last, which stay in the new page in progress.
pub open spec fn spec_seal_count(table_len: nat, n: nat) -> nat {
    let taken = spec_write_len(table_len, n);
    if n <= taken {
        0
    } else {
        ((n - taken + 65024) / 65025) as nat
    }
}

impl<S: OnSeal> OggStreamWriterView<S> {
    /// The invariant of a writer: the page in progress is a valid page.
    pub open spec fn wf(self) -> bool {
        self.cur_packet.wf()
    }

    /// A writer at the start of stream `stream_id`, with `writer` as the
    /// bytes sealed so far and `on_seal` as its callback.
    pub open spec fn start(writer: Seq<u8>, stream_id: u32, on_seal: S) -> Self {
        OggStreamWriterView {
            writer,
            stream_id,
            packet_index: 0,
            cur_packet: OggPacketView::empty(stream_id, OggPacketType::BeginOfStream, 0),
            granule_position: 0,
            on_seal,
            bytes_written: 0,
            finished: false,
        }
    }

    /// The page that sealing puts on the wire: the page in progress with the
    /// granule position stamped on it, retyped where it ends the stream.
    pub open spec fn sealed_packet(
        self,
        granule_position: u64,
        is_end_of_stream: bool,
    ) -> OggPacketView {
        OggPacketView {
            granule_position,
            packet_type: if is_end_of_stream {
                OggPacketType::EndOfStream
            } else {
                self.cur_packet.packet_type
            },
            ..self.cur_packet
        }
    }

    /// The writer after the page in progress has been sealed: its bytes are
    /// appended to the sink, the index moves on by one, and a new
    /// continuation page with that index is in progress; after the page
    /// that ends the stream, an empty default page stands in its place.
    pub open spec fn seal(self, granule_position: u64, is_end_of_stream: bool) -> Self {
        let index = (self.packet_index + 1) as u32;
        OggStreamWriterView {
            writer: self.writer + spec_into_bytes(
                self.sealed_packet(granule_position, is_end_of_stream),
            ),
            packet_index: index,
            granule_position,
            cur_packet: if is_end_of_stream {
                OggPacketView::empty(0, OggPacketType::BeginOfStream, 0)
            } else {
                OggPacketView::empty(self.stream_id, OggPacketType::Continuation, index)
            },
            finished: self.finished || is_end_of_stream,
            ..self
        }
    }

    /// The writer after the page in progress has taken what it can of `buf`.
    pub open spec fn fill(self, buf: Seq<u8>) -> Self {
        let taken = spec_write_len(self.cur_packet.segment_table.len(), buf.len());
        OggStreamWriterView { cur_packet: self.cur_packet.append(buf.take(taken as int)), ..self }
    }

    /// The writer after the callback has been asked for the granule
    /// position of the page in progress, with the number of payload bytes
    /// that its segment table describes, and the page has been sealed with
    /// the answer.
    pub open spec fn seal_full(self) -> Self {
        let asked = self.on_seal.spec_on_seal(
            spec_table_sum(self.cur_packet.segment_table) as usize,
        );
        (OggStreamWriterView { on_seal: asked.1, ..self }).seal(asked.0, false)
    }

    /// The writer after `buf` has been cut into pages: the page in progress
    /// takes what it can; while bytes are left over, the callback is asked
    /// and the page is sealed, and the new page goes on with the rest. The
    /// callback is not asked where nothing is left over.
    pub open spec fn absorb(self, buf: Seq<u8>) -> Self
        decreases buf.len(), (if self.cur_packet.segment_table.len() >= 255 { 1int } else { 0int }),
    {
        let taken = spec_write_len(self.cur_packet.segment_table.len(), buf.len());
        if taken >= buf.len() {
            self.fill(buf)
        } else {
            self.fill(buf).seal_full().absorb(buf.skip(taken as int))
        }
    }

    /// The writer after `buf` has been written to it: the bytes are counted
    /// and cut into pages.
    pub open spec fn write(self, buf: Seq<u8>) -> Self {
        (OggStreamWriterView {
            bytes_written: (self.bytes_written + buf.len()) as u64,
            ..self
        }).absorb(buf)
    }
}

impl OggStreamWriter<InnerDataSize> {
    /// A writer at the start of stream `stream_id` that appends to `writer`.
    /// The first page is a `BeginOfStream` page with index zero.
    pub fn new(writer: Vec<u8>, stream_id: u32) -> (w: Self)
        ensures
            w@ == OggStreamWriterView::start(writer@, stream_id, InnerDataSize),
            w.wf(),
    {
        Self::with_on_seal(writer, stream_id, InnerDataSize)
    }
}

impl<S: OnSeal> OggStreamWriter<S> {
    /// The invariant of a writer holds of this one.
    pub open spec fn wf(&self) -> bool {
        self@.wf()
    }

    /// A writer like a new one, with `on_seal` as its callback.
    pub fn with_on_seal(writer: Vec<u8>, stream_id: u32, on_seal: S) -> (w: Self)
        ensures
            w@ == OggStreamWriterView::start(writer@, stream_id, on_seal),
            w.wf(),
    {
        OggStreamWriter {
            writer,
            stream_id,
            packet_index: 0,
            cur_packet: OggPacket::new(stream_id, OggPacketType::BeginOfStream, 0),
            granule_position: 0,
            on_seal,
            bytes_written: 0,
            finished: false,
        }
    }

    /// Sets the granule position; `close` stamps it on the last page.
    pub fn set_granule_position(&mut self, position: u64)
        ensures
            final(self)@ == (OggStreamWriterView { granule_position: position, ..old(self)@ }),
    {
        self.granule_position = position
    }

    /// The granule position set or sealed last.
    pub fn get_granule_position(&self) -> (position: u64)
        ensures
            position == self.granule_position,
    {
        self.granule_position
    }

    /// Retypes the page in progress as the last of the stream, without
    /// sealing it.
    pub fn mark_cur_packet_as_end_of_stream(&mut self)
        ensures
            final(self)@ == (OggStreamWriterView {
                cur_packet: OggPacketView {
                    packet_type: OggPacketType::EndOfStream,
                    ..old(self)@.cur_packet
                },
                ..old(self)@
            }),
    {
        self.cur_packet.packet_type = OggPacketType::EndOfStream;
    }

    /// The number of bytes written to the stream since it began.
    pub fn get_bytes_written(&self) -> (n: u64)
        ensures
            n == self.bytes_written,
    {
        self.bytes_written
    }

    /// Replaces the callback that `write` asks for granule positions.
    pub fn set_on_seal_callback(&mut self, on_seal: S)
        ensures
            final(self)@ == (OggStreamWriterView { on_seal, ..old(self)@ }),
    {
        self.on_seal = on_seal;
    }

    /// Gives up the page in progress and starts a new stream with the same
    /// id and the same callback on the same sink: index zero, a
    /// `BeginOfStream` page, granule position and byte count zero.
    pub fn reset(&mut self)
        ensures
            final(self)@ == OggStreamWriterView::start(
                old(self).writer@,
                old(self).stream_id,
                old(self).on_seal,
            ),
            final(self).wf(),
    {
        self.packet_index = 0;
        self.cur_packet = OggPacket::new(self.stream_id, OggPacketType::BeginOfStream, 0);
        self.granule_position = 0;
        self.bytes_written = 0;
        self.finished = false;
    }

    /// Seals the page in progress: stamps the granule position on it,
    /// retypes it as `EndOfStream` if it ends the stream, appends its bytes
    /// to the sink, and starts a continuation page with the next index.
    pub fn seal_packet(&mut self, granule_position: u64, is_end_of_stream: bool)
        requires
            old(self).cur_packet.segment_table@.len() <= 255,
            old(self).packet_index < u32::MAX,
        ensures
            final(self)@ == old(self)@.seal(granule_position, is_end_of_stream),
            final(self).cur_packet.wf(),
    {
        self.packet_index = self.packet_index + 1;
        self.granule_position = granule_position;
        self.cur_packet.granule_position = granule_position;
        let mut packet = if is_end_of_stream {
            self.cur_packet.packet_type = OggPacketType::EndOfStream;
            self.finished = true;
            OggPacket::default()
        } else {
            OggPacket::new(self.stream_id, OggPacketType::Continuation, self.packet_index)
        };
        core::mem::swap(&mut self.cur_packet, &mut packet);
        let mut packed = packet.into_bytes();
        self.writer.append(&mut packed);
    }

    /// Whether `seal_packet` and `close` can be called: the page in
    /// progress has no more than 255 segments, and the index can move on.
    pub fn can_seal(&self) -> (ok: bool)
        ensures
            ok == (self.cur_packet.segment_table@.len() <= 255 && self.packet_index < u32::MAX),
    {
        self.cur_packet.segment_table.len() <= 255 && self.packet_index < u32::MAX
    }

    /// Whether `write` can be called with `len` bytes: the page in progress
    /// is a valid page, the index can move on by the number of pages that
    /// would be sealed, and the byte count can grow by `len`.
    pub fn can_write(&self, len: usize) -> (ok: bool)
        ensures
            ok == (self.wf() && self.packet_index + spec_seal_count(
                self.cur_packet.segment_table@.len(),
                len as nat,
            ) <= u32::MAX && self.bytes_written + len <= u64::MAX),
    {
        if !self.cur_packet.is_well_formed() {
            return false;
        }
        let free: usize = 255 * (255 - self.cur_packet.segment_table.len());
        let seals: u64 = if len <= free {
            0
        } else {
            ((len - free - 1) / 65025) as u64 + 1
        };
        self.packet_index as u64 + seals <= u32::MAX as u64 && len as u64 <= u64::MAX
            - self.bytes_written
    }

    /// Writes all of `buf` to the stream and returns its length. The page
    /// in progress takes what it can; whenever bytes are left over, the
    /// callback is asked, with the number of payload bytes in the full page,
    /// for a granule position, the page is sealed with it, and the next page
    /// goes on with the rest. The last page that takes bytes stays in
    /// progress, full or not.
    pub fn write(&mut self, buf: &[u8]) -> (written_total: usize)
        requires
            old(self).wf(),
            old(self).packet_index + spec_seal_count(
                old(self).cur_packet.segment_table@.len(),
                buf@.len(),
            ) <= u32::MAX,
            old(self).bytes_written + buf@.len() <= u64::MAX,
        ensures
            written_total == buf@.len(),
            final(self).wf(),
            final(self)@ == old(self)@.write(buf@),
    {
        self.bytes_written = self.bytes_written + buf.len() as u64;
        let ghost start = self@;
        let mut pos: usize = 0;
        proof {
            assert(buf@.skip(0) =~= buf@);
        }
        while pos < buf.len()
            invariant
                pos <= buf@.len(),
                self.wf(),
                self.packet_index + spec_seal_count(
                    self.cur_packet.segment_table@.len(),
                    (buf@.len() - pos) as nat,
                ) <= u32::MAX,
                start.absorb(buf@) == self@.absorb(buf@.skip(pos as int)),
            decreases
                    buf@.len() - pos,
                    (if self.cur_packet.segment_table@.len() >= 255 {
                        1int
                    } else {
                        0int
                    }),
        {
            let left = slice_subrange(buf, pos, buf.len());
            let ghost before = self@;
            let ghost old_pos = pos;
            let written = self.cur_packet.write(left);
            pos = pos + written;
            proof {
                assert(left@ =~= buf@.skip(old_pos as int));
                assert(self@ == before.fill(left@));
                assert(left@.skip(written as int) =~= buf@.skip(pos as int));
            }
            if pos < buf.len() {
                proof {
                    lemma_table_sum_bounds(self.cur_packet.segment_table@, 0);
                }
                let size = self.cur_packet.get_inner_data_size();
                let granule_position = self.on_seal.on_seal(size);
                self.seal_packet(granule_position, false);
                proof {
                    assert(self@ == before.fill(left@).seal_full());
                }
            } else {
                proof {
                    assert(spec_lacing(0) =~= Seq::<u8>::empty());
                    assert(self@.fill(Seq::<u8>::empty()) =~= self@);
                }
            }
        }
        proof {
            assert(buf@.skip(pos as int) =~= Seq::<u8>::empty());
            assert(spec_lacing(0) =~= Seq::<u8>::empty());
            assert(self@.fill(Seq::<u8>::empty()) =~= self@);
        }
        buf.len()
    }

    /// Seals the page in progress as the last page of the stream, with the
    /// granule position set last. A writer that has sealed its last page is
    /// left as it is.
    pub fn close(&mut self)
        requires
            !old(self).finished ==> old(self).cur_packet.segment_table@.len() <= 255 && old(
                self,
            ).packet_index < u32::MAX,
        ensures
            old(self).finished ==> final(self)@ == old(self)@,
            !old(self).finished ==> final(self)@ == old(self)@.seal(
                old(self).granule_position,
                true,
            ),
            final(self).finished,
    {
        if !self.finished {
            self.seal_packet(self.granule_position, true);
        }
    }
}

} // verus!
