use crate::codec::{spec_from_bytes, spec_from_cursor, spec_into_bytes};
use crate::error::OggError;
use crate::packet::{
    lemma_lacing_sum, lemma_table_sum_bounds, lemma_table_sum_concat, spec_lacing,
    spec_write_len, OggPacketType, OggPacketView,
};
use crate::reader::OggStreamReaderView;
use crate::roundtrip::{
    lemma_from_bytes_extend, lemma_round_trip, lemma_round_trip_stream, spec_stamped,
    spec_stream_bytes,
};
use crate::writer::{spec_seal_count, InnerDataSize, OggStreamWriterView, OnSeal};
use vstd::prelude::*;

verus! {

/// The payloads of pages, one after the other.
pub open spec fn spec_payload(pages: Seq<OggPacketView>) -> Seq<u8>
    decreases pages.len(),
{
    if pages.len() == 0 {
        Seq::empty()
    } else {
        pages[0].data + spec_payload(pages.skip(1))
    }
}

impl<S: OnSeal> OggStreamWriterView<S> {
    /// The page in progress carries the stream id and the index of the
    /// writer.
    pub open spec fn in_step(self) -> bool {
        &&& self.cur_packet.stream_id == self.stream_id
        &&& self.cur_packet.packet_index == self.packet_index
    }

    /// The pages that are sealed while `buf` is cut into pages.
    pub open spec fn absorbed_pages(self, buf: Seq<u8>) -> Seq<OggPacketView>
        decreases buf.len(), (if self.cur_packet.segment_table.len() >= 255 { 1int } else { 0int }),
    {
        let taken = spec_write_len(self.cur_packet.segment_table.len(), buf.len());
        if taken >= buf.len() {
            Seq::empty()
        } else {
            let sealed = self.fill(buf).seal_full();
            seq![self.fill(buf).sealed_packet(sealed.granule_position, false)]
                + sealed.absorbed_pages(buf.skip(taken as int))
        }
    }
}

/// The bytes of pages behind a first page are the bytes of the first page
/// and then those of the others; so with the payloads.
pub proof fn lemma_stream_cons(first: OggPacketView, others: Seq<OggPacketView>)
    ensures
        spec_stream_bytes(seq![first] + others) == spec_into_bytes(first) + spec_stream_bytes(
            others,
        ),
        spec_payload(seq![first] + others) == first.data + spec_payload(others),
{
    assert((seq![first] + others).skip(1) =~= others);
}

/// The bytes of pages before a last page are the bytes of the others and
/// then those of the last page; so with the payloads.
pub proof fn lemma_stream_push(pages: Seq<OggPacketView>, last: OggPacketView)
    ensures
        spec_stream_bytes(pages.push(last)) == spec_stream_bytes(pages) + spec_into_bytes(last),
        spec_payload(pages.push(last)) == spec_payload(pages) + last.data,
    decreases pages.len(),
{
    if pages.len() == 0 {
        assert(pages.push(last) =~= seq![last] + Seq::<OggPacketView>::empty());
        lemma_stream_cons(last, Seq::empty());
        assert(spec_into_bytes(last) + Seq::<u8>::empty() =~= Seq::<u8>::empty()
            + spec_into_bytes(last));
        assert(last.data + Seq::<u8>::empty() =~= Seq::<u8>::empty() + last.data);
    } else {
        lemma_stream_push(pages.skip(1), last);
        assert(pages.push(last) =~= seq![pages[0]] + pages.skip(1).push(last));
        lemma_stream_cons(pages[0], pages.skip(1).push(last));
        assert(spec_into_bytes(pages[0]) + (spec_stream_bytes(pages.skip(1)) + spec_into_bytes(
            last,
        )) =~= (spec_into_bytes(pages[0]) + spec_stream_bytes(pages.skip(1))) + spec_into_bytes(
            last,
        ));
        assert(pages[0].data + (spec_payload(pages.skip(1)) + last.data) =~= (pages[0].data
            + spec_payload(pages.skip(1))) + last.data);
    }
}

/// A valid page that takes what it can of a buffer is a valid page.
pub proof fn lemma_fill_wf<S: OnSeal>(w: OggStreamWriterView<S>, buf: Seq<u8>)
    requires
        w.wf(),
    ensures
        w.fill(buf).wf(),
        w.fill(buf).cur_packet.data == w.cur_packet.data + buf.take(
            spec_write_len(w.cur_packet.segment_table.len(), buf.len()) as int,
        ),
{
    let taken = spec_write_len(w.cur_packet.segment_table.len(), buf.len());
    lemma_lacing_sum(taken);
    lemma_table_sum_concat(w.cur_packet.segment_table, spec_lacing(taken));
}

/// What cutting a buffer into pages comes to. The sink grows by the bytes
/// of the sealed pages, in order, and by nothing else. There are as many of
/// them as `spec_seal_count` says. Each is a valid page of the writer's
/// stream; their indexes count up from the writer's index; all but the
/// first are continuation pages. The writer's granule position is that of
/// the page sealed last. Where no page is sealed, the callback and the
/// granule position are as they were. The payloads of the sealed pages and
/// of the page left in progress, one after the other, are what the page in
/// progress held before and then the buffer: no byte is lost, added or
/// moved.
pub proof fn lemma_absorb<S: OnSeal>(w: OggStreamWriterView<S>, buf: Seq<u8>)
    requires
        w.wf(),
        w.in_step(),
        w.packet_index + spec_seal_count(w.cur_packet.segment_table.len(), buf.len())
            <= u32::MAX,
    ensures
        w.absorb(buf).wf(),
        w.absorb(buf).in_step(),
        w.absorb(buf).writer == w.writer + spec_stream_bytes(w.absorbed_pages(buf)),
        w.absorbed_pages(buf).len() == spec_seal_count(
            w.cur_packet.segment_table.len(),
            buf.len(),
        ),
        w.absorb(buf).packet_index == w.packet_index + w.absorbed_pages(buf).len(),
        w.absorb(buf).stream_id == w.stream_id,
        w.absorb(buf).bytes_written == w.bytes_written,
        w.absorb(buf).finished == w.finished,
        w.absorbed_pages(buf).len() > 0 ==> w.absorb(buf).cur_packet.packet_type
            == OggPacketType::Continuation && w.absorb(buf).granule_position
            == w.absorbed_pages(buf).last().granule_position,
        w.absorbed_pages(buf).len() == 0 ==> w.absorb(buf).cur_packet.packet_type
            == w.cur_packet.packet_type && w.absorb(buf).granule_position == w.granule_position
            && w.absorb(buf).on_seal == w.on_seal,
        spec_payload(w.absorbed_pages(buf)) + w.absorb(buf).cur_packet.data == w.cur_packet.data
            + buf,
        forall|j: int|
            0 <= j < w.absorbed_pages(buf).len() ==> {
                let page = #[trigger] w.absorbed_pages(buf)[j];
                &&& page.wf()
                &&& page.stream_id == w.stream_id
                &&& page.packet_index == w.packet_index + j
                &&& page.packet_type == if j == 0 {
                    w.cur_packet.packet_type
                } else {
                    OggPacketType::Continuation
                }
            },
    decreases buf.len(), (if w.cur_packet.segment_table.len() >= 255 { 1int } else { 0int }),
{
    let taken = spec_write_len(w.cur_packet.segment_table.len(), buf.len());
    let filled = w.fill(buf);
    lemma_fill_wf(w, buf);
    if taken >= buf.len() {
        assert(buf.take(taken as int) =~= buf);
        assert(spec_payload(w.absorbed_pages(buf)) + w.absorb(buf).cur_packet.data
            =~= w.cur_packet.data + buf);
        assert(w.writer + spec_stream_bytes(w.absorbed_pages(buf)) =~= w.writer);
    } else {
        let sealed = filled.seal_full();
        let first = filled.sealed_packet(sealed.granule_position, false);
        let left = buf.skip(taken as int);
        let others = sealed.absorbed_pages(left);
        let pages = w.absorbed_pages(buf);
        lemma_absorb(sealed, left);
        lemma_stream_cons(first, others);
        assert(pages == seq![first] + others);
        assert(w.writer + (spec_into_bytes(first) + spec_stream_bytes(others)) =~= (w.writer
            + spec_into_bytes(first)) + spec_stream_bytes(others));
        assert((first.data + spec_payload(others)) + sealed.absorb(left).cur_packet.data
            =~= first.data + (spec_payload(others) + sealed.absorb(left).cur_packet.data));
        assert(w.cur_packet.data + buf.take(taken as int) + left =~= w.cur_packet.data + buf);
        assert forall|j: int| 0 <= j < pages.len() implies {
            let page = #[trigger] pages[j];
            &&& page.wf()
            &&& page.stream_id == w.stream_id
            &&& page.packet_index == w.packet_index + j
            &&& page.packet_type == if j == 0 {
                w.cur_packet.packet_type
            } else {
                OggPacketType::Continuation
            }
        } by {
            if j > 0 {
                assert(pages[j] == others[j - 1]);
            }
        }
        if others.len() > 0 {
            assert(pages.last() == others.last());
        }
    }
}

/// With the callback that a new writer has, every page that `write` seals
/// carries the number of its payload bytes as its granule position.
pub proof fn lemma_default_granule(w: OggStreamWriterView<InnerDataSize>, buf: Seq<u8>)
    requires
        w.wf(),
    ensures
        forall|j: int|
            0 <= j < w.absorbed_pages(buf).len() ==> (#[trigger] w.absorbed_pages(
                buf,
            )[j]).granule_position == w.absorbed_pages(buf)[j].data.len(),
    decreases buf.len(), (if w.cur_packet.segment_table.len() >= 255 { 1int } else { 0int }),
{
    let taken = spec_write_len(w.cur_packet.segment_table.len(), buf.len());
    if taken < buf.len() {
        let filled = w.fill(buf);
        let sealed = filled.seal_full();
        let others = sealed.absorbed_pages(buf.skip(taken as int));
        let pages = w.absorbed_pages(buf);
        lemma_fill_wf(w, buf);
        lemma_table_sum_bounds(filled.cur_packet.segment_table, 0);
        lemma_default_granule(sealed, buf.skip(taken as int));
        assert forall|j: int| 0 <= j < pages.len() implies (#[trigger] pages[j]).granule_position
            == pages[j].data.len() by {
            if j > 0 {
                assert(pages[j] == others[j - 1]);
            }
        }
    }
}

/// What is written to a new writer and closed can be read back. The sink
/// holds pages and nothing else: taking pages from it consumes it all.
/// There is one page more than `write` sealed. The pages carry the stream
/// id, their indexes count up from zero, the last one ends the stream, and
/// their payloads, one after the other, are the bytes that were written. A
/// new reader that pulls from the sink takes the same pages.
pub proof fn lemma_written_stream_reads_back<S: OnSeal>(stream_id: u32, on_seal: S, buf: Seq<u8>)
    requires
        spec_seal_count(0, buf.len()) < u32::MAX,
    ensures
        ({
            let written = OggStreamWriterView::start(Seq::empty(), stream_id, on_seal).write(buf);
            let closed = written.seal(written.granule_position, true);
            let taken = spec_from_cursor(closed.writer);
            &&& taken.1 == closed.writer.len()
            &&& taken.0.len() == spec_seal_count(0, buf.len()) + 1
            &&& spec_payload(taken.0) == buf
            &&& taken.0.last().packet_type == OggPacketType::EndOfStream
            &&& forall|j: int|
                0 <= j < taken.0.len() ==> (#[trigger] taken.0[j]).stream_id == stream_id
                    && taken.0[j].packet_index == j
            &&& spec_pull_pages(OggStreamReaderView::start(), closed.writer, taken.0.len())
                == taken.0
        }),
{
    let start = OggStreamWriterView::start(Seq::empty(), stream_id, on_seal);
    let counted = OggStreamWriterView { bytes_written: (0 + buf.len()) as u64, ..start };
    let written = start.write(buf);
    let closed = written.seal(written.granule_position, true);
    let sealed = counted.absorbed_pages(buf);
    let last = written.sealed_packet(written.granule_position, true);
    let pages = sealed.push(last);
    lemma_absorb(counted, buf);
    lemma_stream_push(sealed, last);
    assert(closed.writer =~= spec_stream_bytes(pages));
    assert(spec_stream_bytes(pages) + Seq::<u8>::empty() =~= spec_stream_bytes(pages));
    lemma_round_trip_stream(pages, Seq::empty());
    let stamped = Seq::new(pages.len(), |i: int| spec_stamped(pages[i]));
    assert(spec_from_cursor(closed.writer).0 =~= stamped);
    lemma_payload_stamped(pages);
    assert(spec_payload(pages) =~= buf);
    assert(Seq::<u8>::empty() + closed.writer =~= spec_stream_bytes(pages));
    lemma_reader_takes_stream(OggStreamReaderView::start(), closed.writer, pages);
}

/// Cutting a buffer into pages in two pieces is cutting it in one, where
/// the first piece is a multiple of 255 bytes long: the lacing of both
/// pieces then is the lacing of the whole, and the callback is asked for the
/// same pages in the same order.
pub proof fn lemma_absorb_in_pieces<S: OnSeal>(
    w: OggStreamWriterView<S>,
    first: Seq<u8>,
    second: Seq<u8>,
)
    requires
        first.len() % 255 == 0,
    ensures
        w.absorb(first).absorb(second) == w.absorb(first + second),
    decreases first.len(), (if w.cur_packet.segment_table.len() >= 255 { 1int } else { 0int }),
{
    let whole = first + second;
    let table_len = w.cur_packet.segment_table.len();
    let taken = spec_write_len(table_len, first.len());
    let taken_whole = spec_write_len(table_len, whole.len());
    if taken >= first.len() {
        // The first piece seals nothing and leaves full segments behind.
        let filled = w.fill(first);
        let taken_second = spec_write_len(filled.cur_packet.segment_table.len(), second.len());
        assert(first.take(taken as int) =~= first);
        lemma_lacing_sum(first.len());
        assert(spec_lacing(first.len()).len() == first.len() / 255);
        assert(taken_whole == first.len() + taken_second);
        assert(whole.take(taken_whole as int) =~= first + second.take(taken_second as int));
        assert(spec_lacing(taken_whole) =~= spec_lacing(first.len()) + spec_lacing(taken_second));
        assert(filled.fill(second).cur_packet.segment_table =~= w.fill(
            whole,
        ).cur_packet.segment_table);
        assert(filled.fill(second).cur_packet.data =~= w.fill(whole).cur_packet.data);
        assert(filled.fill(second) == w.fill(whole));
        assert(whole.skip(taken_whole as int) =~= second.skip(taken_second as int));
    } else {
        let sealed = w.fill(first).seal_full();
        let left = first.skip(taken as int);
        assert(taken_whole == taken);
        assert(whole.take(taken as int) =~= first.take(taken as int));
        assert(w.fill(whole) == w.fill(first));
        assert(whole.skip(taken as int) =~= left + second);
        lemma_absorb_in_pieces(sealed, left, second);
    }
}

/// Writing in two calls is writing in one, where the first call writes a
/// multiple of 255 bytes: the same pages are sealed with the same granule
/// positions, the same page stays in progress, the same bytes are counted,
/// and the callback is left the same.
pub proof fn lemma_write_in_pieces<S: OnSeal>(
    w: OggStreamWriterView<S>,
    first: Seq<u8>,
    second: Seq<u8>,
)
    requires
        first.len() % 255 == 0,
        w.bytes_written + first.len() + second.len() <= u64::MAX,
    ensures
        w.write(first).write(second) == w.write(first + second),
{
    let counted_first = OggStreamWriterView {
        bytes_written: (w.bytes_written + first.len()) as u64,
        ..w
    };
    let counted = OggStreamWriterView {
        bytes_written: (w.bytes_written + first.len() + second.len()) as u64,
        ..w
    };
    lemma_counted_absorb(counted_first, first, second.len());
    lemma_absorb_in_pieces(counted, first, second);
}

/// The count of bytes written has no part in how a buffer is cut into
/// pages.
pub proof fn lemma_counted_absorb<S: OnSeal>(w: OggStreamWriterView<S>, buf: Seq<u8>, more: nat)
    requires
        w.bytes_written + more <= u64::MAX,
    ensures
        (OggStreamWriterView {
            bytes_written: (w.absorb(buf).bytes_written + more) as u64,
            ..w.absorb(buf)
        }) == (OggStreamWriterView {
            bytes_written: (w.bytes_written + more) as u64,
            ..w
        }).absorb(buf),
    decreases buf.len(), (if w.cur_packet.segment_table.len() >= 255 { 1int } else { 0int }),
{
    let taken = spec_write_len(w.cur_packet.segment_table.len(), buf.len());
    if taken < buf.len() {
        lemma_counted_absorb(w.fill(buf).seal_full(), buf.skip(taken as int), more);
    }
}

/// A reader finds the page that its cache and its source hold between
/// them, however the bytes are shared out: pulling gives the page that
/// stands at the front of the cache followed by the source, and leaves
/// behind it what stood behind the page. This holds of a reader that has
/// not noted the end of its source while the source still has bytes, and
/// that is not at the end of a stream unless the page is in its cache
/// already.
pub proof fn lemma_pull_takes_page(r: OggStreamReaderView, source: Seq<u8>)
    requires
        spec_from_bytes(r.cached_bytes + source) is Ok,
        r.e_o_f ==> source.len() == 0,
        r.e_o_s ==> spec_from_bytes(r.cached_bytes) is Ok,
    ensures
        ({
            let taken = spec_from_bytes(r.cached_bytes + source)->Ok_0;
            let pulled = r.pull(source);
            &&& pulled.0 == Ok::<Option<OggPacketView>, OggError>(Some(taken.0))
            &&& pulled.1.cached_bytes + pulled.2 == (r.cached_bytes + source).skip(taken.1 as int)
            &&& pulled.1.e_o_s == (taken.0.packet_type == OggPacketType::EndOfStream)
            &&& pulled.1.e_o_f ==> pulled.2.len() == 0
        }),
    decreases source.len(), (if r.e_o_f { 0int } else { 1int }),
{
    let cache = r.cached_bytes;
    let all = cache + source;
    if spec_from_bytes(cache) != Err::<(OggPacketView, nat), OggError>(OggError::TruncatedInput) {
        lemma_from_bytes_extend(cache, source);
        let length = spec_from_bytes(cache)->Ok_0.1;
        assert(cache.skip(length as int) + source =~= all.skip(length as int));
    } else {
        let requested = crate::reader::spec_read_size(cache);
        let given = if source.len() < requested { source.len() } else { requested };
        let fed = r.feed(requested, source.take(given as int));
        let left = source.skip(given as int);
        assert(fed.cached_bytes + left =~= all);
        if r.e_o_f {
            assert(all =~= cache);
        }
        lemma_pull_takes_page(fed, left);
    }
}

/// What a reader takes when it pulls `count` times from a source: the pages
/// up to the first pull that gives none.
pub open spec fn spec_pull_pages(r: OggStreamReaderView, source: Seq<u8>, count: nat) -> Seq<
    OggPacketView,
>
    decreases count,
{
    if count == 0 {
        Seq::empty()
    } else {
        match r.pull(source).0 {
            Ok(Some(p)) => seq![p] + spec_pull_pages(
                r.pull(source).1,
                r.pull(source).2,
                (count - 1) as nat,
            ),
            _ => Seq::empty(),
        }
    }
}

/// A reader takes the pages of a stream from their bytes, whatever it holds
/// of them in its cache already: every page, in order, with its checksum.
/// This holds of valid pages of which none but the last ends the stream, and
/// of a reader that is not at the end of a stream and has not noted the end
/// of its source while the source still has bytes.
pub proof fn lemma_reader_takes_stream(
    r: OggStreamReaderView,
    source: Seq<u8>,
    pages: Seq<OggPacketView>,
)
    requires
        r.cached_bytes + source == spec_stream_bytes(pages),
        r.e_o_f ==> source.len() == 0,
        !r.e_o_s,
        forall|i: int| 0 <= i < pages.len() ==> (#[trigger] pages[i]).wf(),
        forall|i: int|
            0 <= i < pages.len() - 1 ==> (#[trigger] pages[i]).packet_type
                != OggPacketType::EndOfStream,
    ensures
        spec_pull_pages(r, source, pages.len()) == Seq::new(
            pages.len(),
            |i: int| spec_stamped(pages[i]),
        ),
    decreases pages.len(),
{
    let stamped = Seq::new(pages.len(), |i: int| spec_stamped(pages[i]));
    if pages.len() == 0 {
        assert(spec_pull_pages(r, source, 0) =~= stamped);
    } else {
        let first = spec_into_bytes(pages[0]);
        let others = pages.skip(1);
        let rest = spec_stream_bytes(others);
        lemma_round_trip(pages[0]);
        lemma_from_bytes_extend(first, rest);
        lemma_pull_takes_page(r, source);
        let pulled = r.pull(source);
        assert((first + rest).skip(first.len() as int) =~= rest);
        assert forall|i: int| 0 <= i < others.len() implies (#[trigger] others[i]).wf() by {
            assert(others[i] == pages[i + 1]);
        }
        assert forall|i: int| 0 <= i < others.len() - 1 implies (#[trigger] others[i]).packet_type
            != OggPacketType::EndOfStream by {
            assert(others[i] == pages[i + 1]);
        }
        let stamped_others = Seq::new(others.len(), |i: int| spec_stamped(others[i]));
        if others.len() > 0 {
            lemma_reader_takes_stream(pulled.1, pulled.2, others);
        } else {
            assert(spec_pull_pages(pulled.1, pulled.2, 0) =~= stamped_others);
        }
        assert(stamped =~= seq![spec_stamped(pages[0])] + stamped_others);
    }
}

/// After the page that ends a stream, a reader whose cache is empty gives
/// no more pages, and asks its source for nothing.
pub proof fn lemma_reader_ends(r: OggStreamReaderView, source: Seq<u8>)
    requires
        r.e_o_s,
        r.cached_bytes.len() == 0,
    ensures
        r.pull(source) == (Ok::<Option<OggPacketView>, OggError>(None), r, source),
{
}

/// The checksum field has no part in the payload.
pub proof fn lemma_payload_stamped(pages: Seq<OggPacketView>)
    ensures
        spec_payload(Seq::new(pages.len(), |i: int| spec_stamped(pages[i]))) == spec_payload(
            pages,
        ),
    decreases pages.len(),
{
    let stamped = Seq::new(pages.len(), |i: int| spec_stamped(pages[i]));
    if pages.len() > 0 {
        lemma_payload_stamped(pages.skip(1));
        assert(stamped.skip(1) =~= Seq::new(
            pages.skip(1).len(),
            |i: int| spec_stamped(pages.skip(1)[i]),
        ));
    }
}

} // verus!
