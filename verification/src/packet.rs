use vstd::prelude::*;

verus! {

/// The role of a page within its logical stream.
#[derive(Debug, Clone, Copy, PartialEq, Eq, Structural)]
pub enum OggPacketType {
    /// A page in the middle of a stream.
    Continuation,
    /// The first page of a stream.
    BeginOfStream,
    /// The last page of a stream.
    EndOfStream,
}

impl OggPacketType {
    /// The byte that stands for this type on the wire.
    pub open spec fn spec_code(self) -> u8 {
        match self {
            OggPacketType::Continuation => 0,
            OggPacketType::BeginOfStream => 2,
            OggPacketType::EndOfStream => 4,
        }
    }

    /// The byte that stands for this type on the wire: 0, 2 or 4.
    #[verifier::when_used_as_spec(spec_code)]
    pub fn code(self) -> (c: u8)
        ensures
            c == self.spec_code(),
    {
        match self {
            OggPacketType::Continuation => 0,
            OggPacketType::BeginOfStream => 2,
            OggPacketType::EndOfStream => 4,
        }
    }

    /// The type that a wire byte stands for, if it is one of 0, 2 and 4.
    pub open spec fn spec_from_code(c: u8) -> Option<OggPacketType> {
        if c == 0 {
            Some(OggPacketType::Continuation)
        } else if c == 2 {
            Some(OggPacketType::BeginOfStream)
        } else if c == 4 {
            Some(OggPacketType::EndOfStream)
        } else {
            None
        }
    }

    /// The type that a wire byte stands for; `None` for any byte but 0, 2, 4.
    pub fn from_code(c: u8) -> (t: Option<OggPacketType>)
        ensures
            t == Self::spec_from_code(c),
    {
        if c == 0 {
            Some(OggPacketType::Continuation)
        } else if c == 2 {
            Some(OggPacketType::BeginOfStream)
        } else if c == 4 {
            Some(OggPacketType::EndOfStream)
        } else {
            None
        }
    }
}

/// One page of an Ogg stream.
#[derive(Clone, Debug)]
pub struct OggPacket {
    /// The version of the format; it must be zero.
    pub version: u8,
    /// The first page of a stream is `BeginOfStream`, the last `EndOfStream`,
    /// the others `Continuation`.
    pub packet_type: OggPacketType,
    /// A progress marker of the payload's codec; the container does not
    /// interpret it.
    pub granule_position: u64,
    /// The stream that the page belongs to.
    pub stream_id: u32,
    /// The index of the page within its stream, from zero.
    pub packet_index: u32,
    /// The checksum read from the wire; it is computed anew when the page is
    /// serialized.
    pub checksum: u32,
    /// The size of each segment of the payload, at most 255 entries.
    pub segment_table: Vec<u8>,
    /// The payload: the segments, one after the other.
    pub data: Vec<u8>,
}

/// What a page holds, as mathematical values.
#[verifier::ext_equal]
pub struct OggPacketView {
    pub version: u8,
    pub packet_type: OggPacketType,
    pub granule_position: u64,
    pub stream_id: u32,
    pub packet_index: u32,
    pub checksum: u32,
    pub segment_table: Seq<u8>,
    pub data: Seq<u8>,
}

impl View for OggPacket {
    type V = OggPacketView;

    open spec fn view(&self) -> OggPacketView {
        OggPacketView {
            version: self.version,
            packet_type: self.packet_type,
            granule_position: self.granule_position,
            stream_id: self.stream_id,
            packet_index: self.packet_index,
            checksum: self.checksum,
            segment_table: self.segment_table@,
            data: self.data@,
        }
    }
}

/// The number of payload bytes that a segment table describes.
pub open spec fn spec_table_sum(table: Seq<u8>) -> nat
    decreases table.len(),
{
    if table.len() == 0 {
        0
    } else {
        spec_table_sum(table.drop_last()) + table.last() as nat
    }
}

/// The segments that describe a run of `n` bytes: a 255 for each full
/// 255 bytes, then the remainder if it is not zero.
pub open spec fn spec_lacing(n: nat) -> Seq<u8> {
    let full = Seq::new(n / 255, |i: int| 255u8);
    if n % 255 == 0 {
        full
    } else {
        full.push((n % 255) as u8)
    }
}

/// The number of bytes that a page with `table_len` segments takes from a
/// payload of `n` bytes: all of them, or 255 for each free segment.
pub open spec fn spec_write_len(table_len: nat, n: nat) -> nat {
    let free: nat = if table_len >= 255 { 0 } else { (255 - table_len) as nat };
    if n <= 255 * free { n } else { 255 * free }
}

impl OggPacketView {
    /// The invariants of a page: version zero, at most 255 segments, and a
    /// payload as long as the segment table says.
    pub open spec fn wf(self) -> bool {
        &&& self.version == 0
        &&& self.segment_table.len() <= 255
        &&& self.data.len() == spec_table_sum(self.segment_table)
    }

    /// The page after `taken` has been appended to its payload, with the
    /// segments that describe it.
    pub open spec fn append(self, taken: Seq<u8>) -> OggPacketView {
        OggPacketView {
            segment_table: self.segment_table + spec_lacing(taken.len()),
            data: self.data + taken,
            ..self
        }
    }

    /// An empty page of the given stream, type and index.
    pub open spec fn empty(
        stream_id: u32,
        packet_type: OggPacketType,
        packet_index: u32,
    ) -> OggPacketView {
        OggPacketView {
            version: 0,
            packet_type,
            granule_position: 0,
            stream_id,
            packet_index,
            checksum: 0,
            segment_table: Seq::empty(),
            data: Seq::empty(),
        }
    }

    /// Where segment `i` starts in the payload.
    pub open spec fn segment_start(self, i: int) -> nat {
        spec_table_sum(self.segment_table.take(i))
    }

    /// The bytes of segment `i`.
    pub open spec fn segment(self, i: int) -> Seq<u8> {
        self.data.subrange(
            self.segment_start(i) as int,
            self.segment_start(i) + self.segment_table[i] as int,
        )
    }
}

/// The sum over a table that ends in `last` is the sum before it plus `last`.
pub proof fn lemma_table_sum_push(table: Seq<u8>, last: u8)
    ensures
        spec_table_sum(table.push(last)) == spec_table_sum(table) + last as nat,
{
    assert(table.push(last).drop_last() =~= table);
}

/// The sum over two tables, one after the other, is the sum of their sums.
pub proof fn lemma_table_sum_concat(a: Seq<u8>, b: Seq<u8>)
    ensures
        spec_table_sum(a + b) == spec_table_sum(a) + spec_table_sum(b),
    decreases b.len(),
{
    if b.len() == 0 {
        assert(a + b =~= a);
    } else {
        lemma_table_sum_concat(a, b.drop_last());
        assert((a + b).drop_last() =~= a + b.drop_last());
    }
}

/// A table of `len` segments describes at most `255 * len` bytes, and every
/// prefix of it describes no more than the whole.
pub proof fn lemma_table_sum_bounds(table: Seq<u8>, i: int)
    requires
        0 <= i <= table.len(),
    ensures
        spec_table_sum(table.take(i)) <= spec_table_sum(table),
        spec_table_sum(table) <= 255 * table.len(),
    decreases table.len(),
{
    if table.len() == 0 {
        assert(table.take(i) =~= table);
    } else if i == table.len() {
        assert(table.take(i) =~= table);
        lemma_table_sum_bounds(table.drop_last(), 0);
    } else {
        lemma_table_sum_bounds(table.drop_last(), i);
        assert(table.drop_last().take(i) =~= table.take(i));
    }
}

/// The lacing of `n` bytes describes `n` bytes.
pub proof fn lemma_lacing_sum(n: nat)
    ensures
        spec_table_sum(spec_lacing(n)) == n,
        spec_lacing(n).len() == (n + 254) / 255,
    decreases n,
{
    if n == 0 {
        assert(spec_lacing(0) =~= Seq::<u8>::empty());
    } else if n % 255 != 0 {
        let m = (n - n % 255) as nat;
        lemma_lacing_sum(m);
        assert(spec_lacing(n) =~= spec_lacing(m).push((n % 255) as u8));
        lemma_table_sum_push(spec_lacing(m), (n % 255) as u8);
    } else {
        let m = (n - 255) as nat;
        lemma_lacing_sum(m);
        assert(spec_lacing(n) =~= spec_lacing(m).push(255u8));
        lemma_table_sum_push(spec_lacing(m), 255u8);
    }
}

/// The lacing of `n = 255 * k + r` bytes, with `r` under 255, entry by
/// entry: `k` entries of 255, and one entry `r` behind them unless `r` is
/// zero. An empty page takes `n` bytes, or 65025 of them where `n` is more.
pub proof fn lemma_chunking(n: nat)
    ensures
        spec_lacing(n).len() == n / 255 + (if n % 255 == 0 { 0nat } else { 1nat }),
        forall|i: int| 0 <= i < n / 255 ==> spec_lacing(n)[i] == 255,
        n % 255 != 0 ==> spec_lacing(n)[(n / 255) as int] == n % 255,
        spec_write_len(0, n) == (if n <= 65025 { n } else { 65025nat }),
        OggPacketView::empty(0, OggPacketType::BeginOfStream, 0).append(
            Seq::new(n, |i: int| 0u8),
        ).segment_table == spec_lacing(n),
{
    let page = OggPacketView::empty(0, OggPacketType::BeginOfStream, 0);
    assert(page.append(Seq::new(n, |i: int| 0u8)).segment_table =~= spec_lacing(n));
}

impl OggPacket {
    /// The invariants of a page hold of this one.
    pub open spec fn wf(&self) -> bool {
        self@.wf()
    }

    /// Whether the invariants of a page hold of this one.
    pub fn is_well_formed(&self) -> (ok: bool)
        ensures
            ok == self.wf(),
    {
        if self.version != 0 || self.segment_table.len() > 255 {
            return false;
        }
        proof {
            lemma_table_sum_bounds(self.segment_table@, 0);
        }
        self.data.len() == self.get_inner_data_size()
    }

    /// An empty page of the given stream, type and index.
    pub fn new(stream_id: u32, packet_type: OggPacketType, packet_index: u32) -> (p: Self)
        ensures
            p@ == OggPacketView::empty(stream_id, packet_type, packet_index),
            p.wf(),
    {
        Self {
            version: 0,
            packet_type,
            granule_position: 0,
            stream_id,
            packet_index,
            checksum: 0,
            segment_table: Vec::new(),
            data: Vec::new(),
        }
    }

    /// Appends as much of `data` as the free segments of the page take, and
    /// returns how many bytes that was. The caller offers the rest to the
    /// next page.
    pub fn write(&mut self, data: &[u8]) -> (written: usize)
        ensures
            written == spec_write_len(old(self).segment_table@.len(), data@.len()),
            final(self)@ == old(self)@.append(data@.take(written as int)),
            old(self).wf() ==> final(self).wf(),
    {
        let mut written: usize = 0;
        let mut to_write: usize = data.len();
        while self.segment_table.len() < 255 && to_write > 0
            invariant
                written + to_write == data@.len(),
                to_write > 0 ==> written % 255 == 0,
                old(self).segment_table@.len() >= 255 ==> written == 0,
                old(self).segment_table@.len() < 255 ==> self.segment_table@.len() <= 255,
                self.segment_table@ == old(self).segment_table@ + spec_lacing(written as nat),
                self.data@ == old(self).data@ + data@.subrange(0, written as int),
                self.version == old(self).version,
                self.packet_type == old(self).packet_type,
                self.granule_position == old(self).granule_position,
                self.stream_id == old(self).stream_id,
                self.packet_index == old(self).packet_index,
                self.checksum == old(self).checksum,
            decreases to_write,
        {
            let size: usize = if to_write >= 255 { 255 } else { to_write };
            let new_pos: usize = written + size;
            proof {
                assert(spec_lacing(new_pos as nat) =~= spec_lacing(written as nat).push(size as u8));
                assert(data@.subrange(0, new_pos as int) =~= data@.subrange(0, written as int)
                    + data@.subrange(written as int, new_pos as int));
            }
            self.segment_table.push(size as u8);
            let mut chunk = vstd::slice::slice_to_vec(
                vstd::slice::slice_subrange(data, written, new_pos),
            );
            self.data.append(&mut chunk);
            written = new_pos;
            to_write = if size == 255 { to_write - 255 } else { 0 };
        }
        proof {
            lemma_lacing_sum(written as nat);
            lemma_table_sum_concat(old(self).segment_table@, spec_lacing(written as nat));
        }
        written
    }

    /// Removes the segments and the payload; the header fields stay.
    pub fn clear(&mut self)
        ensures
            final(self)@ == (OggPacketView {
                segment_table: Seq::empty(),
                data: Seq::empty(),
                ..old(self)@
            }),
    {
        self.segment_table = Vec::new();
        self.data = Vec::new();
    }

    /// The number of payload bytes that the segment table describes.
    pub fn get_inner_data_size(&self) -> (size: usize)
        requires
            spec_table_sum(self.segment_table@) <= usize::MAX,
        ensures
            size == spec_table_sum(self.segment_table@),
    {
        let mut size: usize = 0;
        let mut i: usize = 0;
        while i < self.segment_table.len()
            invariant
                i <= self.segment_table@.len(),
                size == spec_table_sum(self.segment_table@.take(i as int)),
                spec_table_sum(self.segment_table@) <= usize::MAX,
            decreases self.segment_table@.len() - i,
        {
            proof {
                lemma_table_sum_bounds(self.segment_table@, i + 1);
                assert(self.segment_table@.take(i + 1).drop_last() =~= self.segment_table@.take(
                    i as int,
                ));
            }
            size = size + self.segment_table[i] as usize;
            i = i + 1;
        }
        proof {
            assert(self.segment_table@.take(i as int) =~= self.segment_table@);
        }
        size
    }

    /// The payload cut into its segments, in order.
    pub fn get_segments(&self) -> (segments: Vec<Vec<u8>>)
        requires
            spec_table_sum(self.segment_table@) <= self.data@.len(),
        ensures
            segments@.len() == self.segment_table@.len(),
            forall|i: int|
                0 <= i < segments@.len() ==> (#[trigger] segments@[i])@ == self@.segment(i),
    {
        let mut segments: Vec<Vec<u8>> = Vec::with_capacity(self.segment_table.len());
        let mut pos: usize = 0;
        let mut i: usize = 0;
        while i < self.segment_table.len()
            invariant
                i <= self.segment_table@.len(),
                pos == spec_table_sum(self.segment_table@.take(i as int)),
                spec_table_sum(self.segment_table@) <= self.data@.len(),
                segments@.len() == i,
                forall|k: int| 0 <= k < i ==> (#[trigger] segments@[k])@ == self@.segment(k),
            decreases self.segment_table@.len() - i,
        {
            proof {
                lemma_table_sum_bounds(self.segment_table@, i + 1);
                assert(self.segment_table@.take(i + 1).drop_last() =~= self.segment_table@.take(
                    i as int,
                ));
                assert(self.data@.len() == self.data.len());
            }
            let next_pos: usize = pos + self.segment_table[i] as usize;
            let segment = vstd::slice::slice_to_vec(
                vstd::slice::slice_subrange(self.data.as_slice(), pos, next_pos),
            );
            segments.push(segment);
            pos = next_pos;
            i = i + 1;
        }
        segments
    }

    /// The payload that the segment table describes, in one piece.
    pub fn get_inner_data(&self) -> (inner: Vec<u8>)
        requires
            spec_table_sum(self.segment_table@) <= self.data@.len(),
        ensures
            inner@ == self.data@.subrange(0, spec_table_sum(self.segment_table@) as int),
    {
        assert(self.data@.len() == self.data.len());
        let size = self.get_inner_data_size();
        vstd::slice::slice_to_vec(vstd::slice::slice_subrange(self.data.as_slice(), 0, size))
    }

    /// The payload that the segment table describes, in one piece; the page
    /// is given up.
    pub fn into_inner(self) -> (inner: Vec<u8>)
        requires
            spec_table_sum(self.segment_table@) <= self.data@.len(),
        ensures
            inner@ == self.data@.subrange(0, spec_table_sum(self.segment_table@) as int),
    {
        self.get_inner_data()
    }
}

impl Default for OggPacket {
    /// An empty first page of stream zero.
    fn default() -> (p: Self)
        ensures
            p@ == OggPacketView::empty(0, OggPacketType::BeginOfStream, 0),
    {
        OggPacket::new(0, OggPacketType::BeginOfStream, 0)
    }
}

} // verus!
