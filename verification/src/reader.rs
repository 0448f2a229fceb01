use crate::codec::{spec_from_bytes, spec_get_length, ByteCursor};
use crate::error::OggError;
use crate::packet::{OggPacket, OggPacketType, OggPacketView};
use vstd::prelude::*;
use vstd::slice::{slice_subrange, slice_to_vec};

verus! {

/// The least number of bytes that the reader asks its source for.
pub const READ_SIZE: usize = 2048;

/// What one attempt to take a page from the reader's cache came to.
#[derive(Debug)]
pub enum ReaderStep {
    /// A page was taken.
    Packet(OggPacket),
    /// There are no more pages: the cache holds no whole page and the stream
    /// has ended.
    End,
    /// The cache holds no whole page: read this many bytes from the source,
    /// hand what was read to `feed`, and try again.
    Read(usize),
    /// The bytes in the cache are no page; the stream is corrupt.
    Error(OggError),
}

/// What one call of the source's read operation gave.
#[derive(Debug, Clone, Copy, PartialEq, Eq, Structural)]
pub enum ReadEvent {
    /// This many bytes were placed; zero says that the source is exhausted.
    Data(usize),
    /// The call was interrupted before it placed anything.
    Interrupted,
    /// The call failed in any other way.
    Failed,
}

/// How a read of a fixed number of bytes goes on after one call of the
/// source's read operation.
#[derive(Debug, Clone, Copy, PartialEq, Eq, Structural)]
pub enum ReadProgress {
    /// Call the source again; this many bytes have been read so far.
    More(usize),
    /// The read is over; this many bytes have been read.
    Done(usize),
    /// The source failed: pass its error on, whatever was read before.
    Fail,
}

/// Takes pages from the bytes it is fed, one at a time. It does not read:
/// its caller reads from the source what `get_packet` asks for and hands it
/// to `feed`.
pub struct OggStreamReader {
    /// Whether the page taken last was the last of its stream.
    e_o_s: bool,
    /// Whether the source has given less than it was asked for.
    e_o_f: bool,
    /// The bytes fed and not yet consumed.
    cached_bytes: Vec<u8>,
}

/// What a reader holds, as mathematical values.
#[verifier::ext_equal]
pub struct OggStreamReaderView {
    pub e_o_s: bool,
    pub e_o_f: bool,
    pub cached_bytes: Seq<u8>,
}

impl View for OggStreamReader {
    type V = OggStreamReaderView;

    closed spec fn view(&self) -> OggStreamReaderView {
        OggStreamReaderView {
            e_o_s: self.e_o_s,
            e_o_f: self.e_o_f,
            cached_bytes: self.cached_bytes@,
        }
    }
}

/// The number of bytes to read when `cache` holds no whole page: the length
/// of the page that the cache starts with, where its header and segment
/// table tell it, and no less than 2048.
pub open spec fn spec_read_size(cache: Seq<u8>) -> nat {
    let hint: nat = match spec_get_length(cache) {
        Ok(length) => length,
        Err(_) => 0,
    };
    if hint >= 2048 {
        hint
    } else {
        2048
    }
}

/// How a read of `target_len` bytes, of which `bytes_read` are there, goes
/// on after `event`. A failure of the source ends the read and is passed
/// on, whatever was read before. Bytes that were placed count, up to the
/// target; no bytes say that the source is exhausted, which ends the read;
/// an interrupted call is made again.
pub open spec fn spec_safe_read(
    bytes_read: usize,
    target_len: usize,
    event: ReadEvent,
) -> ReadProgress {
    match event {
        ReadEvent::Failed => ReadProgress::Fail,
        ReadEvent::Interrupted => {
            if bytes_read >= target_len {
                ReadProgress::Done(bytes_read)
            } else {
                ReadProgress::More(bytes_read)
            }
        },
        ReadEvent::Data(n) => {
            if bytes_read >= target_len || n == 0 {
                ReadProgress::Done(bytes_read)
            } else if n >= target_len - bytes_read {
                ReadProgress::Done(target_len)
            } else {
                ReadProgress::More((bytes_read + n) as usize)
            }
        },
    }
}

impl OggStreamReaderView {
    /// A reader that has been fed nothing.
    pub open spec fn start() -> Self {
        OggStreamReaderView { e_o_s: false, e_o_f: false, cached_bytes: Seq::empty() }
    }

    /// The reader after the page `p` of `length` bytes has been taken from
    /// the front of its cache.
    pub open spec fn take(self, p: OggPacketView, length: nat) -> Self {
        OggStreamReaderView {
            e_o_s: p.packet_type == OggPacketType::EndOfStream,
            cached_bytes: self.cached_bytes.skip(length as int),
            ..self
        }
    }

    /// The reader after it was fed `read`, the answer to a request for
    /// `requested` bytes.
    pub open spec fn feed(self, requested: nat, read: Seq<u8>) -> Self {
        OggStreamReaderView {
            e_o_f: self.e_o_f || read.len() < requested,
            cached_bytes: self.cached_bytes + read,
            ..self
        }
    }
}

/// What is left of a buffer behind a position in it.
pub open spec fn spec_remaining(data: Seq<u8>, position: u64) -> Seq<u8> {
    if position <= data.len() {
        data.skip(position as int)
    } else {
        Seq::empty()
    }
}

impl OggStreamReaderView {
    /// What the next page is when the reader pulls from a source that holds
    /// `source` and gives all it is asked for while it has it: the page or
    /// the end or the error, the reader after it, and what is left of the
    /// source. A page in the cache is taken. Where bytes are lacking after
    /// the last page of a stream, that is the end. Else the reader asks for
    /// `spec_read_size` bytes and is fed what the source has of them; a
    /// short answer is forgiven once, and is the end after that.
    pub open spec fn pull(self, source: Seq<u8>) -> (
        Result<Option<OggPacketView>, OggError>,
        OggStreamReaderView,
        Seq<u8>,
    )
        decreases source.len(), (if self.e_o_f { 0int } else { 1int }),
    {
        match spec_from_bytes(self.cached_bytes) {
            Ok((p, length)) => (Ok(Some(p)), self.take(p, length), source),
            Err(OggError::TruncatedInput) => {
                if self.e_o_s {
                    (Ok(None), self, source)
                } else {
                    let requested = spec_read_size(self.cached_bytes);
                    let given = if source.len() < requested {
                        source.len()
                    } else {
                        requested
                    };
                    let fed = self.feed(requested, source.take(given as int));
                    let left = source.skip(given as int);
                    if given < requested && self.e_o_f {
                        (Ok(None), fed, left)
                    } else {
                        fed.pull(left)
                    }
                }
            },
            Err(e) => (Err(e), self, source),
        }
    }
}

impl OggStreamReader {
    /// The next page from a source in memory: what `source` holds behind
    /// its position. Pages are taken from the cache; whenever bytes are
    /// lacking, the bytes asked for are read from the source, which moves
    /// its position on, and fed to the reader. `Ok(None)` says that there
    /// are no more pages.
    pub fn get_packet_from(&mut self, source: &mut ByteCursor) -> (packet: Result<
        Option<OggPacket>,
        OggError,
    >)
        ensures
            final(source).data@ == old(source).data@,
            final(self)@ == old(self)@.pull(
                spec_remaining(old(source).data@, old(source).position),
            ).1,
            spec_remaining(final(source).data@, final(source).position) == old(self)@.pull(
                spec_remaining(old(source).data@, old(source).position),
            ).2,
            match packet {
                Ok(Some(p)) => old(self)@.pull(
                    spec_remaining(old(source).data@, old(source).position),
                ).0 == Ok::<Option<OggPacketView>, OggError>(Some(p@)),
                Ok(None) => old(self)@.pull(
                    spec_remaining(old(source).data@, old(source).position),
                ).0 == Ok::<Option<OggPacketView>, OggError>(None),
                Err(e) => old(self)@.pull(
                    spec_remaining(old(source).data@, old(source).position),
                ).0 == Err::<Option<OggPacketView>, OggError>(e),
            },
    {
        loop
            invariant
                source.data@ == old(source).data@,
                self@.pull(spec_remaining(source.data@, source.position)) == old(self)@.pull(
                    spec_remaining(old(source).data@, old(source).position),
                ),
            decreases
                    spec_remaining(source.data@, source.position).len(),
                    (if self@.e_o_f {
                        0int
                    } else {
                        1int
                    }),
        {
            match self.get_packet() {
                ReaderStep::Packet(packet) => {
                    return Ok(Some(packet));
                },
                ReaderStep::End => {
                    return Ok(None);
                },
                ReaderStep::Error(error) => {
                    return Err(error);
                },
                ReaderStep::Read(requested) => {
                    let len = source.data.len();
                    let start: usize = if source.position <= len as u64 {
                        source.position as usize
                    } else {
                        len
                    };
                    let given: usize = if len - start < requested {
                        len - start
                    } else {
                        requested
                    };
                    let ghost before = spec_remaining(source.data@, source.position);
                    let read = slice_subrange(source.data.as_slice(), start, start + given);
                    proof {
                        assert(read@ =~= before.take(given as int));
                        assert(source.data@.skip(start + given) =~= before.skip(given as int));
                    }
                    source.position = (start + given) as u64;
                    if !self.feed(requested, read) {
                        return Ok(None);
                    }
                },
            }
        }
    }

    /// A reader that has been fed nothing.
    pub fn new() -> (reader: Self)
        ensures
            reader@ == OggStreamReaderView::start(),
    {
        OggStreamReader { e_o_s: false, e_o_f: false, cached_bytes: Vec::new() }
    }

    /// One step of a read of `target_len` bytes from the source: given that
    /// `bytes_read` of them are there and what the last call of the source
    /// gave, says whether to call the source again, to stop, or to fail. An
    /// interrupted call is made again; every other failure of the source
    /// fails the read.
    pub fn safe_read(bytes_read: usize, target_len: usize, event: ReadEvent) -> (progress:
        ReadProgress)
        ensures
            progress == spec_safe_read(bytes_read, target_len, event),
    {
        match event {
            ReadEvent::Failed => ReadProgress::Fail,
            ReadEvent::Interrupted => {
                if bytes_read >= target_len {
                    ReadProgress::Done(bytes_read)
                } else {
                    ReadProgress::More(bytes_read)
                }
            },
            ReadEvent::Data(n) => {
                if bytes_read >= target_len || n == 0 {
                    ReadProgress::Done(bytes_read)
                } else if n >= target_len - bytes_read {
                    ReadProgress::Done(target_len)
                } else {
                    ReadProgress::More(bytes_read + n)
                }
            },
        }
    }

    /// Tries to take one page from the front of the cache. A page that is
    /// there is taken, and whether it ends its stream is noted. Where bytes
    /// are lacking, the answer is `End` after a page that ended its stream,
    /// and else a request to read more. Bytes that are no page are an error,
    /// and stay in the cache.
    pub fn get_packet(&mut self) -> (step: ReaderStep)
        ensures
            match spec_from_bytes(old(self)@.cached_bytes) {
                Ok((p, length)) => {
                    &&& step matches ReaderStep::Packet(packet)
                    &&& packet@ == p
                    &&& final(self)@ == old(self)@.take(p, length)
                },
                Err(OggError::TruncatedInput) => {
                    &&& final(self)@ == old(self)@
                    &&& old(self)@.e_o_s ==> step is End
                    &&& !old(self)@.e_o_s ==> (step matches ReaderStep::Read(n) && n
                        == spec_read_size(old(self)@.cached_bytes))
                },
                Err(e) => {
                    &&& final(self)@ == old(self)@
                    &&& step matches ReaderStep::Error(error)
                    &&& error == e
                },
            },
    {
        let mut packet_length: usize = 0;
        match OggPacket::from_bytes(self.cached_bytes.as_slice(), &mut packet_length) {
            Ok(packet) => {
                self.e_o_s = packet.packet_type == OggPacketType::EndOfStream;
                self.cached_bytes = self.cached_bytes.split_off(packet_length);
                ReaderStep::Packet(packet)
            },
            Err(OggError::TruncatedInput) => {
                if self.e_o_s {
                    ReaderStep::End
                } else if packet_length > READ_SIZE {
                    ReaderStep::Read(packet_length)
                } else {
                    ReaderStep::Read(READ_SIZE)
                }
            },
            Err(e) => ReaderStep::Error(e),
        }
    }

    /// Appends `read`, the bytes that the source gave when it was asked for
    /// `requested`, to the cache, and says whether to try `get_packet`
    /// again. Fewer bytes than were asked for mean that the source has
    /// ended: the first time this is noted and the answer is yes; from then
    /// on the answer is no, there are no more pages.
    pub fn feed(&mut self, requested: usize, read: &[u8]) -> (again: bool)
        ensures
            final(self)@ == old(self)@.feed(requested as nat, read@),
            again == !(read@.len() < requested && old(self)@.e_o_f),
    {
        let mut bytes = slice_to_vec(read);
        self.cached_bytes.append(&mut bytes);
        if read.len() < requested {
            if self.e_o_f {
                false
            } else {
                self.e_o_f = true;
                true
            }
        } else {
            true
        }
    }

    /// The bytes fed and not yet consumed.
    pub fn cached_bytes(&self) -> (bytes: &[u8])
        ensures
            bytes@ == self@.cached_bytes,
    {
        self.cached_bytes.as_slice()
    }

    /// Whether the page taken last was the last of its stream.
    pub fn is_eos(&self) -> (eos: bool)
        ensures
            eos == self@.e_o_s,
    {
        self.e_o_s
    }

    /// Whether the source has ended: it gave less than it was asked for.
    pub fn is_eof(&self) -> (eof: bool)
        ensures
            eof == self@.e_o_f,
    {
        self.e_o_f
    }
}

/// What a read of `target_len` bytes comes to over the calls of the source
/// that gave `events`, from `bytes_read` bytes on: the first answer that
/// ends the read, or `More` where the events run out before.
pub open spec fn spec_safe_read_all(
    bytes_read: usize,
    target_len: usize,
    events: Seq<ReadEvent>,
) -> ReadProgress
    decreases events.len(),
{
    if events.len() == 0 {
        ReadProgress::More(bytes_read)
    } else {
        match spec_safe_read(bytes_read, target_len, events[0]) {
            ReadProgress::More(n) => spec_safe_read_all(n, target_len, events.skip(1)),
            ended => ended,
        }
    }
}

/// Whether `events` can come from a source that has `available` bytes left
/// and is asked for at most `space` bytes: each call places at least one
/// byte unless the source is exhausted, never more than the source has or
/// the call asks for, or is interrupted.
pub open spec fn spec_source_gives(events: Seq<ReadEvent>, available: nat, space: nat) -> bool
    decreases events.len(),
{
    events.len() > 0 ==> match events[0] {
        ReadEvent::Data(n) => {
            &&& n <= available
            &&& n <= space
            &&& n == 0 ==> available == 0
            &&& spec_source_gives(events.skip(1), (available - n) as nat, (space - n) as nat)
        },
        ReadEvent::Interrupted => spec_source_gives(events.skip(1), available, space),
        _ => false,
    }
}

/// A read does not depend on how the source cuts its bytes into calls:
/// whatever the sizes of the pieces and however often a call is interrupted,
/// a read that ends has all the bytes that were asked for, or all that the
/// source had, and it never fails.
pub proof fn lemma_safe_read_whole(
    bytes_read: usize,
    target_len: usize,
    events: Seq<ReadEvent>,
    available: nat,
)
    requires
        bytes_read < target_len,
        spec_source_gives(events, available, (target_len - bytes_read) as nat),
    ensures
        spec_safe_read_all(bytes_read, target_len, events) != ReadProgress::Fail,
        spec_safe_read_all(bytes_read, target_len, events) matches ReadProgress::Done(n) ==> n
            == if available < target_len - bytes_read {
            bytes_read + available
        } else {
            target_len as int
        },
    decreases events.len(),
{
    if events.len() > 0 {
        match spec_safe_read(bytes_read, target_len, events[0]) {
            ReadProgress::More(n) => {
                let given = (n - bytes_read) as nat;
                lemma_safe_read_whole(n, target_len, events.skip(1), (available - given) as nat);
            },
            _ => {},
        }
    }
}

impl OggStreamReaderView {
    /// What the next page is when the reader pulls from a source that holds
    /// `source` and answers the calls of the `i`-th read with `reads[i]`: as
    /// `pull`, but each read goes call by call, as `safe_read` decides, and
    /// takes from the source as many bytes as the calls placed. There is no
    /// answer where the reads run out, where a read does not end, or where
    /// the calls are not such as the source can give.
    pub open spec fn pull_by(self, source: Seq<u8>, reads: Seq<Seq<ReadEvent>>) -> Option<
        (Result<Option<OggPacketView>, OggError>, OggStreamReaderView, Seq<u8>),
    >
        decreases reads.len(),
    {
        match spec_from_bytes(self.cached_bytes) {
            Ok((p, length)) => Some((Ok(Some(p)), self.take(p, length), source)),
            Err(OggError::TruncatedInput) => {
                if self.e_o_s {
                    Some((Ok(None), self, source))
                } else if reads.len() == 0 {
                    None
                } else {
                    let requested = spec_read_size(self.cached_bytes);
                    if !spec_source_gives(reads[0], source.len(), requested) {
                        None
                    } else {
                        match spec_safe_read_all(0, requested as usize, reads[0]) {
                            ReadProgress::Done(given) => {
                                let fed = self.feed(requested, source.take(given as int));
                                let left = source.skip(given as int);
                                if given < requested && self.e_o_f {
                                    Some((Ok(None), fed, left))
                                } else {
                                    fed.pull_by(left, reads.skip(1))
                                }
                            },
                            _ => None,
                        }
                    }
                }
            },
            Err(e) => Some((Err(e), self, source)),
        }
    }
}

/// The reader asks for at least 2048 bytes and for no more than the longest
/// page has, 65307.
pub proof fn lemma_read_size_bounds(cache: Seq<u8>)
    ensures
        2048 <= spec_read_size(cache) <= 65307,
{
    if spec_get_length(cache) is Ok {
        crate::packet::lemma_table_sum_bounds(cache.subrange(27, 27 + cache[26]), 0);
    }
}

/// The pages do not depend on how the source cuts its bytes into calls: a
/// source that gives all it holds to one call and a source that gives one
/// byte to each call, or any other, bring the reader to the same page, end
/// or error, leave it with the same cache and the same marks, and are left
/// with the same bytes. So the next attempt, and every one after it, gives
/// the same again.
pub proof fn lemma_pull_any_cut(
    r: OggStreamReaderView,
    source: Seq<u8>,
    reads: Seq<Seq<ReadEvent>>,
)
    requires
        r.pull_by(source, reads) is Some,
    ensures
        r.pull_by(source, reads) == Some(r.pull(source)),
    decreases reads.len(),
{
    if spec_from_bytes(r.cached_bytes) == Err::<(OggPacketView, nat), OggError>(
        OggError::TruncatedInput,
    ) && !r.e_o_s {
        let requested = spec_read_size(r.cached_bytes);
        lemma_read_size_bounds(r.cached_bytes);
        lemma_safe_read_whole(0, requested as usize, reads[0], source.len());
        let given = spec_safe_read_all(0, requested as usize, reads[0])->Done_0;
        if !(given < requested && r.e_o_f) {
            lemma_pull_any_cut(
                r.feed(requested, source.take(given as int)),
                source.skip(given as int),
                reads.skip(1),
            );
        }
    }
}

} // verus!
