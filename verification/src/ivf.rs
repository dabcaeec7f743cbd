//! IVF container parser.
//!
//! A container is a 32-byte file header followed by frames; a frame is a
//! 12-byte header, which starts with the payload's size, and the payload.

use vstd::prelude::*;
use vstd::slice::{slice_subrange, slice_to_vec};
use crate::common::{get_le16, get_le32};

pub mod format;

use self::format::{
    are_frames_of, chunks, frame_size, header_error, header_height, header_width,
    lemma_truncated_frame, lemma_whole_frames, FILE_HEADER_SIZE, FRAME_HEADER_SIZE, VP9_FOURCC,
};

verus! {

/// The error type of the standard library's input and output,
/// `std::io::Error`. A value of it is carried along; nothing is known of what
/// it holds.
#[verifier::external_type_specification]
#[verifier::external_body]
pub struct ExIoError(std::io::Error);

/// What can go wrong when a container is opened.
#[derive(Debug)]
pub enum Error {
    /// The stream could not be read.
    IoError(std::io::Error),
    /// The stream does not start with a whole file header and its magic tag.
    FormatError,
    /// The codec identifier is not that of VP9.
    UnsupportedCodec,
    /// The frame width or height is zero.
    InvalidDimensions,
}

impl From<std::io::Error> for Error {
    fn from(err: std::io::Error) -> (e: Error) {
        Error::IoError(err)
    }
}

impl vstd::std_specs::convert::FromSpecImpl<std::io::Error> for Error {
    open spec fn obeys_from_spec() -> bool {
        true
    }

    open spec fn from_spec(err: std::io::Error) -> Error {
        Error::IoError(err)
    }
}

impl Error {
    /// The words that head the description of a read failure.
    pub open spec fn io_prefix() -> Seq<char> {
        "IO error: "@
    }

    /// The description of an error that is not a read failure.
    pub open spec fn parse_message(self) -> Seq<char> {
        match self {
            Error::IoError(_) => Seq::empty(),
            Error::FormatError => "Parse error: not an IVF file"@,
            Error::UnsupportedCodec => "Parse error: unsupported codec"@,
            Error::InvalidDimensions => "Parse error: zero frame width or height"@,
        }
    }

    /// Describes the error in words. A read failure is described in the
    /// words of the standard library, behind `IO error: `.
    pub fn message(&self) -> (text: String)
        ensures
            self is IoError ==> Self::io_prefix().is_prefix_of(text@),
            !(self is IoError) ==> text@ == self.parse_message(),
    {
        match self {
            Error::IoError(err) => {
                let text = String::from_str("IO error: ").concat(err.to_string().as_str());
                assert(text@.subrange(0, Self::io_prefix().len() as int) == Self::io_prefix());
                text
            },
            Error::FormatError => String::from_str("Parse error: not an IVF file"),
            Error::UnsupportedCodec => String::from_str("Parse error: unsupported codec"),
            Error::InvalidDimensions => String::from_str(
                "Parse error: zero frame width or height",
            ),
        }
    }
}

/// A byte stream held in memory that is read from front to back.
pub struct ByteStream {
    data: Vec<u8>,
    pos: usize,
}

impl View for ByteStream {
    type V = Seq<u8>;

    /// The bytes that have not been read yet.
    closed spec fn view(&self) -> Seq<u8> {
        self.data@.skip(self.pos as int)
    }
}

impl ByteStream {
    #[verifier::type_invariant]
    spec fn inv(self) -> bool {
        self.pos <= self.data@.len()
    }

    /// A stream that will yield the bytes of `data`.
    pub fn new(data: Vec<u8>) -> (stream: ByteStream)
        ensures
            stream@ == data@,
    {
        ByteStream { data, pos: 0 }
    }

    /// The number of bytes that have not been read yet.
    pub fn remaining(&self) -> (n: usize)
        ensures
            n == self@.len(),
    {
        proof {
            use_type_invariant(self);
        }
        self.data.len() - self.pos
    }
}

/// Reads exactly `count` bytes from the stream. Where fewer are left, the
/// read fails and the stream is drained.
pub fn read_bytes(breader: &mut ByteStream, count: usize) -> (res: Result<Vec<u8>, Error>)
    ensures
        match res {
            Ok(buf) => {
                &&& count <= old(breader)@.len()
                &&& buf@ == old(breader)@.take(count as int)
                &&& final(breader)@ == old(breader)@.skip(count as int)
            },
            Err(e) => {
                &&& count > old(breader)@.len()
                &&& e == Error::FormatError
                &&& final(breader)@.len() == 0
            },
        },
{
    proof {
        use_type_invariant(&*breader);
    }
    let len = breader.data.len();
    let pos = breader.pos;
    if count > len - pos {
        breader.pos = len;
        return Err(Error::FormatError);
    }
    let buf = slice_to_vec(slice_subrange(breader.data.as_slice(), pos, pos + count));
    breader.pos = pos + count;
    assert(buf@ == old(breader)@.take(count as int));
    assert(breader@ == old(breader)@.skip(count as int));
    Ok(buf)
}

/// An open container: the parsed header fields, the number of chunks handed
/// out so far, and the stream behind them.
pub struct Reader {
    breader: ByteStream,
    filename: String,
    fourcc: u32,
    width: u16,
    height: u16,
    /// Frame position we are currently viewing the stream at.
    /// It is 0 after the file header was read.
    frame_pos: usize,
    frame_count: Option<usize>,
}

/// An open container as a mathematical value.
pub struct ReaderView {
    pub filename: Seq<char>,
    pub fourcc: u32,
    pub width: u16,
    pub height: u16,
    /// The number of chunks handed out so far.
    pub frame_pos: nat,
    /// The total number of chunks, once the end of the stream was seen.
    pub frame_count: Option<nat>,
    /// The chunks that are still to come, in order.
    pub pending: Seq<Seq<u8>>,
}

impl ReaderView {
    /// What holds of every open container: the header fields were accepted,
    /// and a frame count that is known equals the position, with no chunk
    /// left.
    pub open spec fn wf(self) -> bool {
        &&& self.fourcc == VP9_FOURCC
        &&& self.width > 0
        &&& self.height > 0
        &&& self.frame_count matches Some(count) ==> count == self.frame_pos
            && self.pending.len() == 0
    }

    /// The chunk that the next pull yields, if any.
    pub open spec fn next_chunk(self) -> Option<Seq<u8>> {
        if self.pending.len() > 0 {
            Some(self.pending[0])
        } else {
            None
        }
    }

    /// The container after one pull. A chunk that is there is handed out and
    /// counted; where none is left, the frame count freezes at the position.
    pub open spec fn advance(self) -> ReaderView {
        if self.pending.len() > 0 {
            ReaderView {
                frame_pos: self.frame_pos + 1,
                pending: self.pending.drop_first(),
                ..self
            }
        } else {
            ReaderView { frame_count: Some(self.frame_pos), ..self }
        }
    }

    /// The container after `n` pulls.
    pub open spec fn advance_by(self, n: nat) -> ReaderView
        decreases n,
    {
        if n == 0 {
            self
        } else {
            self.advance().advance_by((n - 1) as nat)
        }
    }
}

impl View for Reader {
    type V = ReaderView;

    closed spec fn view(&self) -> ReaderView {
        ReaderView {
            filename: self.filename@,
            fourcc: self.fourcc,
            width: self.width,
            height: self.height,
            frame_pos: self.frame_pos as nat,
            frame_count: match self.frame_count {
                Some(count) => Some(count as nat),
                None => None,
            },
            pending: chunks(self.breader@),
        }
    }
}

impl Reader {
    /// The reader is one that `open` made and `next` moved on: its view is
    /// well formed, and the position counter has room for every frame that
    /// the stream can still hold.
    pub closed spec fn wf(&self) -> bool {
        &&& self@.wf()
        &&& self.frame_pos * FRAME_HEADER_SIZE + self.breader@.len() <= usize::MAX
    }

    /// A well-formed reader has a well-formed view.
    pub proof fn lemma_wf_view(&self)
        requires
            self.wf(),
        ensures
            self@.wf(),
    {
    }

    /// The name of the file that the container was read from.
    pub fn get_filename(&self) -> (filename: &str)
        ensures
            filename@ == self@.filename,
    {
        self.filename.as_str()
    }

    /// The codec identifier of the file header.
    pub fn get_fourcc(&self) -> (fourcc: u32)
        ensures
            fourcc == self@.fourcc,
    {
        self.fourcc
    }

    /// The frame width of the file header, in pixels.
    pub fn get_width(&self) -> (width: u16)
        ensures
            width == self@.width,
    {
        self.width
    }

    /// The frame height of the file header, in pixels.
    pub fn get_height(&self) -> (height: u16)
        ensures
            height == self@.height,
    {
        self.height
    }

    /// The number of chunks handed out so far.
    pub fn get_frame_pos(&self) -> (pos: usize)
        ensures
            pos == self@.frame_pos,
    {
        self.frame_pos
    }

    /// The total number of chunks, which is known once the end of the stream
    /// was seen.
    pub fn get_frame_count(&self) -> (count: Option<usize>)
        ensures
            match count {
                Some(n) => self@.frame_count == Some(n as nat),
                None => self@.frame_count is None,
            },
    {
        self.frame_count
    }

    /// Opens the container with the bytes `data`, which were read from the
    /// file `filename`. Only a few header fields are parsed and checked, so
    /// that files which are damaged elsewhere can still be viewed.
    pub fn open(filename: String, data: Vec<u8>) -> (res: Result<Reader, Error>)
        ensures
            match res {
                Ok(reader) => {
                    &&& header_error(data@) is None
                    &&& reader@ == (ReaderView {
                        filename: filename@,
                        fourcc: VP9_FOURCC,
                        width: header_width(data@) as u16,
                        height: header_height(data@) as u16,
                        frame_pos: 0,
                        frame_count: None,
                        pending: chunks(data@.skip(FILE_HEADER_SIZE as int)),
                    })
                    &&& reader.wf()
                    &&& reader@.wf()
                },
                Err(e) => header_error(data@) == Some(e),
            },
    {
        assert(data@.len() == data.len());
        let mut breader = ByteStream::new(data);
        let header = match read_bytes(&mut breader, FILE_HEADER_SIZE) {
            Ok(header) => header,
            Err(e) => {
                return Err(e);
            },
        };
        assert(header@ == data@.take(FILE_HEADER_SIZE as int));
        if header[0] != 68 || header[1] != 75 || header[2] != 73 || header[3] != 70 {
            return Err(Error::FormatError);
        }
        let fourcc = get_le32(slice_subrange(header.as_slice(), 8, 12));
        // Only VP9 is supported.
        if fourcc != VP9_FOURCC {
            return Err(Error::UnsupportedCodec);
        }
        let width = get_le16(slice_subrange(header.as_slice(), 12, 14));
        let height = get_le16(slice_subrange(header.as_slice(), 14, 16));
        if width == 0 || height == 0 {
            return Err(Error::InvalidDimensions);
        }
        Ok(
            Reader {
                breader,
                filename,
                fourcc,
                width,
                height,
                frame_pos: 0,
                frame_count: None,
            },
        )
    }

    /// Pulls the next chunk. Where the stream holds no whole frame any more,
    /// be it at its clean end or in the middle of a frame, this is the end of
    /// the stream: the frame count freezes and no chunk comes, now or later.
    pub fn next(&mut self) -> (chunk: Option<Vec<u8>>)
        requires
            old(self).wf(),
        ensures
            final(self).wf(),
            final(self)@.wf(),
            final(self)@ == old(self)@.advance(),
            match chunk {
                Some(payload) => old(self)@.next_chunk() == Some(payload@),
                None => old(self)@.next_chunk() is None,
            },
    {
        match self.frame_count {
            Some(count) => {
                if self.frame_pos >= count {
                    return None;
                }
            },
            None => {},
        }
        let ghost stream = self.breader@;
        match read_bytes(&mut self.breader, FRAME_HEADER_SIZE) {
            Ok(fheader) => {
                let fsize = get_le32(fheader.as_slice()) as usize;
                match read_bytes(&mut self.breader, fsize) {
                    Ok(frame) => {
                        proof {
                            let end = FRAME_HEADER_SIZE + fsize;
                            assert(frame@ == stream.subrange(FRAME_HEADER_SIZE as int, end));
                            assert(self.breader@ == stream.skip(end));
                            assert(chunks(stream).drop_first() == chunks(stream.skip(end)));
                        }
                        self.frame_pos += 1;
                        Some(frame)
                    },
                    Err(_) => {
                        // No more frames.
                        self.frame_count = Some(self.frame_pos);
                        None
                    },
                }
            },
            Err(_) => {
                // No more frames. The file header has a frame count of its
                // own, but some encoders leave it at zero, so the stream is
                // read until it ends.
                self.frame_count = Some(self.frame_pos);
                None
            },
        }
    }
}

/// One pull keeps a container well formed. The position never decreases,
/// and a frame count that is known stays as it is: at the position at which
/// the end of the stream was seen.
pub proof fn lemma_advance(r: ReaderView)
    requires
        r.wf(),
    ensures
        r.advance().wf(),
        r.advance().frame_pos >= r.frame_pos,
        r.frame_count is Some ==> r.advance() == r,
        r.advance().frame_count matches Some(count) ==> count == r.advance().frame_pos,
{
}

/// Once the end of the stream was seen, pulls change nothing and yield
/// nothing.
pub proof fn lemma_pulls_after_end(r: ReaderView, k: nat)
    requires
        r.wf(),
        r.frame_count is Some,
    ensures
        r.advance_by(k) == r,
        r.advance_by(k).next_chunk() is None,
    decreases k,
{
    if k > 0 {
        lemma_pulls_after_end(r.advance(), (k - 1) as nat);
    }
}

/// What `k` pulls do to a container that has `n` chunks to come and has not
/// seen the end of its stream: pull `k` yields chunk `k` while `k < n`, and
/// nothing from then on; the position rises by one for each chunk that was
/// yielded; the frame count becomes known with the first pull that yields
/// nothing, and is then the position.
pub proof fn lemma_pulls(r: ReaderView, k: nat)
    requires
        r.wf(),
        r.frame_count is None,
    ensures
        ({
            let n = r.pending.len();
            let after = r.advance_by(k);
            &&& after.wf()
            &&& k < n ==> after.next_chunk() == Some(r.pending[k as int])
            &&& k >= n ==> after.next_chunk() is None
            &&& k <= n ==> after.frame_pos == r.frame_pos + k && after.frame_count is None
            &&& k > n ==> after.frame_pos == r.frame_pos + n && after.frame_count == Some(
                r.frame_pos + n,
            )
        }),
    decreases k,
{
    if k > 0 {
        let next = r.advance();
        if r.pending.len() > 0 {
            lemma_pulls(next, (k - 1) as nat);
            if k - 1 < next.pending.len() {
                assert(next.pending[k - 1] == r.pending[k as int]);
            }
        } else {
            lemma_pulls_after_end(next, (k - 1) as nat);
        }
    }
}

/// A container that is a file header followed by whole frames and the true
/// end of the file yields exactly the frames' payloads, in order, and then
/// nothing, however often it is pulled; after the first pull that yields
/// nothing, the frame count is the number of frames. `r` is the container as
/// `Reader::open` leaves it, and `k` the number of pulls made before.
pub proof fn lemma_whole_container(
    header: Seq<u8>,
    frames: Seq<Seq<u8>>,
    payloads: Seq<Seq<u8>>,
    r: ReaderView,
    k: nat,
)
    requires
        header.len() == FILE_HEADER_SIZE,
        are_frames_of(frames, payloads),
        r.wf(),
        r.frame_pos == 0,
        r.frame_count is None,
        r.pending == chunks((header + frames.flatten()).skip(FILE_HEADER_SIZE as int)),
    ensures
        k < frames.len() ==> r.advance_by(k).next_chunk() == Some(payloads[k as int]),
        k >= frames.len() ==> r.advance_by(k).next_chunk() is None,
        k > frames.len() ==> r.advance_by(k).frame_count == Some(frames.len()),
{
    assert((header + frames.flatten()).skip(FILE_HEADER_SIZE as int) == frames.flatten());
    lemma_whole_frames(frames, payloads);
    lemma_pulls(r, k);
}

/// A container whose frames are followed by a frame header that declares
/// more payload than the stream still holds ends there: it yields the
/// payloads of the whole frames and then nothing, and the frame count
/// freezes at the number of whole frames.
pub proof fn lemma_truncated_container(
    header: Seq<u8>,
    frames: Seq<Seq<u8>>,
    payloads: Seq<Seq<u8>>,
    rest: Seq<u8>,
    r: ReaderView,
    k: nat,
)
    requires
        header.len() == FILE_HEADER_SIZE,
        are_frames_of(frames, payloads),
        rest.len() >= FRAME_HEADER_SIZE,
        frame_size(rest) > rest.len() - FRAME_HEADER_SIZE,
        r.wf(),
        r.frame_pos == 0,
        r.frame_count is None,
        r.pending == chunks((header + (frames.flatten() + rest)).skip(FILE_HEADER_SIZE as int)),
    ensures
        k < frames.len() ==> r.advance_by(k).next_chunk() == Some(payloads[k as int]),
        k >= frames.len() ==> r.advance_by(k).next_chunk() is None,
        k > frames.len() ==> r.advance_by(k).frame_count == Some(frames.len()),
{
    assert((header + (frames.flatten() + rest)).skip(FILE_HEADER_SIZE as int) == frames.flatten()
        + rest);
    lemma_truncated_frame(frames, payloads, rest);
    lemma_pulls(r, k);
}

} // verus!
