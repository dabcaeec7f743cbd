//! Decode session protocol and decoded images.
//!
//! The decoding engine itself is not part of this library. Its driver makes
//! the calls into the engine and reports what came back; the types here keep
//! the state of the session and decide what each report means.

use vstd::prelude::*;
use std::marker::PhantomData;

pub mod image;
pub mod yuv;

pub use self::image::Image;

verus! {

/// Status code with which the engine reports success.
pub const CODEC_OK: i32 = 0;

/// The continuation token with which the engine is polled for the first
/// image of a chunk.
pub const NULL_TOKEN: usize = 0;

/// What can go wrong between the decoding engine and the pixel buffer.
#[derive(Debug, Clone, Copy, PartialEq, Eq, Structural)]
pub enum Error {
    /// The engine reported a failure; the payload is its status code.
    DecodeError(i32),
    /// The image is not 8-bit planar 4:2:0.
    UnsupportedPixelFormat,
    /// The image's geometry is malformed.
    InvalidImage,
}

/// The engine's name for the status `code`.
pub open spec fn status_name(code: i32) -> Seq<char> {
    if code == 0 {
        "VPX_CODEC_OK"@
    } else if code == 1 {
        "VPX_CODEC_ERROR"@
    } else if code == 2 {
        "VPX_CODEC_MEM_ERROR"@
    } else if code == 3 {
        "VPX_CODEC_ABI_MISMATCH"@
    } else if code == 4 {
        "VPX_CODEC_INCAPABLE"@
    } else if code == 5 {
        "VPX_CODEC_UNSUP_BITSTREAM"@
    } else if code == 6 {
        "VPX_CODEC_UNSUP_FEATURE"@
    } else if code == 7 {
        "VPX_CODEC_CORRUPT_FRAME"@
    } else if code == 8 {
        "VPX_CODEC_INVALID_PARAM"@
    } else if code == 9 {
        "VPX_CODEC_LIST_END"@
    } else {
        "unknown status"@
    }
}

/// The engine's name for the status `code`.
pub fn get_status_name(code: i32) -> (name: &'static str)
    ensures
        name@ == status_name(code),
{
    if code == 0 {
        "VPX_CODEC_OK"
    } else if code == 1 {
        "VPX_CODEC_ERROR"
    } else if code == 2 {
        "VPX_CODEC_MEM_ERROR"
    } else if code == 3 {
        "VPX_CODEC_ABI_MISMATCH"
    } else if code == 4 {
        "VPX_CODEC_INCAPABLE"
    } else if code == 5 {
        "VPX_CODEC_UNSUP_BITSTREAM"
    } else if code == 6 {
        "VPX_CODEC_UNSUP_FEATURE"
    } else if code == 7 {
        "VPX_CODEC_CORRUPT_FRAME"
    } else if code == 8 {
        "VPX_CODEC_INVALID_PARAM"
    } else if code == 9 {
        "VPX_CODEC_LIST_END"
    } else {
        "unknown status"
    }
}

impl Error {
    /// The description of the error.
    pub open spec fn message_text(self) -> Seq<char> {
        match self {
            Error::DecodeError(code) => "VPx error: "@ + status_name(code),
            Error::UnsupportedPixelFormat => "VPx error: unsupported pixel format"@,
            Error::InvalidImage => "VPx error: invalid image"@,
        }
    }

    /// Describes the error in words.
    pub fn message(&self) -> (text: String)
        ensures
            text@ == self.message_text(),
    {
        match self {
            Error::DecodeError(code) => String::from_str("VPx error: ").concat(
                get_status_name(*code),
            ),
            Error::UnsupportedPixelFormat => String::from_str(
                "VPx error: unsupported pixel format",
            ),
            Error::InvalidImage => String::from_str("VPx error: invalid image"),
        }
    }
}

/// A session with the decoding engine. It exists only where the engine was
/// initialised, and it is borrowed exclusively for as long as the images of a
/// chunk are being retrieved.
#[derive(Debug)]
pub struct Decoder {
    codec: usize,
}

impl Decoder {
    /// The handle of the engine instance that the session stands for. The
    /// library does not look into it.
    pub closed spec fn handle(&self) -> usize {
        self.codec
    }

    /// Makes the session from the handle of the engine instance and the
    /// status with which the engine answered its initialisation.
    pub fn init(codec: usize, status: i32) -> (res: Result<Decoder, Error>)
        ensures
            res is Ok <==> status == CODEC_OK,
            res matches Ok(decoder) ==> decoder.handle() == codec,
            res matches Err(e) ==> e == Error::DecodeError(status),
    {
        if status == CODEC_OK {
            Ok(Decoder { codec })
        } else {
            Err(Error::DecodeError(status))
        }
    }

    /// The handle of the engine instance.
    pub fn get_codec(&self) -> (codec: usize)
        ensures
            codec == self.handle(),
    {
        self.codec
    }

    /// Takes the status with which the engine answered the submission of one
    /// chunk. On success the chunk's images can be retrieved, from the
    /// beginning; on failure the session is as it was, and the next chunk can
    /// be submitted.
    pub fn decode_many(&mut self, status: i32) -> (res: Result<Frames<'_>, Error>)
        ensures
            res is Ok <==> status == CODEC_OK,
            res matches Ok(frames) ==> {
                &&& !frames.ended()
                &&& frames.token() == NULL_TOKEN
                &&& frames.handle() == old(self).handle()
            },
            res matches Err(e) ==> e == Error::DecodeError(status),
            *final(self) == *old(self),
    {
        if status == CODEC_OK {
            Ok(Frames { end: false, codec: self.codec, iter: NULL_TOKEN, session: PhantomData })
        } else {
            Err(Error::DecodeError(status))
        }
    }
}

/// The images of one submitted chunk: a finite sequence that is retrieved
/// once, from front to back.
pub struct Frames<'c> {
    end: bool,
    codec: usize,
    iter: usize,
    session: PhantomData<&'c mut Decoder>,
}

impl<'c> Frames<'c> {
    /// The engine has said that no further image will come.
    pub closed spec fn ended(&self) -> bool {
        self.end
    }

    /// The continuation token that the engine left at the last poll.
    pub closed spec fn token(&self) -> usize {
        self.iter
    }

    /// The handle of the engine instance.
    pub closed spec fn handle(&self) -> usize {
        self.codec
    }

    /// The handle of the engine instance.
    pub fn get_codec(&self) -> (codec: usize)
        ensures
            codec == self.handle(),
    {
        self.codec
    }

    /// The token with which the engine is to be polled next, or `None` where
    /// the sequence has ended and the engine must not be polled any more.
    pub fn cursor(&self) -> (cursor: Option<usize>)
        ensures
            cursor == if self.ended() { None } else { Some(self.token()) },
    {
        if self.end {
            None
        } else {
            Some(self.iter)
        }
    }

    /// Takes the engine's answer to one poll: the token as the engine left
    /// it, and the image, if one came. Every image that the engine hands out
    /// is passed on. With the first answer that holds no image the sequence
    /// ends for good: from then on no answer is looked at.
    pub fn next(&mut self, cursor: usize, polled: Option<Image>) -> (image: Option<Image>)
        ensures
            final(self).handle() == old(self).handle(),
            old(self).ended() ==> image is None && final(self).ended() && final(self).token()
                == old(self).token(),
            !old(self).ended() ==> image == polled && final(self).ended() == (polled is None)
                && final(self).token() == cursor,
    {
        if self.end {
            return None;
        }
        self.iter = cursor;
        if polled.is_none() {
            self.end = true;
        }
        polled
    }
}

} // verus!
