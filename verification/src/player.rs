//! The video side: frames, the player that takes them from a channel, and
//! what a video datagram carries.
//!
//! Frames are RGBA images, four bytes to the pixel. Whoever decodes the video
//! stream puts them into a channel; the player takes them out, one for each
//! redraw, and says what the renderer has to do with its texture. Drawing
//! itself is not done here.

use vstd::prelude::*;
use std::sync::mpsc::Receiver;
use crate::gram::received;

verus! {

/// Number of bytes at the start of a video datagram that belong to the
/// transport and not to the video stream.
pub const VIDEO_HEADER_LEN: usize = 2;

/// Width of the pictures of the vehicle's video stream, in pixels.
pub const VIDEO_WIDTH: u32 = 960;

/// Height of the pictures of the vehicle's video stream, in pixels.
pub const VIDEO_HEIGHT: u32 = 720;

/// Bytes per pixel of a frame.
pub const BYTES_PER_PIXEL: u32 = 4;

/// The receiving end of a channel of the standard library. Nothing inside it
/// is visible to the verifier.
#[verifier::external_type_specification]
#[verifier::external_body]
#[verifier::reject_recursive_types(T)]
pub struct ExReceiver<T>(std::sync::mpsc::Receiver<T>);

/// One decoded picture of the video stream.
#[derive(Debug, PartialEq, Eq)]
pub struct Frame {
    pub width: u32,
    pub height: u32,
    pub data: Vec<u8>,
}

/// The model of a [`Frame`].
pub struct FrameView {
    pub width: u32,
    pub height: u32,
    pub data: Seq<u8>,
}

impl View for Frame {
    type V = FrameView;

    open spec fn view(&self) -> FrameView {
        FrameView { width: self.width, height: self.height, data: self.data@ }
    }
}

/// The view of a frame that may be missing.
pub open spec fn frame_view(frame: Option<Frame>) -> Option<FrameView> {
    match frame {
        Some(f) => Some(f@),
        None => None,
    }
}

/// Number of bytes of an RGBA image of the given size, where 32 bits hold
/// it.
pub open spec fn rgba_len_spec(width: u32, height: u32) -> Option<usize> {
    if width * height * BYTES_PER_PIXEL <= u32::MAX {
        Some((width * height * BYTES_PER_PIXEL) as usize)
    } else {
        None
    }
}

/// Computes the number of bytes of an RGBA image of the given size. There is
/// none where the number does not fit into 32 bits.
pub fn rgba_len(width: u32, height: u32) -> (len: Option<usize>)
    ensures
        len == rgba_len_spec(width, height),
{
    match width.checked_mul(height) {
        None => None,
        Some(pixels) => match pixels.checked_mul(BYTES_PER_PIXEL) {
            None => None,
            Some(bytes) => Some(bytes as usize),
        },
    }
}

/// The part of a video datagram that belongs to the video stream: what
/// follows the two bytes of the transport header, up to the end of what was
/// received. A datagram of fewer than two bytes carries nothing.
pub open spec fn video_payload_spec(buffer: Seq<u8>, received_len: nat) -> Option<Seq<u8>> {
    if received(buffer, received_len) < VIDEO_HEADER_LEN {
        None
    } else {
        Some(buffer.subrange(VIDEO_HEADER_LEN as int, received(buffer, received_len) as int))
    }
}

/// Strips the transport header from the video datagram in `buffer`, of which
/// the first `received_len` bytes were received.
pub fn video_payload(buffer: &[u8], received_len: usize) -> (payload: Option<Vec<u8>>)
    ensures
        match payload {
            Some(p) => video_payload_spec(buffer@, received_len as nat) == Some(p@),
            None => video_payload_spec(buffer@, received_len as nat) is None,
        },
{
    let avail: usize = if received_len <= buffer.len() {
        received_len
    } else {
        buffer.len()
    };
    if avail < VIDEO_HEADER_LEN {
        return None;
    }
    let mut out: Vec<u8> = Vec::with_capacity(avail - VIDEO_HEADER_LEN);
    let mut i: usize = VIDEO_HEADER_LEN;
    while i < avail
        invariant
            VIDEO_HEADER_LEN <= i <= avail <= buffer.len(),
            out@ == buffer@.subrange(VIDEO_HEADER_LEN as int, i as int),
        decreases avail - i,
    {
        out.push(buffer[i]);
        i += 1;
    }
    Some(out)
}

/// What the renderer does with its texture before a redraw.
#[derive(Debug, PartialEq, Eq)]
pub enum FrameUpdate {
    /// No new frame: draw the old picture again.
    Keep,
    /// A new frame that fits the texture: copy it in.
    Upload(Frame),
    /// A new frame of another size: make a texture for it, then copy it in.
    Reallocate(Frame),
}

/// The model of a [`FrameUpdate`].
pub enum FrameUpdateView {
    Keep,
    Upload(FrameView),
    Reallocate(FrameView),
}

impl View for FrameUpdate {
    type V = FrameUpdateView;

    open spec fn view(&self) -> FrameUpdateView {
        match self {
            FrameUpdate::Keep => FrameUpdateView::Keep,
            FrameUpdate::Upload(frame) => FrameUpdateView::Upload(frame@),
            FrameUpdate::Reallocate(frame) => FrameUpdateView::Reallocate(frame@),
        }
    }
}

/// What to do with a texture of `texture_len` bytes when `next` came out of
/// the channel.
pub open spec fn plan_update_spec(next: Option<FrameView>, texture_len: nat) -> FrameUpdateView {
    match next {
        None => FrameUpdateView::Keep,
        Some(frame) => if frame.data.len() == texture_len {
            FrameUpdateView::Upload(frame)
        } else {
            FrameUpdateView::Reallocate(frame)
        },
    }
}

/// Decides what the renderer does with its texture of `texture_len` bytes,
/// given what came out of the channel.
pub fn plan_update(next: Option<Frame>, texture_len: usize) -> (update: FrameUpdate)
    ensures
        update@ == plan_update_spec(frame_view(next), texture_len as nat),
{
    match next {
        None => FrameUpdate::Keep,
        Some(frame) => if frame.data.len() == texture_len {
            FrameUpdate::Upload(frame)
        } else {
            FrameUpdate::Reallocate(frame)
        },
    }
}

/// Takes the frame that waits in the channel, if one does, without blocking.
///
/// This is `Receiver::try_recv`, with an empty and a disconnected channel
/// both turned into `None`. What comes back depends on what the sender has
/// done, so nothing is claimed about it.
#[verifier::external_body]
fn try_recv_frame(receiver: &Receiver<Frame>) -> (frame: Option<Frame>) {
    receiver.try_recv().ok()
}

/// The sink of the video stream: it owns the receiving end of the channel of
/// frames.
pub struct Player {
    receiver: Receiver<Frame>,
}

impl Player {
    /// The channel that the player takes its frames from.
    pub closed spec fn source(&self) -> Receiver<Frame> {
        self.receiver
    }

    /// A player that takes its frames from `receiver`.
    pub fn new(receiver: Receiver<Frame>) -> (player: Player)
        ensures
            player.source() == receiver,
    {
        Player { receiver }
    }

    /// Looks for a new frame and decides what the renderer does with its
    /// texture of `texture_len` bytes. Whether a frame waits is up to the
    /// sender; whatever came, a frame is uploaded as it is only where it has
    /// the texture's size.
    pub fn poll(&self, texture_len: usize) -> (update: FrameUpdate)
        ensures
            match update@ {
                FrameUpdateView::Keep => true,
                FrameUpdateView::Upload(frame) => frame.data.len() == texture_len,
                FrameUpdateView::Reallocate(frame) => frame.data.len() != texture_len,
            },
    {
        let next: Option<Frame> = try_recv_frame(&self.receiver);
        plan_update(next, texture_len)
    }
}

/// Width and height that a PNG stream declares, or nothing where the stream
/// is refused before its first image data.
pub uninterp spec fn png_dimensions(bytes: Seq<u8>) -> Option<(u32, u32)>;

/// What a buffer holds after the first image of a PNG stream was decoded into
/// it, or nothing where the stream or the buffer is refused.
pub uninterp spec fn png_pixels(bytes: Seq<u8>, buffer: Seq<u8>) -> Option<Seq<u8>>;

/// Reads the header of a PNG stream.
///
/// This is `png::Decoder::new` on a cursor over `bytes`, followed by
/// `read_info`. The result is the width and height of the `OutputInfo` that
/// `read_info` returns, and `None` where it returns an error. It depends on
/// `bytes` alone and is named `png_dimensions`.
#[verifier::external_body]
fn read_png_dimensions(bytes: &[u8]) -> (dimensions: Option<(u32, u32)>)
    ensures
        dimensions == png_dimensions(bytes@),
{
    match png::Decoder::new(std::io::Cursor::new(bytes)).read_info() {
        Ok((info, _)) => Some((info.width, info.height)),
        Err(_) => None,
    }
}

/// Decodes the first image of a PNG stream into `buffer`.
///
/// This is `png::Decoder::new` on a cursor over `bytes`, `read_info`, and
/// `png::Reader::next_frame` on `buffer`. The result is the buffer after the
/// call, of unchanged length, and `None` where either call returns an error,
/// as `next_frame` does for a buffer that is too small. It depends on `bytes`
/// and on what `buffer` held, and is named `png_pixels`.
#[verifier::external_body]
fn read_png_frame(bytes: &[u8], buffer: Vec<u8>) -> (pixels: Option<Vec<u8>>)
    ensures
        match pixels {
            Some(out) => png_pixels(bytes@, buffer@) == Some(out@) && out@.len() == buffer@.len(),
            None => png_pixels(bytes@, buffer@) is None,
        },
{
    let mut out = buffer;
    match png::Decoder::new(std::io::Cursor::new(bytes)).read_info() {
        Ok((_, mut reader)) => match reader.next_frame(&mut out) {
            Ok(()) => Some(out),
            Err(_) => None,
        },
        Err(_) => None,
    }
}

/// A sequence of `len` zero bytes.
pub open spec fn zeros(len: nat) -> Seq<u8> {
    Seq::new(len, |i: int| 0u8)
}

/// The frame that a PNG stream holds: of the size that its header declares,
/// with the pixels decoded into a zeroed buffer of four bytes to the pixel.
/// There is none where the header is refused, where the size does not fit
/// into 32 bits, or where the image is refused.
pub open spec fn parse_png_spec(bytes: Seq<u8>) -> Option<FrameView> {
    match png_dimensions(bytes) {
        None => None,
        Some((width, height)) => match rgba_len_spec(width, height) {
            None => None,
            Some(len) => match png_pixels(bytes, zeros(len as nat)) {
                None => None,
                Some(data) => Some(FrameView { width, height, data }),
            },
        },
    }
}

/// Decodes a PNG stream into a frame.
pub fn parse_png_from_bytes(png_bytes: Vec<u8>) -> (frame: Option<Frame>)
    ensures
        frame_view(frame) == parse_png_spec(png_bytes@),
        frame matches Some(f) ==> rgba_len_spec(f.width, f.height) == Some(f.data@.len() as usize),
{
    let (width, height) = match read_png_dimensions(png_bytes.as_slice()) {
        None => {
            return None;
        },
        Some(dimensions) => dimensions,
    };
    let len: usize = match rgba_len(width, height) {
        None => {
            return None;
        },
        Some(len) => len,
    };
    let mut image_data: Vec<u8> = Vec::with_capacity(len);
    let mut i: usize = 0;
    while i < len
        invariant
            i <= len,
            image_data@ == zeros(i as nat),
        decreases len - i,
    {
        image_data.push(0u8);
        i += 1;
    }
    match read_png_frame(png_bytes.as_slice(), image_data) {
        None => None,
        Some(data) => Some(Frame { width, height, data }),
    }
}

} // verus!
