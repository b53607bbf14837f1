//! Pictures on their way from the decoder to the eyes.

use std::sync::Arc;
use vstd::prelude::*;

use crate::config::{COLOR_BLACK_CRUSH_DEFAULT_BITS, COLOR_GAIN_DEFAULT_BITS};
use crate::diagnostics::VideoRenderDiagnosticsSnapshot;
use crate::raster::{lemma_next_row, lemma_position_bound, lemma_raster_push, raster};
use crate::text::{decimal, format_decimal};
use crate::wire::{le32_at, le64_at, read_u32_le, read_u64_le, same_bytes};

verus! {

// ---------------------------------------------------------------------------
// Frames
// ---------------------------------------------------------------------------

/// A hold on a buffer of the graphics hardware.
#[derive(Clone, Copy, Debug, PartialEq, Eq, Structural)]
pub struct HardwareBufferLease {
    pub ptr: usize,
}

impl HardwareBufferLease {
    /// Takes hold of a buffer. There is none at address zero.
    pub fn acquire(buffer_ptr: usize) -> (lease: Option<Self>)
        ensures
            lease == if buffer_ptr == 0 {
                None
            } else {
                Some(HardwareBufferLease { ptr: buffer_ptr })
            },
    {
        if buffer_ptr == 0 {
            return None;
        }
        Some(HardwareBufferLease { ptr: buffer_ptr })
    }
}

/// A decoded frame: a buffer of the graphics hardware, or its pixels.
#[derive(Clone, Debug)]
pub struct VideoFrame {
    pub timestamp_ns: u64,
    /// Address of the buffer; zero where the frame has none.
    pub buffer_ptr: usize,
    pub width: u32,
    pub height: u32,
    /// Bytes from one row to the next.
    pub row_pitch: u32,
    pub hardware_buffer_lease: Option<HardwareBufferLease>,
    pub rgba: Option<Arc<Vec<u8>>>,
}

/// Which eye a picture is for.
#[derive(Clone, Copy, Debug, PartialEq, Eq, Structural)]
pub enum VideoFrameEye {
    Left,
    Right,
}

/// Bytes of a row of tightly packed pixels, as far as they can be counted.
pub open spec fn packed_pitch(width: u32) -> u32 {
    if 4 * width > u32::MAX {
        u32::MAX
    } else {
        (4 * width) as u32
    }
}

fn pitch_of(width: u32) -> (pitch: u32)
    ensures
        pitch == packed_pitch(width),
{
    if width > u32::MAX / 4 {
        u32::MAX
    } else {
        width * 4
    }
}

// ---------------------------------------------------------------------------
// The receiver
// ---------------------------------------------------------------------------

/// How far the receiver is.
#[derive(Clone, Copy, Debug, PartialEq, Eq, Structural)]
pub enum ReceiverState {
    Disconnected,
    Connecting,
    Connected,
    Streaming,
}

/// Receives frames, and keeps the latest one until a newer one comes.
#[derive(Debug)]
pub struct AlvrVideoReceiver {
    pub state: ReceiverState,
    pub latest_frame: Option<VideoFrame>,
    pub connected: bool,
    pub server_addr: Option<String>,
}

/// Hands out the shared receiver. The first call makes it, not connected; later ones keep it.
pub fn get_video_receiver(shared: &mut Option<AlvrVideoReceiver>) -> (receiver:
    &mut AlvrVideoReceiver)
    ensures
        *receiver == match *old(shared) {
            Some(made) => made,
            None => AlvrVideoReceiver {
                state: ReceiverState::Disconnected,
                latest_frame: None,
                connected: false,
                server_addr: None,
            },
        },
        *final(shared) == Some(*final(receiver)),
{
    shared.get_or_insert(
        AlvrVideoReceiver {
            state: ReceiverState::Disconnected,
            latest_frame: None,
            connected: false,
            server_addr: None,
        },
    )
}

/// Notes that the receiver is connected, and to which server.
pub fn connect_to_alvr(receiver: &mut AlvrVideoReceiver, server_addr: &str, port: u16)
    ensures
        final(receiver).state == ReceiverState::Connected,
        final(receiver).connected,
        final(receiver).server_addr is Some,
        final(receiver).server_addr->0@ == server_addr@ + ":"@ + decimal(port as nat),
        final(receiver).latest_frame == old(receiver).latest_frame,
{
    receiver.state = ReceiverState::Connected;
    receiver.connected = true;
    let mut address: String = server_addr.to_owned();
    address.append(":");
    let number: String = format_decimal(port as u128);
    address.append(number.as_str());
    receiver.server_addr = Some(address);
}

/// Notes that the receiver is not connected. The latest frame stays to be shown.
pub fn disconnect(receiver: &mut AlvrVideoReceiver)
    ensures
        *final(receiver) == (AlvrVideoReceiver {
            state: ReceiverState::Disconnected,
            connected: false,
            ..*old(receiver)
        }),
{
    receiver.state = ReceiverState::Disconnected;
    receiver.connected = false;
}

/// Takes over a frame from the decoder.
pub fn push_video_frame(
    receiver: &mut AlvrVideoReceiver,
    timestamp_ns: u64,
    buffer_ptr: usize,
    width: u32,
    height: u32,
    row_pitch: u32,
    hardware_buffer_lease: Option<HardwareBufferLease>,
)
    ensures
        *final(receiver) == (AlvrVideoReceiver {
            state: ReceiverState::Streaming,
            latest_frame: Some(
                VideoFrame {
                    timestamp_ns,
                    buffer_ptr,
                    width,
                    height,
                    row_pitch,
                    hardware_buffer_lease,
                    rgba: None,
                },
            ),
            ..*old(receiver)
        }),
{
    receiver.latest_frame =
    Some(
        VideoFrame {
            timestamp_ns,
            buffer_ptr,
            width,
            height,
            row_pitch,
            hardware_buffer_lease,
            rgba: None,
        },
    );
    receiver.state = ReceiverState::Streaming;
}

/// Takes over a frame by its pixels.
pub fn push_rgba_frame(
    receiver: &mut AlvrVideoReceiver,
    timestamp_ns: u64,
    width: u32,
    height: u32,
    rgba: Vec<u8>,
)
    ensures
        *final(receiver) == (AlvrVideoReceiver {
            state: ReceiverState::Streaming,
            latest_frame: Some(
                VideoFrame {
                    timestamp_ns,
                    buffer_ptr: 0,
                    width,
                    height,
                    row_pitch: packed_pitch(width),
                    hardware_buffer_lease: None,
                    rgba: Some(Arc::new(rgba)),
                },
            ),
            ..*old(receiver)
        }),
{
    receiver.latest_frame =
    Some(
        VideoFrame {
            timestamp_ns,
            buffer_ptr: 0,
            width,
            height,
            row_pitch: pitch_of(width),
            hardware_buffer_lease: None,
            rgba: Some(Arc::new(rgba)),
        },
    );
    receiver.state = ReceiverState::Streaming;
}

/// The latest frame. It stays in the receiver, to be shown until a newer one comes.
pub fn get_latest_frame(receiver: &AlvrVideoReceiver) -> (frame: Option<&VideoFrame>)
    ensures
        match frame {
            Some(frame) => receiver.latest_frame == Some(*frame),
            None => receiver.latest_frame is None,
        },
{
    match &receiver.latest_frame {
        Some(frame) => Some(frame),
        None => None,
    }
}

/// Whether the receiver is connected.
pub fn is_connected(receiver: &AlvrVideoReceiver) -> (connected: bool)
    ensures
        connected == receiver.connected,
{
    receiver.connected
}

/// The server that the receiver was last connected to.
pub fn get_connection_info(receiver: &AlvrVideoReceiver) -> (info: Option<String>)
    ensures
        match info {
            Some(info) => receiver.server_addr is Some && info@ == receiver.server_addr->0@,
            None => receiver.server_addr is None,
        },
{
    match &receiver.server_addr {
        Some(address) => Some(address.clone()),
        None => None,
    }
}

// ---------------------------------------------------------------------------
// Colour
// ---------------------------------------------------------------------------

/// Correction of the colours, as the bits of 32-bit floats.
#[derive(Clone, Copy, Debug, PartialEq, Eq, Structural)]
pub struct ColorAdjustment {
    pub black_crush: u32,
    pub gain: u32,
}

/// The correction for a stream: none for HDR, else the default black level and contrast.
pub open spec fn adjustment_for(enable_hdr: bool) -> ColorAdjustment {
    if enable_hdr {
        ColorAdjustment { black_crush: 0, gain: 0x3f80_0000 }
    } else {
        ColorAdjustment {
            black_crush: COLOR_BLACK_CRUSH_DEFAULT_BITS,
            gain: COLOR_GAIN_DEFAULT_BITS,
        }
    }
}

/// The correction for a stream.
pub fn color_adjustment_for_hdr_enabled(enable_hdr: bool) -> (adjustment: ColorAdjustment)
    ensures
        adjustment == adjustment_for(enable_hdr),
{
    if enable_hdr {
        ColorAdjustment { black_crush: 0, gain: 0x3f80_0000 }
    } else {
        ColorAdjustment {
            black_crush: COLOR_BLACK_CRUSH_DEFAULT_BITS,
            gain: COLOR_GAIN_DEFAULT_BITS,
        }
    }
}

/// Sets the correction for the stream that was negotiated.
pub fn configure_hdr_stream(adjustment: &mut ColorAdjustment, enable_hdr: bool)
    ensures
        *final(adjustment) == adjustment_for(enable_hdr),
{
    *adjustment = color_adjustment_for_hdr_enabled(enable_hdr);
}

// ---------------------------------------------------------------------------
// Counters
// ---------------------------------------------------------------------------

/// Sets the counters of the rendering to zero.
pub fn reset_video_render_diagnostics(diagnostics: &mut VideoRenderDiagnosticsSnapshot)
    ensures
        final(diagnostics).zero_copy_attempts == 0,
        final(diagnostics).zero_copy_success_count == 0,
        final(diagnostics).zero_copy_failure_count == 0,
        final(diagnostics).zero_copy_gl_error_count == 0,
        final(diagnostics).last_zero_copy_failure is None,
{
    *diagnostics = VideoRenderDiagnosticsSnapshot::default();
}

/// The counters of the rendering.
pub fn video_render_diagnostics_snapshot(diagnostics: &VideoRenderDiagnosticsSnapshot) -> (snapshot:
    VideoRenderDiagnosticsSnapshot)
    ensures
        snapshot.zero_copy_attempts == diagnostics.zero_copy_attempts,
        snapshot.zero_copy_success_count == diagnostics.zero_copy_success_count,
        snapshot.zero_copy_failure_count == diagnostics.zero_copy_failure_count,
        snapshot.zero_copy_gl_error_count == diagnostics.zero_copy_gl_error_count,
        snapshot.last_zero_copy_failure is Some == diagnostics.last_zero_copy_failure is Some,
        snapshot.last_zero_copy_failure is Some ==> snapshot.last_zero_copy_failure->0@
            == diagnostics.last_zero_copy_failure->0@,
{
    VideoRenderDiagnosticsSnapshot {
        zero_copy_attempts: diagnostics.zero_copy_attempts,
        zero_copy_success_count: diagnostics.zero_copy_success_count,
        zero_copy_failure_count: diagnostics.zero_copy_failure_count,
        zero_copy_gl_error_count: diagnostics.zero_copy_gl_error_count,
        last_zero_copy_failure: match &diagnostics.last_zero_copy_failure {
            Some(failure) => Some(failure.clone()),
            None => None,
        },
    }
}

// ---------------------------------------------------------------------------
// Foveation
// ---------------------------------------------------------------------------

/// Why foveated frames cannot be shown.
#[derive(Clone, Copy, Debug, PartialEq, Eq, Structural)]
pub enum FoveationError {
    /// The width of both eyes cannot be counted.
    WidthOverflow,
    /// A frame without pixels.
    EmptyFrame,
}

/// Size of a foveated frame: both eyes side by side, each of the optimized size.
pub fn foveated_frame_size(optimized_width: u32, optimized_height: u32) -> (size: Result<
    (u32, u32),
    FoveationError,
>)
    ensures
        match size {
            Ok((width, height)) => {
                &&& width == 2 * optimized_width
                &&& height == optimized_height
                &&& width != 0
                &&& height != 0
            },
            Err(FoveationError::WidthOverflow) => 2 * optimized_width > u32::MAX,
            Err(FoveationError::EmptyFrame) => {
                &&& 2 * optimized_width <= u32::MAX
                &&& optimized_width == 0 || optimized_height == 0
            },
        },
{
    let width: u32 = match optimized_width.checked_mul(2) {
        Some(width) => width,
        None => {
            return Err(FoveationError::WidthOverflow);
        },
    };
    if width == 0 || optimized_height == 0 {
        return Err(FoveationError::EmptyFrame);
    }
    Ok((width, optimized_height))
}

/// Whether a frame is a foveated one: foveation is set up, and the frame has its size.
pub fn active_foveation_for_frame(foveated_size: Option<(u32, u32)>, frame: &VideoFrame) -> (active:
    bool)
    ensures
        active == (foveated_size == Some((frame.width, frame.height))),
{
    match foveated_size {
        Some((width, height)) => frame.width == width && frame.height == height,
        None => false,
    }
}

// ---------------------------------------------------------------------------
// Which part of a frame an eye sees
// ---------------------------------------------------------------------------

/// The part of a frame.
#[derive(Clone, Copy, Debug, PartialEq, Eq, Structural)]
pub enum SourceSpan {
    Whole,
    LeftHalf,
    RightHalf,
}

/// A frame that is at least twice as wide as high holds both eyes side by side.
pub open spec fn is_side_by_side(width: u32, height: u32) -> bool {
    width >= 2 && (width >= 2 * height || width == u32::MAX)
}

fn side_by_side(width: u32, height: u32) -> (both: bool)
    ensures
        both == is_side_by_side(width, height),
{
    let double_height: u32 = if height > u32::MAX / 2 {
        u32::MAX
    } else {
        height * 2
    };
    width >= double_height && width >= 2
}

/// The eye of the stream that an eye sees. The stream's eyes are not swapped.
pub fn source_eye_for_target(eye: VideoFrameEye) -> (source: VideoFrameEye)
    ensures
        source == eye,
{
    eye
}

/// The part of a frame that an eye sees.
pub open spec fn span_for(width: u32, height: u32, eye: VideoFrameEye) -> SourceSpan {
    if is_side_by_side(width, height) {
        match eye {
            VideoFrameEye::Left => SourceSpan::LeftHalf,
            VideoFrameEye::Right => SourceSpan::RightHalf,
        }
    } else {
        SourceSpan::Whole
    }
}

/// The part of a frame that an eye sees.
pub fn source_span(width: u32, height: u32, eye: VideoFrameEye) -> (span: SourceSpan)
    ensures
        span == span_for(width, height, eye),
{
    if side_by_side(width, height) {
        match source_eye_for_target(eye) {
            VideoFrameEye::Left => SourceSpan::LeftHalf,
            VideoFrameEye::Right => SourceSpan::RightHalf,
        }
    } else {
        SourceSpan::Whole
    }
}

/// How a frame gets to an eye.
#[derive(Clone, Copy, Debug, PartialEq, Eq, Structural)]
pub enum UploadPath {
    /// Its pixels are copied.
    Pixels,
    /// Its buffer is drawn.
    HardwareBuffer,
    /// Not at all: it is empty.
    Nothing,
}

/// How a frame gets to an eye: by its pixels where it has them, else by its buffer.
pub fn copy_video_frame_to_target(frame: &VideoFrame) -> (path: UploadPath)
    ensures
        path == if frame.rgba is Some {
            UploadPath::Pixels
        } else if frame.buffer_ptr != 0 {
            UploadPath::HardwareBuffer
        } else {
            UploadPath::Nothing
        },
{
    if frame.rgba.is_some() {
        UploadPath::Pixels
    } else if frame.buffer_ptr != 0 {
        UploadPath::HardwareBuffer
    } else {
        UploadPath::Nothing
    }
}

// ---------------------------------------------------------------------------
// Copying pixels
// ---------------------------------------------------------------------------

/// Why pixels cannot be copied.
#[derive(Clone, Copy, Debug, PartialEq, Eq, Structural)]
pub enum RgbaError {
    /// The size of the frame cannot be counted.
    Overflow,
    /// There are fewer bytes than the frame has pixels for.
    TooSmall { actual: usize, expected: usize },
}

/// Pixels for an eye, and where they go.
#[derive(Clone, Debug, PartialEq, Eq)]
pub struct RgbaUpload {
    pub x_offset: i32,
    pub y_offset: i32,
    pub width: i32,
    pub height: i32,
    pub data: Vec<u8>,
}

/// The smaller of two numbers, but at least one.
pub open spec fn shared_extent(source: int, target: int) -> int {
    let smaller = if source < target {
        source
    } else {
        target
    };
    if smaller < 1 {
        1
    } else {
        smaller
    }
}

/// Where a part of the given extent starts so that it stands in the middle.
pub open spec fn centred(target: int, extent: int) -> int {
    if target < extent {
        0
    } else {
        (target - extent) / 2
    }
}

/// First column of the part that an eye sees.
pub open spec fn source_x(width: u32, height: u32, eye: VideoFrameEye) -> int {
    match span_for(width, height, eye) {
        SourceSpan::RightHalf => width as int / 2,
        _ => 0,
    }
}

/// Width of the part that an eye sees.
pub open spec fn source_width(width: u32, height: u32, eye: VideoFrameEye) -> int {
    match span_for(width, height, eye) {
        SourceSpan::Whole => width as int,
        _ => width as int / 2,
    }
}

/// Bytes from one row of the frame to the next. A frame that is taken whole is taken as tightly
/// packed.
pub open spec fn source_stride(frame: VideoFrame, width: int, height: int) -> int {
    if width == frame.width && height == frame.height {
        4 * frame.width
    } else if frame.row_pitch < packed_pitch(frame.width) {
        packed_pitch(frame.width) as int
    } else {
        frame.row_pitch as int
    }
}

/// The byte of the frame that lands at column `x` (in bytes) of row `y`.
pub open spec fn source_byte(
    frame: VideoFrame,
    eye: VideoFrameEye,
    stride: int,
    x: int,
    y: int,
) -> int {
    y * stride + 4 * source_x(frame.width, frame.height, eye) + x
}

/// All bytes that an upload of this size reads are there.
pub open spec fn readable(
    frame: VideoFrame,
    eye: VideoFrameEye,
    width: int,
    height: int,
    available: int,
) -> bool {
    source_byte(frame, eye, source_stride(frame, width, height), 4 * width, height - 1)
        <= available
}

/// Cuts the part of a frame that an eye sees out of its pixels, as large as the eye's picture
/// can take, to be placed in its middle.
#[verifier::spinoff_prover]
pub fn copy_rgba_frame_to_target(
    frame: &VideoFrame,
    rgba: &[u8],
    eye: VideoFrameEye,
    target_width: i32,
    target_height: i32,
) -> (upload: Result<RgbaUpload, RgbaError>)
    requires
        frame.width <= i32::MAX,
        frame.height <= i32::MAX,
        readable(
            *frame,
            eye,
            shared_extent(source_width(frame.width, frame.height, eye), target_width as int),
            shared_extent(frame.height as int, target_height as int),
            rgba@.len() as int,
        ) || rgba@.len() < 4 * frame.width * frame.height || 4 * frame.width * frame.height
            > usize::MAX,
    ensures
        match upload {
            Ok(upload) => {
                let width = shared_extent(
                    source_width(frame.width, frame.height, eye),
                    target_width as int,
                );
                let height = shared_extent(frame.height as int, target_height as int);
                &&& 4 * frame.width * frame.height <= rgba@.len()
                &&& upload.width == width
                &&& upload.height == height
                &&& upload.x_offset == centred(target_width as int, width)
                &&& upload.y_offset == centred(target_height as int, height)
                &&& upload.data@ == raster(
                    (4 * width) as nat,
                    height as nat,
                    |x: int, y: int|
                        rgba@[source_byte(
                            *frame,
                            eye,
                            source_stride(*frame, width, height),
                            x,
                            y,
                        )],
                )
            },
            Err(RgbaError::Overflow) => 4 * frame.width * frame.height > usize::MAX,
            Err(RgbaError::TooSmall { actual, expected }) => {
                &&& actual == rgba@.len()
                &&& expected == 4 * frame.width * frame.height
                &&& actual < expected
            },
        },
{
    let ghost pixels = frame.width * frame.height;
    assert(pixels >= 0) by (nonlinear_arith)
        requires
            pixels == frame.width * frame.height,
    ;
    assert(4 * frame.width * frame.height == 4 * pixels) by (nonlinear_arith)
        requires
            pixels == frame.width * frame.height,
    ;
    let expected: usize = match (frame.width as usize).checked_mul(frame.height as usize) {
        Some(count) => match count.checked_mul(4) {
            Some(bytes) => bytes,
            None => {
                return Err(RgbaError::Overflow);
            },
        },
        None => {
            return Err(RgbaError::Overflow);
        },
    };
    if rgba.len() < expected {
        return Err(RgbaError::TooSmall { actual: rgba.len(), expected });
    }
    let (start_x, part_width): (i32, i32) = match source_span(frame.width, frame.height, eye) {
        SourceSpan::Whole => (0, frame.width as i32),
        SourceSpan::LeftHalf => (0, (frame.width / 2) as i32),
        SourceSpan::RightHalf => ((frame.width / 2) as i32, (frame.width / 2) as i32),
    };
    let upload_width: i32 = extent(part_width, target_width);
    let upload_height: i32 = extent(frame.height as i32, target_height);
    let packed: u32 = pitch_of(frame.width);
    let whole: bool = upload_width as u32 == frame.width && upload_height as u32 == frame.height;
    assert(whole ==> 4 * frame.width <= usize::MAX) by (nonlinear_arith)
        requires
            4 * frame.width * frame.height <= usize::MAX,
            whole ==> frame.height >= 1,
    ;
    let stride: usize = if whole {
        (frame.width as usize) * 4
    } else if frame.row_pitch < packed {
        packed as usize
    } else {
        frame.row_pitch as usize
    };
    let row_bytes: usize = (upload_width as usize) * 4;
    let first_byte: usize = (start_x as usize) * 4;
    let ghost width = (4 * upload_width) as nat;
    let ghost height = upload_height as nat;
    let ghost at = |x: int, y: int| rgba@[source_byte(*frame, eye, stride as int, x, y)];
    let ghost wanted = raster(width, height, at);
    let mut data: Vec<u8> = Vec::new();
    let mut y: usize = 0;
    assert(0 * width == 0) by (nonlinear_arith);
    while y < upload_height as usize
        invariant
            0 < upload_width,
            0 < upload_height,
            y <= upload_height,
            row_bytes == 4 * upload_width,
            first_byte == 4 * source_x(frame.width, frame.height, eye),
            stride == source_stride(*frame, upload_width as int, upload_height as int),
            width == row_bytes,
            height == upload_height,
            at == (|x: int, y: int| rgba@[source_byte(*frame, eye, stride as int, x, y)]),
            wanted == raster(width, height, at),
            rgba.len() == rgba@.len(),
            readable(*frame, eye, upload_width as int, upload_height as int, rgba@.len() as int),
            data@.len() == y * width,
            y * width <= wanted.len(),
            data@ =~= wanted.take(y * width),
        decreases upload_height - y,
    {
        proof {
            assert(y * stride + first_byte + row_bytes <= rgba@.len()) by (nonlinear_arith)
                requires
                    (upload_height - 1) * stride + first_byte + row_bytes <= rgba@.len(),
                    y <= upload_height - 1,
                    0 <= stride,
            ;
            lemma_position_bound(width, height, 0, y as int);
            lemma_next_row(width, y as int);
        }
        assert(y * stride <= usize::MAX) by (nonlinear_arith)
            requires
                y * stride + first_byte + row_bytes <= usize::MAX,
        ;
        let row: usize = y * stride + first_byte;
        let mut x: usize = 0;
        while x < row_bytes
            invariant
                x <= row_bytes,
                width == row_bytes,
                y < height,
                row == y * stride + first_byte,
                row + row_bytes <= rgba@.len(),
                rgba.len() == rgba@.len(),
                first_byte == 4 * source_x(frame.width, frame.height, eye),
                at == (|x: int, y: int| rgba@[source_byte(*frame, eye, stride as int, x, y)]),
                wanted == raster(width, height, at),
                data@.len() == y * width + x,
                y * width + width <= wanted.len(),
                data@ =~= wanted.take(y * width + x),
            decreases row_bytes - x,
        {
            proof {
                lemma_raster_push(width, height, at, x as int, y as int);
                assert(at(x as int, y as int) == rgba@[row + x]);
            }
            data.push(rgba[row + x]);
            x = x + 1;
        }
        y = y + 1;
    }
    proof {
        assert(height * width == width * height) by (nonlinear_arith);
        assert(wanted.take(wanted.len() as int) =~= wanted);
    }
    Ok(
        RgbaUpload {
            x_offset: middle(target_width, upload_width),
            y_offset: middle(target_height, upload_height),
            width: upload_width,
            height: upload_height,
            data,
        },
    )
}

fn extent(source: i32, target: i32) -> (extent: i32)
    ensures
        extent == shared_extent(source as int, target as int),
{
    let smaller: i32 = if source < target {
        source
    } else {
        target
    };
    if smaller < 1 {
        1
    } else {
        smaller
    }
}

fn middle(target: i32, extent: i32) -> (offset: i32)
    requires
        extent >= 1,
    ensures
        offset == centred(target as int, extent as int),
{
    if target < extent {
        0
    } else {
        (target - extent) / 2
    }
}

// ---------------------------------------------------------------------------
// Pixels from the network
// ---------------------------------------------------------------------------

/// Port on which pixels are taken for tests of the display.
pub const DEBUG_RGBA_STREAM_PORT: u16 = 9950;

/// Length of the header in front of the pixels.
pub const DEBUG_RGBA_HEADER_LEN: usize = 28;

/// Longest payload that is accepted.
pub const DEBUG_RGBA_MAX_PAYLOAD_BYTES: usize = 67_108_864;

/// The first eight bytes of the header: `PIMXRGBA`.
pub open spec fn debug_magic() -> Seq<u8> {
    seq![0x50u8, 0x49, 0x4d, 0x58, 0x52, 0x47, 0x42, 0x41]
}

/// What a header says.
#[derive(Clone, Copy, Debug, PartialEq, Eq, Structural)]
pub struct DebugRgbaHeader {
    pub width: u32,
    pub height: u32,
    pub frame_index: u64,
    pub payload_len: usize,
}

/// Why a header is not accepted.
#[derive(Clone, Copy, Debug, PartialEq, Eq, Structural)]
pub enum DebugRgbaError {
    BadMagic,
    Overflow,
    LengthMismatch { announced: usize, wanted: usize },
    TooLarge { length: usize },
}

/// Reads a header: the magic, width, height, index and payload length, the numbers with their
/// low byte first. The payload must hold exactly the frame's pixels, and not be too long.
pub fn parse_debug_rgba_header(header: &[u8]) -> (parsed: Result<DebugRgbaHeader, DebugRgbaError>)
    requires
        header@.len() == DEBUG_RGBA_HEADER_LEN,
    ensures
        ({
            let magic = header@.subrange(0, 8) == debug_magic();
            let bytes = 4 * (le32_at(header@, 8) * le32_at(header@, 12));
            let announced = le32_at(header@, 24);
            match parsed {
                Ok(parsed) => {
                    &&& magic
                    &&& bytes == announced
                    &&& announced <= DEBUG_RGBA_MAX_PAYLOAD_BYTES
                    &&& parsed.width == le32_at(header@, 8)
                    &&& parsed.height == le32_at(header@, 12)
                    &&& parsed.frame_index == le64_at(header@, 16)
                    &&& parsed.payload_len == announced
                },
                Err(DebugRgbaError::BadMagic) => !magic,
                Err(DebugRgbaError::Overflow) => magic && bytes > usize::MAX,
                Err(DebugRgbaError::LengthMismatch { announced: got, wanted }) => {
                    &&& magic
                    &&& got == announced
                    &&& wanted == bytes
                    &&& got != wanted
                },
                Err(DebugRgbaError::TooLarge { length }) => {
                    &&& magic
                    &&& bytes == announced
                    &&& length == announced
                    &&& length > DEBUG_RGBA_MAX_PAYLOAD_BYTES
                },
            }
        }),
{
    let magic = [0x50u8, 0x49, 0x4d, 0x58, 0x52, 0x47, 0x42, 0x41];
    assert(magic@ =~= debug_magic());
    if !same_bytes(
        vstd::slice::slice_subrange(header, 0, 8),
        vstd::array::array_as_slice(&magic),
    ) {
        return Err(DebugRgbaError::BadMagic);
    }
    let width: u32 = read_u32_le(header, 8);
    let height: u32 = read_u32_le(header, 12);
    let frame_index: u64 = read_u64_le(header, 16);
    let payload_len: usize = read_u32_le(header, 24) as usize;
    assert(width * height >= 0) by (nonlinear_arith);
    let wanted: usize = match (width as usize).checked_mul(height as usize) {
        Some(count) => match count.checked_mul(4) {
            Some(bytes) => bytes,
            None => {
                return Err(DebugRgbaError::Overflow);
            },
        },
        None => {
            return Err(DebugRgbaError::Overflow);
        },
    };
    if payload_len != wanted {
        return Err(DebugRgbaError::LengthMismatch { announced: payload_len, wanted });
    }
    if payload_len > DEBUG_RGBA_MAX_PAYLOAD_BYTES {
        return Err(DebugRgbaError::TooLarge { length: payload_len });
    }
    Ok(DebugRgbaHeader { width, height, frame_index, payload_len })
}

/// Whether a frame is worth a line in the log.
pub fn logs_debug_frame(frame_index: u64) -> (logs: bool)
    ensures
        logs == (frame_index < 5 || frame_index % 120 == 0),
{
    frame_index < 5 || frame_index % 120 == 0
}

// ---------------------------------------------------------------------------
// Laws
// ---------------------------------------------------------------------------

/// The two eyes of a frame that holds both see different columns, and together no column beyond
/// the frame.
pub proof fn law_eyes_share_the_frame(width: u32, height: u32)
    requires
        is_side_by_side(width, height),
    ensures
        source_x(width, height, VideoFrameEye::Left) == 0,
        source_x(width, height, VideoFrameEye::Left) + source_width(
            width,
            height,
            VideoFrameEye::Left,
        ) == source_x(width, height, VideoFrameEye::Right),
        source_x(width, height, VideoFrameEye::Right) + source_width(
            width,
            height,
            VideoFrameEye::Right,
        ) <= width,
{
}

/// A picture that is placed in the middle lies inside the target, where the target has an extent.
pub proof fn law_uploads_stay_inside(source: int, target: int)
    requires
        target >= 1,
    ensures
        1 <= shared_extent(source, target) <= target,
        0 <= centred(target, shared_extent(source, target)),
        centred(target, shared_extent(source, target)) + shared_extent(source, target) <= target,
{
}

/// A frame that came by its pixels can be cut for either eye and any target: no byte outside the
/// frame is read.
pub proof fn law_received_pixels_can_be_cut(
    frame: VideoFrame,
    eye: VideoFrameEye,
    target_width: int,
    target_height: int,
    available: int,
)
    requires
        1 <= frame.width <= i32::MAX,
        1 <= frame.height <= i32::MAX,
        frame.row_pitch == packed_pitch(frame.width),
        4 * frame.width <= u32::MAX,
        4 * frame.width * frame.height <= available,
        1 <= target_width,
        1 <= target_height,
    ensures
        readable(
            frame,
            eye,
            shared_extent(source_width(frame.width, frame.height, eye), target_width),
            shared_extent(frame.height as int, target_height),
            available,
        ),
{
    let height = shared_extent(frame.height as int, target_height);
    let width = shared_extent(source_width(frame.width, frame.height, eye), target_width);
    let stride = source_stride(frame, width, height);
    assert(stride == 4 * frame.width);
    assert(4 * source_x(frame.width, frame.height, eye) + 4 * width <= stride);
    assert((height - 1) * stride + stride <= 4 * frame.width * frame.height) by (nonlinear_arith)
        requires
            stride == 4 * frame.width,
            1 <= height <= frame.height,
    ;
}

/// A frame that is at least twice as wide as high holds the left eye in its left half and the
/// right eye in its right half; any other frame is seen whole by both eyes.
pub proof fn law_each_eye_sees_its_half(width: u32, height: u32)
    requires
        2 <= width < u32::MAX,
    ensures
        width >= 2 * height ==> {
            &&& span_for(width, height, VideoFrameEye::Left) == SourceSpan::LeftHalf
            &&& span_for(width, height, VideoFrameEye::Right) == SourceSpan::RightHalf
            &&& source_x(width, height, VideoFrameEye::Left) == 0
            &&& source_x(width, height, VideoFrameEye::Right) == width / 2
            &&& source_width(width, height, VideoFrameEye::Left) == width / 2
            &&& source_width(width, height, VideoFrameEye::Right) == width / 2
        },
        width < 2 * height ==> {
            &&& span_for(width, height, VideoFrameEye::Left) == SourceSpan::Whole
            &&& span_for(width, height, VideoFrameEye::Right) == SourceSpan::Whole
            &&& source_x(width, height, VideoFrameEye::Right) == 0
            &&& source_width(width, height, VideoFrameEye::Right) == width
        },
{
}

/// An eye is shown the pixels of its own part of the frame, each in its place and with its four
/// bytes in order: pixel `(x, y)` of the upload is pixel `(x, y)` of the part, counted from the
/// part's left edge.
pub proof fn law_uploads_show_the_part(
    frame: VideoFrame,
    rgba: &[u8],
    eye: VideoFrameEye,
    target_width: i32,
    target_height: i32,
    upload: RgbaUpload,
    x: int,
    y: int,
    channel: int,
)
    requires
        call_ensures(
            copy_rgba_frame_to_target,
            (&frame, rgba, eye, target_width, target_height),
            Ok(upload),
        ),
        frame.row_pitch == 4 * frame.width,
        2 <= frame.width < u32::MAX,
        0 <= x < upload.width,
        0 <= y < upload.height,
        0 <= channel < 4,
    ensures
        ({
            let left = if frame.width >= 2 * frame.height && eye == VideoFrameEye::Right {
                frame.width as int / 2
            } else {
                0
            };
            &&& upload.data@.len() == 4 * upload.width * upload.height
            &&& upload.data@[4 * (y * upload.width + x) + channel] == rgba@[4 * (y * frame.width + (
            left + x)) + channel]
        }),
{
    let width = upload.width as int;
    let height = upload.height as int;
    let stride = source_stride(frame, width, height);
    assert(stride == 4 * frame.width);
    let at = |x: int, y: int| rgba@[source_byte(frame, eye, stride, x, y)];
    assert(upload.data@ == raster((4 * width) as nat, height as nat, at));
    let column = 4 * x + channel;
    assert(0 <= column < 4 * width);
    lemma_raster_push((4 * width) as nat, height as nat, at, column, y);
    assert(y * (4 * width) + column == 4 * (y * width + x) + channel) by (nonlinear_arith)
        requires
            column == 4 * x + channel,
    ;
    let left = source_x(frame.width, frame.height, eye);
    assert(y * stride + 4 * left + column == 4 * (y * frame.width + (left + x)) + channel)
        by (nonlinear_arith)
        requires
            column == 4 * x + channel,
            stride == 4 * frame.width,
    ;
    assert(4 * width * height == (4 * width) * height) by (nonlinear_arith);
}

/// An upload is as large as both the part and the target allow, and the margins on either side of
/// it differ by one at most.
pub proof fn law_uploads_are_centred(source: int, target: int)
    requires
        source >= 1,
        target >= 1,
    ensures
        ({
            let extent = shared_extent(source, target);
            let before = centred(target, extent);
            let after = target - before - extent;
            &&& extent == source || extent == target
            &&& extent <= source && extent <= target
            &&& before == after || before + 1 == after
        }),
{
}

/// Frames are copied by their pixels where they have them, drawn from their buffer where they have
/// one, and otherwise not shown.
pub proof fn law_frames_are_shown_by_what_they_have(frame: VideoFrame, path: UploadPath)
    requires
        call_ensures(copy_video_frame_to_target, (&frame,), path),
    ensures
        path == UploadPath::Pixels <==> frame.rgba is Some,
        path == UploadPath::HardwareBuffer <==> frame.rgba is None && frame.buffer_ptr != 0,
        path == UploadPath::Nothing <==> frame.rgba is None && frame.buffer_ptr == 0,
{
}

/// HDR is shown as it is; any other stream gets the default black level and contrast.
pub proof fn law_hdr_is_not_corrected()
    ensures
        adjustment_for(true) == (ColorAdjustment { black_crush: 0, gain: 0x3f80_0000 }),
        adjustment_for(false) == (ColorAdjustment {
            black_crush: 0x3d93_74bc,
            gain: 0x3f9c_28f6,
        }),
{
}

/// A foveated frame holds both eyes side by side, and has to have pixels.
pub proof fn law_foveated_frames_hold_both_eyes(
    width: u32,
    height: u32,
    size: Result<(u32, u32), FoveationError>,
)
    requires
        call_ensures(foveated_frame_size, (width, height), size),
    ensures
        size is Ok <==> 0 < width <= 0x7fff_ffff && height > 0,
        size matches Ok((frame_width, frame_height)) ==> frame_width == 2 * width && frame_height
            == height,
        width > 0x7fff_ffff <==> size == Err::<(u32, u32), FoveationError>(
            FoveationError::WidthOverflow,
        ),
{
}

/// Only frames of the foveated size are foveated.
pub proof fn law_foveation_is_told_by_the_size(
    foveated_size: Option<(u32, u32)>,
    frame: VideoFrame,
    active: bool,
)
    requires
        call_ensures(active_foveation_for_frame, (foveated_size, &frame), active),
    ensures
        active <==> foveated_size is Some && (foveated_size->0).0 == frame.width && (
        foveated_size->0).1 == frame.height,
{
}

/// A header is its magic, then the width, the height, the index and the length of the payload, the
/// low byte of each first. It is accepted where the payload is the frame's pixels and not too long.
pub proof fn law_headers_are_laid_out_in_order(
    header: &[u8],
    parsed: Result<DebugRgbaHeader, DebugRgbaError>,
)
    requires
        call_ensures(parse_debug_rgba_header, (header,), parsed),
        header@.len() == 28,
    ensures
        ({
            let h = header@;
            let word = |at: int| h[at] + 256 * h[at + 1] + 65536 * h[at + 2] + 16777216 * h[at + 3];
            let pixels = word(8) * word(12);
            &&& parsed matches Ok(read) ==> {
                &&& h[0] == 'P' as int && h[1] == 'I' as int && h[2] == 'M' as int
                &&& h[3] == 'X' as int && h[4] == 'R' as int && h[5] == 'G' as int
                &&& h[6] == 'B' as int && h[7] == 'A' as int
                &&& read.width == word(8)
                &&& read.height == word(12)
                &&& read.frame_index == word(16) + 4294967296 * word(20)
                &&& read.payload_len == word(24)
                &&& word(24) == 4 * pixels
                &&& word(24) <= 67_108_864
            }
            &&& h.subrange(0, 8) == debug_magic() && word(24) == 4 * pixels && word(24)
                <= 67_108_864 && 4 * pixels <= usize::MAX ==> parsed is Ok
        }),
{
    let head = header@.subrange(0, 8);
    assert(head[0] == header@[0] && head[1] == header@[1] && head[2] == header@[2] && head[3]
        == header@[3] && head[4] == header@[4] && head[5] == header@[5] && head[6] == header@[6]
        && head[7] == header@[7]);
}

/// The pitch of packed pixels is four bytes for each of them.
pub proof fn law_packed_pixels_take_four_bytes(width: u32)
    ensures
        width <= 0x3fff_ffff ==> packed_pitch(width) == 4 * width,
        width > 0x3fff_ffff ==> packed_pitch(width) == u32::MAX,
{
}

/// A receiver that is connected names its server, streams as soon as a frame arrives, and keeps
/// the last frame when the connection ends.
pub proof fn law_receivers_follow_the_connection(
    server_addr: &str,
    port: u16,
    info: Option<String>,
)
    ensures
        forall|receiver: &mut AlvrVideoReceiver, later: &mut AlvrVideoReceiver|
            #[trigger] call_ensures(connect_to_alvr, (receiver, server_addr, port), ()) && *later
                == *final(receiver) && #[trigger] call_ensures(disconnect, (later,), ())
                && call_ensures(get_connection_info, (final(receiver),), info) ==> {
                &&& final(receiver).connected && final(receiver).state == ReceiverState::Connected
                &&& info is Some && info->0@ == server_addr@ + ":"@ + decimal(port as nat)
                &&& !final(later).connected && final(later).state == ReceiverState::Disconnected
                &&& final(later).latest_frame == (*receiver).latest_frame
            },
{
}

/// The frame that arrived last is the one that is shown, with its own size and time.
pub proof fn law_last_frame_is_shown(
    timestamp_ns: u64,
    buffer_ptr: usize,
    width: u32,
    height: u32,
    row_pitch: u32,
    lease: Option<HardwareBufferLease>,
    rgba: Vec<u8>,
    frame: Option<&VideoFrame>,
)
    ensures
        forall|receiver: &mut AlvrVideoReceiver| #[trigger]
            call_ensures(
                push_video_frame,
                (receiver, timestamp_ns, buffer_ptr, width, height, row_pitch, lease),
                (),
            ) && call_ensures(get_latest_frame, (final(receiver),), frame) ==> {
                &&& frame is Some
                &&& (*frame->0).timestamp_ns == timestamp_ns
                &&& (*frame->0).buffer_ptr == buffer_ptr
                &&& (*frame->0).width == width && (*frame->0).height == height
                &&& (*frame->0).row_pitch == row_pitch
                &&& (*frame->0).hardware_buffer_lease == lease
                &&& (*frame->0).rgba is None
                &&& final(receiver).state == ReceiverState::Streaming
                &&& final(receiver).connected == (*receiver).connected
            },
        forall|receiver: &mut AlvrVideoReceiver| #[trigger]
            call_ensures(push_rgba_frame, (receiver, timestamp_ns, width, height, rgba), ())
                && call_ensures(get_latest_frame, (final(receiver),), frame) ==> {
                &&& frame is Some
                &&& (*frame->0).timestamp_ns == timestamp_ns
                &&& (*frame->0).buffer_ptr == 0 && (*frame->0).hardware_buffer_lease is None
                &&& (*frame->0).width == width && (*frame->0).height == height
                &&& width <= 0x3fff_ffff ==> (*frame->0).row_pitch == 4 * width
                &&& (*frame->0).rgba == Some(Arc::new(rgba))
                &&& final(receiver).state == ReceiverState::Streaming
                &&& final(receiver).connected == (*receiver).connected
            },
{
}

/// A hardware buffer can be held exactly where there is one.
pub proof fn law_buffers_are_held_where_there_are_any(
    buffer_ptr: usize,
    lease: Option<HardwareBufferLease>,
)
    requires
        call_ensures(HardwareBufferLease::acquire, (buffer_ptr,), lease),
    ensures
        lease is Some <==> buffer_ptr != 0,
        lease is Some ==> lease->0.ptr == buffer_ptr,
{
}

/// The counts of the renderer are read as they are, each for itself, and start anew at a reset.
pub proof fn law_render_counts_are_read_as_they_are(
    diagnostics: VideoRenderDiagnosticsSnapshot,
    snapshot: VideoRenderDiagnosticsSnapshot,
)
    requires
        call_ensures(video_render_diagnostics_snapshot, (&diagnostics,), snapshot),
    ensures
        snapshot.zero_copy_attempts == diagnostics.zero_copy_attempts,
        snapshot.zero_copy_success_count == diagnostics.zero_copy_success_count,
        snapshot.zero_copy_failure_count == diagnostics.zero_copy_failure_count,
        snapshot.zero_copy_gl_error_count == diagnostics.zero_copy_gl_error_count,
        diagnostics.last_zero_copy_failure is Some ==> snapshot.last_zero_copy_failure is Some
            && snapshot.last_zero_copy_failure->0@ == diagnostics.last_zero_copy_failure->0@,
        forall|counts: &mut VideoRenderDiagnosticsSnapshot| #[trigger]
            call_ensures(reset_video_render_diagnostics, (counts,), ()) ==> {
                &&& final(counts).zero_copy_attempts == 0
                &&& final(counts).zero_copy_success_count == 0
                &&& final(counts).zero_copy_failure_count == 0
                &&& final(counts).zero_copy_gl_error_count == 0
                &&& final(counts).last_zero_copy_failure is None
            },
{
}

/// The log is told of the first five test frames and of one in 120.
pub proof fn law_test_frames_are_logged_sparsely(frame_index: u64, logs: bool)
    requires
        call_ensures(logs_debug_frame, (frame_index,), logs),
    ensures
        frame_index < 5 ==> logs,
        frame_index >= 5 ==> (logs <==> frame_index % 120 == 0),
{
}

/// Pixels for tests of the display come in on their own port, behind headers of 28 bytes.
pub proof fn law_test_pixels_have_their_own_port()
    ensures
        DEBUG_RGBA_STREAM_PORT == 9950,
        DEBUG_RGBA_HEADER_LEN == 28,
        DEBUG_RGBA_MAX_PAYLOAD_BYTES == 64 * 1024 * 1024,
{
}

/// The receiver is made once, unconnected, and is the same from then on.
pub proof fn law_receiver_is_made_once()
    ensures
        forall|shared: &mut Option<AlvrVideoReceiver>, receiver: &mut AlvrVideoReceiver| #[trigger]
            call_ensures(get_video_receiver, (shared,), receiver) ==> {
                &&& *shared is Some ==> *receiver == (*shared)->0
                &&& *shared is None ==> !(*receiver).connected && (*receiver).state
                    == ReceiverState::Disconnected && (*receiver).latest_frame is None
                    && (*receiver).server_addr is None
                &&& *final(shared) == Some(*final(receiver))
            },
{
}

/// Each eye is shown its own half of a frame that holds both, and the whole of one that does not;
/// the left eye is never shown what is meant for the right one. Colours are corrected unless the
/// stream is of a high dynamic range.
pub proof fn law_eyes_are_shown_their_half(
    width: u32,
    height: u32,
    eye: VideoFrameEye,
    source: VideoFrameEye,
    span: SourceSpan,
    hdr: bool,
    adjustment: ColorAdjustment,
)
    requires
        2 <= width < u32::MAX,
        call_ensures(source_eye_for_target, (eye,), source),
        call_ensures(source_span, (width, height, source), span),
        call_ensures(color_adjustment_for_hdr_enabled, (hdr,), adjustment),
    ensures
        source == eye,
        width >= 2 * height && eye == VideoFrameEye::Left ==> span == SourceSpan::LeftHalf,
        width >= 2 * height && eye == VideoFrameEye::Right ==> span == SourceSpan::RightHalf,
        width < 2 * height ==> span == SourceSpan::Whole,
        hdr ==> adjustment.black_crush == 0 && adjustment.gain == 0x3f80_0000,
        !hdr ==> adjustment.black_crush == 0x3d93_74bc && adjustment.gain == 0x3f9c_28f6,
        forall|kept: &mut ColorAdjustment| #[trigger]
            call_ensures(configure_hdr_stream, (kept, hdr), ()) ==> *final(kept) == adjustment,
{
    law_each_eye_sees_its_half(width, height);
}

} // verus!
