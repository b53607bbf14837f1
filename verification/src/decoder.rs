//! The video decoder: codecs, restarts, the queue of decoded images and the output loop.

use std::collections::VecDeque;
use vstd::prelude::*;

use crate::diagnostics::{bump, bumped, UpstreamDecoderDiagnosticsSnapshot};
use crate::wire::same_bytes;

verus! {

/// Video codecs, in the order of their numbers on the wire.
#[derive(Clone, Copy, Debug, PartialEq, Eq, Structural)]
pub enum CodecType {
    H264,
    Hevc,
    AV1,
}

impl CodecType {
    /// The MIME type of the codec.
    pub open spec fn mime(self) -> Seq<char> {
        match self {
            CodecType::H264 => "video/avc"@,
            CodecType::Hevc => "video/hevc"@,
            CodecType::AV1 => "video/av01"@,
        }
    }

    /// The short name of the codec.
    pub open spec fn name(self) -> Seq<char> {
        match self {
            CodecType::H264 => "H264"@,
            CodecType::Hevc => "HEVC"@,
            CodecType::AV1 => "AV1"@,
        }
    }

    /// Names the MIME type.
    pub fn mime_type(self) -> (text: &'static str)
        ensures
            text@ == self.mime(),
    {
        match self {
            CodecType::H264 => "video/avc",
            CodecType::Hevc => "video/hevc",
            CodecType::AV1 => "video/av01",
        }
    }

    /// Names the codec.
    pub fn label(self) -> (text: &'static str)
        ensures
            text@ == self.name(),
    {
        match self {
            CodecType::H264 => "H264",
            CodecType::Hevc => "HEVC",
            CodecType::AV1 => "AV1",
        }
    }
}

/// The codec that a label names; an unknown label means H.264.
pub open spec fn codec_named(label: Seq<char>) -> CodecType {
    if label == CodecType::Hevc.name() {
        CodecType::Hevc
    } else if label == CodecType::AV1.name() {
        CodecType::AV1
    } else {
        CodecType::H264
    }
}

/// Whether two texts are the same.
pub fn same_text(left: &str, right: &str) -> (same: bool)
    ensures
        same == (left@ == right@),
{
    proof {
        vstd::utf8::encode_utf8_decode_utf8(left@);
        vstd::utf8::encode_utf8_decode_utf8(right@);
    }
    same_bytes(left.as_bytes(), right.as_bytes())
}

/// Finds the codec that a label names.
pub fn codec_for_label(label: &str) -> (codec: CodecType)
    ensures
        codec == codec_named(label@),
{
    if same_text(label, CodecType::Hevc.label()) {
        CodecType::Hevc
    } else if same_text(label, CodecType::AV1.label()) {
        CodecType::AV1
    } else {
        CodecType::H264
    }
}

/// A codec's label names that codec.
pub proof fn law_labels_name_their_codec(codec: CodecType)
    ensures
        codec_named(codec.name()) == codec,
{
    reveal_strlit("H264");
    reveal_strlit("HEVC");
    reveal_strlit("AV1");
    assert("H264"@.len() == 4 && "HEVC"@.len() == 4 && "AV1"@.len() == 3);
    assert("H264"@[1] == '2' && "HEVC"@[1] == 'E');
}

/// The MIME type under which the platform finds a decoder.
pub fn mime_for_codec(codec: CodecType) -> (text: &'static str)
    ensures
        text@ == codec.mime(),
{
    codec.mime_type()
}

/// The platform's software decoder for a codec; there is none for AV1.
pub fn software_codec_name(codec: CodecType) -> (name: Option<&'static str>)
    ensures
        match (name, codec) {
            (Some(name), CodecType::H264) => name@ == "OMX.google.h264.decoder"@,
            (Some(name), CodecType::Hevc) => name@ == "OMX.google.hevc.decoder"@,
            (None, CodecType::AV1) => true,
            _ => false,
        },
{
    match codec {
        CodecType::H264 => Some("OMX.google.h264.decoder"),
        CodecType::Hevc => Some("OMX.google.hevc.decoder"),
        CodecType::AV1 => None,
    }
}

/// The decoder configuration that the server sends.
#[derive(Clone, Debug)]
pub struct DecoderInitializationConfig {
    pub codec: CodecType,
    pub config_buffer: Vec<u8>,
    pub ext_str: String,
}

/// Whether a configuration repeats the previous one: same codec, same bytes.
pub fn same_decoder_config(
    previous: &(CodecType, Vec<u8>),
    current: &DecoderInitializationConfig,
) -> (same: bool)
    ensures
        same == (previous.0 == current.codec && previous.1@ == current.config_buffer@),
{
    previous.0 == current.codec && same_bytes(
        previous.1.as_slice(),
        current.config_buffer.as_slice(),
    )
}

// ---------------------------------------------------------------------------
// Decoder state
// ---------------------------------------------------------------------------

/// What is needed to set the decoder up again.
#[derive(Clone, Debug)]
pub struct DecoderConfigState {
    pub codec: CodecType,
    pub codec_label: String,
    pub config_buffer: Vec<u8>,
    pub frame_width: i32,
    pub frame_height: i32,
}

/// State of the decoder behind the stream.
#[derive(Debug)]
pub struct UpstreamDecoder {
    /// The configuration that a restart uses.
    pub config: Option<DecoderConfigState>,
    /// The decoder takes input.
    pub sink_installed: bool,
    /// The decoder hands out frames.
    pub source_installed: bool,
    /// Width and height of the decoded frames.
    pub dimensions: Option<(i32, i32)>,
    pub diagnostics: UpstreamDecoderDiagnosticsSnapshot,
}

impl UpstreamDecoder {
    /// A decoder that is not set up.
    pub fn new() -> (decoder: Self)
        ensures
            decoder.config is None,
            !decoder.sink_installed,
            !decoder.source_installed,
            decoder.dimensions is None,
            decoder.diagnostics == (UpstreamDecoderDiagnosticsSnapshot {
                restart_count: 0,
                backpressure_count: 0,
                fatal_error_count: 0,
            }),
    {
        UpstreamDecoder {
            config: None,
            sink_installed: false,
            source_installed: false,
            dimensions: None,
            diagnostics: UpstreamDecoderDiagnosticsSnapshot::default(),
        }
    }

    /// Notes that the decoder was set up for frames of the given size.
    pub fn installed(&mut self, frame_width: i32, frame_height: i32)
        ensures
            final(self).sink_installed,
            final(self).source_installed,
            final(self).dimensions == Some((frame_width, frame_height)),
            final(self).config == old(self).config,
            final(self).diagnostics == old(self).diagnostics,
    {
        self.sink_installed = true;
        self.source_installed = true;
        self.dimensions = Some((frame_width, frame_height));
    }

    /// Remembers a configuration once the decoder was set up with it.
    pub fn configured(
        &mut self,
        codec_label: &str,
        config_buffer: Vec<u8>,
        frame_width: i32,
        frame_height: i32,
    )
        ensures
            final(self).sink_installed,
            final(self).source_installed,
            final(self).dimensions == Some((frame_width, frame_height)),
            final(self).diagnostics == old(self).diagnostics,
            final(self).config matches Some(config) && {
                &&& config.codec == codec_named(codec_label@)
                &&& config.codec_label@ == codec_label@
                &&& config.config_buffer@ == config_buffer@
                &&& config.frame_width == frame_width
                &&& config.frame_height == frame_height
            },
    {
        self.installed(frame_width, frame_height);
        self.config = Some(
            DecoderConfigState {
                codec: codec_for_label(codec_label),
                codec_label: codec_label.to_owned(),
                config_buffer,
                frame_width,
                frame_height,
            },
        );
    }

    /// Whether the decoder can be restarted; counts the restart where it can.
    pub fn begin_restart(&mut self) -> (restart: bool)
        ensures
            restart == old(self).config is Some,
            final(self).diagnostics == if restart {
                (UpstreamDecoderDiagnosticsSnapshot {
                    restart_count: bumped(old(self).diagnostics.restart_count),
                    ..old(self).diagnostics
                })
            } else {
                old(self).diagnostics
            },
            final(self).config == old(self).config,
            final(self).sink_installed == old(self).sink_installed,
            final(self).source_installed == old(self).source_installed,
            final(self).dimensions == old(self).dimensions,
    {
        if self.config.is_none() {
            return false;
        }
        self.diagnostics.restart_count = bump(self.diagnostics.restart_count);
        true
    }

    /// Counts an error that ended the decoder.
    pub fn note_fatal_error(&mut self)
        ensures
            final(self).diagnostics == (UpstreamDecoderDiagnosticsSnapshot {
                fatal_error_count: bumped(old(self).diagnostics.fatal_error_count),
                ..old(self).diagnostics
            }),
            final(self).config == old(self).config,
            final(self).sink_installed == old(self).sink_installed,
            final(self).source_installed == old(self).source_installed,
            final(self).dimensions == old(self).dimensions,
    {
        self.diagnostics.fatal_error_count = bump(self.diagnostics.fatal_error_count);
    }
}

/// Lets go of the decoder's output. The input side and the configuration stay for a restart.
pub fn release_upstream_decoder(decoder: &mut UpstreamDecoder)
    ensures
        !final(decoder).source_installed,
        final(decoder).dimensions is None,
        final(decoder).sink_installed == old(decoder).sink_installed,
        final(decoder).config == old(decoder).config,
        final(decoder).diagnostics == old(decoder).diagnostics,
{
    decoder.source_installed = false;
    decoder.dimensions = None;
}

/// Width and height of the decoded frames, where the decoder is set up.
pub fn upstream_decoder_dimensions(decoder: &UpstreamDecoder) -> (dimensions: Option<(i32, i32)>)
    ensures
        dimensions == decoder.dimensions,
{
    decoder.dimensions
}

/// Sets the decoder's counters to zero.
pub fn reset_upstream_decoder_diagnostics(decoder: &mut UpstreamDecoder)
    ensures
        final(decoder).diagnostics == (UpstreamDecoderDiagnosticsSnapshot {
            restart_count: 0,
            backpressure_count: 0,
            fatal_error_count: 0,
        }),
        final(decoder).config == old(decoder).config,
        final(decoder).sink_installed == old(decoder).sink_installed,
        final(decoder).source_installed == old(decoder).source_installed,
        final(decoder).dimensions == old(decoder).dimensions,
{
    decoder.diagnostics = UpstreamDecoderDiagnosticsSnapshot::default();
}

/// The decoder's counters.
pub fn upstream_decoder_diagnostics_snapshot(decoder: &UpstreamDecoder) -> (snapshot:
    UpstreamDecoderDiagnosticsSnapshot)
    ensures
        snapshot == decoder.diagnostics,
{
    decoder.diagnostics
}

// ---------------------------------------------------------------------------
// Pushing a packet
// ---------------------------------------------------------------------------

/// How far the attempt to hand one packet to the decoder got.
#[derive(Clone, Copy, Debug, PartialEq, Eq, Structural)]
pub enum NalStage {
    /// The packet was handed to the decoder that was there.
    Pushed,
    /// There was no decoder; one is being set up.
    RestartingMissing,
    /// The decoder refused; it is being restarted.
    RestartingRefused,
    /// The packet was handed to the restarted decoder.
    PushedAgain,
}

/// What the next step is.
#[derive(Clone, Copy, Debug, PartialEq, Eq, Structural)]
pub enum NalAction {
    /// Hand the packet to the decoder, and report the answer.
    Push(NalStage),
    /// Restart the decoder, and report whether that worked.
    Restart(NalStage),
    /// The attempt is over; tells whether the decoder took the packet.
    Done(bool),
}

/// Starts to hand a packet to the decoder: where there is none, a key frame sets one up, and any
/// other packet is dropped.
pub fn begin_push_nal(decoder: &UpstreamDecoder, is_idr: bool) -> (action: NalAction)
    ensures
        action == if decoder.sink_installed {
            NalAction::Push(NalStage::Pushed)
        } else if is_idr {
            NalAction::Restart(NalStage::RestartingMissing)
        } else {
            NalAction::Done(false)
        },
{
    if decoder.sink_installed {
        NalAction::Push(NalStage::Pushed)
    } else if is_idr {
        NalAction::Restart(NalStage::RestartingMissing)
    } else {
        NalAction::Done(false)
    }
}

/// The step after `stage`, where the push or the restart of that stage worked or not.
pub open spec fn next_push_step(
    stage: NalStage,
    worked: bool,
    is_idr: bool,
    sink_installed: bool,
) -> NalAction {
    match stage {
        NalStage::Pushed => if worked {
            NalAction::Done(true)
        } else if is_idr {
            NalAction::Restart(NalStage::RestartingRefused)
        } else {
            NalAction::Done(false)
        },
        NalStage::RestartingMissing | NalStage::RestartingRefused => if worked && sink_installed {
            NalAction::Push(NalStage::PushedAgain)
        } else {
            NalAction::Done(false)
        },
        NalStage::PushedAgain => NalAction::Done(worked),
    }
}

/// The decoder that was there kept refusing the packet: that counts as backpressure.
pub open spec fn push_backpressured(
    stage: NalStage,
    worked: bool,
    is_idr: bool,
    sink_installed: bool,
) -> bool {
    match stage {
        NalStage::Pushed => !worked && !is_idr,
        NalStage::RestartingRefused => !(worked && sink_installed),
        _ => false,
    }
}

/// Goes on after a push or a restart.
pub fn continue_push_nal(
    decoder: &mut UpstreamDecoder,
    stage: NalStage,
    worked: bool,
    is_idr: bool,
) -> (action: NalAction)
    ensures
        action == next_push_step(stage, worked, is_idr, old(decoder).sink_installed),
        final(decoder).diagnostics == if push_backpressured(
            stage,
            worked,
            is_idr,
            old(decoder).sink_installed,
        ) {
            (UpstreamDecoderDiagnosticsSnapshot {
                backpressure_count: bumped(old(decoder).diagnostics.backpressure_count),
                ..old(decoder).diagnostics
            })
        } else {
            old(decoder).diagnostics
        },
        final(decoder).config == old(decoder).config,
        final(decoder).sink_installed == old(decoder).sink_installed,
        final(decoder).source_installed == old(decoder).source_installed,
        final(decoder).dimensions == old(decoder).dimensions,
{
    match stage {
        NalStage::Pushed => {
            if worked {
                return NalAction::Done(true);
            }
            if is_idr {
                return NalAction::Restart(NalStage::RestartingRefused);
            }
            decoder.diagnostics.backpressure_count = bump(decoder.diagnostics.backpressure_count);
            NalAction::Done(false)
        },
        NalStage::RestartingMissing => if worked && decoder.sink_installed {
            NalAction::Push(NalStage::PushedAgain)
        } else {
            NalAction::Done(false)
        },
        NalStage::RestartingRefused => {
            if worked && decoder.sink_installed {
                return NalAction::Push(NalStage::PushedAgain);
            }
            decoder.diagnostics.backpressure_count = bump(decoder.diagnostics.backpressure_count);
            NalAction::Done(false)
        },
        NalStage::PushedAgain => NalAction::Done(worked),
    }
}

/// Only a key frame restarts the decoder, and a packet is pushed at most twice: after a restart
/// the answer to the push is final.
pub proof fn law_only_key_frames_restart(stage: NalStage, worked: bool, sink_installed: bool)
    ensures
        next_push_step(NalStage::Pushed, worked, false, sink_installed) is Done,
        next_push_step(NalStage::PushedAgain, worked, true, sink_installed) == NalAction::Done(
            worked,
        ),
        next_push_step(stage, worked, true, sink_installed) matches NalAction::Restart(_)
            ==> stage == NalStage::Pushed,
{
}

// ---------------------------------------------------------------------------
// Decoded images
// ---------------------------------------------------------------------------

/// A decoded image that waits to be shown. `slot` names the image among those that the decoder
/// holds.
#[derive(Clone, Copy, Debug, PartialEq, Eq, Structural)]
pub struct QueuedImage {
    pub timestamp_ns: u64,
    pub slot: u64,
    pub in_use: bool,
}

/// The images that stay when a new one was decoded: the one in use.
pub open spec fn kept_images(images: Seq<QueuedImage>) -> Seq<QueuedImage> {
    if images.len() > 0 && images[0].in_use {
        images.take(1)
    } else {
        Seq::empty()
    }
}

/// The images after a new one was queued.
pub open spec fn with_image(images: Seq<QueuedImage>, timestamp_ns: u64, slot: u64) -> Seq<
    QueuedImage,
> {
    images.push(QueuedImage { timestamp_ns, slot, in_use: false })
}

/// The image that is handed out, and the images after it was.
pub open spec fn handed_out(images: Seq<QueuedImage>) -> (Option<QueuedImage>, Seq<QueuedImage>) {
    if images.len() == 0 || (images.len() == 1 && images[0].in_use) {
        (None, Seq::empty())
    } else {
        let image = QueuedImage { in_use: true, ..images.last() };
        (Some(image), seq![image])
    }
}

/// The queue between the decoder and the renderer. Only its front can be in use.
#[derive(Debug)]
pub struct DecodedImageQueue {
    pub images: VecDeque<QueuedImage>,
}

impl DecodedImageQueue {
    /// Only the front image can be in use, and there are at most two images.
    pub open spec fn well_formed(self) -> bool {
        &&& self.images@.len() <= 2
        &&& forall|i: int| 0 < i < self.images@.len() ==> !(#[trigger] self.images@[i]).in_use
    }

    /// An empty queue.
    pub fn new() -> (queue: Self)
        ensures
            queue.well_formed(),
            queue.images@ == Seq::<QueuedImage>::empty(),
    {
        DecodedImageQueue { images: VecDeque::new() }
    }

    /// Drops every image.
    pub fn clear(&mut self)
        ensures
            final(self).well_formed(),
            final(self).images@ == Seq::<QueuedImage>::empty(),
    {
        self.images.clear();
    }

    /// Drops the images that a newly decoded one makes stale: all but the one in use. Returns
    /// how many were dropped.
    pub fn drop_stale(&mut self) -> (dropped: usize)
        requires
            old(self).well_formed(),
        ensures
            final(self).well_formed(),
            final(self).images@ == if old(self).images@.len() > 0 && old(self).images@[0].in_use {
                old(self).images@.take(1)
            } else {
                Seq::<QueuedImage>::empty()
            },
            final(self).images@ == kept_images(old(self).images@),
            dropped == old(self).images@.len() - final(self).images@.len(),
    {
        let before: usize = self.images.len();
        let keep: bool = before > 0 && self.images[0].in_use;
        if keep {
            self.images.truncate(1);
            assert(self.images@ =~= old(self).images@.take(1));
        } else {
            self.images.clear();
        }
        before - self.images.len()
    }

    /// Queues a newly decoded image, after the stale ones were dropped.
    pub fn push(&mut self, timestamp_ns: u64, slot: u64)
        requires
            old(self).well_formed(),
            old(self).images@.len() <= 1,
        ensures
            final(self).well_formed(),
            final(self).images@ == old(self).images@.push(
                (QueuedImage { timestamp_ns, slot, in_use: false }),
            ),
            final(self).images@ == with_image(old(self).images@, timestamp_ns, slot),
    {
        self.images.push_back(QueuedImage { timestamp_ns, slot, in_use: false });
    }

    /// Hands out the newest image and marks it as in use; the image that was in use before, and
    /// any older one, leaves the queue.
    pub fn dequeue_frame(&mut self) -> (image: Option<QueuedImage>)
        requires
            old(self).well_formed(),
        ensures
            final(self).well_formed(),
            ({
                let queued = old(self).images@;
                if queued.len() == 0 || (queued.len() == 1 && queued[0].in_use) {
                    &&& image is None
                    &&& final(self).images@ == Seq::<QueuedImage>::empty()
                } else {
                    &&& !queued.last().in_use
                    &&& image == Some((QueuedImage { in_use: true, ..queued.last() }))
                    &&& final(self).images@ == seq![QueuedImage { in_use: true, ..queued.last() }]
                }
            }),
            (image, final(self).images@) == handed_out(old(self).images@),
    {
        if self.images.len() > 0 && self.images[0].in_use {
            self.images.pop_front();
        }
        while self.images.len() > 1
            invariant
                self.images@.len() <= 2,
                old(self).images@.len() <= 2,
                forall|i: int|
                    0 <= i < self.images@.len() ==> !(#[trigger] self.images@[i]).in_use,
                self.images@.len() == 0 ==> {
                    ||| old(self).images@.len() == 0
                    ||| old(self).images@.len() == 1 && old(self).images@[0].in_use
                },
                self.images@.len() > 0 ==> old(self).images@.len() > 0 && self.images@.last()
                    == old(self).images@.last(),
            decreases self.images@.len(),
        {
            self.images.pop_front();
        }
        match self.images.pop_front() {
            Some(image) => {
                let shown = QueuedImage {
                    timestamp_ns: image.timestamp_ns,
                    slot: image.slot,
                    in_use: true,
                };
                self.images.push_back(shown);
                assert(self.images@ =~= seq![shown]);
                Some(shown)
            },
            None => None,
        }
    }
}

/// Hands out the newest image of a decoder that hands out frames. One that was released hands out
/// nothing.
pub fn poll_upstream_frame(decoder: &UpstreamDecoder, queue: &mut DecodedImageQueue) -> (image: Option<
    QueuedImage,
>)
    requires
        old(queue).well_formed(),
    ensures
        final(queue).well_formed(),
        ({
            let queued = old(queue).images@;
            if !decoder.source_installed {
                image is None && *final(queue) == *old(queue)
            } else if queued.len() == 0 || (queued.len() == 1 && queued[0].in_use) {
                image is None && final(queue).images@.len() == 0
            } else {
                &&& image == Some((QueuedImage { in_use: true, ..queued.last() }))
                &&& final(queue).images@ == seq![QueuedImage { in_use: true, ..queued.last() }]
            }
        }),
        decoder.source_installed ==> (image, final(queue).images@) == handed_out(
            old(queue).images@,
        ),
{
    if !decoder.source_installed {
        return None;
    }
    queue.dequeue_frame()
}

// ---------------------------------------------------------------------------
// Output loop
// ---------------------------------------------------------------------------

/// Number of errors in a row after which the decoder thread gives up.
pub const MAX_CONSECUTIVE_DECODER_ERRORS: u32 = 5;

/// What the decoder answered when asked for output.
#[derive(Clone, Copy, Debug, PartialEq, Eq, Structural)]
pub enum DecoderOutput {
    /// A buffer, which could be released to the image reader or not.
    Buffer { released: bool },
    /// Nothing yet.
    Empty,
    /// The output format, or the set of output buffers, changed.
    Changed,
    /// An error.
    Failed,
}

/// What the decoder thread does next.
#[derive(Clone, Copy, Debug, PartialEq, Eq, Structural)]
pub enum DecoderLoopAction {
    /// Ask again at once.
    Continue,
    /// Pause for a millisecond.
    PauseShort,
    /// Pause for fifty milliseconds.
    PauseLong,
    /// Stop the decoder and end the thread.
    Stop,
}

/// The number of errors in a row after an answer, and what the thread does about it.
pub open spec fn after_output(errors: u32, output: DecoderOutput) -> (u32, DecoderLoopAction) {
    match output {
        DecoderOutput::Buffer { released } => (
            if released {
                0
            } else {
                1
            },
            DecoderLoopAction::Continue,
        ),
        DecoderOutput::Empty => (0, DecoderLoopAction::PauseShort),
        DecoderOutput::Changed => (0, DecoderLoopAction::Continue),
        DecoderOutput::Failed => (
            (errors + 1) as u32,
            if errors + 1 >= MAX_CONSECUTIVE_DECODER_ERRORS {
                DecoderLoopAction::Stop
            } else {
                DecoderLoopAction::PauseLong
            },
        ),
    }
}

/// Decides how the decoder thread goes on. `consecutive_errors` counts the errors in a row.
pub fn decoder_output_step(consecutive_errors: &mut u32, output: DecoderOutput) -> (action:
    DecoderLoopAction)
    requires
        *old(consecutive_errors) < MAX_CONSECUTIVE_DECODER_ERRORS,
    ensures
        match output {
            DecoderOutput::Buffer { released } => {
                &&& action == DecoderLoopAction::Continue
                &&& *final(consecutive_errors) == if released {
                    0u32
                } else {
                    1u32
                }
            },
            DecoderOutput::Empty => {
                &&& action == DecoderLoopAction::PauseShort
                &&& *final(consecutive_errors) == 0
            },
            DecoderOutput::Changed => {
                &&& action == DecoderLoopAction::Continue
                &&& *final(consecutive_errors) == 0
            },
            DecoderOutput::Failed => {
                &&& *final(consecutive_errors) == *old(consecutive_errors) + 1
                &&& action == if *old(consecutive_errors) + 1 == MAX_CONSECUTIVE_DECODER_ERRORS {
                    DecoderLoopAction::Stop
                } else {
                    DecoderLoopAction::PauseLong
                }
            },
        },
        action != DecoderLoopAction::Stop ==> *final(consecutive_errors)
            < MAX_CONSECUTIVE_DECODER_ERRORS,
        (*final(consecutive_errors), action) == after_output(*old(consecutive_errors), output),
{
    match output {
        DecoderOutput::Buffer { released } => {
            *consecutive_errors = if released {
                0
            } else {
                1
            };
            DecoderLoopAction::Continue
        },
        DecoderOutput::Empty => {
            *consecutive_errors = 0;
            DecoderLoopAction::PauseShort
        },
        DecoderOutput::Changed => {
            *consecutive_errors = 0;
            DecoderLoopAction::Continue
        },
        DecoderOutput::Failed => {
            *consecutive_errors = *consecutive_errors + 1;
            if *consecutive_errors >= MAX_CONSECUTIVE_DECODER_ERRORS {
                DecoderLoopAction::Stop
            } else {
                DecoderLoopAction::PauseLong
            }
        },
    }
}

/// Which decoder to try.
#[derive(Clone, Copy, Debug, PartialEq, Eq, Structural)]
pub enum DecoderChoice {
    Platform,
    Software,
    GiveUp,
}

/// Chooses the decoder to try: the platform's, unless software is forced, and software after the
/// platform's failed.
pub fn choose_decoder(force_software: bool, failed: Option<DecoderChoice>) -> (choice: DecoderChoice)
    ensures
        choice == match failed {
            None => if force_software {
                DecoderChoice::Software
            } else {
                DecoderChoice::Platform
            },
            Some(DecoderChoice::Platform) => DecoderChoice::Software,
            Some(_) => DecoderChoice::GiveUp,
        },
{
    match failed {
        None => if force_software {
            DecoderChoice::Software
        } else {
            DecoderChoice::Platform
        },
        Some(DecoderChoice::Platform) => DecoderChoice::Software,
        Some(_) => DecoderChoice::GiveUp,
    }
}

/// A flag that tells a thread to go on or to stop.
#[derive(Clone, Copy, Debug, PartialEq, Eq, Structural)]
pub struct RelaxedAtomic(pub bool);

impl RelaxedAtomic {
    /// A flag with the given value.
    pub fn new(initial_value: bool) -> (flag: Self)
        ensures
            flag.0 == initial_value,
    {
        RelaxedAtomic(initial_value)
    }

    /// The flag's value.
    pub fn value(&self) -> (value: bool)
        ensures
            value == self.0,
    {
        self.0
    }

    /// Changes the flag.
    pub fn set(&mut self, value: bool)
        ensures
            final(self).0 == value,
    {
        self.0 = value;
    }
}

// ---------------------------------------------------------------------------
// Laws
// ---------------------------------------------------------------------------

/// The newest image is shown: whatever waited before, an image that was decoded is the next to be
/// handed out, under its own time and from its own slot. It is handed out once.
pub proof fn law_newest_image_is_shown(images: Seq<QueuedImage>, timestamp_ns: u64, slot: u64)
    requires
        images.len() <= 2,
    ensures
        ({
            let queued = with_image(kept_images(images), timestamp_ns, slot);
            let (image, left) = handed_out(queued);
            &&& image == Some(QueuedImage { timestamp_ns, slot, in_use: true })
            &&& left.len() == 1
            &&& handed_out(left).0 is None
        }),
{
}

/// The image that is being shown stays until another one is handed out, and images that were never
/// shown make room.
pub proof fn law_shown_images_stay(images: Seq<QueuedImage>, timestamp_ns: u64, slot: u64)
    requires
        0 < images.len() <= 2,
    ensures
        images[0].in_use ==> kept_images(images) == seq![images[0]] && with_image(
            kept_images(images),
            timestamp_ns,
            slot,
        )[0] == images[0],
        !images[0].in_use ==> kept_images(images).len() == 0,
{
    if images[0].in_use {
        assert(kept_images(images) =~= seq![images[0]]);
    }
}

/// Five errors in a row stop the decoder: the first four make it pause, and anything that works
/// between them starts the count over.
pub proof fn law_five_errors_in_a_row_stop(errors: u32, released: bool)
    requires
        errors < 5,
    ensures
        after_output(errors, DecoderOutput::Failed).0 == errors + 1,
        after_output(errors, DecoderOutput::Failed).1 == DecoderLoopAction::Stop <==> errors == 4,
        errors < 4 ==> after_output(errors, DecoderOutput::Failed).1
            == DecoderLoopAction::PauseLong,
        after_output(errors, DecoderOutput::Empty) == (0u32, DecoderLoopAction::PauseShort),
        after_output(errors, DecoderOutput::Changed) == (0u32, DecoderLoopAction::Continue),
        after_output(errors, DecoderOutput::Buffer { released: true }) == (
            0u32,
            DecoderLoopAction::Continue,
        ),
        after_output(errors, DecoderOutput::Buffer { released: false }) == (
            1u32,
            DecoderLoopAction::Continue,
        ),
{
}

/// A packet that the decoder takes is done. A key frame that it refuses makes it restart, and is
/// handed to the restarted decoder; any other packet that it refuses is dropped, and counts as one
/// too many.
pub proof fn law_refused_key_frames_restart_the_decoder(is_idr: bool, sink_installed: bool)
    ensures
        next_push_step(NalStage::Pushed, true, is_idr, sink_installed) == NalAction::Done(true),
        next_push_step(NalStage::Pushed, false, true, sink_installed) == NalAction::Restart(
            NalStage::RestartingRefused,
        ),
        next_push_step(NalStage::Pushed, false, false, sink_installed) == NalAction::Done(false),
        push_backpressured(NalStage::Pushed, false, false, sink_installed),
        !push_backpressured(NalStage::Pushed, true, is_idr, sink_installed),
        !push_backpressured(NalStage::Pushed, false, true, sink_installed),
{
}

/// A decoder that was restarted gets the packet where it takes input again; where the restart
/// failed the packet is dropped, which counts only where a decoder had refused it.
pub proof fn law_restarted_decoders_get_the_packet(is_idr: bool, worked: bool)
    ensures
        next_push_step(NalStage::RestartingMissing, true, is_idr, true) == NalAction::Push(
            NalStage::PushedAgain,
        ),
        next_push_step(NalStage::RestartingRefused, true, is_idr, true) == NalAction::Push(
            NalStage::PushedAgain,
        ),
        next_push_step(NalStage::RestartingMissing, false, is_idr, true) == NalAction::Done(false),
        next_push_step(NalStage::RestartingRefused, worked, is_idr, false) == NalAction::Done(
            false,
        ),
        push_backpressured(NalStage::RestartingRefused, false, is_idr, true),
        !push_backpressured(NalStage::RestartingRefused, true, is_idr, true),
        !push_backpressured(NalStage::RestartingMissing, worked, is_idr, true),
        !push_backpressured(NalStage::PushedAgain, worked, is_idr, true),
{
}

/// Without a decoder only a key frame is kept: it sets one up.
pub proof fn law_key_frames_set_the_decoder_up(
    decoder: UpstreamDecoder,
    is_idr: bool,
    action: NalAction,
)
    requires
        call_ensures(begin_push_nal, (&decoder, is_idr), action),
    ensures
        decoder.sink_installed <==> action == NalAction::Push(NalStage::Pushed),
        !decoder.sink_installed && is_idr <==> action == NalAction::Restart(
            NalStage::RestartingMissing,
        ),
        !decoder.sink_installed && !is_idr <==> action == NalAction::Done(false),
{
}

/// Codecs have the names by which the platform knows them. There is no software decoder for AV1.
pub proof fn law_codecs_are_named(codec: CodecType, software: Option<&'static str>)
    requires
        call_ensures(software_codec_name, (codec,), software),
    ensures
        CodecType::H264.mime() == "video/avc"@,
        CodecType::Hevc.mime() == "video/hevc"@,
        CodecType::AV1.mime() == "video/av01"@,
        CodecType::H264.name() == "H264"@,
        CodecType::Hevc.name() == "HEVC"@,
        CodecType::AV1.name() == "AV1"@,
        codec == CodecType::H264 ==> software is Some && software->0@
            == "OMX.google.h264.decoder"@,
        codec == CodecType::Hevc ==> software is Some && software->0@
            == "OMX.google.hevc.decoder"@,
        codec == CodecType::AV1 ==> software is None,
{
}

/// The platform's decoder is tried first unless software is forced, software after it failed, and
/// then nothing.
pub proof fn law_software_comes_second(
    force_software: bool,
    failed: Option<DecoderChoice>,
    choice: DecoderChoice,
)
    requires
        call_ensures(choose_decoder, (force_software, failed), choice),
    ensures
        choice == DecoderChoice::Platform <==> failed is None && !force_software,
        choice == DecoderChoice::Software <==> (failed is None && force_software) || failed
            == Some(DecoderChoice::Platform),
        choice == DecoderChoice::GiveUp <==> failed is Some && failed
            != Some(DecoderChoice::Platform),
{
}

/// A decoder starts with nothing set up. Once it was configured it can be restarted as it was, and
/// each restart is counted.
pub proof fn law_configured_decoders_can_be_restarted(
    codec_label: &str,
    config_buffer: Vec<u8>,
    frame_width: i32,
    frame_height: i32,
    restart: bool,
    fresh: UpstreamDecoder,
)
    requires
        call_ensures(UpstreamDecoder::new, (), fresh),
    ensures
        fresh.config is None && !fresh.sink_installed && !fresh.source_installed,
        fresh.dimensions is None && fresh.diagnostics.restart_count == 0,
        forall|decoder: &mut UpstreamDecoder, later: &mut UpstreamDecoder|
            #[trigger] call_ensures(
                UpstreamDecoder::configured,
                (decoder, codec_label, config_buffer, frame_width, frame_height),
                (),
            ) && *later == *final(decoder) && #[trigger] call_ensures(
                UpstreamDecoder::begin_restart,
                (later,),
                restart,
            ) ==> {
                &&& restart
                &&& final(later).config is Some
                &&& final(later).config->0.codec_label@ == codec_label@
                &&& final(later).config->0.config_buffer@ == config_buffer@
                &&& final(later).config->0.frame_width == frame_width
                &&& final(later).config->0.frame_height == frame_height
                &&& final(later).dimensions == Some((frame_width, frame_height))
                &&& final(later).sink_installed && final(later).source_installed
                &&& (*decoder).diagnostics.restart_count < u64::MAX ==> final(
                    later).diagnostics.restart_count == (*decoder).diagnostics.restart_count + 1
                &&& final(later).diagnostics.fatal_error_count
                    == (*decoder).diagnostics.fatal_error_count
            },
        forall|decoder: &mut UpstreamDecoder|
            (*decoder).config is None && #[trigger] call_ensures(
                UpstreamDecoder::begin_restart,
                (decoder,),
                restart,
            ) ==> !restart && final(decoder).diagnostics == (*decoder).diagnostics,
{
}

/// A decoder that is let go of gives no more pictures, and can be restarted from what it was
/// configured with.
pub proof fn law_released_decoders_keep_their_configuration(frame_width: i32, frame_height: i32)
    ensures
        forall|decoder: &mut UpstreamDecoder| #[trigger]
            call_ensures(release_upstream_decoder, (decoder,), ()) ==> {
                &&& !final(decoder).source_installed && final(decoder).dimensions is None
                &&& final(decoder).config == (*decoder).config
                &&& final(decoder).sink_installed == (*decoder).sink_installed
            },
        forall|decoder: &mut UpstreamDecoder| #[trigger]
            call_ensures(UpstreamDecoder::installed, (decoder, frame_width, frame_height), ())
                ==> {
                &&& final(decoder).source_installed && final(decoder).sink_installed
                &&& final(decoder).dimensions == Some((frame_width, frame_height))
                &&& final(decoder).config == (*decoder).config
            },
{
}

/// Fatal errors are counted as such, a reset starts all counts anew, and neither touches the
/// decoder.
pub proof fn law_decoder_counts_are_kept_apart()
    ensures
        forall|decoder: &mut UpstreamDecoder| #[trigger]
            call_ensures(UpstreamDecoder::note_fatal_error, (decoder,), ()) ==> {
                &&& (*decoder).diagnostics.fatal_error_count < u64::MAX ==> final(
                    decoder).diagnostics.fatal_error_count
                    == (*decoder).diagnostics.fatal_error_count + 1
                &&& final(decoder).diagnostics.restart_count == (*decoder).diagnostics.restart_count
                &&& final(decoder).diagnostics.backpressure_count
                    == (*decoder).diagnostics.backpressure_count
                &&& final(decoder).config == (*decoder).config
            },
        forall|decoder: &mut UpstreamDecoder| #[trigger]
            call_ensures(reset_upstream_decoder_diagnostics, (decoder,), ()) ==> {
                &&& final(decoder).diagnostics.fatal_error_count == 0
                &&& final(decoder).diagnostics.restart_count == 0
                &&& final(decoder).diagnostics.backpressure_count == 0
                &&& final(decoder).config == (*decoder).config
                &&& final(decoder).sink_installed == (*decoder).sink_installed
                &&& final(decoder).source_installed == (*decoder).source_installed
                &&& final(decoder).dimensions == (*decoder).dimensions
            },
{
}

/// A packet that the decoder refuses is dropped and counted, unless it is a key frame: that has the
/// decoder restarted, and counts where the restart fails. A packet that is taken counts nowhere.
pub proof fn law_refusals_are_counted(worked: bool, is_idr: bool, action: NalAction)
    ensures
        forall|decoder: &mut UpstreamDecoder| #[trigger]
            call_ensures(continue_push_nal, (decoder, NalStage::Pushed, worked, is_idr), action)
                ==> {
                let before = (*decoder).diagnostics;
                let after = final(decoder).diagnostics;
                &&& worked ==> action == NalAction::Done(true) && after == before
                &&& !worked && is_idr ==> action is Restart && after == before
                &&& !worked && !is_idr ==> action == NalAction::Done(false) && (
                before.backpressure_count < u64::MAX ==> after.backpressure_count
                    == before.backpressure_count + 1)
                &&& after.restart_count == before.restart_count
                &&& after.fatal_error_count == before.fatal_error_count
                &&& final(decoder).config == (*decoder).config
                &&& final(decoder).sink_installed == (*decoder).sink_installed
            },
        forall|decoder: &mut UpstreamDecoder| #[trigger]
            call_ensures(
                continue_push_nal,
                (decoder, NalStage::RestartingRefused, worked, is_idr),
                action,
            ) ==> {
                let before = (*decoder).diagnostics.backpressure_count;
                let after = final(decoder).diagnostics.backpressure_count;
                &&& worked && (*decoder).sink_installed ==> action is Push && after == before
                &&& !worked ==> action == NalAction::Done(false) && (before < u64::MAX ==> after
                    == before + 1)
            },
{
}

/// A picture that was decoded last is handed out next, once; older ones are dropped.
pub proof fn law_decoded_pictures_are_handed_out_once(
    decoder: UpstreamDecoder,
    timestamp_ns: u64,
    slot: u64,
    dropped: usize,
    image: Option<QueuedImage>,
    again: Option<QueuedImage>,
)
    requires
        decoder.source_installed,
    ensures
        forall|
            a: &mut DecodedImageQueue,
            b: &mut DecodedImageQueue,
            c: &mut DecodedImageQueue,
            d: &mut DecodedImageQueue,
        |
            (*a).well_formed() && #[trigger] call_ensures(
                DecodedImageQueue::drop_stale,
                (a,),
                dropped,
            ) && *b == *final(a) && #[trigger] call_ensures(
                DecodedImageQueue::push,
                (b, timestamp_ns, slot),
                (),
            ) && *c == *final(b) && #[trigger] call_ensures(
                poll_upstream_frame,
                (&decoder, c),
                image,
            ) && *d == *final(c) && #[trigger] call_ensures(
                poll_upstream_frame,
                (&decoder, d),
                again,
            ) ==> {
                &&& image is Some
                &&& image->0.timestamp_ns == timestamp_ns && image->0.slot == slot
                &&& image->0.in_use
                &&& again is None
                &&& dropped <= (*a).images@.len()
                &&& dropped + 1 >= (*a).images@.len()
            },
{
}

/// A codec is found by its label and known to the system by its type; a configuration is the same
/// where the codec and every byte of it are.
pub proof fn law_codecs_are_found_by_label(
    codec: CodecType,
    label: &'static str,
    found: CodecType,
    mime: &'static str,
    previous: (CodecType, Vec<u8>),
    current: DecoderInitializationConfig,
    same: bool,
)
    requires
        call_ensures(CodecType::label, (codec,), label),
        call_ensures(codec_for_label, (label,), found),
        call_ensures(mime_for_codec, (codec,), mime),
        call_ensures(same_decoder_config, (&previous, &current), same),
    ensures
        found == codec,
        codec == CodecType::H264 ==> label@ == "H264"@ && mime@ == "video/avc"@,
        codec == CodecType::Hevc ==> label@ == "HEVC"@ && mime@ == "video/hevc"@,
        codec == CodecType::AV1 ==> label@ == "AV1"@ && mime@ == "video/av01"@,
        same <==> previous.0 == current.codec && previous.1@ == current.config_buffer@,
{
    law_labels_name_their_codec(codec);
}

} // verus!
