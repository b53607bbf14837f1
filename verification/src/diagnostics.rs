//! Counters of a streaming session and what they say about its failures.

use vstd::prelude::*;

use crate::text::{
    debug_option_text, decimal, format_debug_option, format_decimal, lemma_mentions_itself,
    lemma_mentions_within, mentions, option_view, push_labelled,
};

verus! {

/// Counters of one UDP stream.
#[derive(Clone, Copy, Debug)]
pub struct AlvrUdpStreamDiagnostics {
    pub total_shards: u64,
    pub video_shards: u64,
    pub audio_shards: u64,
    pub completed_video_packets: u64,
    pub completed_audio_packets: u64,
    pub waiting_for_idr_drops: u64,
    pub pre_decoder_config_drops: u64,
    pub packet_gap_resets: u64,
    pub decoder_backpressure_resets: u64,
    pub decoder_idr_unavailable_resets: u64,
    pub short_datagrams: u64,
    pub udp_terminal_errors: u64,
    pub idr_requests: u64,
}

impl Default for AlvrUdpStreamDiagnostics {
    fn default() -> (diagnostics: Self)
        ensures
            diagnostics == AlvrUdpStreamDiagnostics::zero(),
    {
        AlvrUdpStreamDiagnostics {
            total_shards: 0,
            video_shards: 0,
            audio_shards: 0,
            completed_video_packets: 0,
            completed_audio_packets: 0,
            waiting_for_idr_drops: 0,
            pre_decoder_config_drops: 0,
            packet_gap_resets: 0,
            decoder_backpressure_resets: 0,
            decoder_idr_unavailable_resets: 0,
            short_datagrams: 0,
            udp_terminal_errors: 0,
            idr_requests: 0,
        }
    }
}

/// A counter after one more event; it wraps at the end of its range.
pub open spec fn bumped(counter: u64) -> u64 {
    if counter == u64::MAX {
        0
    } else {
        (counter + 1) as u64
    }
}

/// Counts one more event.
pub fn bump(counter: u64) -> (next: u64)
    ensures
        next == bumped(counter),
{
    counter.wrapping_add(1)
}

impl AlvrUdpStreamDiagnostics {
    /// Nothing counted yet.
    pub open spec fn zero() -> Self {
        AlvrUdpStreamDiagnostics {
            total_shards: 0,
            video_shards: 0,
            audio_shards: 0,
            completed_video_packets: 0,
            completed_audio_packets: 0,
            waiting_for_idr_drops: 0,
            pre_decoder_config_drops: 0,
            packet_gap_resets: 0,
            decoder_backpressure_resets: 0,
            decoder_idr_unavailable_resets: 0,
            short_datagrams: 0,
            udp_terminal_errors: 0,
            idr_requests: 0,
        }
    }

    /// Counts a request for a key frame.
    pub fn note_idr_request(&mut self)
        ensures
            *final(self) == (AlvrUdpStreamDiagnostics {
                idr_requests: bumped(old(self).idr_requests),
                ..*old(self)
            }),
    {
        self.idr_requests = bump(self.idr_requests);
    }
}

/// Counters of the frames handed to the compositor without a copy.
#[derive(Clone, Debug)]
pub struct VideoRenderDiagnosticsSnapshot {
    pub zero_copy_attempts: u64,
    pub zero_copy_success_count: u64,
    pub zero_copy_failure_count: u64,
    pub zero_copy_gl_error_count: u64,
    pub last_zero_copy_failure: Option<String>,
}

impl Default for VideoRenderDiagnosticsSnapshot {
    fn default() -> (snapshot: Self)
        ensures
            snapshot.zero_copy_attempts == 0,
            snapshot.zero_copy_success_count == 0,
            snapshot.zero_copy_failure_count == 0,
            snapshot.zero_copy_gl_error_count == 0,
            snapshot.last_zero_copy_failure is None,
    {
        VideoRenderDiagnosticsSnapshot {
            zero_copy_attempts: 0,
            zero_copy_success_count: 0,
            zero_copy_failure_count: 0,
            zero_copy_gl_error_count: 0,
            last_zero_copy_failure: None,
        }
    }
}

/// Counters of the decoder.
#[derive(Clone, Copy, Debug, PartialEq, Eq, Structural)]
pub struct UpstreamDecoderDiagnosticsSnapshot {
    pub restart_count: u64,
    pub backpressure_count: u64,
    pub fatal_error_count: u64,
}

impl Default for UpstreamDecoderDiagnosticsSnapshot {
    fn default() -> (snapshot: Self)
        ensures
            snapshot == (UpstreamDecoderDiagnosticsSnapshot {
                restart_count: 0,
                backpressure_count: 0,
                fatal_error_count: 0,
            }),
    {
        UpstreamDecoderDiagnosticsSnapshot {
            restart_count: 0,
            backpressure_count: 0,
            fatal_error_count: 0,
        }
    }
}

/// The failure class of a session. Failures to submit a frame come first, then trouble in the
/// decoder or in recovering the stream, then lost packets, then a broken socket.
pub open spec fn failure_class(
    stream: AlvrUdpStreamDiagnostics,
    render: VideoRenderDiagnosticsSnapshot,
) -> Seq<char> {
    if render.zero_copy_failure_count > 0 || render.zero_copy_gl_error_count > 0 {
        "compositor-submit"@
    } else if stream.decoder_backpressure_resets > 0 || stream.waiting_for_idr_drops > 0 {
        "decoder-or-stream-recovery"@
    } else if stream.packet_gap_resets > 0 {
        "network-packet-gap"@
    } else if stream.udp_terminal_errors > 0 {
        "udp-terminal-error"@
    } else {
        "none-observed"@
    }
}

/// Names the failure class of a session.
pub fn classify_alvr_failure_class(
    stream: &AlvrUdpStreamDiagnostics,
    render: &VideoRenderDiagnosticsSnapshot,
) -> (class: &'static str)
    ensures
        class@ == failure_class(*stream, *render),
{
    if render.zero_copy_failure_count > 0 || render.zero_copy_gl_error_count > 0 {
        "compositor-submit"
    } else if stream.decoder_backpressure_resets > 0 || stream.waiting_for_idr_drops > 0 {
        "decoder-or-stream-recovery"
    } else if stream.packet_gap_resets > 0 {
        "network-packet-gap"
    } else if stream.udp_terminal_errors > 0 {
        "udp-terminal-error"
    } else {
        "none-observed"
    }
}

/// A label and a counter.
pub open spec fn labelled(label: Seq<char>, value: u64) -> Seq<char> {
    label + decimal(value as nat)
}

/// The part of the summary about the stream.
pub open spec fn stream_part(stream: AlvrUdpStreamDiagnostics) -> Seq<char> {
    labelled(" stream={shards_total="@, stream.total_shards) + labelled(
        ",video_shards="@,
        stream.video_shards,
    ) + labelled(",audio_shards="@, stream.audio_shards) + labelled(
        ",video_packets="@,
        stream.completed_video_packets,
    ) + labelled(",audio_packets="@, stream.completed_audio_packets) + labelled(
        ",short_datagrams="@,
        stream.short_datagrams,
    ) + labelled(",udp_terminal_errors="@, stream.udp_terminal_errors)
}

/// The part of the summary about recovery.
pub open spec fn recovery_part(stream: AlvrUdpStreamDiagnostics) -> Seq<char> {
    labelled("} recovery={idr_requests="@, stream.idr_requests) + labelled(
        ",packet_gap_resets="@,
        stream.packet_gap_resets,
    ) + labelled(",waiting_for_idr_drops="@, stream.waiting_for_idr_drops) + labelled(
        ",pre_decoder_config_drops="@,
        stream.pre_decoder_config_drops,
    ) + labelled(",decoder_backpressure_resets="@, stream.decoder_backpressure_resets) + labelled(
        ",decoder_idr_unavailable_resets="@,
        stream.decoder_idr_unavailable_resets,
    )
}

/// The part of the summary about the decoder.
pub open spec fn decoder_part(decoder: UpstreamDecoderDiagnosticsSnapshot) -> Seq<char> {
    labelled("} decoder={backpressure_count="@, decoder.backpressure_count) + labelled(
        ",restart_count="@,
        decoder.restart_count,
    ) + labelled(",fatal_error_count="@, decoder.fatal_error_count)
}

/// The part of the summary about rendering.
pub open spec fn render_part(render: VideoRenderDiagnosticsSnapshot) -> Seq<char> {
    labelled("} render={zero_copy_attempts="@, render.zero_copy_attempts) + labelled(
        ",zero_copy_success_count="@,
        render.zero_copy_success_count,
    ) + labelled(",zero_copy_failure_count="@, render.zero_copy_failure_count) + labelled(
        ",zero_copy_gl_error_count="@,
        render.zero_copy_gl_error_count,
    ) + ",last_zero_copy_failure="@ + debug_option_text(option_view(render.last_zero_copy_failure))
        + "}"@
}

/// The summary line of a session.
pub open spec fn summary_text(
    session_id: u32,
    reason: Seq<char>,
    uptime_ms: u64,
    stream: AlvrUdpStreamDiagnostics,
    decoder: UpstreamDecoderDiagnosticsSnapshot,
    render: VideoRenderDiagnosticsSnapshot,
) -> Seq<char> {
    labelled("ALVR diagnostics summary: session_id="@, session_id as u64) + " reason=\""@ + reason
        + labelled("\" uptime_ms="@, uptime_ms) + " failure_class="@ + failure_class(stream, render)
        + stream_part(stream) + recovery_part(stream) + decoder_part(decoder) + render_part(render)
}

fn push_stream_part(text: &mut String, stream: &AlvrUdpStreamDiagnostics)
    ensures
        final(text)@ == old(text)@ + stream_part(*stream),
{
    push_labelled(text, " stream={shards_total=", stream.total_shards);
    push_labelled(text, ",video_shards=", stream.video_shards);
    push_labelled(text, ",audio_shards=", stream.audio_shards);
    push_labelled(text, ",video_packets=", stream.completed_video_packets);
    push_labelled(text, ",audio_packets=", stream.completed_audio_packets);
    push_labelled(text, ",short_datagrams=", stream.short_datagrams);
    push_labelled(text, ",udp_terminal_errors=", stream.udp_terminal_errors);
    assert(text@ =~= old(text)@ + stream_part(*stream));
}

fn push_recovery_part(text: &mut String, stream: &AlvrUdpStreamDiagnostics)
    ensures
        final(text)@ == old(text)@ + recovery_part(*stream),
{
    push_labelled(text, "} recovery={idr_requests=", stream.idr_requests);
    push_labelled(text, ",packet_gap_resets=", stream.packet_gap_resets);
    push_labelled(text, ",waiting_for_idr_drops=", stream.waiting_for_idr_drops);
    push_labelled(text, ",pre_decoder_config_drops=", stream.pre_decoder_config_drops);
    push_labelled(text, ",decoder_backpressure_resets=", stream.decoder_backpressure_resets);
    push_labelled(text, ",decoder_idr_unavailable_resets=", stream.decoder_idr_unavailable_resets);
    assert(text@ =~= old(text)@ + recovery_part(*stream));
}

fn push_decoder_part(text: &mut String, decoder: &UpstreamDecoderDiagnosticsSnapshot)
    ensures
        final(text)@ == old(text)@ + decoder_part(*decoder),
{
    push_labelled(text, "} decoder={backpressure_count=", decoder.backpressure_count);
    push_labelled(text, ",restart_count=", decoder.restart_count);
    push_labelled(text, ",fatal_error_count=", decoder.fatal_error_count);
    assert(text@ =~= old(text)@ + decoder_part(*decoder));
}

fn push_render_part(text: &mut String, render: &VideoRenderDiagnosticsSnapshot)
    ensures
        final(text)@ == old(text)@ + render_part(*render),
{
    push_labelled(text, "} render={zero_copy_attempts=", render.zero_copy_attempts);
    push_labelled(text, ",zero_copy_success_count=", render.zero_copy_success_count);
    push_labelled(text, ",zero_copy_failure_count=", render.zero_copy_failure_count);
    push_labelled(text, ",zero_copy_gl_error_count=", render.zero_copy_gl_error_count);
    text.append(",last_zero_copy_failure=");
    let failure: String = format_debug_option(&render.last_zero_copy_failure);
    text.append(failure.as_str());
    text.append("}");
    assert(text@ =~= old(text)@ + render_part(*render));
}

/// Writes the summary line of a session.
pub fn log_alvr_diagnostics_summary(
    session_id: u32,
    reason: &str,
    uptime_ms: u64,
    stream: &AlvrUdpStreamDiagnostics,
    decoder: &UpstreamDecoderDiagnosticsSnapshot,
    render: &VideoRenderDiagnosticsSnapshot,
) -> (text: String)
    ensures
        text@ == summary_text(session_id, reason@, uptime_ms, *stream, *decoder, *render),
{
    let mut text: String = "ALVR diagnostics summary: session_id=".to_owned();
    let id: String = format_decimal(session_id as u128);
    text.append(id.as_str());
    text.append(" reason=\"");
    text.append(reason);
    push_labelled(&mut text, "\" uptime_ms=", uptime_ms);
    text.append(" failure_class=");
    text.append(classify_alvr_failure_class(stream, render));
    push_stream_part(&mut text, stream);
    push_recovery_part(&mut text, stream);
    push_decoder_part(&mut text, decoder);
    push_render_part(&mut text, render);
    assert(text@ =~= summary_text(session_id, reason@, uptime_ms, *stream, *decoder, *render));
    text
}

// ---------------------------------------------------------------------------
// Laws
// ---------------------------------------------------------------------------

proof fn lemma_shows(before: Seq<char>, part: Seq<char>, after: Seq<char>)
    ensures
        mentions(before + part + after, part),
{
    lemma_mentions_itself(part);
    lemma_mentions_within(before, part, after, part);
}

/// The part about the stream shows every counter of the stream behind its own label.
pub proof fn law_stream_counters_are_labelled(stream: AlvrUdpStreamDiagnostics)
    ensures
        ({
            let text = stream_part(stream);
            let shows = |label: Seq<char>, count: u64|
                mentions(text, label + decimal(count as nat));
            &&& shows("shards_total="@, stream.total_shards)
            &&& shows(",video_shards="@, stream.video_shards)
            &&& shows(",audio_shards="@, stream.audio_shards)
            &&& shows(",video_packets="@, stream.completed_video_packets)
            &&& shows(",audio_packets="@, stream.completed_audio_packets)
            &&& shows(",short_datagrams="@, stream.short_datagrams)
            &&& shows(",udp_terminal_errors="@, stream.udp_terminal_errors)
        }),
{
    let text = stream_part(stream);
    let none = Seq::<char>::empty();
    let p0 = labelled(" stream={shards_total="@, stream.total_shards);
    let p1 = labelled(",video_shards="@, stream.video_shards);
    let p2 = labelled(",audio_shards="@, stream.audio_shards);
    let p3 = labelled(",video_packets="@, stream.completed_video_packets);
    let p4 = labelled(",audio_packets="@, stream.completed_audio_packets);
    let p5 = labelled(",short_datagrams="@, stream.short_datagrams);
    let p6 = labelled(",udp_terminal_errors="@, stream.udp_terminal_errors);
    assert(text =~= " stream={"@ + ("shards_total="@ + decimal(stream.total_shards as nat)) + (p1
        + p2 + p3 + p4 + p5 + p6)) by {
        reveal_strlit(" stream={shards_total=");
        reveal_strlit(" stream={");
        reveal_strlit("shards_total=");
        assert(" stream={shards_total="@ =~= " stream={"@ + "shards_total="@);
    }
    lemma_shows(
        " stream={"@,
        "shards_total="@ + decimal(stream.total_shards as nat),
        p1 + p2 + p3 + p4 + p5 + p6,
    );
    assert(text =~= p0 + p1 + (p2 + p3 + p4 + p5 + p6));
    lemma_shows(p0, p1, p2 + p3 + p4 + p5 + p6);
    assert(text =~= (p0 + p1) + p2 + (p3 + p4 + p5 + p6));
    lemma_shows(p0 + p1, p2, p3 + p4 + p5 + p6);
    assert(text =~= (p0 + p1 + p2) + p3 + (p4 + p5 + p6));
    lemma_shows(p0 + p1 + p2, p3, p4 + p5 + p6);
    assert(text =~= (p0 + p1 + p2 + p3) + p4 + (p5 + p6));
    lemma_shows(p0 + p1 + p2 + p3, p4, p5 + p6);
    assert(text =~= (p0 + p1 + p2 + p3 + p4) + p5 + p6);
    lemma_shows(p0 + p1 + p2 + p3 + p4, p5, p6);
    assert(text =~= (p0 + p1 + p2 + p3 + p4 + p5) + p6 + none);
    lemma_shows(p0 + p1 + p2 + p3 + p4 + p5, p6, none);
}

/// The part about recovery shows every counter of recovery behind its own label.
pub proof fn law_recovery_counters_are_labelled(stream: AlvrUdpStreamDiagnostics)
    ensures
        ({
            let text = recovery_part(stream);
            let shows = |label: Seq<char>, count: u64|
                mentions(text, label + decimal(count as nat));
            &&& shows("} recovery={idr_requests="@, stream.idr_requests)
            &&& shows(",packet_gap_resets="@, stream.packet_gap_resets)
            &&& shows(",waiting_for_idr_drops="@, stream.waiting_for_idr_drops)
            &&& shows(",pre_decoder_config_drops="@, stream.pre_decoder_config_drops)
            &&& shows(",decoder_backpressure_resets="@, stream.decoder_backpressure_resets)
            &&& shows(",decoder_idr_unavailable_resets="@, stream.decoder_idr_unavailable_resets)
        }),
{
    let text = recovery_part(stream);
    let none = Seq::<char>::empty();
    let p0 = labelled("} recovery={idr_requests="@, stream.idr_requests);
    let p1 = labelled(",packet_gap_resets="@, stream.packet_gap_resets);
    let p2 = labelled(",waiting_for_idr_drops="@, stream.waiting_for_idr_drops);
    let p3 = labelled(",pre_decoder_config_drops="@, stream.pre_decoder_config_drops);
    let p4 = labelled(",decoder_backpressure_resets="@, stream.decoder_backpressure_resets);
    let p5 = labelled(",decoder_idr_unavailable_resets="@, stream.decoder_idr_unavailable_resets);
    assert(text =~= none + p0 + (p1 + p2 + p3 + p4 + p5));
    lemma_shows(none, p0, p1 + p2 + p3 + p4 + p5);
    assert(text =~= p0 + p1 + (p2 + p3 + p4 + p5));
    lemma_shows(p0, p1, p2 + p3 + p4 + p5);
    assert(text =~= (p0 + p1) + p2 + (p3 + p4 + p5));
    lemma_shows(p0 + p1, p2, p3 + p4 + p5);
    assert(text =~= (p0 + p1 + p2) + p3 + (p4 + p5));
    lemma_shows(p0 + p1 + p2, p3, p4 + p5);
    assert(text =~= (p0 + p1 + p2 + p3) + p4 + p5);
    lemma_shows(p0 + p1 + p2 + p3, p4, p5);
    assert(text =~= (p0 + p1 + p2 + p3 + p4) + p5 + none);
    lemma_shows(p0 + p1 + p2 + p3 + p4, p5, none);
}

/// The parts about the decoder and about rendering show every counter behind its own label, and
/// the last failure.
pub proof fn law_decoder_and_render_counters_are_labelled(
    decoder: UpstreamDecoderDiagnosticsSnapshot,
    render: VideoRenderDiagnosticsSnapshot,
)
    ensures
        ({
            let text = decoder_part(decoder);
            let shows = |label: Seq<char>, count: u64|
                mentions(text, label + decimal(count as nat));
            &&& shows("} decoder={backpressure_count="@, decoder.backpressure_count)
            &&& shows(",restart_count="@, decoder.restart_count)
            &&& shows(",fatal_error_count="@, decoder.fatal_error_count)
        }),
        ({
            let text = render_part(render);
            let shows = |label: Seq<char>, count: u64|
                mentions(text, label + decimal(count as nat));
            &&& shows("} render={zero_copy_attempts="@, render.zero_copy_attempts)
            &&& shows(",zero_copy_success_count="@, render.zero_copy_success_count)
            &&& shows(",zero_copy_failure_count="@, render.zero_copy_failure_count)
            &&& shows(",zero_copy_gl_error_count="@, render.zero_copy_gl_error_count)
            &&& mentions(
                text,
                ",last_zero_copy_failure="@ + debug_option_text(
                    option_view(render.last_zero_copy_failure),
                ),
            )
        }),
{
    let none = Seq::<char>::empty();
    let text = decoder_part(decoder);
    let p0 = labelled("} decoder={backpressure_count="@, decoder.backpressure_count);
    let p1 = labelled(",restart_count="@, decoder.restart_count);
    let p2 = labelled(",fatal_error_count="@, decoder.fatal_error_count);
    assert(text =~= none + p0 + (p1 + p2));
    lemma_shows(none, p0, p1 + p2);
    assert(text =~= p0 + p1 + p2);
    lemma_shows(p0, p1, p2);
    assert(text =~= (p0 + p1) + p2 + none);
    lemma_shows(p0 + p1, p2, none);
    let shown = render_part(render);
    let q0 = labelled("} render={zero_copy_attempts="@, render.zero_copy_attempts);
    let q1 = labelled(",zero_copy_success_count="@, render.zero_copy_success_count);
    let q2 = labelled(",zero_copy_failure_count="@, render.zero_copy_failure_count);
    let q3 = labelled(",zero_copy_gl_error_count="@, render.zero_copy_gl_error_count);
    let q4 = ",last_zero_copy_failure="@ + debug_option_text(
        option_view(render.last_zero_copy_failure),
    );
    assert(shown =~= none + q0 + (q1 + q2 + q3 + q4 + "}"@));
    lemma_shows(none, q0, q1 + q2 + q3 + q4 + "}"@);
    assert(shown =~= q0 + q1 + (q2 + q3 + q4 + "}"@));
    lemma_shows(q0, q1, q2 + q3 + q4 + "}"@);
    assert(shown =~= (q0 + q1) + q2 + (q3 + q4 + "}"@));
    lemma_shows(q0 + q1, q2, q3 + q4 + "}"@);
    assert(shown =~= (q0 + q1 + q2) + q3 + (q4 + "}"@));
    lemma_shows(q0 + q1 + q2, q3, q4 + "}"@);
    assert(shown =~= (q0 + q1 + q2 + q3) + q4 + "}"@);
    lemma_shows(q0 + q1 + q2 + q3, q4, "}"@);
}

/// A summary names its session, why it ended, how long it ran and what went wrong, and holds all
/// four groups of counters.
pub proof fn law_summaries_name_their_session(
    session_id: u32,
    reason: Seq<char>,
    uptime_ms: u64,
    stream: AlvrUdpStreamDiagnostics,
    decoder: UpstreamDecoderDiagnosticsSnapshot,
    render: VideoRenderDiagnosticsSnapshot,
)
    ensures
        ({
            let text = summary_text(session_id, reason, uptime_ms, stream, decoder, render);
            &&& mentions(text, " session_id="@ + decimal(session_id as nat))
            &&& mentions(text, " reason=\""@ + reason + "\" uptime_ms="@ + decimal(
                uptime_ms as nat,
            ) + " failure_class="@ + failure_class(stream, render))
            &&& mentions(text, stream_part(stream))
            &&& mentions(text, recovery_part(stream))
            &&& mentions(text, decoder_part(decoder))
            &&& mentions(text, render_part(render))
        }),
{
    let id = " session_id="@ + decimal(session_id as nat);
    let why = " reason=\""@ + reason + "\" uptime_ms="@ + decimal(uptime_ms as nat)
        + " failure_class="@ + failure_class(stream, render);
    lemma_summary_shape(
        session_id,
        reason,
        uptime_ms,
        failure_class(stream, render),
        stream_part(stream),
        recovery_part(stream),
        decoder_part(decoder),
        render_part(render),
    );
    lemma_six_shown(
        "ALVR diagnostics summary:"@,
        id,
        why,
        stream_part(stream),
        recovery_part(stream),
        decoder_part(decoder),
        render_part(render),
    );
}

proof fn lemma_summary_shape(
    session_id: u32,
    reason: Seq<char>,
    uptime_ms: u64,
    class: Seq<char>,
    s: Seq<char>,
    c: Seq<char>,
    d: Seq<char>,
    r: Seq<char>,
)
    ensures
        labelled("ALVR diagnostics summary: session_id="@, session_id as u64) + " reason=\""@
            + reason + labelled("\" uptime_ms="@, uptime_ms) + " failure_class="@ + class + s + c + d
            + r == "ALVR diagnostics summary:"@ + (" session_id="@ + decimal(session_id as nat)) + (
        " reason=\""@ + reason + "\" uptime_ms="@ + decimal(uptime_ms as nat) + " failure_class="@
            + class) + s + c + d + r,
{
    assert("ALVR diagnostics summary: session_id="@ == "ALVR diagnostics summary:"@
        + " session_id="@) by {
        reveal_strlit("ALVR diagnostics summary: session_id=");
        reveal_strlit("ALVR diagnostics summary:");
        reveal_strlit(" session_id=");
        assert("ALVR diagnostics summary: session_id="@ =~= "ALVR diagnostics summary:"@
            + " session_id="@);
    }
    let head = "ALVR diagnostics summary:"@;
    let id = " session_id="@ + decimal(session_id as nat);
    let why = " reason=\""@ + reason + "\" uptime_ms="@ + decimal(uptime_ms as nat)
        + " failure_class="@ + class;
    assert(labelled("ALVR diagnostics summary: session_id="@, session_id as u64) =~= head + id);
    assert(head + id + " reason=\""@ + reason + labelled("\" uptime_ms="@, uptime_ms)
        + " failure_class="@ + class =~= head + id + why);
}

proof fn lemma_six_shown(
    head: Seq<char>,
    p1: Seq<char>,
    p2: Seq<char>,
    p3: Seq<char>,
    p4: Seq<char>,
    p5: Seq<char>,
    p6: Seq<char>,
)
    ensures
        ({
            let text = head + p1 + p2 + p3 + p4 + p5 + p6;
            &&& mentions(text, p1)
            &&& mentions(text, p2)
            &&& mentions(text, p3)
            &&& mentions(text, p4)
            &&& mentions(text, p5)
            &&& mentions(text, p6)
        }),
{
    let none = Seq::<char>::empty();
    let text = head + p1 + p2 + p3 + p4 + p5 + p6;
    assert(text =~= head + p1 + (p2 + p3 + p4 + p5 + p6));
    lemma_shows(head, p1, p2 + p3 + p4 + p5 + p6);
    assert(text =~= (head + p1) + p2 + (p3 + p4 + p5 + p6));
    lemma_shows(head + p1, p2, p3 + p4 + p5 + p6);
    assert(text =~= (head + p1 + p2) + p3 + (p4 + p5 + p6));
    lemma_shows(head + p1 + p2, p3, p4 + p5 + p6);
    assert(text =~= (head + p1 + p2 + p3) + p4 + (p5 + p6));
    lemma_shows(head + p1 + p2 + p3, p4, p5 + p6);
    assert(text =~= (head + p1 + p2 + p3 + p4) + p5 + p6);
    lemma_shows(head + p1 + p2 + p3 + p4, p5, p6);
    assert(text =~= (head + p1 + p2 + p3 + p4 + p5) + p6 + none);
    lemma_shows(head + p1 + p2 + p3 + p4 + p5, p6, none);
}

/// What went wrong is named by its gravest cause: a picture that could not be submitted, then the
/// decoder, then the network, then the socket. A session without any of them is named as such.
pub proof fn law_gravest_failure_is_named(
    stream: AlvrUdpStreamDiagnostics,
    render: VideoRenderDiagnosticsSnapshot,
)
    ensures
        ({
            let class = failure_class(stream, render);
            let submit = render.zero_copy_failure_count != 0 || render.zero_copy_gl_error_count
                != 0;
            let decoding = stream.decoder_backpressure_resets != 0 || stream.waiting_for_idr_drops
                != 0;
            let gaps = stream.packet_gap_resets != 0;
            let socket = stream.udp_terminal_errors != 0;
            &&& submit ==> class == "compositor-submit"@
            &&& !submit && decoding ==> class == "decoder-or-stream-recovery"@
            &&& !submit && !decoding && gaps ==> class == "network-packet-gap"@
            &&& !submit && !decoding && !gaps && socket ==> class == "udp-terminal-error"@
            &&& !submit && !decoding && !gaps && !socket ==> class == "none-observed"@
        }),
{
}

/// A counter counts by one, and starts over behind its largest number.
pub proof fn law_counters_count_by_one(counter: u64)
    ensures
        counter < u64::MAX ==> bumped(counter) == counter + 1,
        bumped(u64::MAX) == 0,
{
}

/// Every count starts at zero.
pub proof fn law_counts_start_at_zero(
    stream: AlvrUdpStreamDiagnostics,
    render: VideoRenderDiagnosticsSnapshot,
    decoder: UpstreamDecoderDiagnosticsSnapshot,
)
    requires
        call_ensures(AlvrUdpStreamDiagnostics::default, (), stream),
        call_ensures(VideoRenderDiagnosticsSnapshot::default, (), render),
        call_ensures(UpstreamDecoderDiagnosticsSnapshot::default, (), decoder),
    ensures
        stream.total_shards == 0 && stream.video_shards == 0 && stream.audio_shards == 0,
        stream.completed_video_packets == 0 && stream.completed_audio_packets == 0,
        stream.waiting_for_idr_drops == 0 && stream.pre_decoder_config_drops == 0,
        stream.packet_gap_resets == 0 && stream.decoder_backpressure_resets == 0,
        stream.decoder_idr_unavailable_resets == 0 && stream.short_datagrams == 0,
        stream.udp_terminal_errors == 0 && stream.idr_requests == 0,
        render.zero_copy_attempts == 0 && render.zero_copy_success_count == 0,
        render.zero_copy_failure_count == 0 && render.zero_copy_gl_error_count == 0,
        render.last_zero_copy_failure is None,
        decoder.restart_count == 0 && decoder.backpressure_count == 0,
        decoder.fatal_error_count == 0,
{
}

/// The failure that is named is the gravest one that was seen.
pub proof fn law_failures_are_classed_by_gravity(
    stream: AlvrUdpStreamDiagnostics,
    render: VideoRenderDiagnosticsSnapshot,
    class: &'static str,
)
    requires
        call_ensures(classify_alvr_failure_class, (&stream, &render), class),
    ensures
        render.zero_copy_failure_count != 0 || render.zero_copy_gl_error_count != 0 ==> class@
            == "compositor-submit"@,
        render.zero_copy_failure_count == 0 && render.zero_copy_gl_error_count == 0 && (
        stream.decoder_backpressure_resets != 0 || stream.waiting_for_idr_drops != 0) ==> class@
            == "decoder-or-stream-recovery"@,
        stream == AlvrUdpStreamDiagnostics::zero() && render.zero_copy_failure_count == 0
            && render.zero_copy_gl_error_count == 0 ==> class@ == "none-observed"@,
{
    law_gravest_failure_is_named(stream, render);
}

/// The summary of a session that is logged names the session and why it ended, and holds every
/// count.
pub proof fn law_logged_summaries_are_complete(
    session_id: u32,
    reason: &str,
    uptime_ms: u64,
    stream: AlvrUdpStreamDiagnostics,
    decoder: UpstreamDecoderDiagnosticsSnapshot,
    render: VideoRenderDiagnosticsSnapshot,
    text: String,
)
    requires
        call_ensures(
            log_alvr_diagnostics_summary,
            (session_id, reason, uptime_ms, &stream, &decoder, &render),
            text,
        ),
    ensures
        mentions(text@, " session_id="@ + decimal(session_id as nat)),
        mentions(
            text@,
            " reason=\""@ + reason@ + "\" uptime_ms="@ + decimal(uptime_ms as nat)
                + " failure_class="@ + failure_class(stream, render),
        ),
        mentions(text@, stream_part(stream)),
        mentions(text@, recovery_part(stream)),
        mentions(text@, decoder_part(decoder)),
        mentions(text@, render_part(render)),
{
    law_summaries_name_their_session(session_id, reason@, uptime_ms, stream, decoder, render);
}

} // verus!
