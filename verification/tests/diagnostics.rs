use pimax_alvr::decoder::{
    reset_upstream_decoder_diagnostics, upstream_decoder_diagnostics_snapshot, UpstreamDecoder,
};
use pimax_alvr::diagnostics::{
    classify_alvr_failure_class, log_alvr_diagnostics_summary, AlvrUdpStreamDiagnostics,
    UpstreamDecoderDiagnosticsSnapshot, VideoRenderDiagnosticsSnapshot,
};
use pimax_alvr::video::{reset_video_render_diagnostics, video_render_diagnostics_snapshot};

#[test]
fn diagnostics_classification_prefers_compositor_failures() {
    let stream = AlvrUdpStreamDiagnostics {
        decoder_backpressure_resets: 3,
        ..Default::default()
    };
    let render = VideoRenderDiagnosticsSnapshot {
        zero_copy_failure_count: 1,
        ..Default::default()
    };

    assert_eq!(classify_alvr_failure_class(&stream, &render), "compositor-submit");
}

#[test]
fn diagnostics_classification_marks_decoder_recovery() {
    let stream = AlvrUdpStreamDiagnostics {
        waiting_for_idr_drops: 2,
        ..Default::default()
    };

    assert_eq!(
        classify_alvr_failure_class(&stream, &Default::default()),
        "decoder-or-stream-recovery"
    );
}

#[test]
fn diagnostics_classification_marks_packet_gaps_without_decoder_signals() {
    let stream = AlvrUdpStreamDiagnostics {
        packet_gap_resets: 1,
        ..Default::default()
    };

    assert_eq!(
        classify_alvr_failure_class(&stream, &Default::default()),
        "network-packet-gap"
    );
}

#[test]
fn diagnostics_classification_without_failures() {
    let quiet = AlvrUdpStreamDiagnostics::default();
    assert_eq!(classify_alvr_failure_class(&quiet, &Default::default()), "none-observed");
    let terminal = AlvrUdpStreamDiagnostics {
        udp_terminal_errors: 1,
        ..Default::default()
    };
    assert_eq!(
        classify_alvr_failure_class(&terminal, &Default::default()),
        "udp-terminal-error"
    );
}

#[test]
fn reset_upstream_decoder_diagnostics_clears_all_counters() {
    let mut decoder = UpstreamDecoder::new();
    decoder.diagnostics = UpstreamDecoderDiagnosticsSnapshot {
        restart_count: 7,
        backpressure_count: 5,
        fatal_error_count: 3,
    };

    reset_upstream_decoder_diagnostics(&mut decoder);

    let snapshot = upstream_decoder_diagnostics_snapshot(&decoder);
    assert_eq!(snapshot.restart_count, 0);
    assert_eq!(snapshot.backpressure_count, 0);
    assert_eq!(snapshot.fatal_error_count, 0);
}

#[test]
fn summary_quotes_the_last_failure() {
    let mut stream = AlvrUdpStreamDiagnostics::default();
    stream.note_idr_request();
    let render = VideoRenderDiagnosticsSnapshot {
        zero_copy_attempts: 4,
        last_zero_copy_failure: Some("no \"image\"".to_string()),
        ..Default::default()
    };
    let text = log_alvr_diagnostics_summary(
        3,
        "session shutdown",
        12_345,
        &stream,
        &UpstreamDecoderDiagnosticsSnapshot {
            restart_count: 1,
            backpressure_count: 2,
            fatal_error_count: 0,
        },
        &render,
    );
    assert_eq!(
        text,
        format!(
            "ALVR diagnostics summary: session_id=3 reason=\"session shutdown\" uptime_ms=12345 \
             failure_class=none-observed stream={{shards_total=0,video_shards=0,audio_shards=0,\
             video_packets=0,audio_packets=0,short_datagrams=0,udp_terminal_errors=0}} \
             recovery={{idr_requests=1,packet_gap_resets=0,waiting_for_idr_drops=0,\
             pre_decoder_config_drops=0,decoder_backpressure_resets=0,\
             decoder_idr_unavailable_resets=0}} decoder={{backpressure_count=2,restart_count=1,\
             fatal_error_count=0}} render={{zero_copy_attempts=4,zero_copy_success_count=0,\
             zero_copy_failure_count=0,zero_copy_gl_error_count=0,last_zero_copy_failure={:?}}}",
            Some("no \"image\"")
        )
    );
}

#[test]
fn render_counters_are_copied_and_reset() {
    let mut diagnostics = VideoRenderDiagnosticsSnapshot {
        zero_copy_attempts: 9,
        zero_copy_success_count: 7,
        zero_copy_failure_count: 2,
        zero_copy_gl_error_count: 1,
        last_zero_copy_failure: Some("gl".to_string()),
    };
    let snapshot = video_render_diagnostics_snapshot(&diagnostics);
    assert_eq!(snapshot.zero_copy_attempts, 9);
    assert_eq!(snapshot.zero_copy_success_count, 7);
    assert_eq!(snapshot.last_zero_copy_failure.as_deref(), Some("gl"));
    reset_video_render_diagnostics(&mut diagnostics);
    assert_eq!(diagnostics.zero_copy_attempts, 0);
    assert_eq!(diagnostics.zero_copy_failure_count, 0);
    assert_eq!(diagnostics.last_zero_copy_failure, None);
}
