use eggie_ui::build_id::{build_id, hash_bytes, source_hash, SourceFile, FNV_OFFSET};
use eggie_ui::command_history::{format_relative_time, CommandStatus};
use eggie_ui::gui_ipc::{
    body_length, frame, gui_socket_path, is_gui_socket, is_stale, Oversize, MAX_WAKE_MESSAGE_SIZE,
};
use eggie_ui::icons::{IconName, FONT_FAMILY};
use eggie_ui::input_latency::{
    is_switched_on, percentile, push_sample, LatencyState, MetalFrameStats, Quantiles, REPORT_EVERY,
    SAMPLE_WINDOW,
};
use std::collections::VecDeque;
use std::time::Duration;

#[test]
fn classifies_exit_codes_into_three_states() {
    assert_eq!(CommandStatus::from_exit_code(None), CommandStatus::Running);
    assert_eq!(CommandStatus::from_exit_code(Some(0)), CommandStatus::Success);
    assert_eq!(CommandStatus::from_exit_code(Some(1)), CommandStatus::Failure(1));
    assert_eq!(CommandStatus::from_exit_code(Some(130)), CommandStatus::Failure(130));
}

#[test]
fn formats_relative_time_across_granularities() {
    let base = 1_000_000_000u64;
    assert_eq!(format_relative_time(base, base), "just now");
    assert_eq!(format_relative_time(base, base + 3_000), "just now");
    assert_eq!(format_relative_time(base, base + 12_000), "12s ago");
    assert_eq!(format_relative_time(base, base + 90_000), "1m ago");
    assert_eq!(format_relative_time(base, base + 3 * 3_600_000), "3h ago");
    assert_eq!(format_relative_time(base, base + 2 * 86_400_000), "2d ago");
}

#[test]
fn clamps_future_timestamps_to_just_now() {
    let base = 1_000_000_000u64;
    assert_eq!(format_relative_time(base + 5_000, base), "just now");
}

#[test]
fn relative_time_changes_units_at_their_borders() {
    for (seconds, text) in [
        (4, "just now"),
        (5, "5s ago"),
        (59, "59s ago"),
        (60, "1m ago"),
        (3599, "59m ago"),
        (3600, "1h ago"),
        (86399, "23h ago"),
        (86400, "1d ago"),
    ] {
        assert_eq!(format_relative_time(0, seconds * 1000 + 999), text);
    }
}

#[test]
fn a_frame_holds_its_length_and_its_body() {
    let body = vec![7u8; 300];
    let message = frame(&body).unwrap();
    assert_eq!(&message[..4], &[44, 1, 0, 0]);
    assert_eq!(&message[4..], &body[..]);
    assert_eq!(body_length([44, 1, 0, 0]), Ok(300));
    assert_eq!(frame(&vec![]).unwrap(), [0, 0, 0, 0]);
    assert!(frame(&vec![0; MAX_WAKE_MESSAGE_SIZE]).is_ok());
}

#[test]
fn a_frame_that_is_too_long_is_refused() {
    let error = frame(&vec![0; MAX_WAKE_MESSAGE_SIZE + 1]).unwrap_err();
    assert_eq!(error, Oversize { length: 65537 });
    assert_eq!(error.message(), "GUI wake message exceeds 65536 bytes: 65537");
    assert_eq!(body_length([0, 0, 1, 0]), Ok(65536));
    assert_eq!(body_length([1, 0, 1, 0]), Err(Oversize { length: 65537 }));
    assert_eq!(body_length([255, 255, 255, 255]), Err(Oversize { length: 4294967295 }));
}

#[test]
fn socket_path_is_versioned_and_under_runtime_dir() {
    let path = gui_socket_path("/tmp/", 501, 12);
    assert_eq!(path, "/tmp/eggie-501/gui-v12.sock");
    assert_eq!(gui_socket_path("/tmp", 0, 1), "/tmp/eggie-0/gui-v1.sock");
    let name = path.rsplit('/').next().unwrap();
    assert!(name.starts_with("gui-v"));
    assert!(name.ends_with(".sock"));
    assert!(path.contains("eggie-"));
    assert!(is_gui_socket(name));
}

#[test]
fn only_silent_sockets_of_the_program_are_stale() {
    assert!(is_stale("gui-v3.sock", false));
    assert!(!is_stale("gui-v3.sock", true));
    assert!(!is_stale("daemon-v3.sock", false));
    assert!(!is_gui_socket("gui-v3.sock.bak"));
    assert!(!is_gui_socket("gui.sock"));
}

#[test]
fn percentile_uses_the_requested_rank() {
    let samples: Vec<u64> =
        (1..=100).map(|n| Duration::from_millis(n).as_nanos() as u64).collect();
    assert_eq!(percentile(&samples, 50), Duration::from_millis(50).as_nanos() as u64);
    assert_eq!(percentile(&samples, 95), Duration::from_millis(95).as_nanos() as u64);
}

#[test]
fn percentiles_of_few_and_of_no_samples() {
    assert_eq!(percentile(&vec![], 50), 0);
    assert_eq!(percentile(&vec![9], 95), 9);
    assert_eq!(percentile(&vec![3, 1, 2], 0), 1);
    assert_eq!(percentile(&vec![3, 1, 2], 50), 2);
    assert_eq!(percentile(&vec![3, 1, 2], 100), 3);
    assert_eq!(percentile(&vec![3, 1, 2], 200), 0);
    assert_eq!(percentile(&vec![3, 1, 2], usize::MAX), 0);
}

#[test]
fn the_sample_window_drops_the_oldest() {
    let mut samples = VecDeque::new();
    for n in 0..300u64 {
        push_sample(&mut samples, n);
    }
    assert_eq!(samples.len(), SAMPLE_WINDOW);
    assert_eq!((samples[0], samples[255]), (44, 299));
}

fn stats() -> MetalFrameStats {
    MetalFrameStats {
        command_count: 1,
        glyph_count: 2,
        atlas_hits: 3,
        atlas_misses: 4,
        atlas_resets: 5,
        raster_time: 6,
        background_raster_jobs: 7,
        background_raster_time: 8,
        synchronous_raster_jobs: 9,
        synchronous_raster_time: 10,
        pending_rasters: 11,
        image_uploads: 12,
        image_upload_bytes: 13,
        image_upload_time: 14,
        draw_calls: 15,
    }
}

#[test]
fn an_input_is_measured_from_key_to_frame() {
    let mut state = LatencyState::new(true, false, 0);
    state.record_input(1, 10, 100);
    state.record_input(1, 11, 150);
    state.record_input(2, 12, 160);
    state.record_input(1, 13, 170);
    state.discard_input(1, 13);
    state.record_snapshot(1, 10, 1, 400);
    state.record_metal(1, 10, 50, stats(), 1000);
    assert_eq!(state.samples.len(), 1);
    let sample = state.samples[0];
    assert_eq!(
        (sample.input_to_snapshot, sample.snapshot_to_metal, sample.end_to_end),
        (300, 600, 900)
    );
    // The second input waits for a snapshot of its own.
    state.record_metal(1, 99, 50, stats(), 1100);
    assert_eq!(state.total_samples, 1);
    state.record_snapshot(1, 11, 2, 1200);
    state.record_metal(1, 11, 50, stats(), 1300);
    assert_eq!(state.total_samples, 2);
    assert_eq!(state.samples[1].end_to_end, 1150);
    assert_eq!(state.metal_samples, [50, 50, 50]);
    assert_eq!(state.render.frames, 0);
}

#[test]
fn input_is_reported_every_sixteen_samples() {
    let mut state = LatencyState::new(true, false, 0);
    for n in 0..REPORT_EVERY {
        assert_eq!(state.report_if_due(0), (None, None));
        state.record_input(1, n, n);
        state.record_snapshot(1, n, n, n + 10);
        state.record_metal(1, n, 5, stats(), n + 30);
    }
    state.record_prepare(3, true);
    let (render, input) = state.report_if_due(1_000_000_000);
    assert_eq!(render, None);
    let report = input.unwrap();
    assert_eq!(report.samples, 16);
    assert_eq!(report.input_to_snapshot, Quantiles { p50: 10, p95: 10 });
    assert_eq!(report.snapshot_to_metal, Quantiles { p50: 20, p95: 20 });
    assert_eq!(report.end_to_end, Quantiles { p50: 30, p95: 30 });
    assert_eq!(report.prepare, Quantiles { p50: 3, p95: 3 });
    assert_eq!(report.metal, Quantiles { p50: 5, p95: 5 });
    assert_eq!(state.report_if_due(2_000_000_000), (None, None));
}

#[test]
fn drawing_is_reported_once_an_interval() {
    let mut state = LatencyState::new(false, true, 0);
    state.record_input(1, 1, 1);
    state.record_snapshot(1, 1, 5, 2);
    state.record_snapshot(1, 1, 9, 2);
    state.record_snapshot(1, 1, 3, 2);
    state.record_prepare(3, true);
    state.record_prepare(4, false);
    state.record_metal(1, 1, 5, stats(), 3);
    state.record_metal(1, 1, 5, stats(), 3);
    assert_eq!(state.report_if_due(799_999_999), (None, None));
    let (render, input) = state.report_if_due(800_000_000);
    assert_eq!(input, None);
    let report = render.unwrap();
    assert_eq!(report.elapsed, 800_000_000);
    let interval = report.interval;
    assert_eq!((interval.snapshots, interval.skipped_revisions), (3, 3));
    assert_eq!((interval.preparations, interval.preparation_cache_hits), (2, 1));
    assert_eq!((interval.frames, interval.commands, interval.draw_calls), (2, 2, 30));
    assert_eq!((interval.pending_rasters_peak, interval.image_upload_bytes), (11, 26));
    assert_eq!(report.prepare, Quantiles { p50: 3, p95: 3 });
    assert_eq!(state.render.frames, 0);
    // Nothing happened since, so nothing is reported, and the interval begins anew.
    assert_eq!(state.report_if_due(1_600_000_000), (None, None));
    assert_eq!(state.render_report_at, 1_600_000_000);
    assert_eq!(state.samples.len(), 0);
}

#[test]
fn switches_of_the_environment() {
    assert!(is_switched_on(&Some("1".to_owned())));
    assert!(is_switched_on(&Some("00".to_owned())));
    assert!(!is_switched_on(&Some("0".to_owned())));
    assert!(!is_switched_on(&Some(String::new())));
    assert!(!is_switched_on(&None));
}

#[test]
fn build_ids_tell_builds_apart() {
    let mut hash = FNV_OFFSET;
    hash_bytes(&mut hash, b"");
    assert_eq!(hash, 0xcbf29ce484222325);
    hash_bytes(&mut hash, b"a");
    assert_eq!(hash, 0xaf63dc4c8601ec8c);
    let mut pieces = FNV_OFFSET;
    hash_bytes(&mut pieces, b"foo");
    hash_bytes(&mut pieces, b"bar");
    assert_eq!(pieces, 0x85944171f73967e8);
    assert_eq!(build_id("debug", "1.0.0", 0x1f), "dev-000000000000001f");
    assert_eq!(build_id("release", "1.0.0", 0x1f), "release-1.0.0");
}

#[test]
fn icons_are_characters_of_the_font() {
    assert_eq!(FONT_FAMILY, "Hugeicons Stroke Rounded");
    assert_eq!(IconName::Add.glyph(), '\u{F150C}');
    assert_eq!(IconName::VsCode.glyph(), '\u{F297B}');
    assert_eq!(IconName::Terminal.glyph(), '\u{F1836}');
}

#[test]
fn sources_hash_in_order() {
    let file = |path: &str, content: &str| SourceFile {
        path: path.to_owned(),
        content: content.as_bytes().to_vec(),
    };
    assert_eq!(source_hash(&Vec::new()), FNV_OFFSET);
    let mut whole = FNV_OFFSET;
    hash_bytes(&mut whole, b"a/b1");
    hash_bytes(&mut whole, b"a-b2");
    // The parts of a path are compared one by one: `a` comes before `a-b`.
    assert_eq!(source_hash(&vec![file("a/b", "1"), file("a-b", "2")]), whole);
    assert_eq!(source_hash(&vec![file("a-b", "2"), file("a/b", "1")]), whole);
    assert_ne!(source_hash(&vec![file("a/b", "2"), file("a-b", "1")]), whole);
}
