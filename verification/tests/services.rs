use std::collections::HashSet;

use eggie_ui::clipboard::{
    accepts, clipboard_contents_from_item, clipboard_item_from_contents, ClipboardEntry,
    OfferedContent,
};
use eggie_ui::i18n::Language;
use eggie_ui::images::{
    finish_image_transfer, is_still_live, retry_delay_ms, schedule_terminal_images, ChunkMetadata,
    ImageDescriptor, ImageError, ImageFollowUp, ImageKey, ImageTransfer, TERMINAL_IMAGE_CHUNK_SIZE,
};
use eggie_ui::osc::{
    answer_notification, forget_notification, handle_osc_event, notification_activates,
    notification_tag, remember_notification, BellMode, ClipboardSelection,
    OscAction, OscContext, OscRequest,
};
use eggie_ui::sessions::SessionSummary;
use eggie_ui::watchers::{
    end_snapshot_watch, ensure_snapshot_watchers, ensure_watchers, frame_is_complete,
    next_snapshot_request, snapshot_step, watch_step, FrameSchedule, SnapshotChange, SnapshotReply,
    WatchReply, RETRY_DELAY_MS,
};

fn offered(mime_type: &str, data: &[u8], image_type: Option<&str>) -> OfferedContent {
    OfferedContent {
        mime_type: mime_type.to_owned(),
        data: data.to_vec(),
        image_type: image_type.map(str::to_owned),
    }
}

#[test]
fn offered_text_and_images_reach_the_clipboard() {
    let item = clipboard_item_from_contents(&vec![
        offered("text/html", b"<b>x</b>", None),
        offered("text/plain;charset=utf-8", "grün".as_bytes(), None),
        offered("image/png", &[1, 2], Some("image/png")),
        offered("application/x", &[3], None),
    ])
    .unwrap();
    assert_eq!(item.len(), 2);
    assert!(matches!(&item[0], ClipboardEntry::Text(t) if t == "grün"));
    assert!(matches!(
        &item[1],
        ClipboardEntry::Image { mime_type, bytes } if mime_type == "image/png" && bytes == &[1, 2]
    ));
    // Text of another kind stands in where no plain text is there.
    let item = clipboard_item_from_contents(&vec![offered("text/html", b"<b>", None)]).unwrap();
    assert!(matches!(&item[0], ClipboardEntry::Text(t) if t == "<b>"));
    // Bytes that are no text make nothing.
    assert!(clipboard_item_from_contents(&vec![offered("text/plain", &[0xff], None)]).is_none());
    assert!(clipboard_item_from_contents(&Vec::new()).is_none());
}

#[test]
fn requested_types_select_the_contents() {
    let types = |names: &[&str]| names.iter().map(|n| n.to_string()).collect::<Vec<_>>();
    assert!(accepts(&types(&["text/*"]), "text/plain"));
    assert!(accepts(&types(&["text/plain;charset=utf-8"]), "text/plain"));
    assert!(accepts(&types(&["*/*"]), "image/png"));
    assert!(!accepts(&types(&["image/png"]), "image/jpeg"));

    let item = vec![
        ClipboardEntry::Text("grün".to_owned()),
        ClipboardEntry::Image { mime_type: "image/png".to_owned(), bytes: vec![9] },
        ClipboardEntry::Paths(vec!["/a".to_owned(), "/b".to_owned()]),
    ];
    let got = clipboard_contents_from_item(&item, &types(&["text/plain", "image/png"]));
    assert_eq!(got.len(), 2);
    assert_eq!(got[0].mime_type, "text/plain");
    assert_eq!(got[0].data, "grün".as_bytes());
    assert_eq!(got[1].data, vec![9]);
    let got = clipboard_contents_from_item(&item, &types(&["text/uri-list"]));
    assert_eq!(got.len(), 1);
    assert_eq!(got[0].mime_type, "text/uri-list");
    assert_eq!(got[0].data, b"file:///a\r\nfile:///b".to_vec());
}

#[test]
fn copied_text_is_pasted_unchanged() {
    let item =
        clipboard_item_from_contents(&vec![offered("text/plain", "grün".as_bytes(), None)]).unwrap();
    let got = clipboard_contents_from_item(&item, &vec!["text/plain".to_owned()]);
    assert_eq!(got.len(), 1);
    assert_eq!(got[0].data, "grün".as_bytes());
}

fn context(window_active: bool, bell_mode: BellMode) -> OscContext {
    OscContext {
        session_id: 0x1234,
        window_active,
        bell_mode,
        language: Language::English,
        has_primary: false,
    }
}

fn note(close_response_requested: bool) -> OscRequest {
    OscRequest::Notification {
        id: "n".to_owned(),
        title: "t".to_owned(),
        body: "b".to_owned(),
        close_response_requested,
    }
}

#[test]
fn notifications_show_only_behind_other_windows() {
    let none = Vec::new();
    match handle_osc_event(&context(true, BellMode::Silent), &none, note(true)) {
        OscAction::AnswerNotification { notification_id } => assert_eq!(notification_id, "n"),
        other => panic!("{other:?}"),
    }
    match handle_osc_event(&context(false, BellMode::Silent), &none, note(true)) {
        OscAction::ShowNotification { tag, title, dismiss_label, .. } => {
            assert_eq!(tag, "eggie:00000000-0000-0000-0000-000000001234:n");
            assert_eq!(title, "t");
            assert_eq!(dismiss_label.as_deref(), Some("Dismiss"));
        }
        other => panic!("{other:?}"),
    }
    match handle_osc_event(&context(false, BellMode::Silent), &none, note(false)) {
        OscAction::ShowNotification { dismiss_label, .. } => assert_eq!(dismiss_label, None),
        other => panic!("{other:?}"),
    }
    match handle_osc_event(
        &context(false, BellMode::Silent),
        &none,
        OscRequest::NotificationClose { id: "n".to_owned() },
    ) {
        OscAction::DismissNotification { tag } => assert_eq!(tag, notification_tag(0x1234, "n")),
        other => panic!("{other:?}"),
    }
}

#[test]
fn a_click_on_a_notification_activates() {
    assert!(notification_activates(&None));
    assert!(notification_activates(&Some("open".to_owned())));
    assert!(!notification_activates(&Some("close".to_owned())));
}

#[test]
fn a_notification_is_answered_to_its_program() {
    let mut routes = Vec::new();
    remember_notification(&mut routes, "t".to_owned(), 1, "old".to_owned());
    remember_notification(&mut routes, "u".to_owned(), 2, "b".to_owned());
    remember_notification(&mut routes, "t".to_owned(), 3, "new".to_owned());
    assert_eq!(routes.len(), 2);
    let answer = answer_notification(&mut routes, "t", &None).unwrap();
    assert_eq!((answer.session_id, answer.notification_id.as_str()), (3, "new"));
    assert!(answer.activated);
    assert!(answer_notification(&mut routes, "t", &None).is_none());
    let closed = answer_notification(&mut routes, "u", &Some("close".to_owned())).unwrap();
    assert!(!closed.activated);
    remember_notification(&mut routes, "v".to_owned(), 4, "c".to_owned());
    forget_notification(&mut routes, "v");
    assert!(routes.is_empty());
}

#[test]
fn a_transfer_ends_once() {
    let shown = vec![image(1, 2, 2), image(3, 1, 1)];
    let mut in_flight = HashSet::from([1, 3]);
    let key = |id, generation| ImageKey { id, generation };
    let came = finish_image_transfer(&mut in_flight, key(3, 1), true, Some(&shown));
    assert_eq!(came, ImageFollowUp { install: true, schedule: true, frame: true });
    assert_eq!(in_flight, HashSet::from([1]));
    let late = finish_image_transfer(&mut in_flight, key(1, 9), true, Some(&shown));
    assert_eq!(late, ImageFollowUp { install: false, schedule: true, frame: true });
    let gone = finish_image_transfer(&mut in_flight, key(1, 1), true, None);
    assert_eq!(gone, ImageFollowUp { install: false, schedule: false, frame: true });
    let failed = finish_image_transfer(&mut in_flight, key(1, 1), false, Some(&shown));
    assert_eq!(failed, ImageFollowUp { install: false, schedule: false, frame: false });
}

#[test]
fn changes_share_a_frame() {
    let mut frames = FrameSchedule { scheduled: false };
    assert!(frames.request());
    assert!(!frames.request());
    assert!(!frames.arrive(&vec![true, false]));
    assert!(frames.request());
    assert!(frames.arrive(&vec![true, true]));
}

#[test]
fn bells_ring_as_set() {
    let ring = |active, mode| {
        match handle_osc_event(&context(active, mode), &Vec::new(), OscRequest::Bell) {
            OscAction::Ring { sound, flash, attention } => (sound, flash, attention),
            other => panic!("{other:?}"),
        }
    };
    assert_eq!(ring(true, BellMode::Silent), (false, false, false));
    assert_eq!(ring(false, BellMode::Sound), (true, false, false));
    assert_eq!(ring(false, BellMode::Flash), (false, true, true));
    assert_eq!(ring(true, BellMode::FlashAndSound), (true, true, false));
}

#[test]
fn links_of_a_program_are_confirmed() {
    match handle_osc_event(
        &context(true, BellMode::Silent),
        &Vec::new(),
        OscRequest::OpenUrl { url: "https://a".to_owned() },
    ) {
        OscAction::ConfirmUrl { detail, open_label, url, .. } => {
            assert_eq!(detail, "A process in this terminal wants to open:\nhttps://a");
            assert_eq!(open_label, "Open");
            assert_eq!(url, "https://a");
        }
        other => panic!("{other:?}"),
    }
}

fn session(id: u128, reported_local: Option<bool>) -> SessionSummary {
    SessionSummary {
        id,
        project_id: 1,
        window_id: None,
        title: "s".to_owned(),
        initial_directory: "/start".to_owned(),
        current_directory: "/now".to_owned(),
        reported_local,
        process_name: "zsh".to_owned(),
        process_pid: 7,
    }
}

#[test]
fn files_are_received_near_the_session() {
    let receive = |sessions: &Vec<SessionSummary>, directory| {
        handle_osc_event(
            &context(true, BellMode::Silent),
            sessions,
            OscRequest::FileTransfer {
                request_id: 5,
                directory,
                suggested_name: "f".to_owned(),
            },
        )
    };
    let from = |sessions: &Vec<SessionSummary>| match receive(sessions, false) {
        OscAction::PickNewFile { directory, suggested_name, request_id } => {
            assert_eq!((suggested_name.as_str(), request_id), ("f", 5));
            directory
        }
        other => panic!("{other:?}"),
    };
    assert_eq!(from(&vec![session(0x1234, None)]), "/now");
    assert_eq!(from(&vec![session(0x1234, Some(false))]), "/start");
    assert_eq!(from(&Vec::new()), ".");
    assert!(matches!(
        receive(&Vec::new(), true),
        OscAction::PickDirectory { request_id: 5, .. }
    ));
}

#[test]
fn other_requests_have_their_actions() {
    let active = context(true, BellMode::Silent);
    let behind = context(false, BellMode::Silent);
    let ask = |c: &OscContext, r| handle_osc_event(c, &Vec::new(), r);
    assert!(matches!(ask(&active, OscRequest::FocusRequest), OscAction::ActivateSession));
    assert!(matches!(
        ask(&behind, OscRequest::Attention { cancel: false }),
        OscAction::RequestAttention
    ));
    assert!(matches!(ask(&behind, OscRequest::Attention { cancel: true }), OscAction::Nothing));
    assert!(matches!(ask(&active, OscRequest::Attention { cancel: false }), OscAction::Nothing));
    let write = |contents| OscRequest::ClipboardWrite {
        selection: ClipboardSelection::Primary,
        contents,
    };
    assert!(matches!(ask(&active, write(Vec::new())), OscAction::Nothing));
    let primary = OscContext { has_primary: true, ..context(true, BellMode::Silent) };
    assert!(matches!(
        ask(&primary, write(vec![offered("text/plain", b"x", None)])),
        OscAction::WriteClipboard { to_primary: true, .. }
    ));
    assert!(matches!(
        ask(
            &primary,
            OscRequest::ClipboardRead {
                request_id: 7,
                selection: ClipboardSelection::Clipboard,
                mime_types: Vec::new()
            }
        ),
        OscAction::ReadClipboard { from_primary: false, request_id: 7, .. }
    ));
}

fn image(id: u32, width: u32, height: u32) -> ImageDescriptor {
    ImageDescriptor { key: ImageKey { id, generation: 1 }, width, height }
}

fn chunk(d: ImageDescriptor, offset: u32, chunk_length: u32) -> ChunkMetadata {
    ChunkMetadata {
        key: d.key,
        width: d.width,
        height: d.height,
        total_length: d.width * d.height * 4,
        offset,
        chunk_length,
    }
}

#[test]
fn an_image_arrives_in_chunks() {
    let d = image(1, 2, 1);
    let mut transfer = ImageTransfer::begin(d).unwrap();
    let request = transfer.next_request().unwrap();
    assert_eq!((request.offset, request.length), (0, TERMINAL_IMAGE_CHUNK_SIZE));
    assert_eq!(transfer.accept_chunk(chunk(d, 0, 5), &vec![1; 5]), Ok(()));
    assert_eq!(transfer.next_request().unwrap().offset, 5);
    assert_eq!(
        transfer.accept_chunk(chunk(d, 0, 3), &vec![2; 3]),
        Err(ImageError::MetadataChanged)
    );
    assert_eq!(transfer.accept_chunk(chunk(d, 5, 0), &Vec::new()), Err(ImageError::EndedEarly));
    assert_eq!(transfer.accept_chunk(chunk(d, 5, 4), &vec![2; 4]), Err(ImageError::TooLong));
    assert_eq!(transfer.accept_chunk(chunk(d, 5, 3), &vec![2; 3]), Ok(()));
    assert_eq!(transfer.next_request(), None);
    assert_eq!(transfer.pixels, vec![1, 1, 1, 1, 1, 2, 2, 2]);
}

#[test]
fn image_errors_have_words() {
    assert_eq!(
        ImageTransfer::begin(image(1, u32::MAX, 2)).unwrap_err(),
        ImageError::DimensionsOverflow
    );
    assert_eq!(
        ImageError::DimensionsOverflow.message(),
        "terminal image dimensions overflow"
    );
    assert_eq!(
        ImageError::MetadataChanged.message(),
        "terminal image metadata changed during transfer"
    );
    assert_eq!(retry_delay_ms(1), Some(20));
    assert_eq!(retry_delay_ms(2), Some(40));
    assert_eq!(retry_delay_ms(3), None);
}

#[test]
fn an_image_under_way_is_not_fetched_twice() {
    let images = vec![image(1, 1, 1), image(2, 1, 1), image(3, 1, 1)];
    let mut in_flight = HashSet::from([2]);
    let now = schedule_terminal_images(&images, &vec![true, false, false], &mut in_flight);
    assert_eq!(now, vec![image(3, 1, 1)]);
    assert_eq!(in_flight, HashSet::from([2, 3]));
    assert!(is_still_live(&images, ImageKey { id: 3, generation: 1 }));
    assert!(!is_still_live(&images, ImageKey { id: 3, generation: 2 }));
}

#[test]
fn live_sessions_are_watched() {
    let mut watched = HashSet::from([1, 2]);
    assert_eq!(ensure_watchers(&mut watched, &vec![2, 3, 3]), vec![3]);
    assert_eq!(watched, HashSet::from([2, 3]));
    assert!(ensure_watchers(&mut watched, &vec![2, 3]).is_empty());
}

#[test]
fn visible_sessions_are_asked_for() {
    assert_eq!(next_snapshot_request(true, None), Some(0));
    assert_eq!(next_snapshot_request(true, Some(7)), Some(7));
    assert_eq!(next_snapshot_request(false, Some(7)), None);
    let mut watched = HashSet::from([1, 2]);
    assert_eq!(ensure_snapshot_watchers(&mut watched, &vec![2, 3, 3]), vec![3]);
    assert_eq!(watched, HashSet::from([1, 2, 3]));
    // A watch that ends leaves the set.
    assert!(end_snapshot_watch(&mut watched, 1, &vec![2, 4]).is_empty());
    assert_eq!(watched, HashSet::from([2, 3]));
    // One that ends while its session is visible starts anew.
    assert_eq!(end_snapshot_watch(&mut watched, 2, &vec![2, 4]), vec![2, 4]);
    assert_eq!(watched, HashSet::from([3, 2, 4]));
}

#[test]
fn a_watcher_follows_revisions() {
    let step = watch_step(1, 4, WatchReply::Update { session_id: 1, revision: 6 });
    assert_eq!((step.after_revision, step.accepted, step.delay_ms), (6, true, None));
    let step = watch_step(1, 4, WatchReply::Update { session_id: 2, revision: 6 });
    assert_eq!((step.after_revision, step.accepted), (4, false));
    assert_eq!(watch_step(1, 4, WatchReply::Unchanged { revision: 3 }).after_revision, 4);
    assert_eq!(watch_step(1, 4, WatchReply::Failed).delay_ms, Some(RETRY_DELAY_MS));
    assert_eq!(watch_step(1, 4, WatchReply::Unexpected).delay_ms, None);
}

#[test]
fn snapshots_replace_or_patch_what_is_held() {
    let step = |reply| snapshot_step(1, true, Some(5), None, reply, "Ok");
    let full = step(SnapshotReply::Full { session_id: 1, revision: 6 });
    assert_eq!((full.change, full.redraw), (SnapshotChange::Store, true));
    let same = step(SnapshotReply::Full { session_id: 1, revision: 5 });
    assert_eq!((same.change, same.redraw), (SnapshotChange::Keep, false));
    let lost = step(SnapshotReply::Delta { session_id: 1, base_revision: 4, applies: false });
    assert_eq!(lost.change, SnapshotChange::Drop);
    assert_eq!(lost.poll_error.as_deref(), Some("snapshot delta base 4 is unavailable"));
    let other = step(SnapshotReply::Full { session_id: 9, revision: 6 });
    assert_eq!(other.poll_error.as_deref(), Some("unexpected snapshot response: Ok"));
    let wrong = step(SnapshotReply::Unexpected);
    assert_eq!(wrong.poll_error.as_deref(), Some("unexpected snapshot response: Ok"));
    let failed = step(SnapshotReply::Failed { error: "gone".to_owned() });
    assert_eq!(failed.poll_error.as_deref(), Some("snapshot polling failed: gone"));
    assert_eq!(failed.delay_ms, Some(RETRY_DELAY_MS));
    assert!(failed.redraw);
    // An error that goes away is redrawn too.
    let back = snapshot_step(
        1,
        true,
        Some(5),
        Some("gone".to_owned()),
        SnapshotReply::Unchanged,
        "Ok",
    );
    assert_eq!((back.change, back.redraw, back.poll_error), (SnapshotChange::Keep, true, None));
    // What is not seen is stored but not drawn.
    let hidden = snapshot_step(
        1,
        false,
        Some(5),
        None,
        SnapshotReply::Full { session_id: 1, revision: 6 },
        "Ok",
    );
    assert_eq!((hidden.change, hidden.redraw), (SnapshotChange::Store, false));
    assert!(frame_is_complete(&vec![true, true]));
    assert!(!frame_is_complete(&vec![true, false]));
}
