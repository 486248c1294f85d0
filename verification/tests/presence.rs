use synkmusic_rpc::presence::{
    build_activity, Activity, ActivityType, PlaybackTime, PresenceAction, PresenceState,
    RpcMessage, TrackUpdate, SYNKMUSIC_URL,
};

fn time(secs: f64) -> PlaybackTime {
    PlaybackTime {
        positive: secs > 0.0,
        non_negative: secs >= 0.0,
        finite: secs.is_finite(),
        whole_secs: secs as u64,
        whole_secs_signed: secs as i64,
    }
}

fn update(status: Option<&str>) -> TrackUpdate {
    TrackUpdate {
        track: "Song".to_string(),
        artist: "Artist".to_string(),
        album: Some("Album".to_string()),
        elapsed: time(65.7),
        duration: time(200.2),
        cover_url: Some("https://img/cover.png".to_string()),
        track_url: Some("https://synkmusic.com/track/1".to_string()),
        player_status: status.map(|s| s.to_string()),
    }
}

fn text(o: &Option<String>) -> &str {
    o.as_deref().unwrap()
}

fn labels(a: &Activity) -> Vec<(String, String)> {
    a.buttons.as_ref().unwrap().iter().map(|b| (b.label.clone(), b.url.clone())).collect()
}

#[test]
fn playing_track_activity() {
    let a = build_activity(&update(Some("playing")), 1_700_000_000);
    assert_eq!(text(&a.details), "Song");
    assert_eq!(text(&a.state), "by Artist");
    let assets = a.assets.as_ref().unwrap();
    assert_eq!(text(&assets.large_image), "https://img/cover.png");
    assert_eq!(text(&assets.large_text), "Album");
    assert_eq!(text(&assets.small_image), "https://share.synkteam.uk/i/play.png");
    assert_eq!(text(&assets.small_text), "Playing");
    let ts = a.timestamps.unwrap();
    assert_eq!(ts.start, Some(1_700_000_000 - 65));
    assert_eq!(ts.end, Some(1_700_000_000 - 65 + 200));
    assert_eq!(
        labels(&a),
        vec![
            ("Listen on SYNK Music".to_string(), "https://synkmusic.com/track/1".to_string()),
            ("Open SYNK Music".to_string(), SYNKMUSIC_URL.to_string()),
        ]
    );
    assert!(a.activity_type == Some(ActivityType::Listening));
}

#[test]
fn paused_track_shows_position() {
    let a = build_activity(&update(Some("paused")), 1_700_000_000);
    assert_eq!(text(&a.state), "by Artist · Paused (1:05)");
    assert!(a.timestamps.is_none());
    let assets = a.assets.as_ref().unwrap();
    assert_eq!(text(&assets.small_image), "https://share.synkteam.uk/i/pause.png");
    assert_eq!(text(&assets.small_text), "Paused");
}

#[test]
fn paused_without_duration() {
    let mut u = update(Some("paused"));
    u.duration = time(0.0);
    let a = build_activity(&u, 10);
    assert_eq!(text(&a.state), "by Artist · Paused");
}

#[test]
fn unknown_status_and_missing_fields_fall_back() {
    let mut u = update(None);
    u.album = Some(String::new());
    u.cover_url = None;
    u.track_url = Some(String::new());
    let a = build_activity(&u, 10);
    let assets = a.assets.as_ref().unwrap();
    assert_eq!(text(&assets.large_image), "synkmusic_logo");
    assert_eq!(text(&assets.large_text), "Song");
    assert_eq!(text(&assets.small_image), "synkmusic_logo");
    assert_eq!(text(&assets.small_text), "SYNK Music");
    assert_eq!(labels(&a), vec![("Open SYNK Music".to_string(), SYNKMUSIC_URL.to_string())]);
}

#[test]
fn no_timestamps_for_unusable_times() {
    let mut u = update(Some("playing"));
    u.elapsed = time(-1.0);
    assert!(build_activity(&u, 10).timestamps.is_none());
    let mut u = update(Some("playing"));
    u.duration = time(f64::INFINITY);
    assert!(build_activity(&u, 10).timestamps.is_none());
    let mut u = update(Some("playing"));
    u.elapsed = time(f64::NAN);
    assert!(build_activity(&u, 10).timestamps.is_none());
}

#[test]
fn long_texts_are_cut_to_limits() {
    let mut u = update(Some("playing"));
    u.track = "t".repeat(200);
    u.artist = "é".repeat(100);
    u.album = None;
    u.track_url = Some(format!("https://x/{}", "a".repeat(600)));
    let a = build_activity(&u, 10);
    assert_eq!(text(&a.details).len(), 128);
    assert_eq!(text(&a.state), format!("by {}", "é".repeat(62)));
    assert_eq!(text(&a.assets.as_ref().unwrap().large_text).len(), 128);
    assert_eq!(a.buttons.as_ref().unwrap().len(), 1);
}

#[test]
fn track_url_of_512_bytes_is_kept() {
    let mut u = update(Some("playing"));
    u.track_url = Some("u".repeat(512));
    assert_eq!(build_activity(&u, 10).buttons.as_ref().unwrap().len(), 2);
    u.track_url = Some("u".repeat(513));
    assert_eq!(build_activity(&u, 10).buttons.as_ref().unwrap().len(), 1);
}

#[test]
fn timestamps_wrap_like_release_arithmetic() {
    let mut u = update(Some("playing"));
    u.elapsed = time(0.0);
    u.duration = time(1e30);
    let ts = build_activity(&u, 5).timestamps.unwrap();
    assert_eq!(ts.start, Some(5));
    assert_eq!(ts.end, Some(5i64.wrapping_add(i64::MAX)));
}

#[test]
fn repeated_update_is_skipped() {
    let mut st = PresenceState::new();
    assert!(matches!(st.handle(RpcMessage::Update(update(Some("playing"))), 100), PresenceAction::SetActivity(_)));
    let mut again = update(Some("playing"));
    again.elapsed = time(99.0);
    assert!(matches!(st.handle(RpcMessage::Update(again), 200), PresenceAction::Skip));
    assert!(matches!(st.handle(RpcMessage::Update(update(Some("paused"))), 300), PresenceAction::SetActivity(_)));
}

#[test]
fn clear_forgets_last_update() {
    let mut st = PresenceState::new();
    assert!(matches!(st.handle(RpcMessage::Update(update(None)), 1), PresenceAction::SetActivity(_)));
    assert!(matches!(st.handle(RpcMessage::Clear, 2), PresenceAction::ClearActivity));
    assert!(st.last_update.is_none());
    assert!(matches!(st.handle(RpcMessage::Update(update(None)), 3), PresenceAction::SetActivity(_)));
}

#[test]
fn other_track_is_shown() {
    let mut st = PresenceState::new();
    st.handle(RpcMessage::Update(update(Some("playing"))), 1);
    let mut other = update(Some("playing"));
    other.track = "Other".to_string();
    match st.handle(RpcMessage::Update(other), 2) {
        PresenceAction::SetActivity(a) => assert_eq!(text(&a.details), "Other"),
        _ => panic!("a new track must be shown"),
    }
    assert_eq!(st.last_update.as_ref().unwrap().track, "Other");
}
