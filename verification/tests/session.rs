use synkmusic_rpc::presence::{
    wants_timestamps, PlaybackTime, PresenceAction, RpcMessage, TrackUpdate,
};
use synkmusic_rpc::session::{Incoming, Relay, RelayAction, Session};

fn time(secs: u64) -> PlaybackTime {
    PlaybackTime {
        positive: secs > 0,
        non_negative: true,
        finite: true,
        whole_secs: secs,
        whole_secs_signed: secs as i64,
    }
}

fn update(status: &str) -> RpcMessage {
    RpcMessage::Update(TrackUpdate {
        track: "Song".to_string(),
        artist: "Artist".to_string(),
        album: None,
        elapsed: time(10),
        duration: time(100),
        cover_url: None,
        track_url: None,
        player_status: Some(status.to_string()),
    })
}

#[test]
fn message_without_connection_is_dropped() {
    let mut s = Session::new();
    assert!(s.wants_connection());
    s.connection_attempted(false);
    assert!(matches!(s.deliver(update("playing"), 1), PresenceAction::Skip));
    assert!(s.presence.last_update.is_none());
    assert!(s.wants_connection());
}

#[test]
fn connected_session_shows_then_skips() {
    let mut s = Session::new();
    s.connection_attempted(true);
    assert!(!s.wants_connection());
    assert!(matches!(s.deliver(update("playing"), 1), PresenceAction::SetActivity(_)));
    s.sent(true);
    assert!(matches!(s.deliver(update("playing"), 2), PresenceAction::Skip));
}

#[test]
fn failed_send_asks_for_a_new_connection_and_keeps_state() {
    let mut s = Session::new();
    s.connection_attempted(true);
    assert!(matches!(s.deliver(update("playing"), 1), PresenceAction::SetActivity(_)));
    s.sent(false);
    assert!(s.wants_connection());
    assert!(s.presence.last_update.is_some());
    s.connection_attempted(true);
    // the update already recorded is not sent again
    assert!(matches!(s.deliver(update("playing"), 3), PresenceAction::Skip));
}

#[test]
fn relay_forwards_ignores_and_stops() {
    let mut r = Relay::new();
    assert!(r.open());
    assert!(matches!(r.on_incoming(Incoming::NotText), RelayAction::Ignore));
    assert!(matches!(r.on_incoming(Incoming::Undecodable), RelayAction::Ignore));
    assert!(matches!(r.on_incoming(update("paused").into_incoming()), RelayAction::Forward(_)));
    r.forwarded(true);
    assert!(r.open());
    assert!(matches!(r.on_incoming(Incoming::Closed), RelayAction::Stop));
    assert!(!r.open());
    assert!(matches!(r.on_incoming(Incoming::NotText), RelayAction::Stop));
    assert!(matches!(r.finish(), RpcMessage::Clear));
}

#[test]
fn relay_stops_on_read_error_or_lost_channel() {
    let mut r = Relay::new();
    assert!(matches!(r.on_incoming(Incoming::Failed), RelayAction::Stop));
    assert!(!r.open());
    let mut r = Relay::new();
    r.forwarded(false);
    assert!(!r.open());
}

#[test]
fn clock_needed_only_for_playing_tracks() {
    let playing = match update("playing") {
        RpcMessage::Update(u) => u,
        _ => unreachable!(),
    };
    assert!(wants_timestamps(&playing));
    let paused = match update("paused") {
        RpcMessage::Update(u) => u,
        _ => unreachable!(),
    };
    assert!(!wants_timestamps(&paused));
}

trait IntoIncoming {
    fn into_incoming(self) -> Incoming;
}

impl IntoIncoming for RpcMessage {
    fn into_incoming(self) -> Incoming {
        Incoming::Message(self)
    }
}
