//! What the bridge shows on Discord: the track updates it receives, the
//! Rich Presence activity built from one, and the state machine that decides,
//! message by message, whether to set, clear or leave the activity.

use vstd::prelude::*;
use vstd::string::*;
use crate::text::{byte_len, format_time, lemma_byte_len_concat, time_text, truncate, truncated};

verus! {

/// Site opened by the "Open SYNK Music" button.
pub const SYNKMUSIC_URL: &'static str = "https://synkmusic.com";

/// The facts about a play time (sent as a floating-point number of seconds)
/// that the presence logic reads.
#[derive(Clone, Copy)]
pub struct PlaybackTime {
    /// The time is greater than zero.
    pub positive: bool,
    /// The time is zero or greater.
    pub non_negative: bool,
    /// The time is neither infinite nor NaN.
    pub finite: bool,
    /// Whole seconds, as an unsigned integer (saturating; NaN counts as 0).
    pub whole_secs: u64,
    /// Whole seconds, as a signed integer (saturating; NaN counts as 0).
    pub whole_secs_signed: i64,
}

impl PlaybackTime {
    /// The facts are those of one number: a positive time is non-negative;
    /// a non-negative time has non-negative whole seconds; a negative time or
    /// NaN has no unsigned whole seconds and no positive signed ones.
    pub open spec fn wf(self) -> bool {
        &&& self.positive ==> self.non_negative
        &&& self.non_negative ==> self.whole_secs_signed >= 0
        &&& !self.non_negative ==> self.whole_secs == 0 && self.whole_secs_signed <= 0
    }
}

/// A "now playing" update from the player.
pub struct TrackUpdate {
    pub track: String,
    pub artist: String,
    pub album: Option<String>,
    pub elapsed: PlaybackTime,
    pub duration: PlaybackTime,
    pub cover_url: Option<String>,
    pub track_url: Option<String>,
    pub player_status: Option<String>,
}

/// A message from the player page.
pub enum RpcMessage {
    /// A track is playing or paused.
    Update(TrackUpdate),
    /// Nothing is playing any more.
    Clear,
}

/// Start and end of the current track, in Unix seconds.
#[derive(Clone, Copy)]
pub struct Timestamps {
    pub start: Option<i64>,
    pub end: Option<i64>,
}

/// Images of the activity and their hover texts.
pub struct Assets {
    pub large_image: Option<String>,
    pub large_text: Option<String>,
    pub small_image: Option<String>,
    pub small_text: Option<String>,
}

/// A link button under the activity.
pub struct Button {
    pub label: String,
    pub url: String,
}

/// The kind of activity shown.
#[derive(Clone, Copy, PartialEq, Eq, Structural)]
pub enum ActivityType {
    Listening,
}

/// A Discord Rich Presence activity.
pub struct Activity {
    pub state: Option<String>,
    pub details: Option<String>,
    pub timestamps: Option<Timestamps>,
    pub assets: Option<Assets>,
    pub buttons: Option<Vec<Button>>,
    pub activity_type: Option<ActivityType>,
}

/// The characters of an optional string.
pub open spec fn opt_view(o: Option<String>) -> Option<Seq<char>> {
    match o {
        Some(s) => Some(s@),
        None => None,
    }
}

/// A track update seen as character sequences.
pub struct TrackView {
    pub track: Seq<char>,
    pub artist: Seq<char>,
    pub album: Option<Seq<char>>,
    pub elapsed: PlaybackTime,
    pub duration: PlaybackTime,
    pub cover_url: Option<Seq<char>>,
    pub track_url: Option<Seq<char>>,
    pub player_status: Option<Seq<char>>,
}

impl View for TrackUpdate {
    type V = TrackView;

    open spec fn view(&self) -> TrackView {
        TrackView {
            track: self.track@,
            artist: self.artist@,
            album: opt_view(self.album),
            elapsed: self.elapsed,
            duration: self.duration,
            cover_url: opt_view(self.cover_url),
            track_url: opt_view(self.track_url),
            player_status: opt_view(self.player_status),
        }
    }
}

/// A message seen as character sequences.
pub enum MessageView {
    Update(TrackView),
    Clear,
}

impl View for RpcMessage {
    type V = MessageView;

    open spec fn view(&self) -> MessageView {
        match self {
            RpcMessage::Update(u) => MessageView::Update(u@),
            RpcMessage::Clear => MessageView::Clear,
        }
    }
}

/// Assets seen as character sequences.
pub struct AssetsView {
    pub large_image: Option<Seq<char>>,
    pub large_text: Option<Seq<char>>,
    pub small_image: Option<Seq<char>>,
    pub small_text: Option<Seq<char>>,
}

impl View for Assets {
    type V = AssetsView;

    open spec fn view(&self) -> AssetsView {
        AssetsView {
            large_image: opt_view(self.large_image),
            large_text: opt_view(self.large_text),
            small_image: opt_view(self.small_image),
            small_text: opt_view(self.small_text),
        }
    }
}

/// A button seen as character sequences.
pub struct ButtonView {
    pub label: Seq<char>,
    pub url: Seq<char>,
}

impl View for Button {
    type V = ButtonView;

    open spec fn view(&self) -> ButtonView {
        ButtonView { label: self.label@, url: self.url@ }
    }
}

/// An activity seen as character sequences.
pub struct ActivityView {
    pub state: Option<Seq<char>>,
    pub details: Option<Seq<char>>,
    pub timestamps: Option<Timestamps>,
    pub assets: Option<AssetsView>,
    pub buttons: Option<Seq<ButtonView>>,
    pub activity_type: Option<ActivityType>,
}

impl View for Activity {
    type V = ActivityView;

    open spec fn view(&self) -> ActivityView {
        ActivityView {
            state: opt_view(self.state),
            details: opt_view(self.details),
            timestamps: self.timestamps,
            assets: match self.assets {
                Some(a) => Some(a@),
                None => None,
            },
            buttons: match self.buttons {
                Some(b) => Some(b@.map_values(|x: Button| x@)),
                None => None,
            },
            activity_type: self.activity_type,
        }
    }
}

/// The player reports that playback is paused.
pub open spec fn is_paused(status: Option<Seq<char>>) -> bool {
    status == Some("paused"@)
}

/// `o` when it is present and not empty, `default` otherwise.
pub open spec fn non_empty_or(o: Option<Seq<char>>, default: Seq<char>) -> Seq<char> {
    match o {
        Some(s) => if s.len() > 0 {
            s
        } else {
            default
        },
        None => default,
    }
}

/// The line under the track title: the artist, and whether and where playback
/// is paused; the artist is cut so that the line stays within Discord's limit.
pub open spec fn state_text(u: TrackView) -> Seq<char> {
    if is_paused(u.player_status) && u.duration.positive {
        "by "@ + truncated(u.artist, 100) + " · Paused ("@ + time_text(u.elapsed.whole_secs as nat)
            + ")"@
    } else if is_paused(u.player_status) {
        "by "@ + truncated(u.artist, 114) + " · Paused"@
    } else {
        "by "@ + truncated(u.artist, 124)
    }
}

/// The small image and its hover text, chosen by the player status.
pub open spec fn status_icon(status: Option<Seq<char>>) -> (Seq<char>, Seq<char>) {
    if status == Some("paused"@) {
        ("https://share.synkteam.uk/i/pause.png"@, "Paused"@)
    } else if status == Some("playing"@) {
        ("https://share.synkteam.uk/i/play.png"@, "Playing"@)
    } else {
        ("synkmusic_logo"@, "SYNK Music"@)
    }
}

/// `x` wrapped into the range of `i64`, as two's-complement arithmetic does
/// for a sum or difference of two `i64`s.
pub open spec fn wrap_i64(x: int) -> i64 {
    if x > i64::MAX {
        (x - 0x1_0000_0000_0000_0000) as i64
    } else if x < i64::MIN {
        (x + 0x1_0000_0000_0000_0000) as i64
    } else {
        x as i64
    }
}

/// The update is of a playing track whose times are usable for timestamps:
/// a positive finite duration and a non-negative finite elapsed time.
pub open spec fn shows_timestamps(u: TrackView) -> bool {
    !is_paused(u.player_status) && u.duration.positive && u.elapsed.non_negative
        && u.elapsed.finite && u.duration.finite
}

/// Start and end of a playing track whose times are usable: started
/// `elapsed` seconds before `now`, ending `duration` seconds after its start.
pub open spec fn timestamps_for(u: TrackView, now: i64) -> Option<Timestamps> {
    if shows_timestamps(u) {
        let start = wrap_i64(now - u.elapsed.whole_secs_signed);
        let end = wrap_i64(start + u.duration.whole_secs_signed);
        Some(Timestamps { start: Some(start), end: Some(end) })
    } else {
        None
    }
}

/// The buttons: a link to the track when its URL is present, not empty and
/// at most 512 bytes long, then a link to the site.
pub open spec fn buttons_for(u: TrackView) -> Seq<ButtonView> {
    let open_site = ButtonView { label: "Open SYNK Music"@, url: SYNKMUSIC_URL@ };
    match u.track_url {
        Some(url) => if url.len() > 0 && byte_len(url) <= 512 {
            seq![ButtonView { label: "Listen on SYNK Music"@, url: url }, open_site]
        } else {
            seq![open_site]
        },
        None => seq![open_site],
    }
}

/// The activity shown for update `u` at Unix time `now`.
pub open spec fn activity_view(u: TrackView, now: i64) -> ActivityView {
    let icon = status_icon(u.player_status);
    ActivityView {
        state: Some(state_text(u)),
        details: Some(truncated(u.track, 128)),
        timestamps: timestamps_for(u, now),
        assets: Some(
            AssetsView {
                large_image: Some(non_empty_or(u.cover_url, "synkmusic_logo"@)),
                large_text: Some(truncated(non_empty_or(u.album, u.track), 128)),
                small_image: Some(icon.0),
                small_text: Some(icon.1),
            },
        ),
        buttons: Some(buttons_for(u)),
        activity_type: Some(ActivityType::Listening),
    }
}

/// Whether `s` holds exactly the characters of `lit`.
fn equals_literal(s: &String, lit: &str) -> (r: bool)
    ensures
        r == (s@ == lit@),
{
    let other = String::from_str(lit);
    s.eq(&other)
}

/// Whether an optional string is present and equal to `lit`.
fn opt_equals_literal(o: &Option<String>, lit: &str) -> (r: bool)
    ensures
        r == (opt_view(*o) == Some(lit@)),
{
    match o {
        Some(s) => equals_literal(s, lit),
        None => false,
    }
}

/// `o` when it is present and not empty, `default` otherwise.
fn non_empty_or_exec(o: &Option<String>, default: &str) -> (r: String)
    ensures
        r@ == non_empty_or(opt_view(*o), default@),
{
    match o {
        Some(s) => {
            if s.as_str().is_empty() {
                String::from_str(default)
            } else {
                s.clone()
            }
        },
        None => String::from_str(default),
    }
}

/// Builds the line under the track title.
fn build_state_text(u: &TrackUpdate) -> (r: String)
    ensures
        r@ == state_text(u@),
{
    let paused = opt_equals_literal(&u.player_status, "paused");
    let mut st = String::from_str("by ");
    if paused && u.duration.positive {
        st.append(truncate(u.artist.as_str(), 100));
        st.append(" · Paused (");
        let t = format_time(u.elapsed.whole_secs);
        st.append(t.as_str());
        st.append(")");
    } else if paused {
        st.append(truncate(u.artist.as_str(), 114));
        st.append(" · Paused");
    } else {
        st.append(truncate(u.artist.as_str(), 124));
    }
    st
}

/// Builds the buttons under the activity.
fn build_buttons(u: &TrackUpdate) -> (r: Vec<Button>)
    ensures
        r@.map_values(|x: Button| x@) == buttons_for(u@),
{
    let mut buttons: Vec<Button> = Vec::new();
    match &u.track_url {
        Some(url) => {
            if !url.as_str().is_empty() && url.as_str().as_bytes().len() <= 512 {
                buttons.push(
                    Button { label: String::from_str("Listen on SYNK Music"), url: url.clone() },
                );
            }
        },
        None => {},
    }
    buttons.push(
        Button { label: String::from_str("Open SYNK Music"), url: String::from_str(SYNKMUSIC_URL) },
    );
    assert(buttons@.map_values(|x: Button| x@) =~= buttons_for(u@));
    buttons
}

/// Whether the activity for `u` carries timestamps, and so depends on the
/// current time; for any other update the time passed to `build_activity`
/// makes no difference.
pub fn wants_timestamps(u: &TrackUpdate) -> (r: bool)
    ensures
        r == shows_timestamps(u@),
        !r ==> forall|t1: i64, t2: i64| activity_view(u@, t1) == activity_view(u@, t2),
{
    let paused = opt_equals_literal(&u.player_status, "paused");
    !paused && u.duration.positive && u.elapsed.non_negative && u.elapsed.finite
        && u.duration.finite
}

/// Builds the Rich Presence activity for update `u` at Unix time `now`
/// (whole seconds).
pub fn build_activity(u: &TrackUpdate, now: i64) -> (a: Activity)
    ensures
        a@ == activity_view(u@, now),
{
    let paused = opt_equals_literal(&u.player_status, "paused");
    let details = String::from_str(truncate(u.track.as_str(), 128));
    let state = build_state_text(u);
    let large_image = non_empty_or_exec(&u.cover_url, "synkmusic_logo");
    let large_hover = non_empty_or_exec(&u.album, u.track.as_str());
    let large_text = String::from_str(truncate(large_hover.as_str(), 128));
    let (small_image, small_text) = if paused {
        (String::from_str("https://share.synkteam.uk/i/pause.png"), String::from_str("Paused"))
    } else if opt_equals_literal(&u.player_status, "playing") {
        (String::from_str("https://share.synkteam.uk/i/play.png"), String::from_str("Playing"))
    } else {
        (String::from_str("synkmusic_logo"), String::from_str("SYNK Music"))
    };
    let timestamps = if !paused && u.duration.positive && u.elapsed.non_negative
        && u.elapsed.finite && u.duration.finite {
        let start = now.wrapping_sub(u.elapsed.whole_secs_signed);
        let end = start.wrapping_add(u.duration.whole_secs_signed);
        Some(Timestamps { start: Some(start), end: Some(end) })
    } else {
        None
    };
    let buttons = build_buttons(u);
    let a = Activity {
        state: Some(state),
        details: Some(details),
        timestamps,
        assets: Some(
            Assets {
                large_image: Some(large_image),
                large_text: Some(large_text),
                small_image: Some(small_image),
                small_text: Some(small_text),
            },
        ),
        buttons: Some(buttons),
        activity_type: Some(ActivityType::Listening),
    };
    assert(a@.assets == activity_view(u@, now).assets);
    assert(a@.timestamps == activity_view(u@, now).timestamps);
    a
}

/// With a current time and an elapsed time that are not negative, the start
/// of the track is exactly the current time minus the elapsed whole seconds:
/// the subtraction does not wrap.
pub proof fn lemma_start_exact(u: TrackView, now: i64)
    requires
        u.elapsed.wf(),
        now >= 0,
        shows_timestamps(u),
    ensures
        timestamps_for(u, now).unwrap().start == Some((now - u.elapsed.whole_secs_signed) as i64),
        timestamps_for(u, now).unwrap().start.unwrap() <= now,
{
}

/// What identifies an update as a repeat of the previous one: track, artist
/// and player status (the play times are not part of it).
pub struct UpdateKey {
    pub track: String,
    pub artist: String,
    pub player_status: Option<String>,
}

/// An update key seen as character sequences.
pub struct KeyView {
    pub track: Seq<char>,
    pub artist: Seq<char>,
    pub player_status: Option<Seq<char>>,
}

impl View for UpdateKey {
    type V = KeyView;

    open spec fn view(&self) -> KeyView {
        KeyView {
            track: self.track@,
            artist: self.artist@,
            player_status: opt_view(self.player_status),
        }
    }
}

/// The key of an update.
pub open spec fn key_of(u: TrackView) -> KeyView {
    KeyView { track: u.track, artist: u.artist, player_status: u.player_status }
}

/// What to do with Discord after a message.
pub enum PresenceAction {
    /// Leave the activity as it is.
    Skip,
    /// Show this activity.
    SetActivity(Activity),
    /// Remove the activity.
    ClearActivity,
}

/// An action seen as character sequences.
pub enum ActionView {
    Skip,
    SetActivity(ActivityView),
    ClearActivity,
}

impl View for PresenceAction {
    type V = ActionView;

    open spec fn view(&self) -> ActionView {
        match self {
            PresenceAction::Skip => ActionView::Skip,
            PresenceAction::SetActivity(a) => ActionView::SetActivity(a@),
            PresenceAction::ClearActivity => ActionView::ClearActivity,
        }
    }
}

/// The key of the last update shown, if any: the presence state kept between
/// messages.
pub struct PresenceState {
    pub last_update: Option<UpdateKey>,
}

impl View for PresenceState {
    type V = Option<KeyView>;

    open spec fn view(&self) -> Option<KeyView> {
        match self.last_update {
            Some(k) => Some(k@),
            None => None,
        }
    }
}

/// One step of the presence state machine: a clear forgets the last update
/// and clears the activity; an update with the key of the last one shown is
/// skipped; any other update becomes the last one and is shown.
pub open spec fn presence_step(last: Option<KeyView>, msg: MessageView, now: i64) -> (
    Option<KeyView>,
    ActionView,
) {
    match msg {
        MessageView::Clear => (None, ActionView::ClearActivity),
        MessageView::Update(u) => if last == Some(key_of(u)) {
            (last, ActionView::Skip)
        } else {
            (Some(key_of(u)), ActionView::SetActivity(activity_view(u, now)))
        },
    }
}

/// Whether two optional strings hold the same characters.
fn same_opt(a: &Option<String>, b: &Option<String>) -> (r: bool)
    ensures
        r == (opt_view(*a) == opt_view(*b)),
{
    match (a, b) {
        (Some(x), Some(y)) => x.eq(y),
        (None, None) => true,
        _ => false,
    }
}

/// A copy of an optional string.
fn clone_opt(a: &Option<String>) -> (r: Option<String>)
    ensures
        opt_view(r) == opt_view(*a),
{
    match a {
        Some(x) => Some(x.clone()),
        None => None,
    }
}

impl PresenceState {
    /// The state before any message: nothing shown yet.
    pub fn new() -> (s: Self)
        ensures
            s@ is None,
    {
        PresenceState { last_update: None }
    }

    /// Whether update `u` repeats the last update shown.
    fn repeats(&self, u: &TrackUpdate) -> (r: bool)
        ensures
            r == (self@ == Some(key_of(u@))),
    {
        match &self.last_update {
            Some(k) => {
                let r = k.track.eq(&u.track) && k.artist.eq(&u.artist) && same_opt(
                    &k.player_status,
                    &u.player_status,
                );
                assert(r ==> k@ == key_of(u@));
                r
            },
            None => false,
        }
    }

    /// Takes one message from the player and says what to do with Discord;
    /// `now` is the current Unix time in whole seconds.
    pub fn handle(&mut self, msg: RpcMessage, now: i64) -> (action: PresenceAction)
        ensures
            (final(self)@, action@) == presence_step(old(self)@, msg@, now),
    {
        match msg {
            RpcMessage::Clear => {
                self.last_update = None;
                PresenceAction::ClearActivity
            },
            RpcMessage::Update(u) => {
                if self.repeats(&u) {
                    PresenceAction::Skip
                } else {
                    let key = UpdateKey {
                        track: u.track.clone(),
                        artist: u.artist.clone(),
                        player_status: clone_opt(&u.player_status),
                    };
                    self.last_update = Some(key);
                    PresenceAction::SetActivity(build_activity(&u, now))
                }
            },
        }
    }
}

/// An update that repeats the track, artist and status of the update just
/// shown is skipped and leaves the state as it was, whatever its play times.
pub proof fn lemma_repeat_is_skipped(last: Option<KeyView>, u: TrackView, v: TrackView, now1: i64, now2: i64)
    requires
        key_of(v) == key_of(u),
    ensures
        presence_step(presence_step(last, MessageView::Update(u), now1).0, MessageView::Update(v), now2)
            == (presence_step(last, MessageView::Update(u), now1).0, ActionView::Skip),
{
}

/// Repeat detection compares track, artist and player status, and nothing
/// else: after update `u` has been handled (shown or skipped), update `v` is
/// skipped when it has the same track, artist and status as `u`, and shown
/// otherwise; either way the state then records `v`'s track, artist and status.
pub proof fn lemma_repeat_rule(
    last: Option<KeyView>,
    u: TrackView,
    v: TrackView,
    now1: i64,
    now2: i64,
)
    ensures
        ({
            let after_u = presence_step(last, MessageView::Update(u), now1).0;
            let (after_v, action) = presence_step(after_u, MessageView::Update(v), now2);
            &&& after_u == Some(
                KeyView { track: u.track, artist: u.artist, player_status: u.player_status },
            )
            &&& after_v == Some(
                KeyView { track: v.track, artist: v.artist, player_status: v.player_status },
            )
            &&& (u.track == v.track && u.artist == v.artist && u.player_status == v.player_status)
                ==> action == ActionView::Skip
            &&& !(u.track == v.track && u.artist == v.artist && u.player_status
                == v.player_status) ==> action == ActionView::SetActivity(activity_view(v, now2))
        }),
{
    let after_u = presence_step(last, MessageView::Update(u), now1).0;
    if u.track == v.track && u.artist == v.artist && u.player_status == v.player_status {
        assert(key_of(u) == key_of(v));
    } else {
        assert(after_u != Some(key_of(v))) by {
            if after_u == Some(key_of(v)) {
                assert(key_of(u).track == v.track);
            }
        }
    }
}

/// The activity's contents, field by field, from the update's fields:
/// the title is the track cut to 128 bytes; the large image is the cover URL
/// when one is sent and not empty, the logo otherwise, and never empty; the
/// large text is the album when sent and not empty, the track otherwise, cut
/// to 128 bytes; the small image and text follow the status; timestamps are
/// present exactly for a track that is not paused and has a positive finite
/// duration and a non-negative finite elapsed time, and then start `elapsed`
/// seconds before `now` and end `duration` seconds after the start.
pub proof fn lemma_activity_fields(u: TrackView, now: i64)
    ensures
        ({
            let a = activity_view(u, now);
            let assets = a.assets.unwrap();
            let img = assets.large_image.unwrap();
            &&& a.details == Some(truncated(u.track, 128))
            &&& a.assets is Some
            &&& img.len() > 0
            &&& (u.cover_url matches Some(c) && c.len() > 0) ==> img == u.cover_url.unwrap()
            &&& !(u.cover_url matches Some(c) && c.len() > 0) ==> img == "synkmusic_logo"@
            &&& (u.album matches Some(x) && x.len() > 0) ==> assets.large_text == Some(
                truncated(u.album.unwrap(), 128),
            )
            &&& !(u.album matches Some(x) && x.len() > 0) ==> assets.large_text == Some(
                truncated(u.track, 128),
            )
            &&& u.player_status == Some("paused"@) ==> assets.small_image == Some(
                "https://share.synkteam.uk/i/pause.png"@,
            ) && assets.small_text == Some("Paused"@)
            &&& u.player_status == Some("playing"@) ==> assets.small_image == Some(
                "https://share.synkteam.uk/i/play.png"@,
            ) && assets.small_text == Some("Playing"@)
            &&& (u.player_status != Some("paused"@) && u.player_status != Some("playing"@))
                ==> assets.small_image == Some("synkmusic_logo"@) && assets.small_text == Some(
                "SYNK Music"@,
            )
            &&& a.timestamps is Some <==> (u.player_status != Some("paused"@)
                && u.duration.positive && u.elapsed.non_negative && u.elapsed.finite
                && u.duration.finite)
            &&& a.timestamps is Some ==> a.timestamps.unwrap().start == Some(
                wrap_i64(now - u.elapsed.whole_secs_signed),
            ) && a.timestamps.unwrap().end == Some(
                wrap_i64(a.timestamps.unwrap().start.unwrap() + u.duration.whole_secs_signed),
            )
            &&& a.activity_type == Some(ActivityType::Listening)
        }),
{
    reveal_strlit("synkmusic_logo");
    reveal_strlit("paused");
    reveal_strlit("playing");
    assert(("paused"@) != ("playing"@)) by {
        assert(("paused"@)[1] != ("playing"@)[1]);
    }
}

/// The state line names the artist after "by ", whole when it fits: within
/// 124 bytes when not paused, within 114 bytes (then " · Paused") when paused
/// without a known duration, within 100 bytes (then " · Paused (", the play
/// time and ")") when paused with one. A longer artist is cut to a prefix.
pub proof fn lemma_state_text_shape(u: TrackView)
    ensures
        !is_paused(u.player_status) && byte_len(u.artist) <= 124 ==> state_text(u) == "by "@
            + u.artist,
        is_paused(u.player_status) && !u.duration.positive && byte_len(u.artist) <= 114
            ==> state_text(u) == "by "@ + u.artist + " · Paused"@,
        is_paused(u.player_status) && u.duration.positive && byte_len(u.artist) <= 100
            ==> state_text(u) == "by "@ + u.artist + " · Paused ("@ + time_text(
            u.elapsed.whole_secs as nat,
        ) + ")"@,
        state_text(u).subrange(0, 3) == "by "@,
        ({
            let rest = state_text(u).subrange(3, state_text(u).len() as int);
            exists|k: int| #[trigger] starts_with_prefix_of(rest, u.artist, k)
        }),
{
    reveal_strlit("by ");
    reveal_strlit(" · Paused");
    reveal_strlit(" · Paused (");
    crate::text::lemma_truncate(u.artist, 100);
    crate::text::lemma_truncate(u.artist, 114);
    crate::text::lemma_truncate(u.artist, 124);
    let st = state_text(u);
    let n = if is_paused(u.player_status) && u.duration.positive {
        100int
    } else if is_paused(u.player_status) {
        114int
    } else {
        124int
    };
    let p = truncated(u.artist, n);
    let rest = st.subrange(3, st.len() as int);
    let k = p.len() as int;
    assert(st.subrange(0, 3) =~= "by "@);
    assert(p == u.artist.subrange(0, k));
    assert(k <= u.artist.len());
    if is_paused(u.player_status) && u.duration.positive {
        let tail = " · Paused ("@ + time_text(u.elapsed.whole_secs as nat) + ")"@;
        assert(rest =~= p + tail);
        assert(rest[k] == tail[0]);
    } else if is_paused(u.player_status) {
        assert(rest =~= p + " · Paused"@);
        assert(rest[k] == (" · Paused"@)[0]);
    } else {
        assert(rest =~= p);
    }
    assert(rest.subrange(0, k) =~= p);
    assert(k == rest.len() || rest[k] == ' ');
    assert(starts_with_prefix_of(rest, u.artist, k));
}

/// `text` starts with the first `k` characters of `s`, followed by nothing or
/// by a space.
pub open spec fn starts_with_prefix_of(text: Seq<char>, s: Seq<char>, k: int) -> bool {
    &&& 0 <= k <= s.len()
    &&& k <= text.len()
    &&& text.subrange(0, k) == s.subrange(0, k)
    &&& (k == text.len() || text[k] == ' ')
}

/// After a clear, the next update is always shown.
pub proof fn lemma_clear_then_update_is_shown(last: Option<KeyView>, u: TrackView, now: i64)
    ensures
        presence_step(presence_step(last, MessageView::Clear, now).0, MessageView::Update(u), now)
            == (Some(key_of(u)), ActionView::SetActivity(activity_view(u, now))),
{
}

/// The activity keeps within Discord's limits: the title and the album text
/// are at most 128 bytes, there are one or two buttons, the last opens the
/// site, and a track button holds a non-empty URL of at most 512 bytes.
pub proof fn lemma_activity_limits(u: TrackView, now: i64)
    ensures
        byte_len(activity_view(u, now).details.unwrap()) <= 128,
        byte_len(activity_view(u, now).assets.unwrap().large_text.unwrap()) <= 128,
        1 <= activity_view(u, now).buttons.unwrap().len() <= 2,
        activity_view(u, now).buttons.unwrap().last().url == SYNKMUSIC_URL@,
        ({
            let b = activity_view(u, now).buttons.unwrap();
            let open_site = ButtonView { label: "Open SYNK Music"@, url: SYNKMUSIC_URL@ };
            &&& b.last() == open_site
            &&& (u.track_url matches Some(url) && url.len() > 0 && byte_len(url) <= 512) <==> b.len()
                == 2
            &&& b.len() == 2 ==> b[0].label == "Listen on SYNK Music"@
            &&& b.len() == 2 ==> b[0].url.len() > 0 && byte_len(b[0].url) <= 512 && u.track_url
                == Some(b[0].url)
        }),
{
    crate::text::lemma_truncate(u.track, 128);
    crate::text::lemma_truncate(non_empty_or(u.album, u.track), 128);
}

/// The line under the title stays within Discord's 128-byte limit, apart from
/// the play time when paused with a known duration: "by " and the artist cut
/// to 124 bytes when playing, to 114 bytes before " · Paused", and to 100
/// bytes before " · Paused (" and the time.
pub proof fn lemma_state_text_limit(u: TrackView)
    ensures
        !(is_paused(u.player_status) && u.duration.positive) ==> byte_len(state_text(u)) <= 127,
        is_paused(u.player_status) && u.duration.positive ==> byte_len(state_text(u)) <= 116
            + byte_len(time_text(u.elapsed.whole_secs as nat)),
{
    reveal_strlit("by ");
    reveal_strlit(" · Paused");
    reveal_strlit(" · Paused (");
    reveal_strlit(")");
    reveal_with_fuel(vstd::utf8::encode_utf8, 12);
    assert(byte_len("by "@) == 3);
    assert(byte_len(" · Paused"@) == 10);
    assert(byte_len(" · Paused ("@) == 12);
    assert(byte_len(")"@) == 1);
    crate::text::lemma_truncate(u.artist, 100);
    crate::text::lemma_truncate(u.artist, 114);
    crate::text::lemma_truncate(u.artist, 124);
    let t = time_text(u.elapsed.whole_secs as nat);
    lemma_byte_len_concat("by "@, truncated(u.artist, 124));
    lemma_byte_len_concat("by "@, truncated(u.artist, 114));
    lemma_byte_len_concat("by "@ + truncated(u.artist, 114), " · Paused"@);
    lemma_byte_len_concat("by "@, truncated(u.artist, 100));
    lemma_byte_len_concat("by "@ + truncated(u.artist, 100), " · Paused ("@);
    lemma_byte_len_concat("by "@ + truncated(u.artist, 100) + " · Paused ("@, t);
    lemma_byte_len_concat("by "@ + truncated(u.artist, 100) + " · Paused ("@ + t, ")"@);
}

} // verus!
