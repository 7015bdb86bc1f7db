//! The settings kept in `config.toml`.

use vstd::prelude::*;
use crate::text::{chars_of, string_of, trim, trim_exec};

verus! {

/// Most entries kept in the history of opened channels.
pub const MAX_HISTORY: usize = 30;
/// Most PeerCast hosts remembered for the host picker.
pub const MAX_RECENT_HOSTS: usize = 8;

/// What a click on a channel row of the hub does.
#[derive(Debug, Clone, Copy, PartialEq, Eq)]
pub enum HubClickAction {
    /// Nothing (the row is only selected).
    NoAction,
    /// Open the viewer window in a process of its own.
    Watch,
    /// Watch and start recording.
    WatchAndRecord,
    /// Open the contact URL as a BBS.
    OpenBbs,
    /// Open the contact URL in a browser.
    OpenContact,
}

impl Default for HubClickAction {
    fn default() -> (r: HubClickAction)
        ensures
            r == HubClickAction::Watch,
    {
        HubClickAction::Watch
    }
}

/// Settings of the hub window.
#[derive(Debug, Clone)]
pub struct HubConfig {
    /// Seconds between automatic YP refreshes; 0 turns them off.
    pub refresh_sec: u32,
    /// Seconds between polls of the "watching" list; 0 turns them off.
    pub watching_poll_sec: u32,
    pub double_click: HubClickAction,
    pub middle_click: HubClickAction,
    /// The URL the pst-server button opens; empty means `http://localhost:8080/`.
    pub pst_server_url: String,
}

impl Default for HubConfig {
    fn default() -> (r: HubConfig)
        ensures
            r.refresh_sec == 60,
            r.watching_poll_sec == 5,
            r.double_click == HubClickAction::Watch,
            r.middle_click == HubClickAction::OpenBbs,
            r.pst_server_url@ == Seq::<char>::empty(),
    {
        HubConfig {
            refresh_sec: 60,
            watching_poll_sec: 5,
            double_click: HubClickAction::default(),
            middle_click: HubClickAction::OpenBbs,
            pst_server_url: String::new(),
        }
    }
}

/// One YP whose `index.txt` is fetched.
#[derive(Debug, Clone)]
pub struct YpSource {
    /// Short name shown in the UI (such as "SP").
    pub name: String,
    /// URL of the `index.txt`.
    pub url: String,
    pub namespace: String,
    /// Whether the hub shows a tab for this YP.
    pub show_tab: bool,
    /// Whether the "all" tab includes this YP.
    pub show_in_all: bool,
    /// Default text colour of rows from this YP (CSS colour, empty for the theme's).
    pub text_color: String,
    /// Default background of rows from this YP.
    pub background: String,
}

impl YpSource {
    /// A field-by-field copy.
    pub fn copy(&self) -> (r: YpSource)
        ensures
            r == *self,
    {
        YpSource {
            name: self.name.clone(),
            url: self.url.clone(),
            namespace: self.namespace.clone(),
            show_tab: self.show_tab,
            show_in_all: self.show_in_all,
            text_color: self.text_color.clone(),
            background: self.background.clone(),
        }
    }
}

/// The YPs to fetch, in order of priority (the first YP wins a duplicated
/// channel).
#[derive(Debug, Clone)]
pub struct YpConfig {
    pub sources: Vec<YpSource>,
}

impl Default for YpConfig {
    fn default() -> (r: YpConfig)
        ensures
            r.sources@.len() == 0,
    {
        YpConfig { sources: Vec::new() }
    }
}

/// The history of opened channels.
#[derive(Debug, Clone)]
pub struct HistoryConfig {
    /// Newest first, at most [`MAX_HISTORY`] entries.
    pub recent: Vec<HistoryEntry>,
}

impl Default for HistoryConfig {
    fn default() -> (r: HistoryConfig)
        ensures
            r.recent@.len() == 0,
    {
        HistoryConfig { recent: Vec::new() }
    }
}

#[derive(Debug, Clone)]
pub struct HistoryEntry {
    pub url: String,
    pub channel_name: String,
    /// UNIX seconds when last opened.
    pub last_opened_at: u64,
}

impl Default for HistoryEntry {
    fn default() -> (r: HistoryEntry)
        ensures
            r.url@ == Seq::<char>::empty(),
            r.channel_name@ == Seq::<char>::empty(),
            r.last_opened_at == 0,
    {
        HistoryEntry { url: String::new(), channel_name: String::new(), last_opened_at: 0 }
    }
}

/// How to reach the local PeerCast node.
#[derive(Debug, Clone)]
pub struct PeerCastConfig {
    pub host: String,
    pub port: u16,
    pub auth_user: Option<String>,
    pub auth_pass: Option<String>,
    pub timeout_sec: u64,
    pub recent_hosts: Vec<String>,
    /// URL of a YP `index.txt` (the single-YP setting of older configs);
    /// empty turns the YP off.
    pub yp_url: String,
}

impl Default for PeerCastConfig {
    fn default() -> (r: PeerCastConfig)
        ensures
            r.host@ == "localhost"@,
            r.port == 7144,
            r.auth_user is None,
            r.auth_pass is None,
            r.timeout_sec == 5,
            r.recent_hosts@.len() == 0,
            r.yp_url@ == Seq::<char>::empty(),
    {
        PeerCastConfig {
            host: String::from_str("localhost"),
            port: 7144,
            auth_user: None,
            auth_pass: None,
            timeout_sec: 5,
            recent_hosts: Vec::new(),
            yp_url: String::new(),
        }
    }
}

/// Settings of the BBS pane.
#[derive(Debug, Clone)]
pub struct BbsConfig {
    pub default_name: String,
    pub default_mail: String,
    pub auto_refresh_sec: u32,
    /// `"plain"` or `"html"`.
    pub display_mode: String,
    /// `"ctrl_enter"` or `"shift_enter"`.
    pub submit_key: String,
    pub notify_on_new_post: bool,
    pub autoscroll: bool,
    /// Speed of the automatic scroll, in pixels per second.
    pub autoscroll_speed: u32,
}

impl Default for BbsConfig {
    fn default() -> (r: BbsConfig)
        ensures
            r.default_name@ == Seq::<char>::empty(),
            r.default_mail@ == Seq::<char>::empty(),
            r.auto_refresh_sec == 5,
            r.display_mode@ == "plain"@,
            r.submit_key@ == "ctrl_enter"@,
            !r.notify_on_new_post,
            r.autoscroll,
            r.autoscroll_speed == 600,
    {
        BbsConfig {
            default_name: String::new(),
            default_mail: String::new(),
            auto_refresh_sec: 5,
            display_mode: String::from_str("plain"),
            submit_key: String::from_str("ctrl_enter"),
            notify_on_new_post: false,
            autoscroll: true,
            autoscroll_speed: 600,
        }
    }
}

/// Settings of the player.
#[derive(Debug, Clone)]
pub struct PlayerConfig {
    pub volume: u8,
    pub aspect_mode: String,
    /// Empty means `snapshot/` beside the executable.
    pub snapshot_dir: String,
    pub snapshot_format: String,
    pub snapshot_jpeg_quality: u8,
    /// Empty means `recordings/` beside the executable.
    pub recording_dir: String,
    /// Empty lets the player pick the extension from the input format.
    pub recording_ext: String,
    pub auto_reconnect: bool,
}

impl Default for PlayerConfig {
    fn default() -> (r: PlayerConfig)
        ensures
            r.volume == 80,
            r.aspect_mode@ == "auto"@,
            r.snapshot_dir@ == Seq::<char>::empty(),
            r.snapshot_format@ == "png"@,
            r.snapshot_jpeg_quality == 95,
            r.recording_dir@ == Seq::<char>::empty(),
            r.recording_ext@ == Seq::<char>::empty(),
            !r.auto_reconnect,
    {
        PlayerConfig {
            volume: 80,
            aspect_mode: String::from_str("auto"),
            snapshot_dir: String::new(),
            snapshot_format: String::from_str("png"),
            snapshot_jpeg_quality: 95,
            recording_dir: String::new(),
            recording_ext: String::new(),
            auto_reconnect: false,
        }
    }
}

/// Which parts of the viewer window are shown.
#[derive(Debug, Clone, Copy)]
pub struct DisplayConfig {
    pub show_titlebar: bool,
    pub show_frame: bool,
    pub show_statusbar: bool,
    pub show_bbs_pane: bool,
    pub show_bbs_writebox: bool,
    pub titlebar_size_indicator: bool,
    pub titlebar_source_size: bool,
    pub status_fps: bool,
    pub status_size: bool,
    pub status_uptime_dynamic: bool,
    pub status_prefer_play_info: bool,
    pub bbs_refresh_counter: bool,
}

impl Default for DisplayConfig {
    fn default() -> (r: DisplayConfig)
        ensures
            r.show_titlebar && r.show_frame && r.show_statusbar && r.show_bbs_pane,
            r.show_bbs_writebox && r.titlebar_size_indicator,
            !r.titlebar_source_size,
            r.status_fps,
            !r.status_size,
            r.status_uptime_dynamic && r.status_prefer_play_info && r.bbs_refresh_counter,
    {
        DisplayConfig {
            show_titlebar: true,
            show_frame: true,
            show_statusbar: true,
            show_bbs_pane: true,
            show_bbs_writebox: true,
            titlebar_size_indicator: true,
            titlebar_source_size: false,
            status_fps: true,
            status_size: false,
            status_uptime_dynamic: true,
            status_prefer_play_info: true,
            bbs_refresh_counter: true,
        }
    }
}

/// The single source that an older config's `peercast.yp_url` stands for.
pub open spec fn legacy_source_is(s: YpSource, url: Seq<char>) -> bool {
    &&& s.name@ == "YP"@
    &&& s.url@ == url
    &&& s.namespace@ == Seq::<char>::empty()
    &&& s.show_tab
    &&& s.show_in_all
    &&& s.text_color@ == Seq::<char>::empty()
    &&& s.background@ == Seq::<char>::empty()
}

/// The YPs that are actually fetched: the configured sources when there
/// are any; otherwise the trimmed legacy `yp_url` as one source named
/// `"YP"`, or nothing when that is blank.
pub fn effective_yp_sources(yp: &YpConfig, peercast: &PeerCastConfig) -> (r: Vec<YpSource>)
    ensures
        yp.sources@.len() > 0 ==> r@ == yp.sources@,
        yp.sources@.len() == 0 && trim(peercast.yp_url@).len() == 0 ==> r@.len() == 0,
        yp.sources@.len() == 0 && trim(peercast.yp_url@).len() > 0 ==> r@.len() == 1
            && legacy_source_is(r@[0], trim(peercast.yp_url@)),
{
    if yp.sources.len() > 0 {
        let mut out: Vec<YpSource> = Vec::new();
        let mut i: usize = 0;
        while i < yp.sources.len()
            invariant
                i <= yp.sources@.len(),
                out@ == yp.sources@.take(i as int),
            decreases yp.sources@.len() - i,
        {
            out.push(yp.sources[i].copy());
            assert(yp.sources@.take(i + 1) == yp.sources@.take(i as int).push(yp.sources@[i as int]));
            i += 1;
        }
        assert(yp.sources@.take(yp.sources@.len() as int) == yp.sources@);
        return out;
    }
    let legacy = trim_exec(chars_of(peercast.yp_url.as_str()).as_slice());
    if legacy.len() == 0 {
        return Vec::new();
    }
    let s = YpSource {
        name: String::from_str("YP"),
        url: string_of(legacy.as_slice()),
        namespace: String::new(),
        show_tab: true,
        show_in_all: true,
        text_color: String::new(),
        background: String::new(),
    };
    let mut out: Vec<YpSource> = Vec::new();
    out.push(s);
    out
}

} // verus!
