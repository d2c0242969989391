//! MPRIS players: bus names, cached properties, metadata and commands.
use crate::text::{append, chars_of, starts_with, str_eq, string_of};
use crate::variant::{children, dict_get, get_bool, get_string, lookup, value_string, Value};
use vstd::prelude::*;

verus! {

/// The playback state a player reports.
#[derive(Clone, Copy, Debug, PartialEq, Eq, Structural)]
pub enum PlaybackStatus {
    Playing,
    Paused,
    Stopped,
    Unknown,
}

/// The MPRIS name of a playback state.
pub open spec fn status_text(s: PlaybackStatus) -> Seq<char> {
    match s {
        PlaybackStatus::Playing => "Playing"@,
        PlaybackStatus::Paused => "Paused"@,
        PlaybackStatus::Stopped => "Stopped"@,
        PlaybackStatus::Unknown => "Unknown"@,
    }
}

/// The playback state an MPRIS `PlaybackStatus` text names; anything else is unknown.
pub open spec fn status_of(t: Option<Seq<char>>) -> PlaybackStatus {
    match t {
        Some(s) => if s == "Playing"@ {
            PlaybackStatus::Playing
        } else if s == "Paused"@ {
            PlaybackStatus::Paused
        } else if s == "Stopped"@ {
            PlaybackStatus::Stopped
        } else {
            PlaybackStatus::Unknown
        },
        None => PlaybackStatus::Unknown,
    }
}

impl PlaybackStatus {
    /// The MPRIS name of this state.
    pub fn as_str(&self) -> (r: &'static str)
        ensures
            r@ == status_text(*self),
    {
        match self {
            PlaybackStatus::Playing => "Playing",
            PlaybackStatus::Paused => "Paused",
            PlaybackStatus::Stopped => "Stopped",
            PlaybackStatus::Unknown => "Unknown",
        }
    }

    /// The state a `PlaybackStatus` text names.
    pub fn from_text(t: Option<&str>) -> (r: PlaybackStatus)
        ensures
            r == status_of(
                match t {
                    Some(s) => Some(s@),
                    None => None,
                },
            ),
    {
        match t {
            Some(s) => if str_eq(s, "Playing") {
                PlaybackStatus::Playing
            } else if str_eq(s, "Paused") {
                PlaybackStatus::Paused
            } else if str_eq(s, "Stopped") {
                PlaybackStatus::Stopped
            } else {
                PlaybackStatus::Unknown
            },
            None => PlaybackStatus::Unknown,
        }
    }
}

/// Reading a state's MPRIS name back gives the state.
pub proof fn lemma_status_roundtrip(s: PlaybackStatus)
    ensures
        status_of(Some(status_text(s))) == s,
{
    reveal_strlit("Playing");
    reveal_strlit("Paused");
    reveal_strlit("Stopped");
    reveal_strlit("Unknown");
    assert("Paused"@[1] != "Playing"@[1]);
    assert("Stopped"@[0] != "Playing"@[0] && "Stopped"@[0] != "Paused"@[0]);
    assert("Unknown"@[0] != "Playing"@[0] && "Unknown"@[0] != "Paused"@[0] && "Unknown"@[0] != "Stopped"@[0]);
}

impl Default for PlaybackStatus {
    fn default() -> (r: PlaybackStatus)
        ensures
            r == PlaybackStatus::Unknown,
    {
        PlaybackStatus::Unknown
    }
}

/// The track a player shows.
#[derive(Clone, Debug, PartialEq, Eq)]
pub struct Metadata {
    pub title: Option<String>,
    pub album: Option<String>,
    pub art_url: Option<String>,
    pub artists: Vec<String>,
}

/// The texts of a list of strings joined by `", "`.
pub open spec fn joined(s: Seq<String>) -> Seq<char>
    decreases s.len(),
{
    if s.len() == 0 {
        Seq::empty()
    } else if s.len() == 1 {
        s[0]@
    } else {
        joined(s.drop_last()) + ", "@ + s.last()@
    }
}

impl Metadata {
    /// Metadata with nothing known.
    pub fn new() -> (r: Metadata)
        ensures
            r.title is None && r.album is None && r.art_url is None && r.artists@.len() == 0,
    {
        Metadata { title: None, album: None, art_url: None, artists: Vec::new() }
    }

    /// The artists joined by `", "`, or `None` when there are none.
    pub fn artist(&self) -> (r: Option<String>)
        ensures
            self.artists@.len() == 0 ==> r is None,
            self.artists@.len() > 0 ==> (r matches Some(a) && a@ == joined(self.artists@)),
    {
        if self.artists.len() == 0 {
            return None;
        }
        let mut s = String::new();
        let mut i: usize = 0;
        while i < self.artists.len()
            invariant
                i <= self.artists@.len(),
                s@ == joined(self.artists@.take(i as int)),
            decreases self.artists@.len() - i,
        {
            let ghost t = self.artists@.take(i + 1);
            assert(t.drop_last() =~= self.artists@.take(i as int));
            if i > 0 {
                append(&mut s, ", ");
            } else {
                assert(self.artists@.take(0) =~= Seq::<String>::empty());
            }
            append(&mut s, self.artists[i].as_str());
            proof {
                if i == 0 {
                    assert(s@ =~= t[0]@);
                }
            }
            i += 1;
        }
        assert(self.artists@.take(i as int) =~= self.artists@);
        Some(s)
    }
}

/// What a player lets the shell do.
#[derive(Clone, Copy, Debug, PartialEq, Eq, Structural)]
pub struct Capabilities {
    pub can_control: bool,
    pub can_play: bool,
    pub can_pause: bool,
    pub can_go_next: bool,
    pub can_go_previous: bool,
    pub can_raise: bool,
}

/// A player on the session bus.
#[derive(Clone, Debug, PartialEq, Eq)]
pub struct MediaPlayer {
    /// The well-known MPRIS bus name used by existing keybindings and widgets.
    pub name: String,
    /// The unique owner distinguishes replacements of the same player name.
    pub owner: String,
    pub identity: Option<String>,
    pub playback_status: PlaybackStatus,
    pub metadata: Metadata,
    pub capabilities: Capabilities,
}

/// The players the shell knows.
#[derive(Clone, Debug, PartialEq, Eq)]
pub struct MediaState {
    pub available: bool,
    pub players: Vec<MediaPlayer>,
}

/// A command for a player.
#[derive(Clone, Copy, Debug, PartialEq, Eq, Structural)]
pub enum MediaAction {
    Play,
    Pause,
    PlayPause,
    Stop,
    Next,
    Previous,
    Raise,
}

/// The D-Bus method a command calls.
pub open spec fn method_name(a: MediaAction) -> Seq<char> {
    match a {
        MediaAction::Play => "Play"@,
        MediaAction::Pause => "Pause"@,
        MediaAction::PlayPause => "PlayPause"@,
        MediaAction::Stop => "Stop"@,
        MediaAction::Next => "Next"@,
        MediaAction::Previous => "Previous"@,
        MediaAction::Raise => "Raise"@,
    }
}

/// Each command calls the MPRIS method of its own name, and no two commands call the
/// same method.
pub proof fn lemma_media_methods_named(a: MediaAction, b: MediaAction)
    ensures
        a == MediaAction::Play ==> method_name(a) == "Play"@,
        a == MediaAction::Pause ==> method_name(a) == "Pause"@,
        a == MediaAction::PlayPause ==> method_name(a) == "PlayPause"@,
        a == MediaAction::Stop ==> method_name(a) == "Stop"@,
        a == MediaAction::Next ==> method_name(a) == "Next"@,
        a == MediaAction::Previous ==> method_name(a) == "Previous"@,
        a == MediaAction::Raise ==> method_name(a) == "Raise"@,
        method_name(a) == method_name(b) ==> a == b,
{
    reveal_strlit("Play");
    reveal_strlit("Pause");
    reveal_strlit("PlayPause");
    reveal_strlit("Stop");
    reveal_strlit("Next");
    reveal_strlit("Previous");
    reveal_strlit("Raise");
    if method_name(a) == method_name(b) {
        assert(method_name(a)[0] == method_name(b)[0]);
        assert(method_name(a).len() == method_name(b).len());
        if method_name(a).len() >= 2 {
            assert(method_name(a)[1] == method_name(b)[1]);
        }
    }
}

impl MediaAction {
    /// The D-Bus method this command calls.
    pub fn method(self) -> (r: &'static str)
        ensures
            r@ == method_name(self),
    {
        match self {
            MediaAction::Play => "Play",
            MediaAction::Pause => "Pause",
            MediaAction::PlayPause => "PlayPause",
            MediaAction::Stop => "Stop",
            MediaAction::Next => "Next",
            MediaAction::Previous => "Previous",
            MediaAction::Raise => "Raise",
        }
    }

    /// Whether the command goes to the root interface (`Raise`) rather than the player one.
    pub fn on_root(self) -> (r: bool)
        ensures
            r == (self == MediaAction::Raise),
    {
        match self {
            MediaAction::Raise => true,
            _ => false,
        }
    }
}

/// The bus-name prefix of MPRIS players.
pub open spec fn mpris_prefix() -> Seq<char> {
    "org.mpris.MediaPlayer2."@
}

/// Whether a bus name is an MPRIS player: the prefix followed by a nonempty suffix.
pub open spec fn player_name(n: Seq<char>) -> bool {
    n.len() > mpris_prefix().len() && mpris_prefix().is_prefix_of(n)
}

/// Whether `name` is the bus name of an MPRIS player.
pub fn is_player_name(name: &str) -> (r: bool)
    ensures
        r == player_name(name@),
{
    let n = chars_of(name);
    let p = chars_of("org.mpris.MediaPlayer2.");
    starts_with(n.as_slice(), p.as_slice()) && n.len() > p.len()
}

/// A proxy's cached properties: each name with its value.
pub type PropertyCache = Vec<(String, Value)>;

/// A string entry of a dictionary.
pub open spec fn text_entry(entries: Seq<(String, Value)>, key: Seq<char>) -> Option<Seq<char>> {
    match lookup(entries, key) {
        Some(v) => get_string(v),
        None => None,
    }
}

/// A boolean property, false when missing or mistyped.
pub open spec fn flag_entry(entries: Seq<(String, Value)>, key: Seq<char>) -> bool {
    match lookup(entries, key) {
        Some(v) => get_bool(v) == Some(true),
        None => false,
    }
}

/// A list of strings read from a value: a container whose children are all strings.
pub open spec fn text_list(v: Value) -> Option<Seq<Seq<char>>> {
    match children(v) {
        Some(items) => if forall|i: int| 0 <= i < items.len() ==> (#[trigger] get_string(items[i])) is Some {
            Some(items.map_values(|x: Value| get_string(x)->Some_0))
        } else {
            None
        },
        None => None,
    }
}

fn text_of(entries: &Vec<(String, Value)>, key: &str) -> (r: Option<String>)
    ensures
        match r {
            Some(s) => text_entry(entries@, key@) == Some(s@),
            None => text_entry(entries@, key@) is None,
        },
{
    match dict_get(entries, key) {
        Some(v) => value_string(v),
        None => None,
    }
}

fn flag_of(entries: &Vec<(String, Value)>, key: &str) -> (r: bool)
    ensures
        r == flag_entry(entries@, key@),
{
    match dict_get(entries, key) {
        Some(Value::Bool(b)) => *b,
        _ => false,
    }
}

/// The texts of a list of strings.
pub open spec fn texts(s: Seq<String>) -> Seq<Seq<char>> {
    s.map_values(|x: String| x@)
}

fn strings_of(items: &Vec<Value>) -> (r: Option<Vec<String>>)
    ensures
        match r {
            Some(v) => (forall|i: int| 0 <= i < items@.len() ==> (#[trigger] get_string(items@[i])) is Some)
                && texts(v@) == items@.map_values(|x: Value| get_string(x)->Some_0),
            None => !(forall|i: int| 0 <= i < items@.len() ==> (#[trigger] get_string(items@[i])) is Some),
        },
{
    let mut out: Vec<String> = Vec::new();
    let mut i: usize = 0;
    while i < items.len()
        invariant
            i <= items@.len(),
            forall|k: int| 0 <= k < i ==> (#[trigger] get_string(items@[k])) is Some,
            texts(out@) =~= items@.take(i as int).map_values(|x: Value| get_string(x)->Some_0),
        decreases items@.len() - i,
    {
        match value_string(&items[i]) {
            Some(s) => {
                let ghost before = out@;
                out.push(s);
                assert(texts(out@) =~= texts(before).push(s@));
                assert(items@.take(i + 1) =~= items@.take(i as int).push(items@[i as int]));
            },
            None => return None,
        }
        i += 1;
    }
    assert(items@.take(i as int) =~= items@);
    Some(out)
}

fn list_of(v: &Value) -> (r: Option<Vec<String>>)
    ensures
        match r {
            Some(l) => text_list(*v) == Some(texts(l@)),
            None => text_list(*v) is None,
        },
{
    match v {
        Value::Array(_, xs) => strings_of(xs),
        Value::Tuple(xs) => strings_of(xs),
        Value::Variant(b) => {
            match value_string(b) {
                Some(s) => {
                    let mut out: Vec<String> = Vec::new();
                    out.push(s);
                    assert(seq![**b].map_values(|x: Value| get_string(x)->Some_0) =~= texts(out@));
                    assert(get_string(seq![**b][0]) is Some);
                    Some(out)
                },
                None => {
                    assert(get_string(seq![**b][0]) is None);
                    None
                },
            }
        },
        _ => None,
    }
}

/// The track metadata an MPRIS `Metadata` value describes. It must be a dictionary;
/// each field counts only with its expected type.
pub open spec fn metadata_of(v: Option<Value>) -> Option<(Option<Seq<char>>, Option<Seq<char>>, Option<Seq<char>>, Seq<Seq<char>>)> {
    match v {
        Some(Value::Dict(entries)) => Some((
            text_entry(entries@, "xesam:title"@),
            text_entry(entries@, "xesam:album"@),
            text_entry(entries@, "mpris:artUrl"@),
            match lookup(entries@, "xesam:artist"@) {
                Some(a) => match text_list(a) {
                    Some(l) => l,
                    None => Seq::empty(),
                },
                None => Seq::empty(),
            },
        )),
        _ => None,
    }
}

/// An optional text's characters.
pub open spec fn opt_text(s: Option<String>) -> Option<Seq<char>> {
    match s {
        Some(t) => Some(t@),
        None => None,
    }
}

/// Whether `m` is what the `Metadata` value `v` describes.
pub open spec fn metadata_read(m: Metadata, v: Option<Value>) -> bool {
    match metadata_of(v) {
        Some((title, album, art, artists)) => opt_text(m.title) == title && opt_text(m.album) == album
            && opt_text(m.art_url) == art && texts(m.artists@) == artists,
        None => m.title is None && m.album is None && m.art_url is None && m.artists@.len() == 0,
    }
}

/// Reads the `Metadata` property; anything but a dictionary gives empty metadata.
pub fn parse_metadata(metadata: Option<&Value>) -> (r: Metadata)
    ensures
        metadata_read(
            r,
            match metadata {
                Some(v) => Some(*v),
                None => None,
            },
        ),
{
    let entries = match metadata {
        Some(Value::Dict(entries)) => entries,
        _ => return Metadata::new(),
    };
    let artists = match dict_get(entries, "xesam:artist") {
        Some(a) => match list_of(a) {
            Some(l) => l,
            None => {
                let v: Vec<String> = Vec::new();
                assert(texts(v@) =~= Seq::<Seq<char>>::empty());
                v
            },
        },
        None => {
            let v: Vec<String> = Vec::new();
            assert(texts(v@) =~= Seq::<Seq<char>>::empty());
            v
        },
    };
    Metadata {
        title: text_of(entries, "xesam:title"),
        album: text_of(entries, "xesam:album"),
        art_url: text_of(entries, "mpris:artUrl"),
        artists,
    }
}

/// Builds a player from the cached properties of its root and player interfaces.
pub fn parse_player(name: &str, owner: &str, root: &PropertyCache, player: &PropertyCache) -> (r: MediaPlayer)
    ensures
        r.name@ == name@,
        r.owner@ == owner@,
        opt_text(r.identity) == text_entry(root@, "Identity"@),
        r.playback_status == status_of(text_entry(player@, "PlaybackStatus"@)),
        metadata_read(r.metadata, lookup(player@, "Metadata"@)),
        r.capabilities == (Capabilities {
            can_control: flag_entry(player@, "CanControl"@),
            can_play: flag_entry(player@, "CanPlay"@),
            can_pause: flag_entry(player@, "CanPause"@),
            can_go_next: flag_entry(player@, "CanGoNext"@),
            can_go_previous: flag_entry(player@, "CanGoPrevious"@),
            can_raise: flag_entry(root@, "CanRaise"@),
        }),
{
    let status_text = text_of(player, "PlaybackStatus");
    let playback_status = match &status_text {
        Some(s) => PlaybackStatus::from_text(Some(s.as_str())),
        None => PlaybackStatus::from_text(None),
    };
    let metadata = parse_metadata(dict_get(player, "Metadata"));
    MediaPlayer {
        name: string_of(chars_of(name).as_slice()),
        owner: string_of(chars_of(owner).as_slice()),
        identity: text_of(root, "Identity"),
        playback_status,
        metadata,
        capabilities: Capabilities {
            can_control: flag_of(player, "CanControl"),
            can_play: flag_of(player, "CanPlay"),
            can_pause: flag_of(player, "CanPause"),
            can_go_next: flag_of(player, "CanGoNext"),
            can_go_previous: flag_of(player, "CanGoPrevious"),
            can_raise: flag_of(root, "CanRaise"),
        },
    }
}

} // verus!
