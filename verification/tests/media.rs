use way_shell::media::{
    is_player_name, parse_metadata, parse_player, MediaAction, Metadata, PlaybackStatus,
};
use way_shell::variant::{Ty, Value};

fn s(text: &str) -> Value {
    Value::Str(text.into())
}

fn dict(entries: Vec<(&str, Value)>) -> Value {
    Value::Dict(entries.into_iter().map(|(k, v)| (k.to_string(), v)).collect())
}

#[test]
fn metadata_is_replaced_and_types_are_checked() {
    let complete = dict(vec![
        ("xesam:title", s("Title")),
        ("xesam:album", s("Album")),
        ("mpris:artUrl", s("file:///cover.png")),
        ("xesam:artist", Value::Array(Ty::Str, vec![s("One"), s("Two")])),
    ]);
    let parsed = parse_metadata(Some(&complete));
    assert_eq!(parsed.title.as_deref(), Some("Title"));
    assert_eq!(parsed.artist().as_deref(), Some("One, Two"));
    let wrong = dict(vec![
        ("xesam:title", Value::Int32(42)),
        ("xesam:album", Value::Array(Ty::Str, vec![s("Album")])),
        ("mpris:artUrl", Value::Bool(false)),
        ("xesam:artist", s("One")),
    ]);
    assert_eq!(parse_metadata(Some(&wrong)), Metadata::new());
    assert_eq!(parse_metadata(None), Metadata::new());
    assert_eq!(parse_metadata(Some(&s("bad"))), Metadata::new());
    assert_eq!(parse_metadata(Some(&dict(vec![]))), Metadata::new());
    assert_eq!(PlaybackStatus::default(), PlaybackStatus::Unknown);
}

#[test]
fn only_mpris_player_names_are_discovered() {
    assert!(is_player_name("org.mpris.MediaPlayer2.player"));
    assert!(is_player_name("org.mpris.MediaPlayer2.player.instance1"));
    assert!(!is_player_name("org.mpris.MediaPlayer2"));
    assert!(!is_player_name("org.mpris.MediaPlayer2."));
    assert!(!is_player_name("org.mpris.MediaPlayer2Impostor"));
}

#[test]
fn artists_join_with_commas_and_none_gives_no_artist() {
    let mut m = Metadata::new();
    assert_eq!(m.artist(), None);
    m.artists = vec!["Solo".into()];
    assert_eq!(m.artist().as_deref(), Some("Solo"));
    m.artists = vec!["A".into(), "".into(), "C".into()];
    assert_eq!(m.artist().as_deref(), Some("A, , C"));
}

#[test]
fn object_paths_count_as_text_and_later_entries_win() {
    let value = dict(vec![
        ("xesam:title", s("Old")),
        ("mpris:artUrl", Value::ObjectPath("/art".into())),
        ("xesam:title", s("New")),
    ]);
    let parsed = parse_metadata(Some(&value));
    assert_eq!(parsed.title.as_deref(), Some("New"));
    assert_eq!(parsed.art_url.as_deref(), Some("/art"));
    assert!(parsed.artists.is_empty());
}

#[test]
fn playback_status_round_trips_its_names() {
    for status in [
        PlaybackStatus::Playing,
        PlaybackStatus::Paused,
        PlaybackStatus::Stopped,
        PlaybackStatus::Unknown,
    ] {
        assert_eq!(PlaybackStatus::from_text(Some(status.as_str())), status);
    }
    assert_eq!(PlaybackStatus::from_text(Some("playing")), PlaybackStatus::Unknown);
    assert_eq!(PlaybackStatus::from_text(None), PlaybackStatus::Unknown);
}

#[test]
fn players_read_their_cached_properties() {
    let root = vec![
        ("Identity".to_string(), s("Music")),
        ("CanRaise".to_string(), Value::Bool(true)),
    ];
    let player = vec![
        ("PlaybackStatus".to_string(), s("Paused")),
        ("CanPlay".to_string(), Value::Bool(true)),
        ("CanPause".to_string(), s("yes")),
        ("Metadata".to_string(), dict(vec![("xesam:title", s("Song"))])),
    ];
    let p = parse_player("org.mpris.MediaPlayer2.music", ":1.5", &root, &player);
    assert_eq!(p.name, "org.mpris.MediaPlayer2.music");
    assert_eq!(p.owner, ":1.5");
    assert_eq!(p.identity.as_deref(), Some("Music"));
    assert_eq!(p.playback_status, PlaybackStatus::Paused);
    assert_eq!(p.metadata.title.as_deref(), Some("Song"));
    assert!(p.capabilities.can_play && p.capabilities.can_raise);
    assert!(!p.capabilities.can_pause && !p.capabilities.can_control);
}

#[test]
fn commands_name_their_methods() {
    assert_eq!(MediaAction::PlayPause.method(), "PlayPause");
    assert_eq!(MediaAction::Previous.method(), "Previous");
    assert!(MediaAction::Raise.on_root());
    assert!(!MediaAction::Next.on_root());
}
