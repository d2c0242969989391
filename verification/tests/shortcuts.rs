use way_shell::shortcuts::context::{Context, Session};
use way_shell::shortcuts::discovery::{
    expand_home_path, join_path, niri_path, path_is_absolute, process_context, ProcessContext,
};
use way_shell::shortcuts::rows::{
    assemble, binding_description, file_name, section_name, shell_words, spawn_command, RowEntry,
};
use way_shell::shortcuts::status::{
    reconcile, CacheAction, Invalidation, Refresher, Status,
};

fn strings(items: &[&str]) -> Vec<String> {
    items.iter().map(|s| s.to_string()).collect()
}

fn home_context(home: &str) -> Context {
    let mut c = Context::new();
    c.home = Some(home.into());
    c
}

#[test]
fn precedence_and_relative_startup_paths() {
    let ambient = home_context("/home/test");
    let process = ProcessContext {
        args: strings(&["niri", "--config", "custom.kdl"]),
        cwd: Some("/work".into()),
        environment_available: true,
        environment: vec![("NIRI_CONFIG".into(), "/ignored".into())],
    };
    let none: Vec<String> = Vec::new();
    assert_eq!(
        niri_path("", Some(&process), &ambient, &none).path,
        Some("/work/custom.kdl".into())
    );
    assert_eq!(
        niri_path("~/explicit", Some(&process), &ambient, &none).path,
        Some("/home/test/explicit".into())
    );
    assert!(niri_path("relative", Some(&process), &ambient, &none)
        .path
        .is_none());
    let mut partial = process.clone();
    partial.environment_available = false;
    let result = niri_path("", Some(&partial), &ambient, &none);
    assert_eq!(result.path, Some("/work/custom.kdl".into()));
    assert_eq!(result.context.session, Session::Unknown);
    let mut process = process;
    process.args = strings(&["niri"]);
    assert_eq!(
        niri_path("", Some(&process), &ambient, &none).path,
        Some("/ignored".into())
    );
    let result = niri_path("", None, &ambient, &none);
    assert!(!result.diagnostics.is_empty());
    assert_eq!(result.context.session, Session::Unknown);
}

#[test]
fn user_configuration_falls_back_to_the_system_file() {
    let ambient = home_context("/home/u");
    let none: Vec<String> = Vec::new();
    let user = niri_path("", None, &ambient, &none);
    assert_eq!(user.path.as_deref(), Some("/home/u/.config/niri/config.kdl"));
    assert_eq!(
        user.dependencies,
        strings(&["/home/u/.config/niri/config.kdl", "/etc/niri/config.kdl"])
    );
    let only_system = strings(&["/etc/niri/config.kdl"]);
    assert_eq!(
        niri_path("", None, &ambient, &only_system).path.as_deref(),
        Some("/etc/niri/config.kdl")
    );
    let both = strings(&["/etc/niri/config.kdl", "/home/u/.config/niri/config.kdl"]);
    assert_eq!(
        niri_path("", None, &ambient, &both).path.as_deref(),
        Some("/home/u/.config/niri/config.kdl")
    );
    assert_eq!(
        niri_path("", None, &Context::new(), &none).path.as_deref(),
        Some("/etc/niri/config.kdl")
    );
}

#[test]
fn startup_metadata_sets_session_and_variables() {
    let ambient = home_context("/home/a");
    let process = ProcessContext {
        args: strings(&["niri", "-c/etc/custom.kdl"]),
        cwd: None,
        environment_available: true,
        environment: vec![
            ("WAYLAND_DISPLAY".into(), "wayland-1".into()),
            ("HOME".into(), "/home/b".into()),
            ("XDG_CONFIG_HOME".into(), "/xdg".into()),
        ],
    };
    let none: Vec<String> = Vec::new();
    let result = niri_path("", Some(&process), &ambient, &none);
    assert_eq!(result.path.as_deref(), Some("/etc/custom.kdl"));
    assert_eq!(result.context.session, Session::Nested);
    assert_eq!(result.context.home.as_deref(), Some("/home/b"));
    assert!(result.diagnostics.is_empty());
    let mut desktop = process.clone();
    desktop.args = strings(&["niri"]);
    desktop.environment = vec![("XDG_CONFIG_HOME".into(), "/xdg".into())];
    let result = niri_path("", Some(&desktop), &ambient, &none);
    assert_eq!(result.context.session, Session::Desktop);
    assert_eq!(result.path.as_deref(), Some("/xdg/niri/config.kdl"));
    let mut no_cwd = desktop.clone();
    no_cwd.args = strings(&["niri", "--config=rel.kdl"]);
    let result = niri_path("", Some(&no_cwd), &ambient, &none);
    assert!(result.path.is_none());
    assert_eq!(result.diagnostics.len(), 1);
}

#[test]
fn paths_join_and_expand_like_unix_paths() {
    assert!(path_is_absolute("/a"));
    assert!(!path_is_absolute("a/b"));
    assert_eq!(join_path("/a", "b"), "/a/b");
    assert_eq!(join_path("/a/", "b"), "/a/b");
    assert_eq!(join_path("/a", "/c"), "/c");
    assert_eq!(expand_home_path("~/x", &Some("/h".into())), "/h/x");
    assert_eq!(expand_home_path("~x", &Some("/h".into())), "~x");
    assert_eq!(expand_home_path("~/x", &None), "~/x");
}

#[test]
fn stale_only_for_the_same_source_and_recovers() {
    let path = "/config";
    let mut cache: Option<String> = None;
    let mut apply = |path: Option<&str>, complete: bool, cache: &mut Option<String>| {
        let r = reconcile(path, true, complete, cache.as_deref());
        match r.cache {
            CacheAction::Store => *cache = path.map(String::from),
            CacheAction::Clear => *cache = None,
            CacheAction::Keep => {}
        }
        r
    };
    assert_eq!(apply(Some(path), true, &mut cache).status, Status::Current);
    let stale = apply(Some(path), false, &mut cache);
    assert_eq!(stale.status, Status::Stale);
    assert!(stale.show_previous);
    assert_eq!(apply(Some(path), true, &mut cache).status, Status::Current);
    let changed = apply(Some("/other"), false, &mut cache);
    assert_eq!(changed.status, Status::Incomplete);
    assert!(!changed.show_previous);
    assert!(cache.is_none());
}

#[test]
fn unreadable_roots_are_unavailable_unless_remembered() {
    let r = reconcile(Some("/c"), false, false, None);
    assert_eq!(r.status, Status::Unavailable);
    assert_eq!(r.cache, CacheAction::Keep);
    let r = reconcile(Some("/c"), false, false, Some("/c"));
    assert_eq!(r.status, Status::Stale);
    let r = reconcile(None, true, true, Some("/c"));
    assert_eq!(r.status, Status::Current);
    assert_eq!(r.cache, CacheAction::Clear);
}

#[test]
fn shell_commands_must_be_static_and_in_the_catalog() {
    for text in [
        "'/opt/bin/way-sh' workspace-app-switcher toggle",
        "env X=1 way-sh workspace-app-switcher toggle",
        "sh -c 'way-sh workspace-app-switcher toggle'",
    ] {
        assert_eq!(
            spawn_command(&shell_words(text).unwrap(), 0),
            Some(strings(&["workspace-app-switcher", "toggle"]))
        );
    }
    for text in [
        "sh -c 'way-sh activities toggle; malicious'",
        "foot",
        "swaylock",
        "grim",
        "wpctl set-volume 1 1",
    ] {
        assert!(spawn_command(&shell_words(text).unwrap(), 0).is_none(), "{text}");
    }
    for text in [
        "$(way-sh activities toggle)",
        "way-sh activities toggle && echo x",
        "way-sh $action toggle",
    ] {
        assert!(shell_words(text).is_none());
    }
}

#[test]
fn shell_words_split_quotes_through_shlex() {
    assert_eq!(
        shell_words("a 'b c' \"d\\\"e\""),
        Some(strings(&["a", "b c", "d\"e"]))
    );
    assert_eq!(shell_words("'unterminated"), None);
    assert_eq!(shell_words("x > y"), None);
    assert_eq!(shell_words("'$HOME'"), Some(strings(&["$HOME"])));
    assert_eq!(shell_words(""), Some(Vec::new()));
}

#[test]
fn spawn_commands_unwrap_env_and_shells() {
    let args = strings(&["env", "A=1", "B=2", "--", "/usr/bin/way-sh", "panel"]);
    assert_eq!(spawn_command(&args, 0), Some(strings(&["panel"])));
    let args = strings(&["bash", "-lc", "way-sh a b"]);
    assert_eq!(spawn_command(&args, 0), Some(strings(&["a", "b"])));
    let args = strings(&["sh", "-x", "way-sh a"]);
    assert_eq!(spawn_command(&args, 0), None);
    assert_eq!(spawn_command(&strings(&["way-sh"]), 4), Some(Vec::new()));
    assert_eq!(spawn_command(&strings(&["way-sh"]), 5), None);
    assert_eq!(spawn_command(&Vec::new(), 0), None);
}

#[test]
fn file_names_follow_path_components() {
    assert_eq!(file_name("/usr/bin/way-sh").as_deref(), Some("way-sh"));
    assert_eq!(file_name("way-sh/").as_deref(), Some("way-sh"));
    assert_eq!(file_name("/a/b/.").as_deref(), Some("b"));
    assert_eq!(file_name("/a/.."), None);
    assert_eq!(file_name("/"), None);
    assert_eq!(file_name(""), None);
}

fn entry(section: &str, description: &str, identity: &str, key: &str, detail: &str) -> RowEntry {
    RowEntry {
        section: section.into(),
        description: description.into(),
        identity: identity.into(),
        key: key.into(),
        detail: detail.into(),
    }
}

#[test]
fn rows_gather_keys_and_sort_by_section() {
    let entries = vec![
        entry("Session and compositor", "Lock", "lock", "Mod+L", "a:1"),
        entry("Way-Shell", "Launcher", "launch", "Mod+D", "a:2"),
        entry("Custom", "Other", "x", "Mod+X", "a:3"),
        entry("Way-Shell", "Launcher", "launch", "Mod+Space", "a:4"),
        entry("Way-Shell", "Launcher", "launch", "Mod+D", "a:5"),
        entry("Way-Shell", "Panel", "panel", "Mod+P", "a:6"),
        entry("Aardvark", "First", "y", "Mod+Y", "a:7"),
    ];
    let rows = assemble(&entries);
    let order: Vec<(&str, &str)> = rows
        .iter()
        .map(|r| (r.section.as_str(), r.description.as_str()))
        .collect();
    assert_eq!(
        order,
        [
            ("Way-Shell", "Launcher"),
            ("Way-Shell", "Panel"),
            ("Session and compositor", "Lock"),
            ("Aardvark", "First"),
            ("Custom", "Other"),
        ]
    );
    assert_eq!(rows[0].keys, strings(&["Mod+D", "Mod+Space"]));
    assert_eq!(rows[0].details, strings(&["a:2", "a:4", "a:5"]));
    assert_eq!(rows[0].identity(), "launch");
}

#[test]
fn sections_and_descriptions_are_composed() {
    assert_eq!(section_name("default", "Windows and layout"), "Windows and layout");
    assert_eq!(section_name("resize", "Windows and layout"), "Mode: resize");
    assert_eq!(
        binding_description(None, &strings(&["Focus left", "Move"]), &strings(&["locked", "repeat"])),
        "Focus left; Move (locked, repeat)"
    );
    assert_eq!(
        binding_description(Some("Custom"), &strings(&["ignored"]), &Vec::new()),
        "Custom"
    );
    assert_eq!(binding_description(None, &Vec::new(), &Vec::new()), "");
}

#[test]
fn refresher_shows_only_results_of_the_current_generation() {
    let mut r = Refresher::new();
    assert_eq!(r.refresh(), None);
    assert_eq!(r.set_visible(true), Some(0));
    assert_eq!(r.invalidate(false), Invalidation::Wait);
    assert_eq!(r.finished(0), (false, Some(1)));
    assert_eq!(r.finished(1), (true, None));
    assert_eq!(r.invalidate(true), Invalidation::Debounce);
    assert_eq!(r.timer_fired(), Some(2));
    assert_eq!(r.finished(2), (true, None));
    r.set_visible(false);
    assert_eq!(r.invalidate(false), Invalidation::Wait);
    assert_eq!(r.set_visible(true), Some(3));
    r.stop();
    assert!(r.stopped);
    assert_eq!(r.finished(3), (false, None));
    assert_eq!(r.invalidate(false), Invalidation::Wait);
}

#[test]
fn proc_entries_give_arguments_and_relevant_variables() {
    let cmdline = b"niri\0--config\0\0c\xffg.kdl\0";
    let environ = b"HOME=/home/p\0PATH=/bin\0NIRI_CONFIG=/a=b\0DISPLAY\0WAYLAND_DISPLAY=\0XDG_CONFIG_HOME=\xff\0HOME=/home/q";
    let p = process_context(Some(cmdline), Some(environ), Some("/work".into())).unwrap();
    assert_eq!(p.args, strings(&["niri", "--config", "c\u{fffd}g.kdl"]));
    assert_eq!(
        p.environment,
        vec![
            ("HOME".to_string(), "/home/p".to_string()),
            ("NIRI_CONFIG".to_string(), "/a=b".to_string()),
            ("WAYLAND_DISPLAY".to_string(), String::new()),
            ("HOME".to_string(), "/home/q".to_string()),
        ]
    );
    assert!(p.environment_available);
    assert_eq!(p.cwd.as_deref(), Some("/work"));
    let only_args = process_context(Some(b"niri"), None, None).unwrap();
    assert_eq!(only_args.args, strings(&["niri"]));
    assert!(only_args.environment.is_empty());
    assert!(!only_args.environment_available);
    let only_env = process_context(None, Some(b""), None).unwrap();
    assert!(only_env.args.is_empty() && only_env.environment_available);
    assert!(process_context(None, None, Some("/x".into())).is_none());
    // The later HOME wins when the context is merged.
    let ambient = home_context("/home/a");
    let result = niri_path("", Some(&p), &ambient, &Vec::new());
    assert_eq!(result.context.home.as_deref(), Some("/home/q"));
    assert_eq!(result.context.session, Session::Desktop);
}
