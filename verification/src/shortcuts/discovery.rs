//! Only compositor startup metadata needed to locate saved configuration.
use super::context::{
    env_extend, env_get, env_map, env_remove, opt_view, Context, ContextView, Environment, Session,
};
use crate::text::{
    chars_of, concat_chars, lossy_text, starts_with, str_eq, string_of, suffix_from, utf8_lossy, utf8_text,
};
use vstd::utf8::{decode_utf8, valid_utf8};
use vstd::prelude::*;

verus! {

/// Startup metadata of the running compositor process.
#[derive(Clone, Debug)]
pub struct ProcessContext {
    pub args: Vec<String>,
    pub environment: Environment,
    pub cwd: Option<String>,
    pub environment_available: bool,
}

/// The meaning of a [`ProcessContext`].
pub struct ProcessView {
    pub args: Seq<Seq<char>>,
    pub environment: Map<Seq<char>, Seq<char>>,
    pub cwd: Option<Seq<char>>,
    pub environment_available: bool,
}

pub open spec fn strings_view(v: Seq<String>) -> Seq<Seq<char>> {
    v.map_values(|s: String| s@)
}

impl View for ProcessContext {
    type V = ProcessView;

    open spec fn view(&self) -> ProcessView {
        ProcessView {
            args: strings_view(self.args@),
            environment: env_map(self.environment@),
            cwd: opt_view(self.cwd),
            environment_available: self.environment_available,
        }
    }
}

/// The NUL-separated fields of `/proc` data, in order; data without NUL is one field.
pub open spec fn nul_fields(b: Seq<u8>) -> Seq<Seq<u8>>
    decreases b.len(),
{
    if b.len() == 0 {
        seq![Seq::empty()]
    } else {
        let prev = nul_fields(b.drop_last());
        if b.last() == 0 {
            prev.push(Seq::empty())
        } else {
            prev.update(prev.len() - 1, prev.last().push(b.last()))
        }
    }
}

proof fn lemma_nul_fields_nonempty(b: Seq<u8>)
    ensures
        nul_fields(b).len() >= 1,
    decreases b.len(),
{
    if b.len() > 0 {
        lemma_nul_fields_nonempty(b.drop_last());
    }
}

/// The command-line arguments of the nonempty fields, decoded as `from_utf8_lossy` does.
pub open spec fn arg_texts(fields: Seq<Seq<u8>>) -> Seq<Seq<char>>
    decreases fields.len(),
{
    if fields.len() == 0 {
        Seq::empty()
    } else {
        let rest = arg_texts(fields.drop_last());
        if fields.last().len() > 0 {
            rest.push(lossy_text(fields.last()))
        } else {
            rest
        }
    }
}

/// The variables that decide where the configuration is: only these are kept.
pub open spec fn relevant_variable(key: Seq<char>) -> bool {
    key == "NIRI_CONFIG"@ || key == "HOME"@ || key == "XDG_CONFIG_HOME"@ || key == "WAYLAND_DISPLAY"@
        || key == "DISPLAY"@
}

/// The position of the first `=` in `t`.
pub open spec fn first_equals(t: Seq<char>) -> Option<int> {
    if exists|i: int| 0 <= i < t.len() && #[trigger] t[i] == '=' {
        Some(choose|i: int| 0 <= i < t.len() && t[i] == '=' && forall|j: int| 0 <= j < i ==> #[trigger] t[j] != '=')
    } else {
        None
    }
}

/// A `KEY=value` field of a process environment, kept when it is UTF-8 and names a
/// relevant variable; the key ends at the first `=`.
pub open spec fn env_field(f: Seq<u8>) -> Option<(Seq<char>, Seq<char>)> {
    if valid_utf8(f) {
        let t = decode_utf8(f);
        match first_equals(t) {
            Some(i) => if relevant_variable(t.take(i)) {
                Some((t.take(i), t.skip(i + 1)))
            } else {
                None
            },
            None => None,
        }
    } else {
        None
    }
}

/// The relevant variables of the environment fields, in order.
pub open spec fn env_fields(fields: Seq<Seq<u8>>) -> Seq<(Seq<char>, Seq<char>)>
    decreases fields.len(),
{
    if fields.len() == 0 {
        Seq::empty()
    } else {
        let rest = env_fields(fields.drop_last());
        match env_field(fields.last()) {
            Some(e) => rest.push(e),
            None => rest,
        }
    }
}

/// The texts of an environment table's entries.
pub open spec fn entry_texts(e: Seq<(String, String)>) -> Seq<(Seq<char>, Seq<char>)> {
    e.map_values(|x: (String, String)| (x.0@, x.1@))
}

/// The bytes read from a file, or none when it could not be read.
pub open spec fn read_or_empty(b: Option<&[u8]>) -> Seq<u8> {
    match b {
        Some(x) => x@,
        None => Seq::empty(),
    }
}

fn nul_split(b: &[u8]) -> (r: Vec<Vec<u8>>)
    ensures
        r@.map_values(|v: Vec<u8>| v@) == nul_fields(b@),
{
    let mut pieces: Vec<Vec<u8>> = Vec::new();
    let mut current: Vec<u8> = Vec::new();
    let mut i: usize = 0;
    assert(b@.take(0) =~= Seq::<u8>::empty());
    assert(pieces@.map_values(|v: Vec<u8>| v@).push(current@) =~= nul_fields(b@.take(0)));
    while i < b.len()
        invariant
            i <= b.len(),
            pieces@.map_values(|v: Vec<u8>| v@).push(current@) == nul_fields(b@.take(i as int)),
        decreases b.len() - i,
    {
        assert(b@.take(i + 1).drop_last() =~= b@.take(i as int));
        let ghost prev = nul_fields(b@.take(i as int));
        proof {
            lemma_nul_fields_nonempty(b@.take(i as int));
        }
        if b[i] == 0 {
            let ghost before = pieces@;
            let done = current;
            let ghost dv = done@;
            pieces.push(done);
            current = Vec::new();
            assert(pieces@.map_values(|v: Vec<u8>| v@) =~= before.map_values(|v: Vec<u8>| v@).push(dv));
            assert(pieces@.map_values(|v: Vec<u8>| v@).push(current@) =~= prev.push(Seq::empty()));
        } else {
            current.push(b[i]);
            assert(pieces@.map_values(|v: Vec<u8>| v@).push(current@) =~= prev.update(prev.len() - 1, prev.last().push(b@[i as int])));
        }
        i += 1;
    }
    assert(b@.take(b.len() as int) =~= b@);
    let ghost before = pieces@;
    let ghost cv = current@;
    pieces.push(current);
    assert(pieces@.map_values(|v: Vec<u8>| v@) =~= before.map_values(|v: Vec<u8>| v@).push(cv));
    pieces
}

fn args_of(b: &[u8]) -> (r: Vec<String>)
    ensures
        strings_view(r@) == arg_texts(nul_fields(b@)),
{
    let pieces = nul_split(b);
    let ghost ps = pieces@.map_values(|v: Vec<u8>| v@);
    let mut out: Vec<String> = Vec::new();
    let mut i: usize = 0;
    assert(ps.take(0) =~= Seq::<Seq<u8>>::empty());
    while i < pieces.len()
        invariant
            i <= pieces@.len(),
            ps == pieces@.map_values(|v: Vec<u8>| v@),
            strings_view(out@) == arg_texts(ps.take(i as int)),
        decreases pieces@.len() - i,
    {
        assert(ps.take(i + 1).drop_last() =~= ps.take(i as int));
        assert(ps.take(i + 1).last() == pieces@[i as int]@);
        if pieces[i].len() > 0 {
            let t = utf8_lossy(pieces[i].as_slice());
            let ghost before = out@;
            out.push(t);
            assert(strings_view(out@) =~= strings_view(before).push(t@));
        }
        i += 1;
    }
    assert(ps.take(i as int) =~= ps);
    out
}

fn relevant(key: &str) -> (r: bool)
    ensures
        r == relevant_variable(key@),
{
    str_eq(key, "NIRI_CONFIG") || str_eq(key, "HOME") || str_eq(key, "XDG_CONFIG_HOME") || str_eq(
        key,
        "WAYLAND_DISPLAY",
    ) || str_eq(key, "DISPLAY")
}

fn equals_at(c: &Vec<char>) -> (r: Option<usize>)
    ensures
        match r {
            Some(i) => first_equals(c@) == Some(i as int) && i < c@.len(),
            None => first_equals(c@) is None,
        },
{
    let mut i: usize = 0;
    while i < c.len()
        invariant
            i <= c@.len(),
            forall|j: int| 0 <= j < i ==> #[trigger] c@[j] != '=',
        decreases c@.len() - i,
    {
        if c[i] == '=' {
            proof {
                let k = choose|k: int| 0 <= k < c@.len() && c@[k] == '=' && forall|j: int| 0 <= j < k ==> #[trigger] c@[j] != '=';
                if k < i {
                    assert(c@[k] != '=');
                }
                if k > i {
                    assert(c@[i as int] != '=');
                }
            }
            return Some(i);
        }
        i += 1;
    }
    None
}

fn env_entry_of(f: &[u8]) -> (r: Option<(String, String)>)
    ensures
        match r {
            Some((k, v)) => env_field(f@) == Some((k@, v@)),
            None => env_field(f@) is None,
        },
{
    let text = match utf8_text(f) {
        Some(t) => t,
        None => return None,
    };
    let c = chars_of(text.as_str());
    let i = match equals_at(&c) {
        Some(i) => i,
        None => return None,
    };
    let mut key_chars: Vec<char> = Vec::new();
    let mut j: usize = 0;
    while j < i
        invariant
            j <= i < c@.len(),
            key_chars@ == c@.take(j as int),
        decreases i - j,
    {
        key_chars.push(c[j]);
        assert(c@.take(j + 1) =~= c@.take(j as int).push(c@[j as int]));
        j += 1;
    }
    let key = string_of(key_chars.as_slice());
    if !relevant(key.as_str()) {
        return None;
    }
    assert(i < c.len());
    let rest = suffix_from(c.as_slice(), i + 1);
    assert(rest@ =~= c@.skip(i + 1));
    Some((key, string_of(rest.as_slice())))
}

fn environment_of(b: &[u8]) -> (r: Environment)
    ensures
        entry_texts(r@) == env_fields(nul_fields(b@)),
{
    let pieces = nul_split(b);
    let ghost ps = pieces@.map_values(|v: Vec<u8>| v@);
    let mut out: Environment = Vec::new();
    let mut i: usize = 0;
    assert(ps.take(0) =~= Seq::<Seq<u8>>::empty());
    assert(entry_texts(out@) =~= Seq::<(Seq<char>, Seq<char>)>::empty());
    while i < pieces.len()
        invariant
            i <= pieces@.len(),
            ps == pieces@.map_values(|v: Vec<u8>| v@),
            entry_texts(out@) == env_fields(ps.take(i as int)),
        decreases pieces@.len() - i,
    {
        assert(ps.take(i + 1).drop_last() =~= ps.take(i as int));
        assert(ps.take(i + 1).last() == pieces@[i as int]@);
        match env_entry_of(pieces[i].as_slice()) {
            Some((k, v)) => {
                let ghost before = out@;
                let ghost kv = (k@, v@);
                out.push((k, v));
                assert(entry_texts(out@) =~= entry_texts(before).push(kv));
            },
            None => {},
        }
        i += 1;
    }
    assert(ps.take(i as int) =~= ps);
    out
}

/// The startup metadata of a compositor process from what was read of its `/proc`
/// entry: the command line, the environment (only the variables that decide where the
/// configuration is) and the working directory. A process of which neither the command
/// line nor the environment could be read gives none.
pub fn process_context(cmdline: Option<&[u8]>, environ: Option<&[u8]>, cwd: Option<String>) -> (r: Option<ProcessContext>)
    ensures
        r is None <==> (cmdline is None && environ is None),
        r matches Some(p) ==> {
            &&& strings_view(p.args@) == arg_texts(nul_fields(read_or_empty(cmdline)))
            &&& entry_texts(p.environment@) == env_fields(nul_fields(read_or_empty(environ)))
            &&& p.environment_available == environ is Some
            &&& opt_view(p.cwd) == opt_view(cwd)
        },
{
    if cmdline.is_none() && environ.is_none() {
        return None;
    }
    let args = match cmdline {
        Some(b) => args_of(b),
        None => {
            let e: [u8; 0] = [];
            args_of(&e)
        },
    };
    let environment = match environ {
        Some(b) => environment_of(b),
        None => {
            let e: [u8; 0] = [];
            environment_of(&e)
        },
    };
    Some(ProcessContext { args, environment, cwd, environment_available: environ.is_some() })
}

/// The configuration file chosen for a compositor, with the context it is read in.
#[derive(Clone, Debug)]
pub struct Discovery {
    pub path: Option<String>,
    pub context: Context,
    pub diagnostics: Vec<String>,
    pub dependencies: Vec<String>,
}

/// The meaning of a [`Discovery`].
#[verifier::ext_equal]
pub struct DiscoveryView {
    pub path: Option<Seq<char>>,
    pub home: Option<Seq<char>>,
    pub environment: Map<Seq<char>, Seq<char>>,
    pub session: Session,
    pub diagnostics: Seq<Seq<char>>,
    pub dependencies: Seq<Seq<char>>,
}

impl View for Discovery {
    type V = DiscoveryView;

    open spec fn view(&self) -> DiscoveryView {
        DiscoveryView {
            path: opt_view(self.path),
            home: self.context@.home,
            environment: self.context@.environment,
            session: self.context@.session,
            diagnostics: strings_view(self.diagnostics@),
            dependencies: strings_view(self.dependencies@),
        }
    }
}

/// A Unix path is absolute when it starts at the root.
pub open spec fn is_absolute(p: Seq<char>) -> bool {
    p.len() > 0 && p[0] == '/'
}

/// `base` extended by `p`, as `Path::join` does on Unix: an absolute `p` replaces `base`.
pub open spec fn path_join(base: Seq<char>, p: Seq<char>) -> Seq<char> {
    if is_absolute(p) {
        p
    } else if base.len() == 0 || base.last() == '/' {
        base + p
    } else {
        base + seq!['/'] + p
    }
}

/// `~/rest` names `rest` under the home directory when one is known.
pub open spec fn expand_home(value: Seq<char>, home: Option<Seq<char>>) -> Seq<char> {
    match home {
        Some(h) => if seq!['~', '/'].is_prefix_of(value) {
            path_join(h, value.skip(2))
        } else {
            value
        },
        None => value,
    }
}

pub open spec fn unavailable_message() -> Seq<char> {
    "Compositor startup metadata is unavailable. Set niri-config-path if the discovered file is incorrect; Mod is left unresolved."@
}

pub open spec fn override_message() -> Seq<char> {
    "Configuration override must be an absolute path or start with ~/."@
}

pub open spec fn relative_message() -> Seq<char> {
    "Cannot resolve a relative Niri startup path; set niri-config-path."@
}

pub open spec fn system_config() -> Seq<char> {
    "/etc/niri/config.kdl"@
}

/// Whether `key` is set to a nonempty value.
pub open spec fn nonempty_var(env: Map<Seq<char>, Seq<char>>, key: Seq<char>) -> bool {
    env.contains_key(key) && env[key].len() > 0
}

/// The ambient context with the compositor's own variables, home and session kind.
pub open spec fn merged_context(p: ProcessView, a: ContextView) -> ContextView {
    ContextView {
        home: if p.environment.contains_key("HOME"@) {
            Some(p.environment["HOME"@])
        } else {
            a.home
        },
        environment: a.environment.remove("NIRI_CONFIG"@).remove("HOME"@).remove(
            "XDG_CONFIG_HOME"@,
        ).remove("WAYLAND_DISPLAY"@).remove("DISPLAY"@).union_prefer_right(p.environment),
        session: if nonempty_var(p.environment, "WAYLAND_DISPLAY"@) || nonempty_var(
            p.environment,
            "DISPLAY"@,
        ) {
            Session::Nested
        } else {
            Session::Desktop
        },
    }
}

/// The configuration path given on the compositor's command line, searching from `i`.
pub open spec fn startup_from(args: Seq<Seq<char>>, i: int) -> Option<Seq<char>>
    decreases args.len() - i,
{
    if i < 1 || i >= args.len() {
        None
    } else if args[i] == "--config"@ || args[i] == "-c"@ {
        Some(
            if i + 1 < args.len() {
                args[i + 1]
            } else {
                Seq::empty()
            },
        )
    } else if "--config="@.is_prefix_of(args[i]) {
        Some(args[i].skip("--config="@.len() as int))
    } else if "-c"@.is_prefix_of(args[i]) && args[i].len() > "-c"@.len() {
        Some(args[i].skip("-c"@.len() as int))
    } else {
        startup_from(args, i + 1)
    }
}

/// The path named at startup, else by a nonempty `NIRI_CONFIG`.
pub open spec fn selected_path(process: Option<ProcessView>, ctx: ContextView) -> Option<
    Seq<char>,
> {
    match process {
        Some(p) if startup_from(p.args, 1) is Some => startup_from(p.args, 1),
        _ => if nonempty_var(ctx.environment, "NIRI_CONFIG"@) {
            Some(ctx.environment["NIRI_CONFIG"@])
        } else {
            None
        },
    }
}

/// The user configuration directory: an absolute `XDG_CONFIG_HOME`, else `~/.config`.
pub open spec fn config_dir(ctx: ContextView) -> Option<Seq<char>> {
    if ctx.environment.contains_key("XDG_CONFIG_HOME"@) && is_absolute(
        ctx.environment["XDG_CONFIG_HOME"@],
    ) {
        Some(ctx.environment["XDG_CONFIG_HOME"@])
    } else {
        match ctx.home {
            Some(h) => Some(path_join(h, ".config"@)),
            None => None,
        }
    }
}

/// Where Niri's configuration is read from. `existing` lists the paths known to exist.
pub open spec fn niri_discovery(
    override_path: Seq<char>,
    process: Option<ProcessView>,
    ambient: ContextView,
    existing: Seq<Seq<char>>,
) -> DiscoveryView {
    let available = process is Some && process->0.environment_available;
    let ctx = if available {
        merged_context(process->0, ambient)
    } else {
        ambient
    };
    let diagnostics = if available {
        Seq::<Seq<char>>::empty()
    } else {
        seq![unavailable_message()]
    };
    let base = DiscoveryView {
        path: None,
        home: ctx.home,
        environment: ctx.environment,
        session: ctx.session,
        diagnostics,
        dependencies: Seq::empty(),
    };
    if override_path.len() > 0 {
        let expanded = expand_home(override_path, ambient.home);
        if is_absolute(expanded) {
            DiscoveryView { path: Some(expanded), ..base }
        } else {
            DiscoveryView { diagnostics: diagnostics.push(override_message()), ..base }
        }
    } else {
        match selected_path(process, ctx) {
            Some(selected) => if is_absolute(selected) {
                DiscoveryView { path: Some(selected), ..base }
            } else if process is Some && process->0.cwd is Some {
                DiscoveryView { path: Some(path_join(process->0.cwd->0, selected)), ..base }
            } else {
                DiscoveryView { diagnostics: diagnostics.push(relative_message()), ..base }
            },
            None => match config_dir(ctx) {
                Some(dir) => {
                    let user = path_join(dir, "niri/config.kdl"@);
                    DiscoveryView {
                        path: Some(
                            if existing.contains(user) || !existing.contains(system_config()) {
                                user
                            } else {
                                system_config()
                            },
                        ),
                        dependencies: seq![user, system_config()],
                        ..base
                    }
                },
                None => DiscoveryView { path: Some(system_config()), ..base },
            },
        }
    }
}

/// Whether a path is absolute.
pub fn path_is_absolute(p: &str) -> (r: bool)
    ensures
        r == is_absolute(p@),
{
    let c = chars_of(p);
    c.len() > 0 && c[0] == '/'
}

/// `base` joined with `p`.
pub fn join_path(base: &str, p: &str) -> (r: String)
    ensures
        r@ == path_join(base@, p@),
{
    let b = chars_of(base);
    let q = chars_of(p);
    if q.len() > 0 && q[0] == '/' {
        return string_of(q.as_slice());
    }
    if b.len() == 0 || b[b.len() - 1] == '/' {
        let j = concat_chars(b.as_slice(), q.as_slice());
        string_of(j.as_slice())
    } else {
        let mut sep: Vec<char> = Vec::new();
        sep.push('/');
        let with_sep = concat_chars(b.as_slice(), sep.as_slice());
        let j = concat_chars(with_sep.as_slice(), q.as_slice());
        assert(sep@ =~= seq!['/']);
        string_of(j.as_slice())
    }
}

/// `~/rest` resolved against the home directory.
pub fn expand_home_path(value: &str, home: &Option<String>) -> (r: String)
    ensures
        r@ == expand_home(value@, opt_view(*home)),
{
    match home {
        Some(h) => {
            let v = chars_of(value);
            if v.len() >= 2 && v[0] == '~' && v[1] == '/' {
                assert(seq!['~', '/'].is_prefix_of(v@));
                let rest = string_of(suffix_from(v.as_slice(), 2).as_slice());
                assert(rest@ =~= value@.skip(2));
                join_path(h.as_str(), rest.as_str())
            } else {
                assert(!seq!['~', '/'].is_prefix_of(value@));
                value.to_owned()
            }
        },
        None => value.to_owned(),
    }
}

/// An explicit override, accepted when it names an absolute path after `~/` expansion.
pub fn explicit(value: &str, context: &Context, diagnostics: &mut Vec<String>) -> (r: Option<String>)
    ensures
        r matches Some(p) ==> p@ == expand_home(value@, context@.home),
        r is Some <==> is_absolute(expand_home(value@, context@.home)),
        r is Some ==> final(diagnostics)@ == old(diagnostics)@,
        r is None ==> strings_view(final(diagnostics)@) == strings_view(old(diagnostics)@).push(
            override_message(),
        ),
{
    let path = expand_home_path(value, &context.home);
    if path_is_absolute(path.as_str()) {
        Some(path)
    } else {
        let ghost before = diagnostics@;
        diagnostics.push("Configuration override must be an absolute path or start with ~/.".to_owned());
        assert(strings_view(diagnostics@) =~= strings_view(before).push(override_message()));
        None
    }
}

pub open spec fn process_view(process: Option<&ProcessContext>) -> Option<ProcessView> {
    match process {
        Some(p) => Some(p@),
        None => None,
    }
}

/// Whether `key` is set to a nonempty value in a table.
fn has_nonempty(env: &Environment, key: &str) -> (r: bool)
    ensures
        r == nonempty_var(env_map(env@), key@),
{
    match env_get(env, key) {
        Some(v) => !v.as_str().is_empty(),
        None => false,
    }
}

/// The ambient context merged with the compositor's startup metadata.
fn merge_context(p: &ProcessContext, ambient: &Context) -> (r: Context)
    ensures
        r@ == merged_context(p@, ambient@),
{
    let mut env = env_remove(&ambient.environment, "NIRI_CONFIG");
    env = env_remove(&env, "HOME");
    env = env_remove(&env, "XDG_CONFIG_HOME");
    env = env_remove(&env, "WAYLAND_DISPLAY");
    env = env_remove(&env, "DISPLAY");
    let environment = env_extend(&env, &p.environment);
    let home = match env_get(&p.environment, "HOME") {
        Some(h) => Some(h.clone()),
        None => ambient.home.clone(),
    };
    let session = if has_nonempty(&p.environment, "WAYLAND_DISPLAY") || has_nonempty(
        &p.environment,
        "DISPLAY",
    ) {
        Session::Nested
    } else {
        Session::Desktop
    };
    let r = Context { home, environment, session };
    assert(r@.environment =~= merged_context(p@, ambient@).environment);
    r
}

/// A copy of a context.
fn copy_context(c: &Context) -> (r: Context)
    ensures
        r@ == c@,
{
    let r = Context {
        home: c.home.clone(),
        environment: super::context::env_clone(&c.environment),
        session: c.session,
    };
    assert(r@.environment =~= c@.environment);
    r
}

/// The configuration path on the command line, after the program name.
fn startup_arg(args: &Vec<String>) -> (r: Option<String>)
    ensures
        opt_view(r) == startup_from(strings_view(args@), 1),
{
    let ghost a = strings_view(args@);
    let long = chars_of("--config=");
    let short = chars_of("-c");
    let mut i: usize = 1;
    while i < args.len()
        invariant
            1 <= i,
            a == strings_view(args@),
            long@ == "--config="@,
            short@ == "-c"@,
            startup_from(a, i as int) == startup_from(a, 1),
        decreases args.len() - i,
    {
        let arg = args[i].as_str();
        assert(a[i as int] == arg@);
        if str_eq(arg, "--config") || str_eq(arg, "-c") {
            if i + 1 < args.len() {
                return Some(args[i + 1].clone());
            } else {
                return Some(String::new());
            }
        }
        let c = chars_of(arg);
        if starts_with(c.as_slice(), long.as_slice()) {
            let rest = suffix_from(c.as_slice(), long.len());
            let r = string_of(rest.as_slice());
            assert(r@ =~= arg@.skip("--config="@.len() as int));
            return Some(r);
        }
        if starts_with(c.as_slice(), short.as_slice()) && c.len() > short.len() {
            let rest = suffix_from(c.as_slice(), short.len());
            let r = string_of(rest.as_slice());
            assert(r@ =~= arg@.skip("-c"@.len() as int));
            return Some(r);
        }
        i += 1;
    }
    None
}

/// The user configuration directory of a context.
fn config_directory(ctx: &Context) -> (r: Option<String>)
    ensures
        opt_view(r) == config_dir(ctx@),
{
    match env_get(&ctx.environment, "XDG_CONFIG_HOME") {
        Some(x) if path_is_absolute(x.as_str()) => {
            return Some(x.clone());
        },
        _ => {},
    }
    match &ctx.home {
        Some(h) => Some(join_path(h.as_str(), ".config")),
        None => None,
    }
}

/// Whether `path` is among `paths`.
fn contains_path(paths: &Vec<String>, path: &str) -> (r: bool)
    ensures
        r == strings_view(paths@).contains(path@),
{
    let mut i: usize = 0;
    while i < paths.len()
        invariant
            i <= paths.len(),
            forall|j: int| 0 <= j < i ==> paths@[j]@ != path@,
        decreases paths.len() - i,
    {
        if str_eq(paths[i].as_str(), path) {
            assert(strings_view(paths@)[i as int] == path@);
            return true;
        }
        i += 1;
    }
    assert(forall|j: int| 0 <= j < paths.len() ==> strings_view(paths@)[j] != path@);
    false
}

/// Locate Niri's saved configuration. An explicit override wins; otherwise the
/// compositor's `--config`/`-c` argument, then `NIRI_CONFIG`, then the user file
/// (`$XDG_CONFIG_HOME` or `~/.config`) unless only the system file exists.
/// `existing` lists the paths known to exist; the returned dependencies name the
/// files whose existence decides the choice.
pub fn niri_path(
    override_path: &str,
    process: Option<&ProcessContext>,
    ambient: &Context,
    existing: &Vec<String>,
) -> (r: Discovery)
    ensures
        r@ == niri_discovery(override_path@, process_view(process), ambient@, strings_view(existing@)),
{
    let ghost spec_result = niri_discovery(
        override_path@,
        process_view(process),
        ambient@,
        strings_view(existing@),
    );
    let available = match process {
        Some(p) => p.environment_available,
        None => false,
    };
    let mut diagnostics: Vec<String> = Vec::new();
    let context = if available {
        merge_context(process.unwrap(), ambient)
    } else {
        diagnostics.push(
            "Compositor startup metadata is unavailable. Set niri-config-path if the discovered file is incorrect; Mod is left unresolved.".to_owned(),
        );
        copy_context(ambient)
    };
    let ghost diags = strings_view(diagnostics@);
    assert(available ==> diags =~= Seq::<Seq<char>>::empty());
    assert(!available ==> diags =~= seq![unavailable_message()]);
    let mut result = Discovery { path: None, context, diagnostics, dependencies: Vec::new() };
    assert(strings_view(result.dependencies@) =~= Seq::<Seq<char>>::empty());
    if !override_path.is_empty() {
        result.path = explicit(override_path, ambient, &mut result.diagnostics);
        assert(result@ =~= spec_result);
        return result;
    }
    let startup = match process {
        Some(p) => startup_arg(&p.args),
        None => None,
    };
    let selected = match startup {
        Some(s) => Some(s),
        None => if has_nonempty(&result.context.environment, "NIRI_CONFIG") {
            match env_get(&result.context.environment, "NIRI_CONFIG") {
                Some(v) => Some(v.clone()),
                None => None,
            }
        } else {
            None
        },
    };
    assert(opt_view(selected) == selected_path(process_view(process), result.context@));
    match selected {
        Some(selected) => {
            if path_is_absolute(selected.as_str()) {
                result.path = Some(selected);
            } else {
                let cwd = match process {
                    Some(p) => p.cwd.clone(),
                    None => None,
                };
                match cwd {
                    Some(c) => {
                        result.path = Some(join_path(c.as_str(), selected.as_str()));
                    },
                    None => {
                        let ghost before = result.diagnostics@;
                        result.diagnostics.push(
                            "Cannot resolve a relative Niri startup path; set niri-config-path.".to_owned(),
                        );
                        assert(strings_view(result.diagnostics@) =~= strings_view(before).push(
                            relative_message(),
                        ));
                    },
                }
            }
        },
        None => {
            let system = "/etc/niri/config.kdl".to_owned();
            match config_directory(&result.context) {
                Some(dir) => {
                    let user = join_path(dir.as_str(), "niri/config.kdl");
                    let chosen = if contains_path(existing, user.as_str()) || !contains_path(
                        existing,
                        system.as_str(),
                    ) {
                        user.clone()
                    } else {
                        system.clone()
                    };
                    result.dependencies.push(user);
                    result.dependencies.push(system);
                    result.path = Some(chosen);
                    assert(strings_view(result.dependencies@) =~= seq![
                        spec_result.dependencies[0],
                        system_config(),
                    ]);
                },
                None => {
                    result.path = Some(system);
                },
            }
        },
    }
    assert(result@ =~= spec_result);
    result
}

} // verus!
