//! Which `way-sh` command a key binding runs: static shell words only, through
//! `env` and `sh -c` wrappers.
use crate::text::{chars_of, str_eq, string_of};
use vstd::prelude::*;

verus! {

/// The words `shlex::split` reads from a text, or `None` when the text is malformed.
pub uninterp spec fn shlex_split(text: Seq<char>) -> Option<Seq<Seq<char>>>;

/// Splits a text into words with POSIX shell quoting, as `shlex::split` does.
#[verifier::external_body]
fn split_words(text: &str) -> (r: Option<Vec<String>>)
    ensures
        match r {
            Some(v) => shlex_split(text@) == Some(v@.map_values(|s: String| s@)),
            None => shlex_split(text@) is None,
        },
{
    shlex::split(text)
}

/// Characters that make an unquoted shell text more than a static argument list.
pub open spec fn operator(c: char) -> bool {
    c == ';' || c == '|' || c == '&' || c == '<' || c == '>' || c == '(' || c == ')' || c == '\n'
        || c == '*' || c == '?'
}

/// Scans `s` from `i`, inside the quote `quote` (if any) and after a backslash when
/// `escape`: false when a substitution or, outside quotes, an operator or glob follows.
pub open spec fn static_from(s: Seq<char>, i: int, quote: Option<char>, escape: bool) -> bool
    decreases s.len() - i,
{
    if i < 0 || i >= s.len() {
        true
    } else {
        let c = s[i];
        if escape {
            static_from(s, i + 1, quote, false)
        } else if c == '\\' && quote != Some('\'') {
            static_from(s, i + 1, quote, true)
        } else if Some(c) == quote {
            static_from(s, i + 1, None, false)
        } else if quote is None && (c == '\'' || c == '"') {
            static_from(s, i + 1, Some(c), false)
        } else if quote != Some('\'') && (c == '$' || c == '`') {
            false
        } else if quote is None && operator(c) {
            false
        } else {
            static_from(s, i + 1, quote, false)
        }
    }
}

/// The argument list of a shell text: only a static one is accepted; shell syntax is
/// never evaluated.
pub open spec fn words_of(text: Seq<char>) -> Option<Seq<Seq<char>>> {
    if static_from(text, 0, None, false) {
        shlex_split(text)
    } else {
        None
    }
}

/// The texts of a list of strings.
pub open spec fn texts(s: Seq<String>) -> Seq<Seq<char>> {
    s.map_values(|x: String| x@)
}

fn is_static(text: &str) -> (r: bool)
    ensures
        r == static_from(text@, 0, None, false),
{
    let c = chars_of(text);
    let mut quote: Option<char> = None;
    let mut escape = false;
    let mut i: usize = 0;
    while i < c.len()
        invariant
            i <= c@.len(),
            c@ == text@,
            static_from(c@, 0, None, false) == static_from(c@, i as int, quote, escape),
        decreases c@.len() - i,
    {
        let ch = c[i];
        if escape {
            escape = false;
        } else if ch == '\\' && quote != Some('\'') {
            escape = true;
        } else if Some(ch) == quote {
            quote = None;
        } else if quote.is_none() && (ch == '\'' || ch == '"') {
            quote = Some(ch);
        } else if quote != Some('\'') && (ch == '$' || ch == '`') {
            return false;
        } else if quote.is_none() && (ch == ';' || ch == '|' || ch == '&' || ch == '<' || ch == '>'
            || ch == '(' || ch == ')' || ch == '\n' || ch == '*' || ch == '?') {
            return false;
        }
        i += 1;
    }
    true
}

/// The argument list of a shell text, if it is static.
pub fn shell_words(text: &str) -> (r: Option<Vec<String>>)
    ensures
        match r {
            Some(v) => words_of(text@) == Some(texts(v@)),
            None => words_of(text@) is None,
        },
{
    if !is_static(text) {
        return None;
    }
    split_words(text)
}

/// The position of the last `/` in `p`, or -1.
pub open spec fn last_slash(p: Seq<char>) -> int
    decreases p.len(),
{
    if p.len() == 0 {
        -1
    } else if p.last() == '/' {
        p.len() - 1
    } else {
        last_slash(p.drop_last())
    }
}

/// The final component of a Unix path, as `Path::file_name` reads it: trailing slashes
/// and `.` components are skipped; `..`, the root and the empty path have none.
pub open spec fn file_name_of(p: Seq<char>) -> Option<Seq<char>>
    decreases p.len(),
{
    if p.len() == 0 {
        None
    } else if p.last() == '/' {
        file_name_of(p.drop_last())
    } else {
        let piece = p.subrange(last_slash(p) + 1, p.len() as int);
        if piece == seq!['.'] {
            file_name_of(p.drop_last())
        } else if piece == seq!['.', '.'] {
            None
        } else {
            Some(piece)
        }
    }
}

proof fn lemma_last_slash(p: Seq<char>)
    ensures
        -1 <= last_slash(p) < p.len(),
        last_slash(p) >= 0 ==> p[last_slash(p)] == '/',
        forall|k: int| last_slash(p) < k < p.len() ==> #[trigger] p[k] != '/',
    decreases p.len(),
{
    if p.len() > 0 && p.last() != '/' {
        lemma_last_slash(p.drop_last());
        assert forall|k: int| last_slash(p) < k < p.len() implies #[trigger] p[k] != '/' by {
            if k < p.len() - 1 {
                assert(p[k] == p.drop_last()[k]);
            }
        };
    }
}

/// The final component of `path`.
pub fn file_name(path: &str) -> (r: Option<String>)
    ensures
        match r {
            Some(n) => file_name_of(path@) == Some(n@),
            None => file_name_of(path@) is None,
        },
{
    let c = chars_of(path);
    let mut end: usize = c.len();
    assert(c@.take(end as int) =~= c@);
    while end > 0
        invariant
            end <= c@.len(),
            c@ == path@,
            file_name_of(path@) == file_name_of(c@.take(end as int)),
        decreases end,
    {
        let ghost p = c@.take(end as int);
        assert(p.drop_last() =~= c@.take(end - 1));
        if c[end - 1] == '/' {
            end -= 1;
        } else {
            let mut start: usize = end;
            while start > 0 && c[start - 1] != '/'
                invariant
                    start <= end,
                    end <= c@.len(),
                    forall|k: int| start <= k < end ==> #[trigger] c@[k] != '/',
                decreases start,
            {
                start -= 1;
            }
            proof {
                lemma_last_slash(p);
                assert(last_slash(p) + 1 == start) by {
                    if last_slash(p) + 1 < start {
                        assert(p[start - 1] == '/');
                    }
                    if last_slash(p) + 1 > start {
                        assert(p[last_slash(p)] == '/');
                    }
                };
            }
            let len = end - start;
            if len == 1 && c[start] == '.' {
                assert(p.subrange(start as int, end as int) =~= seq!['.']);
                end -= 1;
            } else if len == 2 && c[start] == '.' && c[start + 1] == '.' {
                assert(p.subrange(start as int, end as int) =~= seq!['.', '.']);
                return None;
            } else {
                let mut piece: Vec<char> = Vec::new();
                let mut k: usize = start;
                while k < end
                    invariant
                        start <= k <= end,
                        end <= c@.len(),
                        piece@ == c@.subrange(start as int, k as int),
                    decreases end - k,
                {
                    piece.push(c[k]);
                    assert(c@.subrange(start as int, k + 1) =~= c@.subrange(start as int, k as int).push(c@[k as int]));
                    k += 1;
                }
                assert(piece@ =~= p.subrange(start as int, end as int));
                assert(piece@ != seq!['.']) by {
                    if len == 1 {
                        assert(piece@[0] == c@[start as int]);
                    }
                };
                assert(piece@ != seq!['.', '.']) by {
                    if len == 2 {
                        assert(piece@[0] == c@[start as int] && piece@[1] == c@[start + 1]);
                    }
                };
                return Some(string_of(piece.as_slice()));
            }
        }
    }
    assert(c@.take(0) =~= Seq::<char>::empty());
    None
}

/// Whether an argument assigns an environment variable: it holds `=` and is no option.
pub open spec fn assignment(a: Seq<char>) -> bool {
    a.contains('=') && !(a.len() > 0 && a[0] == '-')
}

/// The position after the assignments that follow `env`, from `i`.
pub open spec fn after_assignments(args: Seq<Seq<char>>, i: int) -> int
    decreases args.len() - i,
{
    if 0 <= i < args.len() && assignment(args[i]) {
        after_assignments(args, i + 1)
    } else {
        i
    }
}

/// The position of the command `env` runs: after its assignments and a `--`.
pub open spec fn env_command(args: Seq<Seq<char>>) -> int {
    let s = after_assignments(args, 1);
    if s < args.len() && args[s] == "--"@ {
        s + 1
    } else {
        s
    }
}

/// Whether a program name is a POSIX-like shell.
pub open spec fn shell_name(n: Seq<char>) -> bool {
    n == "sh"@ || n == "bash"@ || n == "dash"@ || n == "zsh"@
}

/// The arguments a `way-sh` invocation in `args` receives, looking through `env` and
/// `sh -c` wrappers at most five levels deep.
pub open spec fn spawn_target(args: Seq<Seq<char>>, depth: int) -> Option<Seq<Seq<char>>>
    decreases 5 - depth,
{
    if depth > 4 || depth < 0 || args.len() == 0 {
        None
    } else {
        match file_name_of(args[0]) {
            None => None,
            Some(name) => if name == "way-sh"@ {
                Some(args.skip(1))
            } else if name == "env"@ {
                spawn_target(args.skip(env_command(args)), depth + 1)
            } else if shell_name(name) && args.len() == 3 && (args[1] == "-c"@ || args[1] == "-lc"@) {
                match words_of(args[2]) {
                    Some(words) => spawn_target(words, depth + 1),
                    None => None,
                }
            } else {
                None
            },
        }
    }
}

fn contains_equals(a: &str) -> (r: bool)
    ensures
        r == a@.contains('='),
{
    let c = chars_of(a);
    let mut i: usize = 0;
    while i < c.len()
        invariant
            i <= c@.len(),
            c@ == a@,
            forall|j: int| 0 <= j < i ==> c@[j] != '=',
        decreases c@.len() - i,
    {
        if c[i] == '=' {
            assert(a@[i as int] == '=');
            return true;
        }
        i += 1;
    }
    false
}

fn is_assignment(a: &str) -> (r: bool)
    ensures
        r == assignment(a@),
{
    let c = chars_of(a);
    contains_equals(a) && !(c.len() > 0 && c[0] == '-')
}

fn copy_from(args: &Vec<String>, start: usize) -> (r: Vec<String>)
    requires
        start <= args@.len(),
    ensures
        texts(r@) == texts(args@).skip(start as int),
{
    let mut r: Vec<String> = Vec::new();
    let mut i: usize = start;
    while i < args.len()
        invariant
            start <= i <= args@.len(),
            texts(r@) == texts(args@).subrange(start as int, i as int),
        decreases args@.len() - i,
    {
        let s = crate::text::copy_string(&args[i]);
        let ghost before = r@;
        r.push(s);
        assert(texts(r@) =~= texts(before).push(args@[i as int]@));
        assert(texts(args@).subrange(start as int, i + 1) =~= texts(args@).subrange(start as int, i as int).push(args@[i as int]@));
        i += 1;
    }
    assert(texts(args@).subrange(start as int, i as int) =~= texts(args@).skip(start as int));
    r
}

/// The arguments a binding's `way-sh` command receives, if the spawned program is one.
pub fn spawn_command(args: &Vec<String>, depth: u8) -> (r: Option<Vec<String>>)
    ensures
        match r {
            Some(v) => spawn_target(texts(args@), depth as int) == Some(texts(v@)),
            None => spawn_target(texts(args@), depth as int) is None,
        },
    decreases 5 - depth,
{
    if depth > 4 || args.len() == 0 {
        return None;
    }
    let ghost a = texts(args@);
    assert(a[0] == args@[0]@);
    let name = match file_name(args[0].as_str()) {
        Some(n) => n,
        None => return None,
    };
    if str_eq(name.as_str(), "way-sh") {
        return Some(copy_from(args, 1));
    }
    if str_eq(name.as_str(), "env") {
        let mut start: usize = 1;
        while start < args.len() && is_assignment(args[start].as_str())
            invariant
                1 <= start <= args@.len(),
                a == texts(args@),
                after_assignments(a, 1) == after_assignments(a, start as int),
            decreases args@.len() - start,
        {
            assert(a[start as int] == args@[start as int]@);
            start += 1;
        }
        proof {
            if start < args@.len() {
                assert(a[start as int] == args@[start as int]@);
            }
        }
        if start < args.len() && str_eq(args[start].as_str(), "--") {
            start += 1;
        }
        let rest = copy_from(args, start);
        return spawn_command(&rest, depth + 1);
    }
    let shell = str_eq(name.as_str(), "sh") || str_eq(name.as_str(), "bash") || str_eq(name.as_str(), "dash")
        || str_eq(name.as_str(), "zsh");
    if shell && args.len() == 3 && (str_eq(args[1].as_str(), "-c") || str_eq(args[1].as_str(), "-lc")) {
        assert(a[1] == args@[1]@ && a[2] == args@[2]@);
        return match shell_words(args[2].as_str()) {
            Some(words) => spawn_command(&words, depth + 1),
            None => None,
        };
    }
    None
}

/// A row of the shortcut sheet: the keys that run one described action in one section.
#[derive(Clone, Debug, PartialEq, Eq)]
pub struct Row {
    pub section: String,
    pub keys: Vec<String>,
    pub description: String,
    pub details: Vec<String>,
    identity: String,
}

/// What one key binding contributes to the sheet: its section and description, the
/// identity of its actions, conditions and mode, its key and where it is written.
#[derive(Clone, Debug, PartialEq, Eq)]
pub struct RowEntry {
    pub section: String,
    pub description: String,
    pub identity: String,
    pub key: String,
    pub detail: String,
}

/// The abstract value of a row.
pub struct RowView {
    pub section: Seq<char>,
    pub keys: Seq<Seq<char>>,
    pub description: Seq<char>,
    pub details: Seq<Seq<char>>,
    pub identity: Seq<char>,
}

impl View for Row {
    type V = RowView;

    closed spec fn view(&self) -> RowView {
        RowView {
            section: self.section@,
            keys: texts(self.keys@),
            description: self.description@,
            details: texts(self.details@),
            identity: self.identity@,
        }
    }
}

impl Row {
    /// The identity of the bindings this row gathers.
    pub fn identity(&self) -> (r: &str)
        ensures
            r@ == self@.identity,
    {
        self.identity.as_str()
    }
}

/// The rows a list of binding contributions folds into, before sorting: a contribution
/// joins the first row with its section, description and identity (adding its key once
/// and its detail), or starts a new row.
pub open spec fn merged(entries: Seq<RowEntry>) -> Seq<RowView>
    decreases entries.len(),
{
    if entries.len() == 0 {
        Seq::empty()
    } else {
        merge_entry(merged(entries.drop_last()), entries.last())
    }
}

/// Whether row `r` gathers contributions like `e`.
pub open spec fn same_row(r: RowView, e: RowEntry) -> bool {
    r.section == e.section@ && r.description == e.description@ && r.identity == e.identity@
}

/// The first row that gathers contributions like `e`.
pub open spec fn row_for(rows: Seq<RowView>, e: RowEntry) -> Option<int> {
    if exists|i: int| 0 <= i < rows.len() && #[trigger] same_row(rows[i], e) {
        Some(choose|i: int| 0 <= i < rows.len() && same_row(rows[i], e) && forall|j: int|
            0 <= j < i ==> !#[trigger] same_row(rows[j], e))
    } else {
        None
    }
}

/// Adds one contribution to the rows.
pub open spec fn merge_entry(rows: Seq<RowView>, e: RowEntry) -> Seq<RowView> {
    match row_for(rows, e) {
        Some(i) => rows.update(i, RowView {
            keys: if rows[i].keys.contains(e.key@) { rows[i].keys } else { rows[i].keys.push(e.key@) },
            details: rows[i].details.push(e.detail@),
            ..rows[i]
        }),
        None => rows.push(RowView {
            section: e.section@,
            keys: seq![e.key@],
            description: e.description@,
            details: seq![e.detail@],
            identity: e.identity@,
        }),
    }
}

/// The order of sheet sections: the shell's own first, then windows, workspaces and
/// the session, then the rest by name.
pub open spec fn section_rank(s: Seq<char>) -> int {
    if s == "Way-Shell"@ {
        0
    } else if s == "Windows and layout"@ {
        1
    } else if s == "Workspaces and outputs"@ {
        2
    } else if s == "Session and compositor"@ {
        3
    } else {
        4
    }
}

/// The sheet's fixed section order: Way-Shell, then Windows and layout, then Workspaces
/// and outputs, then Session and compositor, and every other section after those four.
/// So a row of an earlier section always comes before a row of a later one.
pub proof fn lemma_section_order(s: Seq<char>)
    ensures
        section_rank("Way-Shell"@) < section_rank("Windows and layout"@),
        section_rank("Windows and layout"@) < section_rank("Workspaces and outputs"@),
        section_rank("Workspaces and outputs"@) < section_rank("Session and compositor"@),
        s != "Way-Shell"@ && s != "Windows and layout"@ && s != "Workspaces and outputs"@ && s
            != "Session and compositor"@ ==> section_rank("Session and compositor"@) < section_rank(s),
        row_le("Way-Shell"@, "Windows and layout"@) && !row_le("Windows and layout"@, "Way-Shell"@),
        row_le("Windows and layout"@, "Workspaces and outputs"@) && !row_le(
            "Workspaces and outputs"@,
            "Windows and layout"@,
        ),
        row_le("Workspaces and outputs"@, "Session and compositor"@) && !row_le(
            "Session and compositor"@,
            "Workspaces and outputs"@,
        ),
        s != "Way-Shell"@ && s != "Windows and layout"@ && s != "Workspaces and outputs"@ && s
            != "Session and compositor"@ ==> row_le("Session and compositor"@, s) && !row_le(
            s,
            "Session and compositor"@,
        ),
{
    reveal_strlit("Way-Shell");
    reveal_strlit("Windows and layout");
    reveal_strlit("Workspaces and outputs");
    reveal_strlit("Session and compositor");
    assert("Way-Shell"@.len() != "Windows and layout"@.len());
    assert("Way-Shell"@.len() != "Workspaces and outputs"@.len());
    assert("Way-Shell"@.len() != "Session and compositor"@.len());
    assert("Windows and layout"@.len() != "Workspaces and outputs"@.len());
    assert("Windows and layout"@.len() != "Session and compositor"@.len());
    assert("Workspaces and outputs"@[0] != "Session and compositor"@[0]);
}

/// Lexicographic order of texts by character.
pub open spec fn text_le(a: Seq<char>, b: Seq<char>) -> bool
    decreases a.len(),
{
    if a.len() == 0 {
        true
    } else if b.len() == 0 {
        false
    } else if a[0] != b[0] {
        a[0] < b[0]
    } else {
        text_le(a.drop_first(), b.drop_first())
    }
}

/// The order of rows: by section rank, then by section name.
pub open spec fn row_le(a: Seq<char>, b: Seq<char>) -> bool {
    section_rank(a) < section_rank(b) || (section_rank(a) == section_rank(b) && text_le(a, b))
}

/// Whether rows are in sheet order.
pub open spec fn sheet_ordered(rows: Seq<RowView>) -> bool {
    forall|i: int, j: int| 0 <= i < j < rows.len() ==> row_le(#[trigger] rows[i].section, #[trigger] rows[j].section)
}

/// The abstract values of rows.
pub open spec fn views(rows: Seq<Row>) -> Seq<RowView> {
    rows.map_values(|x: Row| x@)
}

/// Whether a row belongs to section `sec`.
pub open spec fn section_is(sec: Seq<char>) -> spec_fn(RowView) -> bool {
    |r: RowView| r.section == sec
}

/// The rows of section `sec`, in order.
pub open spec fn in_section(rows: Seq<RowView>, sec: Seq<char>) -> Seq<RowView> {
    rows.filter(section_is(sec))
}

pub(crate) proof fn lemma_text_refl(a: Seq<char>)
    ensures
        text_le(a, a),
    decreases a.len(),
{
    if a.len() > 0 {
        lemma_text_refl(a.drop_first());
    }
}

pub(crate) proof fn lemma_text_total(a: Seq<char>, b: Seq<char>)
    ensures
        text_le(a, b) || text_le(b, a),
    decreases a.len(),
{
    if a.len() > 0 && b.len() > 0 && a[0] == b[0] {
        lemma_text_total(a.drop_first(), b.drop_first());
    }
}

pub(crate) proof fn lemma_text_trans(a: Seq<char>, b: Seq<char>, c: Seq<char>)
    requires
        text_le(a, b),
        text_le(b, c),
    ensures
        text_le(a, c),
    decreases a.len(),
{
    if a.len() > 0 && b.len() > 0 && c.len() > 0 && a[0] == b[0] && b[0] == c[0] {
        lemma_text_trans(a.drop_first(), b.drop_first(), c.drop_first());
    }
}

proof fn lemma_row_total(a: Seq<char>, b: Seq<char>)
    ensures
        row_le(a, b) || row_le(b, a),
{
    lemma_text_total(a, b);
}

proof fn lemma_row_trans(a: Seq<char>, b: Seq<char>, c: Seq<char>)
    requires
        row_le(a, b),
        row_le(b, c),
    ensures
        row_le(a, c),
{
    if section_rank(a) == section_rank(b) && section_rank(b) == section_rank(c) {
        lemma_text_trans(a, b, c);
    }
}

fn rank(s: &str) -> (r: u8)
    ensures
        r == section_rank(s@),
{
    if str_eq(s, "Way-Shell") {
        0
    } else if str_eq(s, "Windows and layout") {
        1
    } else if str_eq(s, "Workspaces and outputs") {
        2
    } else if str_eq(s, "Session and compositor") {
        3
    } else {
        4
    }
}

pub(crate) fn text_less_eq(a: &str, b: &str) -> (r: bool)
    ensures
        r == text_le(a@, b@),
{
    let x = chars_of(a);
    let y = chars_of(b);
    let mut i: usize = 0;
    assert(x@.skip(0) =~= x@);
    assert(y@.skip(0) =~= y@);
    while i < x.len() && i < y.len() && x[i] == y[i]
        invariant
            i <= x@.len(),
            i <= y@.len(),
            x@ == a@,
            y@ == b@,
            text_le(a@, b@) == text_le(x@.skip(i as int), y@.skip(i as int)),
        decreases x@.len() - i,
    {
        assert(x@.skip(i as int).drop_first() =~= x@.skip(i + 1));
        assert(y@.skip(i as int).drop_first() =~= y@.skip(i + 1));
        i += 1;
    }
    if i == x.len() {
        return true;
    }
    if i == y.len() {
        return false;
    }
    assert(x@.skip(i as int)[0] == x@[i as int]);
    assert(y@.skip(i as int)[0] == y@[i as int]);
    x[i] < y[i]
}

fn row_less_eq(a: &Row, b: &Row) -> (r: bool)
    ensures
        r == row_le(a@.section, b@.section),
{
    let ra = rank(a.section.as_str());
    let rb = rank(b.section.as_str());
    ra < rb || (ra == rb && text_less_eq(a.section.as_str(), b.section.as_str()))
}

fn copy_all(v: &Vec<String>) -> (r: Vec<String>)
    ensures
        texts(r@) == texts(v@),
{
    let mut r: Vec<String> = Vec::new();
    let mut i: usize = 0;
    while i < v.len()
        invariant
            i <= v@.len(),
            texts(r@) == texts(v@).take(i as int),
        decreases v@.len() - i,
    {
        let s = crate::text::copy_string(&v[i]);
        let ghost before = r@;
        r.push(s);
        assert(texts(r@) =~= texts(before).push(v@[i as int]@));
        assert(texts(v@).take(i + 1) =~= texts(v@).take(i as int).push(v@[i as int]@));
        i += 1;
    }
    assert(texts(v@).take(i as int) =~= texts(v@));
    r
}

proof fn lemma_texts_contains(s: Seq<String>, p: Seq<char>)
    ensures
        texts(s).contains(p) == crate::text::strings_contain(s, p),
{
    if crate::text::strings_contain(s, p) {
        let i = choose|i: int| 0 <= i < s.len() && s[i]@ == p;
        assert(texts(s)[i] == p);
    }
    if texts(s).contains(p) {
        let i = choose|i: int| 0 <= i < texts(s).len() && texts(s)[i] == p;
        assert(s[i]@ == p);
    }
}

/// Folds the binding contributions into rows and puts the rows in sheet order; rows of
/// one section keep the order in which they first appeared.
pub fn assemble(entries: &Vec<RowEntry>) -> (r: Vec<Row>)
    ensures
        sheet_ordered(r@.map_values(|x: Row| x@)),
        r@.map_values(|x: Row| x@).to_multiset() == merged(entries@).to_multiset(),
        forall|sec: Seq<char>| #[trigger] in_section(views(r@), sec) == in_section(
            merged(entries@),
            sec,
        ),
{
    let mut rows: Vec<Row> = Vec::new();
    let mut n: usize = 0;
    assert(entries@.take(0) =~= Seq::<RowEntry>::empty());
    assert(rows@.map_values(|x: Row| x@) =~= Seq::<RowView>::empty());
    while n < entries.len()
        invariant
            n <= entries@.len(),
            rows@.map_values(|x: Row| x@) == merged(entries@.take(n as int)),
        decreases entries@.len() - n,
    {
        let e = &entries[n];
        let ghost views = rows@.map_values(|x: Row| x@);
        assert(entries@.take(n + 1).drop_last() =~= entries@.take(n as int));
        assert(entries@.take(n + 1).last() == *e);
        let mut i: usize = 0;
        while i < rows.len() && !(str_eq(rows[i].section.as_str(), e.section.as_str())
            && str_eq(rows[i].description.as_str(), e.description.as_str())
            && str_eq(rows[i].identity.as_str(), e.identity.as_str()))
            invariant
                i <= rows@.len(),
                views == rows@.map_values(|x: Row| x@),
                forall|j: int| 0 <= j < i ==> !#[trigger] same_row(views[j], *e),
            decreases rows@.len() - i,
        {
            assert(views[i as int] == rows@[i as int]@);
            i += 1;
        }
        if i < rows.len() {
            assert(views[i as int] == rows@[i as int]@);
            assert(same_row(views[i as int], *e));
            assert(row_for(views, *e) == Some(i as int));
            let ghost old_view = rows@[i as int]@;
            let mut keys = copy_all(&rows[i].keys);
            proof { lemma_texts_contains(rows@[i as int].keys@, e.key@); }
            if !crate::text::contains_string(&rows[i].keys, e.key.as_str()) {
                let ghost before = keys@;
                keys.push(crate::text::copy_string(&e.key));
                assert(texts(keys@) =~= texts(before).push(e.key@));
            }
            let mut details = copy_all(&rows[i].details);
            let ghost before = details@;
            details.push(crate::text::copy_string(&e.detail));
            assert(texts(details@) =~= texts(before).push(e.detail@));
            let updated = Row {
                section: crate::text::copy_string(&rows[i].section),
                keys,
                description: crate::text::copy_string(&rows[i].description),
                details,
                identity: crate::text::copy_string(&rows[i].identity),
            };
            let ghost prev = rows@;
            rows.set(i, updated);
            assert(rows@.map_values(|x: Row| x@) =~= merge_entry(views, *e));
        } else {
            assert(row_for(views, *e) is None);
            let mut keys: Vec<String> = Vec::new();
            keys.push(crate::text::copy_string(&e.key));
            let mut details: Vec<String> = Vec::new();
            details.push(crate::text::copy_string(&e.detail));
            assert(texts(keys@) =~= seq![e.key@]);
            assert(texts(details@) =~= seq![e.detail@]);
            let row = Row {
                section: crate::text::copy_string(&e.section),
                keys,
                description: crate::text::copy_string(&e.description),
                details,
                identity: crate::text::copy_string(&e.identity),
            };
            rows.push(row);
            assert(rows@.map_values(|x: Row| x@) =~= merge_entry(views, *e));
        }
        n += 1;
    }
    assert(entries@.take(n as int) =~= entries@);
    sort_rows(rows)
}

fn sort_rows(v: Vec<Row>) -> (r: Vec<Row>)
    ensures
        sheet_ordered(r@.map_values(|x: Row| x@)),
        r@.map_values(|x: Row| x@).to_multiset() == v@.map_values(|x: Row| x@).to_multiset(),
        forall|sec: Seq<char>| #[trigger] in_section(views(r@), sec) == in_section(views(v@), sec),
{
    let ghost orig = v@.map_values(|x: Row| x@);
    let mut rest = v;
    let mut out: Vec<Row> = Vec::new();
    proof {
        vstd::seq_lib::to_multiset_len(out@.map_values(|x: Row| x@));
        vstd::multiset::lemma_multiset_empty_len(out@.map_values(|x: Row| x@).to_multiset());
        broadcast use vstd::multiset::group_multiset_axioms;
        assert(rest@.map_values(|x: Row| x@) == orig);
        assert(out@.map_values(|x: Row| x@).to_multiset().add(rest@.map_values(|x: Row| x@).to_multiset()) =~= orig.to_multiset());
        assert forall|sec: Seq<char>| #[trigger] in_section(views(out@), sec) + in_section(views(rest@), sec)
            == in_section(orig, sec) by {
            crate::stable::lemma_filter_empty(section_is(sec));
            assert(out@.map_values(|x: Row| x@) =~= Seq::<RowView>::empty());
            assert(in_section(views(out@), sec) + in_section(orig, sec) =~= in_section(orig, sec));
        };
    }
    while rest.len() > 0
        invariant
            sheet_ordered(out@.map_values(|x: Row| x@)),
            out@.map_values(|x: Row| x@).to_multiset().add(rest@.map_values(|x: Row| x@).to_multiset()) == orig.to_multiset(),
            forall|sec: Seq<char>| #[trigger] in_section(views(out@), sec) + in_section(views(rest@), sec)
                == in_section(orig, sec),
        decreases rest.len(),
    {
        let ghost before = rest@.map_values(|x: Row| x@);
        let ghost before_rows = rest@;
        let ghost out0 = out@;
        let x = rest.remove(0);
        proof {
            assert(rest@.map_values(|y: Row| y@) =~= before.remove(0));
            vstd::seq_lib::to_multiset_remove(before, 0);
            assert(before[0] == x@);
        }
        let mut p: usize = 0;
        while p < out.len() && row_less_eq(&out[p], &x)
            invariant
                p <= out@.len(),
                forall|q: int| 0 <= q < p ==> row_le(#[trigger] out@[q]@.section, x@.section),
            decreases out@.len() - p,
        {
            p += 1;
        }
        let ghost prev = out@.map_values(|y: Row| y@);
        let ghost xv = x@;
        proof {
            if p < out@.len() {
                assert(!row_le(out@[p as int]@.section, xv.section));
                lemma_row_total(out@[p as int]@.section, xv.section);
            }
        }
        out.insert(p, x);
        proof {
            assert(out@.map_values(|y: Row| y@) =~= prev.insert(p as int, xv));
            vstd::seq_lib::to_multiset_insert(prev, p as int, xv);
            let o = out@.map_values(|y: Row| y@);
            assert forall|i: int, j: int| 0 <= i < j < o.len() implies row_le(#[trigger] o[i].section, #[trigger] o[j].section) by {
                if j < p {
                    assert(o[i] == prev[i] && o[j] == prev[j]);
                } else if j == p {
                    assert(o[i] == prev[i]);
                    assert(o[i] == out@[i]@);
                } else if i == p {
                    assert(o[j] == prev[j - 1]);
                    assert(row_le(xv.section, prev[p as int].section));
                    if p < j - 1 {
                        assert(row_le(prev[p as int].section, prev[j - 1].section));
                        lemma_row_trans(xv.section, prev[p as int].section, prev[j - 1].section);
                    }
                } else if i < p {
                    assert(o[i] == prev[i] && o[j] == prev[j - 1]);
                } else {
                    assert(o[i] == prev[i - 1] && o[j] == prev[j - 1]);
                }
            };
            vstd::seq_lib::to_multiset_contains(before, before[0]);
            assert(before.contains(before[0]));
            broadcast use vstd::multiset::group_multiset_axioms;
            assert(out@.map_values(|y: Row| y@).to_multiset().add(rest@.map_values(|y: Row| y@).to_multiset()) =~= orig.to_multiset());
            let rv = rest@.map_values(|y: Row| y@);
            assert(before =~= seq![xv] + rv);
            assert forall|sec: Seq<char>| #[trigger] in_section(o, sec) + in_section(rv, sec) == in_section(orig, sec) by {
                let pred = section_is(sec);
                assert(in_section(views(out0), sec) + in_section(views(before_rows), sec) == in_section(orig, sec));
                assert(views(out0) =~= prev);
                assert(views(before_rows) =~= before);
                rv.lemma_filter_prepend(xv, pred);
                crate::stable::lemma_filter_insert(prev, p as int, xv, pred);
                if pred(xv) {
                    assert forall|q: int| p <= q < prev.len() implies !pred(#[trigger] prev[q]) by {
                        assert(!row_le(prev[p as int].section, xv.section));
                        if q > p {
                            assert(row_le(prev[p as int].section, prev[q].section));
                        }
                        if prev[q].section == sec {
                            lemma_text_refl(sec);
                        }
                    };
                    assert(in_section(o, sec) == in_section(prev, sec).push(xv));
                    assert(in_section(before, sec) == seq![xv] + in_section(rv, sec));
                    assert(in_section(o, sec) + in_section(rv, sec) =~= in_section(prev, sec) + in_section(before, sec));
                } else {
                    assert(in_section(o, sec) == in_section(prev, sec));
                    assert(in_section(before, sec) =~= in_section(rv, sec));
                }
            };
        }
    }
    proof {
        vstd::seq_lib::to_multiset_len(rest@.map_values(|y: Row| y@));
        vstd::multiset::lemma_multiset_empty_len(rest@.map_values(|y: Row| y@).to_multiset());
        broadcast use vstd::multiset::group_multiset_axioms;
        assert(out@.map_values(|y: Row| y@).to_multiset() =~= orig.to_multiset());
        assert forall|sec: Seq<char>| #[trigger] in_section(views(out@), sec) == in_section(orig, sec) by {
            crate::stable::lemma_filter_empty(section_is(sec));
            assert(rest@.map_values(|y: Row| y@) =~= Seq::<RowView>::empty());
            assert(in_section(views(out@), sec) + in_section(views(rest@), sec)
                =~= in_section(views(out@), sec));
        };
    }
    out
}

/// The sheet section of a binding: its group's title in the default mode, else the mode.
pub fn section_name(mode: &str, group_title: &str) -> (r: String)
    ensures
        r@ == (if mode@ == "default"@ { group_title@ } else { "Mode: "@ + mode@ }),
{
    if str_eq(mode, "default") {
        return group_title.to_owned();
    }
    let mut s = String::new();
    crate::text::append(&mut s, "Mode: ");
    crate::text::append(&mut s, mode);
    s
}

/// Texts joined by a separator.
pub open spec fn joined(s: Seq<String>, sep: Seq<char>) -> Seq<char>
    decreases s.len(),
{
    if s.len() == 0 {
        Seq::empty()
    } else if s.len() == 1 {
        s[0]@
    } else {
        joined(s.drop_last(), sep) + sep + s.last()@
    }
}

fn join(v: &Vec<String>, sep: &str) -> (r: String)
    ensures
        r@ == joined(v@, sep@),
{
    let mut s = String::new();
    let mut i: usize = 0;
    while i < v.len()
        invariant
            i <= v@.len(),
            s@ == joined(v@.take(i as int), sep@),
        decreases v@.len() - i,
    {
        let ghost t = v@.take(i + 1);
        assert(t.drop_last() =~= v@.take(i as int));
        if i > 0 {
            crate::text::append(&mut s, sep);
        } else {
            assert(v@.take(0) =~= Seq::<String>::empty());
        }
        crate::text::append(&mut s, v[i].as_str());
        proof {
            if i == 0 {
                assert(s@ =~= t[0]@);
            }
        }
        i += 1;
    }
    assert(v@.take(i as int) =~= v@);
    s
}

/// The description of a binding: its own title, else its actions' descriptions joined
/// by `"; "`; conditions follow in brackets, joined by `", "`.
pub fn binding_description(title: Option<&str>, descriptions: &Vec<String>, conditions: &Vec<String>) -> (r: String)
    ensures
        r@ == (match title {
            Some(t) => t@,
            None => joined(descriptions@, "; "@),
        }) + (if conditions@.len() == 0 { Seq::empty() } else { " ("@ + joined(conditions@, ", "@) + ")"@ }),
{
    let mut s = match title {
        Some(t) => t.to_owned(),
        None => join(descriptions, "; "),
    };
    if conditions.len() > 0 {
        let ghost head = s@;
        crate::text::append(&mut s, " (");
        let c = join(conditions, ", ");
        crate::text::append(&mut s, c.as_str());
        crate::text::append(&mut s, ")");
        assert(s@ =~= head + (" ("@ + joined(conditions@, ", "@) + ")"@));
    } else {
        assert(s@ =~= s@ + Seq::<char>::empty());
    }
    s
}

} // verus!
