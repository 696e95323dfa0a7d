//! Registration of the app-owned `bin` directory in the user's `PATH`: the
//! shell profiles that govern it, the marked block written into them, and
//! how a profile's text changes when the block is added or removed. The
//! executable itself never leaves the app root; only the marked block lives
//! outside it, and unmarked profile content is kept.

use vstd::prelude::*;
use crate::text::{owned, concat, concat3, str_eq, string_views, occurs_at, occurs_at_exec, has_infix, contains, ends_with, has_suffix};
use crate::paths::{join, join_path, file_name, file_name_of};
use crate::steam::{find_from, lemma_find_from_bounds, replace_all, replace_str};

verus! {

/// First line of the managed block.
pub const BLOCK_START: &'static str = "# >>> Vapor managed PATH >>>";
/// Last line of the managed block.
pub const BLOCK_END: &'static str = "# <<< Vapor managed PATH <<<";

/// What registering the app's `bin` directory works from.
#[derive(Debug, Clone)]
pub struct PathSetup {
    /// The user's home directory.
    pub home: String,
    /// The app-owned directory to put on `PATH`.
    pub binaries: String,
    /// The user's login shell, if known.
    pub shell: Option<String>,
}

/// Result of installing or inspecting `PATH` registration.
#[derive(Debug, Clone)]
pub struct PathSetupReport {
    /// App-owned executable reached through `PATH`.
    pub command: String,
    /// App-owned directory added to `PATH`.
    pub binaries: String,
    /// Shell profiles governed by this setup.
    pub profiles: Vec<String>,
    /// Whether the current app location is registered in a profile.
    pub registered: bool,
    /// Whether this operation changed a profile.
    pub changed: bool,
    /// Whether the app `bin` directory is active in this process's `PATH`.
    pub path_active: bool,
}

impl PathSetupReport {
    /// App-owned executable reached through `PATH`.
    pub fn command(&self) -> (r: &str)
        ensures
            r@ == self.command@,
    {
        self.command.as_str()
    }

    /// App-owned directory added to `PATH`.
    pub fn binaries(&self) -> (r: &str)
        ensures
            r@ == self.binaries@,
    {
        self.binaries.as_str()
    }

    /// Shell profiles governed by this setup.
    pub fn profiles(&self) -> (r: &[String])
        ensures
            r@ == self.profiles@,
    {
        self.profiles.as_slice()
    }

    /// Whether the current app location is registered in a profile.
    pub fn registered(&self) -> (r: bool)
        ensures
            r == self.registered,
    {
        self.registered
    }

    /// Whether this operation changed a profile.
    pub fn changed(&self) -> (r: bool)
        ensures
            r == self.changed,
    {
        self.changed
    }

    /// Whether the app `bin` directory is active in this process's `PATH`.
    pub fn path_active(&self) -> (r: bool)
        ensures
            r == self.path_active,
    {
        self.path_active
    }
}

/// The shell profiles governing `PATH` for a shell: none on Windows; for
/// bash and zsh the login profile and the interactive one; a `conf.d`
/// snippet for fish; `.profile` otherwise.
pub open spec fn profile_paths_spec(home: Seq<char>, shell: Option<Seq<char>>, windows: bool) -> Seq<Seq<char>> {
    let name = match shell { Some(s) => file_name(s), None => None };
    if windows {
        Seq::empty()
    } else if name == Some("bash"@) {
        seq![join(home, ".profile"@), join(home, ".bashrc"@)]
    } else if name == Some("zsh"@) {
        seq![join(home, ".zprofile"@), join(home, ".zshrc"@)]
    } else if name == Some("fish"@) {
        seq![join(home, ".config/fish/conf.d/vapor.fish"@)]
    } else {
        seq![join(home, ".profile"@)]
    }
}

/// A value inside single quotes: each `'` closes the quote, adds a
/// double-quoted `'`, and reopens it.
pub open spec fn shell_quote_spec(value: Seq<char>) -> Seq<char> {
    replace_all(value, "'"@, "'\"'\"'"@)
}

/// A value made safe inside single quotes.
pub fn shell_quote(value: &str) -> (r: String)
    ensures
        r@ == shell_quote_spec(value@),
{
    proof {
        reveal_strlit("'");
    }
    replace_str(value, "'", "'\"'\"'")
}

/// Whether a profile is a fish script.
pub open spec fn is_fish_profile(profile: Seq<char>) -> bool {
    match file_name(profile) {
        Some(n) => n.len() > 5 && n.subrange(n.len() - 5, n.len() as int) == ".fish"@,
        None => false,
    }
}

/// The managed block for a profile: fish prepends the directory with
/// `fish_add_path`; POSIX shells export it unless `PATH` already holds it.
pub open spec fn profile_block_spec(binaries: Seq<char>, profile: Seq<char>) -> Seq<char> {
    if is_fish_profile(profile) {
        BLOCK_START@ + "\nfish_add_path --prepend --global '"@ + shell_quote_spec(binaries) + "'\n"@ + BLOCK_END@ + "\n"@
    } else {
        BLOCK_START@ + "\nVAPOR_BIN='"@ + shell_quote_spec(binaries)
            + "'\ncase \":$PATH:\" in\n    *\":$VAPOR_BIN:\"*) ;;\n    *) export PATH=\"$VAPOR_BIN${PATH:+:$PATH}\" ;;\nesac\nunset VAPOR_BIN\n"@
            + BLOCK_END@ + "\n"@
    }
}

fn fish_profile(profile: &str) -> (r: bool)
    ensures
        r == is_fish_profile(profile@),
{
    proof {
        reveal_strlit(".fish");
    }
    match file_name_of(profile) {
        Some(n) => {
            let len = n.unicode_len();
            if len > 5 {
                let tail = n.substring_char(len - 5, len);
                str_eq(tail, ".fish")
            } else {
                false
            }
        },
        None => false,
    }
}

impl PathSetup {
    /// Construct an explicit registration plan.
    pub fn new(home: String, binaries: String, shell: Option<String>) -> (r: Self)
        ensures
            r.home == home,
            r.binaries == binaries,
            r.shell == shell,
    {
        PathSetup { home, binaries, shell }
    }

    /// The shell profiles that govern `PATH` for this user.
    pub fn profile_paths(&self, windows: bool) -> (r: Vec<String>)
        ensures
            string_views(r@) == profile_paths_spec(self.home@, match self.shell { Some(s) => Some(s@), None => None::<Seq<char>> }, windows),
    {
        let home = self.home.as_str();
        let name: Option<&str> = match &self.shell {
            Some(s) => file_name_of(s.as_str()),
            None => None,
        };
        let r = if windows {
            Vec::new()
        } else {
            match name {
                Some(n) => {
                    if str_eq(n, "bash") {
                        vec![join_path(home, ".profile"), join_path(home, ".bashrc")]
                    } else if str_eq(n, "zsh") {
                        vec![join_path(home, ".zprofile"), join_path(home, ".zshrc")]
                    } else if str_eq(n, "fish") {
                        vec![join_path(home, ".config/fish/conf.d/vapor.fish")]
                    } else {
                        vec![join_path(home, ".profile")]
                    }
                },
                None => vec![join_path(home, ".profile")],
            }
        };
        assert(string_views(r@) =~= profile_paths_spec(self.home@, match self.shell { Some(s) => Some(s@), None => None::<Seq<char>> }, windows));
        r
    }

    /// The managed block written into `profile`.
    pub fn profile_block(&self, profile: &str) -> (r: String)
        ensures
            r@ == profile_block_spec(self.binaries@, profile@),
    {
        let quoted = shell_quote(self.binaries.as_str());
        let mut r = owned(BLOCK_START);
        if fish_profile(profile) {
            r.append("\nfish_add_path --prepend --global '");
            r.append(quoted.as_str());
            r.append("'\n");
        } else {
            r.append("\nVAPOR_BIN='");
            r.append(quoted.as_str());
            r.append("'\ncase \":$PATH:\" in\n    *\":$VAPOR_BIN:\"*) ;;\n    *) export PATH=\"$VAPOR_BIN${PATH:+:$PATH}\" ;;\nesac\nunset VAPOR_BIN\n");
        }
        r.append(BLOCK_END);
        r.append("\n");
        r
    }

    /// The app-owned command reached through `PATH`.
    pub fn command(&self, windows: bool) -> (r: String)
        ensures
            r@ == join(self.binaries@, if windows { "vapor.exe"@ } else { "vapor"@ }),
    {
        if windows { join_path(self.binaries.as_str(), "vapor.exe") } else { join_path(self.binaries.as_str(), "vapor") }
    }

    /// Register the app's `bin` directory: every governed profile gets the
    /// managed block (replacing an older one), given each profile's current
    /// text (empty when absent). Returns the report and each profile's new
    /// text, which the caller writes where it changed.
    pub fn install(&self, windows: bool, command_is_file: bool, existing: &[String], path_active: bool) -> (r: Result<(PathSetupReport, Vec<String>), String>)
        requires
            existing@.len() == profile_paths_spec(self.home@, match self.shell { Some(s) => Some(s@), None => None::<Seq<char>> }, windows).len(),
        ensures
            !command_is_file ==> (r matches Err(e) && e@ == "app-owned Vapor command is missing: "@
                + join(self.binaries@, if windows { "vapor.exe"@ } else { "vapor"@ })
                + "\nhelp: rebuild or verify the Steam application before registering PATH"@),
            command_is_file ==> (r matches Ok((report, updated))
                && updated@.len() == existing@.len()
                && (forall|i: int| 0 <= i < existing@.len() ==> #[trigger] updated@[i]@ == install_text_spec(existing@[i]@,
                    profile_block_spec(self.binaries@, report.profiles@[i]@)))
                && report.registered
                && report.changed == (exists|i: int| 0 <= i < existing@.len() && #[trigger] updated@[i]@ != existing@[i]@)
                && string_views(report.profiles@) == profile_paths_spec(self.home@, match self.shell { Some(s) => Some(s@), None => None::<Seq<char>> }, windows)
                && report.command@ == join(self.binaries@, if windows { "vapor.exe"@ } else { "vapor"@ })
                && report.binaries@ == self.binaries@
                && report.path_active == path_active),
    {
        let command = self.command(windows);
        if !command_is_file {
            let mut e = concat("app-owned Vapor command is missing: ", command.as_str());
            e.append("\nhelp: rebuild or verify the Steam application before registering PATH");
            return Err(e);
        }
        let profiles = self.profile_paths(windows);
        let mut updated: Vec<String> = Vec::new();
        let mut changed = false;
        let mut i: usize = 0;
        while i < existing.len()
            invariant
                i <= existing@.len(),
                existing@.len() == profiles@.len(),
                updated@.len() == i,
                forall|k: int| 0 <= k < i ==> #[trigger] updated@[k]@ == install_text_spec(existing@[k]@,
                    profile_block_spec(self.binaries@, profiles@[k]@)),
                changed == (exists|k: int| 0 <= k < i && #[trigger] updated@[k]@ != existing@[k]@),
            decreases existing@.len() - i,
        {
            let block = self.profile_block(profiles[i].as_str());
            let (text, did_change) = install_text(existing[i].as_str(), block.as_str());
            let ghost before = updated@;
            let ghost text_view = text@;
            updated.push(text);
            proof {
                assert forall|k: int| 0 <= k < i implies #[trigger] updated@[k] == before[k] by {}
                assert(updated@[i as int]@ == text_view);
                assert(did_change == (updated@[i as int]@ != existing@[i as int]@));
                if !did_change && !changed {
                    assert forall|k: int| 0 <= k < i + 1 implies !(#[trigger] updated@[k]@ != existing@[k]@) by {
                        if k < i {
                            assert(updated@[k] == before[k]);
                        }
                    }
                }
                if changed {
                    let w = choose|k: int| 0 <= k < i && #[trigger] before[k]@ != existing@[k]@;
                    assert(updated@[w] == before[w]);
                }
            }
            changed = changed || did_change;
            i = i + 1;
        }
        let report = PathSetupReport { command, binaries: self.binaries.clone(), profiles, registered: true, changed, path_active };
        assert(report.binaries@ == self.binaries@);
        Ok((report, updated))
    }

    /// Remove only the managed blocks, given each governed profile's current
    /// text (`None` when the profile is not a file). Returns the report and
    /// each profile's new text.
    pub fn uninstall(&self, windows: bool, existing: &[Option<String>], path_active: bool) -> (r: (PathSetupReport, Vec<Option<String>>))
        requires
            existing@.len() == profile_paths_spec(self.home@, match self.shell { Some(s) => Some(s@), None => None::<Seq<char>> }, windows).len(),
        ensures
            r.1@.len() == existing@.len(),
            forall|i: int| 0 <= i < existing@.len() ==> match #[trigger] existing@[i] {
                None => r.1@[i] is None,
                Some(t) => r.1@[i] matches Some(u) && u@ == remove_block_spec(t@),
            },
            !r.0.registered,
            r.0.changed == (exists|i: int| 0 <= i < existing@.len() && (#[trigger] existing@[i] matches Some(t) && remove_block_spec(t@) != t@)),
            string_views(r.0.profiles@) == profile_paths_spec(self.home@, match self.shell { Some(s) => Some(s@), None => None::<Seq<char>> }, windows),
            r.0.command@ == join(self.binaries@, if windows { "vapor.exe"@ } else { "vapor"@ }),
            r.0.binaries@ == self.binaries@,
            r.0.path_active == path_active,
    {
        let profiles = self.profile_paths(windows);
        let mut updated: Vec<Option<String>> = Vec::new();
        let mut changed = false;
        let mut i: usize = 0;
        while i < existing.len()
            invariant
                i <= existing@.len(),
                updated@.len() == i,
                forall|k: int| 0 <= k < i ==> match #[trigger] existing@[k] {
                    None => updated@[k] is None,
                    Some(t) => updated@[k] matches Some(u) && u@ == remove_block_spec(t@),
                },
                changed == (exists|k: int| 0 <= k < i && (#[trigger] existing@[k] matches Some(t) && remove_block_spec(t@) != t@)),
            decreases existing@.len() - i,
        {
            let ghost before = updated@;
            match &existing[i] {
                None => updated.push(None),
                Some(t) => {
                    let removed = remove_block(t.as_str());
                    let differs = !str_eq(removed.as_str(), t.as_str());
                    updated.push(Some(removed));
                    proof {
                        if differs {
                            assert(existing@[i as int] matches Some(t) && remove_block_spec(t@) != t@);
                        }
                    }
                    changed = changed || differs;
                },
            }
            proof {
                assert forall|k: int| 0 <= k < i implies #[trigger] updated@[k] == before[k] by {}
            }
            i = i + 1;
        }
        let report = PathSetupReport {
            command: self.command(windows),
            binaries: self.binaries.clone(),
            profiles,
            registered: false,
            changed,
            path_active,
        };
        assert(report.binaries@ == self.binaries@);
        (report, updated)
    }

    /// Inspect registration: the current location is registered when some
    /// governed profile holds the block written for the first profile.
    /// `existing` holds each profile's text, `None` when it cannot be read.
    pub fn status(&self, windows: bool, existing: &[Option<String>], path_active: bool) -> (r: PathSetupReport)
        requires
            existing@.len() == profile_paths_spec(self.home@, match self.shell { Some(s) => Some(s@), None => None::<Seq<char>> }, windows).len(),
        ensures
            r.registered == (exists|i: int| 0 <= i < existing@.len() && (#[trigger] existing@[i] matches Some(t)
                && has_infix(t@, profile_block_spec(self.binaries@, if string_views(r.profiles@).len() > 0 { string_views(r.profiles@)[0] } else { Seq::empty() })))),
            !r.changed,
            string_views(r.profiles@) == profile_paths_spec(self.home@, match self.shell { Some(s) => Some(s@), None => None::<Seq<char>> }, windows),
            r.command@ == join(self.binaries@, if windows { "vapor.exe"@ } else { "vapor"@ }),
            r.binaries@ == self.binaries@,
            r.path_active == path_active,
    {
        let profiles = self.profile_paths(windows);
        let empty = String::new();
        let expected = if profiles.len() > 0 { self.profile_block(profiles[0].as_str()) } else { self.profile_block(empty.as_str()) };
        let ghost first = if string_views(profiles@).len() > 0 { string_views(profiles@)[0] } else { Seq::<char>::empty() };
        proof {
            if profiles@.len() > 0 {
                assert(string_views(profiles@)[0] == profiles@[0]@);
            }
        }
        let mut registered = false;
        let mut i: usize = 0;
        while i < existing.len()
            invariant
                i <= existing@.len(),
                expected@ == profile_block_spec(self.binaries@, first),
                registered == (exists|k: int| 0 <= k < i && (#[trigger] existing@[k] matches Some(t) && has_infix(t@, expected@))),
            decreases existing@.len() - i,
        {
            match &existing[i] {
                Some(t) => {
                    if contains(t.as_str(), expected.as_str()) {
                        assert(existing@[i as int] matches Some(t) && has_infix(t@, expected@));
                        registered = true;
                    }
                },
                None => {},
            }
            i = i + 1;
        }
        let report = PathSetupReport {
            command: self.command(windows),
            binaries: self.binaries.clone(),
            profiles,
            registered,
            changed: false,
            path_active,
        };
        assert(report.binaries@ == self.binaries@);
        report
    }
}

/// `source` without its first managed block (and the newline after it), or
/// unchanged when it holds no complete block.
pub open spec fn remove_block_spec(s: Seq<char>) -> Seq<char> {
    let start = find_from(s, BLOCK_START@, 0);
    if start < 0 {
        s
    } else {
        let end_at = find_from(s, BLOCK_END@, start);
        if end_at < 0 {
            s
        } else {
            let end = end_at + BLOCK_END@.len();
            let end2 = if end < s.len() && s[end] == '\n' { end + 1 } else { end };
            s.subrange(0, start) + s.subrange(end2, s.len() as int)
        }
    }
}

fn find_str_from(s: &str, p: &str, from: usize) -> (r: Option<usize>)
    requires
        from <= s@.len(),
    ensures
        match r {
            Some(i) => i as int == find_from(s@, p@, from as int),
            None => find_from(s@, p@, from as int) < 0,
        },
{
    let n = s.unicode_len();
    let m = p.unicode_len();
    let mut i = from;
    while i <= n && m <= n - i
        invariant
            n == s@.len(),
            m == p@.len(),
            from <= i,
            find_from(s@, p@, from as int) == find_from(s@, p@, i as int),
        decreases n + 1 - i,
    {
        if occurs_at_exec(s, p, i) {
            return Some(i);
        }
        assert(m > 0) by {
            if m == 0 {
                assert(s@.subrange(i as int, i as int) =~= p@);
            }
        }
        i = i + 1;
    }
    None
}

/// `source` without its first managed block.
pub fn remove_block(source: &str) -> (r: String)
    ensures
        r@ == remove_block_spec(source@),
{
    let n = source.unicode_len();
    let start = match find_str_from(source, BLOCK_START, 0) {
        Some(i) => i,
        None => {
            return owned(source);
        },
    };
    proof {
        lemma_find_from_bounds(source@, BLOCK_START@, 0);
    }
    let end_at = match find_str_from(source, BLOCK_END, start) {
        Some(j) => j,
        None => {
            return owned(source);
        },
    };
    proof {
        lemma_find_from_bounds(source@, BLOCK_END@, start as int);
    }
    let end = end_at + BLOCK_END.unicode_len();
    let end2 = if end < n && source.get_char(end) == '\n' { end + 1 } else { end };
    concat(source.substring_char(0, start), source.substring_char(end2, n))
}

/// A profile's text after installing `block`: any older managed block is
/// removed, a newline is added when the rest does not end with one, and the
/// block goes last.
pub open spec fn install_text_spec(existing: Seq<char>, block: Seq<char>) -> Seq<char> {
    let without = remove_block_spec(existing);
    let separator = if without.len() == 0 || without.last() == '\n' { Seq::empty() } else { "\n"@ };
    without + separator + block
}

/// A profile's text after installing `block`, and whether it changed.
pub fn install_text(existing: &str, block: &str) -> (r: (String, bool))
    ensures
        r.0@ == install_text_spec(existing@, block@),
        r.1 == (r.0@ != existing@),
{
    let without = remove_block(existing);
    let n = without.unicode_len();
    let mut updated = without.clone();
    proof {
        reveal_strlit("\n");
    }
    if !(n == 0 || without.get_char(n - 1) == '\n') {
        updated.append("\n");
    }
    updated.append(block);
    let changed = !str_eq(updated.as_str(), existing);
    (updated, changed)
}

/// No position at or after `from` holds `p` once the search from `from`
/// found nothing.
proof fn lemma_find_none(s: Seq<char>, p: Seq<char>, from: int, q: int)
    requires
        0 <= from <= q,
        find_from(s, p, from) < 0,
    ensures
        !occurs_at(s, p, q),
    decreases s.len() + 1 - from,
{
    if from + p.len() > s.len() {
    } else if occurs_at(s, p, from) {
    } else if q > from {
        lemma_find_none(s, p, from + 1, q);
    }
}

/// The search from `from` finds `q` when `p` occurs at `q` and nowhere
/// between.
proof fn lemma_find_first(s: Seq<char>, p: Seq<char>, from: int, q: int)
    requires
        0 <= from <= q,
        occurs_at(s, p, q),
        forall|r: int| from <= r < q ==> !#[trigger] occurs_at(s, p, r),
    ensures
        find_from(s, p, from) == q,
    decreases q - from,
{
    if from < q {
        lemma_find_first(s, p, from + 1, q);
    }
}

/// Searching `a + b` from inside `b` is searching `b`, shifted by `a`.
proof fn lemma_find_shift(a: Seq<char>, b: Seq<char>, p: Seq<char>, k: int)
    requires
        0 <= k,
    ensures
        find_from(a + b, p, a.len() + k) == (if find_from(b, p, k) < 0 { -1 } else { find_from(b, p, k) + a.len() }),
    decreases b.len() + 1 - k,
{
    let t = a + b;
    if k + p.len() > b.len() {
    } else {
        assert(t.subrange(a.len() + k, a.len() + k + p.len()) =~= b.subrange(k, k + p.len()));
        if !occurs_at(b, p, k) {
            lemma_find_shift(a, b, p, k + 1);
        }
    }
}

/// A managed block as installation writes it: it opens with the start
/// marker, ends with a newline, and its only end marker is its last line.
pub open spec fn block_well_formed(block: Seq<char>) -> bool {
    &&& block.len() >= BLOCK_START@.len() + BLOCK_END@.len() + 1
    &&& block.subrange(0, BLOCK_START@.len() as int) == BLOCK_START@
    &&& block.last() == '\n'
    &&& find_from(block, BLOCK_END@, 0) == block.len() - 1 - BLOCK_END@.len()
}

/// The profile text that installation keeps around its block: the old
/// text without its managed block, ending with a newline when not empty.
pub open spec fn kept_text(existing: Seq<char>) -> Seq<char> {
    let w = remove_block_spec(existing);
    w + if w.len() == 0 || w.last() == '\n' { Seq::<char>::empty() } else { "\n"@ }
}

/// Uninstalling after installing removes exactly the installed block: the
/// profile keeps its other text (with the newline installation added). This
/// holds when the rest of the profile holds no second managed block and the
/// block is well formed.
pub proof fn law_uninstall_after_install(existing: Seq<char>, block: Seq<char>)
    requires
        block_well_formed(block),
        find_from(remove_block_spec(existing), BLOCK_START@, 0) < 0,
    ensures
        remove_block_spec(install_text_spec(existing, block)) == kept_text(existing),
        install_text_spec(existing, block) == kept_text(existing) + block,
{
    reveal_strlit("# >>> Vapor managed PATH >>>");
    let start = BLOCK_START@;
    assert(start.len() == 28);
    assert(forall|j: int| 0 <= j < start.len() ==> start[j] != '\n');
    let w = remove_block_spec(existing);
    let sep: Seq<char> = if w.len() == 0 || w.last() == '\n' { Seq::empty() } else { seq!['\n'] };
    reveal_strlit("\n");
    assert(install_text_spec(existing, block) == w + sep + block);
    let ws = w + sep;
    let t = ws + block;
    assert(ws.len() == 0 || ws.last() == '\n');
    assert(t.subrange(ws.len() as int, (ws.len() + start.len()) as int) =~= block.subrange(0, start.len() as int));
    assert(occurs_at(t, start, ws.len() as int));
    assert forall|r: int| 0 <= r < ws.len() implies !#[trigger] occurs_at(t, start, r) by {
        if occurs_at(t, start, r) {
            if r + start.len() <= w.len() {
                assert(t.subrange(r, r + start.len()) =~= w.subrange(r, r + start.len()));
                lemma_find_none(w, start, 0, r);
            } else {
                let j = ws.len() - 1 - r;
                assert(0 <= j < start.len());
                assert(t[ws.len() - 1] == '\n');
                assert(t.subrange(r, r + start.len())[j] == t[ws.len() - 1]);
            }
        }
    }
    lemma_find_first(t, start, 0, ws.len() as int);
    lemma_find_shift(ws, block, BLOCK_END@, 0);
    assert(find_from(t, BLOCK_END@, ws.len() as int) == ws.len() + block.len() - 1 - BLOCK_END@.len());
    assert(t[t.len() - 1] == '\n');
    assert(remove_block_spec(t) =~= ws);
    assert(kept_text(existing) =~= ws);
}

/// Installing a managed block is idempotent: installing the same block
/// again leaves the profile as the first installation wrote it, so a second
/// registration reports no change. This holds when the rest of the profile
/// holds no second managed block and the block is well formed.
pub proof fn law_install_idempotent(existing: Seq<char>, block: Seq<char>)
    requires
        block_well_formed(block),
        find_from(remove_block_spec(existing), BLOCK_START@, 0) < 0,
    ensures
        install_text_spec(install_text_spec(existing, block), block) == install_text_spec(existing, block),
{
    law_uninstall_after_install(existing, block);
    let ws = kept_text(existing);
    reveal_strlit("\n");
    assert(ws.len() == 0 || ws.last() == '\n');
    assert(install_text_spec(ws + block, block) =~= ws + block);
}

/// A block built as the start marker, text without `#`, quoted text that
/// holds no end marker, and text that opens with a quote and has no `#`,
/// closed by the end marker and a newline, is well formed.
proof fn lemma_block_shape(x: Seq<char>, q: Seq<char>, mid: Seq<char>)
    requires
        forall|j: int| 0 <= j < x.len() ==> x[j] != '#',
        !has_infix(q, BLOCK_END@),
        mid.len() > 0,
        mid[0] == '\'',
        forall|j: int| 0 <= j < mid.len() ==> mid[j] != '#',
    ensures
        block_well_formed(BLOCK_START@ + x + q + mid + BLOCK_END@ + "\n"@),
{
    reveal_strlit("# >>> Vapor managed PATH >>>");
    reveal_strlit("# <<< Vapor managed PATH <<<");
    reveal_strlit("\n");
    let st = BLOCK_START@;
    let e = BLOCK_END@;
    assert(st.len() == 28 && e.len() == 28);
    assert(forall|j: int| 1 <= j < st.len() ==> st[j] != '#');
    assert(forall|j: int| 0 <= j < e.len() ==> e[j] != '\'');
    let a = st + x;
    let aq = a + q;
    let m = aq + mid;
    let t = m + e + "\n"@;
    let pos = m.len() as int;
    assert(t.subrange(pos, pos + e.len()) =~= e);
    assert(t.subrange(0, st.len() as int) =~= st);
    assert forall|r: int| 0 <= r < pos implies !#[trigger] occurs_at(t, e, r) by {
        if occurs_at(t, e, r) {
            assert(t.subrange(r, r + e.len())[0] == t[r]);
            assert(t[r] == '#');
            if r < st.len() {
                assert(t[r] == st[r]);
                assert(r == 0);
                assert(t.subrange(r, r + e.len())[2] == t[2]);
                assert(t[2] == st[2]);
            } else if r < a.len() {
                assert(t[r] == x[r - st.len()]);
            } else if r < aq.len() {
                if r + e.len() <= aq.len() {
                    assert(q.subrange(r - a.len(), r - a.len() + e.len()) =~= t.subrange(r, r + e.len()));
                    assert(occurs_at(q, e, r - a.len()));
                } else {
                    let j = aq.len() - r;
                    assert(t.subrange(r, r + e.len())[j] == t[aq.len() as int]);
                    assert(t[aq.len() as int] == mid[0]);
                }
            } else {
                assert(t[r] == mid[r - aq.len()]);
            }
        }
    }
    lemma_find_first(t, e, 0, pos);
}

/// The managed block of any profile is well formed when the quoted `bin`
/// directory holds no end marker.
proof fn lemma_profile_block_well_formed(binaries: Seq<char>, profile: Seq<char>)
    requires
        !has_infix(shell_quote_spec(binaries), BLOCK_END@),
    ensures
        block_well_formed(profile_block_spec(binaries, profile)),
{
    let q = shell_quote_spec(binaries);
    if is_fish_profile(profile) {
        let x = "\nfish_add_path --prepend --global '"@;
        let mid = "'\n"@;
        reveal_strlit("\nfish_add_path --prepend --global '");
        reveal_strlit("'\n");
        assert(forall|j: int| 0 <= j < x.len() ==> x[j] != '#');
        lemma_block_shape(x, q, mid);
    } else {
        let x = "\nVAPOR_BIN='"@;
        let mid = "'\ncase \":$PATH:\" in\n    *\":$VAPOR_BIN:\"*) ;;\n    *) export PATH=\"$VAPOR_BIN${PATH:+:$PATH}\" ;;\nesac\nunset VAPOR_BIN\n"@;
        reveal_strlit("\nVAPOR_BIN='");
        reveal_strlit("'\ncase \":$PATH:\" in\n    *\":$VAPOR_BIN:\"*) ;;\n    *) export PATH=\"$VAPOR_BIN${PATH:+:$PATH}\" ;;\nesac\nunset VAPOR_BIN\n");
        assert(forall|j: int| 0 <= j < x.len() ==> x[j] != '#');
        assert(forall|j: int| 0 <= j < mid.len() ==> mid[j] != '#');
        lemma_block_shape(x, q, mid);
    }
}

/// Registering `PATH` and then unregistering it restores every governed
/// profile (on a host other than Windows, where profiles are governed): a
/// profile that held no managed block and was empty or ended with a newline
/// (an absent one counting as empty) gets back exactly its text, and each
/// changed, so the removal reports a change. Text without a managed block is
/// never altered by the removal. This holds when the quoted `bin` directory
/// does not itself hold the end marker.
pub proof fn law_path_setup_round_trip(home: Seq<char>, shell: Option<Seq<char>>, binaries: Seq<char>, texts: Seq<Seq<char>>)
    requires
        !has_infix(shell_quote_spec(binaries), BLOCK_END@),
        texts.len() == profile_paths_spec(home, shell, false).len(),
        forall|i: int| 0 <= i < texts.len() ==> find_from(#[trigger] texts[i], BLOCK_START@, 0) < 0
            && (texts[i].len() == 0 || texts[i].last() == '\n'),
    ensures
        profile_paths_spec(home, shell, false).len() > 0,
        forall|i: int| 0 <= i < texts.len() ==> {
            let installed = install_text_spec(#[trigger] texts[i], profile_block_spec(binaries, profile_paths_spec(home, shell, false)[i]));
            &&& remove_block_spec(installed) == texts[i]
            &&& installed != texts[i]
        },
        forall|t: Seq<char>| find_from(t, BLOCK_START@, 0) < 0 ==> #[trigger] remove_block_spec(t) == t,
{
    let profiles = profile_paths_spec(home, shell, false);
    assert forall|i: int| 0 <= i < texts.len() implies {
        let installed = install_text_spec(#[trigger] texts[i], profile_block_spec(binaries, profiles[i]));
        &&& remove_block_spec(installed) == texts[i]
        &&& installed != texts[i]
    } by {
        let c = texts[i];
        let block = profile_block_spec(binaries, profiles[i]);
        lemma_profile_block_well_formed(binaries, profiles[i]);
        assert(remove_block_spec(c) == c);
        law_uninstall_after_install(c, block);
        assert(kept_text(c) =~= c);
        assert((kept_text(c) + block).len() > c.len());
    }
}

/// Registering `PATH` twice changes nothing the second time: every governed
/// profile already holds exactly what the second registration would write,
/// so it reports no change. This holds when the quoted `bin` directory does
/// not hold the end marker and no profile held a second managed block
/// besides the one registration replaces.
pub proof fn law_path_setup_install_twice(home: Seq<char>, shell: Option<Seq<char>>, windows: bool, binaries: Seq<char>, texts: Seq<Seq<char>>)
    requires
        !has_infix(shell_quote_spec(binaries), BLOCK_END@),
        texts.len() == profile_paths_spec(home, shell, windows).len(),
        forall|i: int| 0 <= i < texts.len() ==> find_from(remove_block_spec(#[trigger] texts[i]), BLOCK_START@, 0) < 0,
    ensures
        forall|i: int| 0 <= i < texts.len() ==> {
            let block = profile_block_spec(binaries, profile_paths_spec(home, shell, windows)[i]);
            install_text_spec(install_text_spec(#[trigger] texts[i], block), block) == install_text_spec(texts[i], block)
        },
{
    let profiles = profile_paths_spec(home, shell, windows);
    assert forall|i: int| 0 <= i < texts.len() implies {
        let block = profile_block_spec(binaries, profiles[i]);
        install_text_spec(install_text_spec(#[trigger] texts[i], block), block) == install_text_spec(texts[i], block)
    } by {
        lemma_profile_block_well_formed(binaries, profiles[i]);
        law_install_idempotent(texts[i], profile_block_spec(binaries, profiles[i]));
    }
}

} // verus!
