//! Command-line decisions: playback order, which commit to start from,
//! whether the repository stays attached, and how settings are merged
//! (command line over configuration file over defaults).

use vstd::prelude::*;
use vstd::string::StringExecFns;
use crate::config::{Config, strings_view};
use crate::player::{CommitRequest, CommitRequestView, order_request, request_for_order};
use crate::text::{
    blank, chars_of, contains_double_dot, find_last, has_double_dot, is_blank, last_index_of,
    lemma_last_index_of_bounds, lines_of, split_lines, str_eq, string_from_prefix, string_views,
};

verus! {

/// Order in which commits are played back.
#[derive(Debug, Clone, Copy, Default, PartialEq, Eq, Structural)]
pub enum PlaybackOrder {
    #[default]
    Random,
    Asc,
    Desc,
}

/// The order a configuration file names: `"asc"`, `"desc"`, anything else is random.
pub open spec fn order_named(name: Seq<char>) -> PlaybackOrder {
    if name == "asc"@ {
        PlaybackOrder::Asc
    } else if name == "desc"@ {
        PlaybackOrder::Desc
    } else {
        PlaybackOrder::Random
    }
}

/// A commit argument selects a range when it contains `..`.
pub fn is_range_mode(commit: Option<&str>) -> (r: bool)
    ensures
        r == match commit {
            Some(spec) => has_double_dot(spec@),
            None => false,
        },
{
    match commit {
        Some(spec) => contains_double_dot(spec),
        None => false,
    }
}

/// The playback order: the command line wins; without it, range and
/// filtered playback go oldest first, otherwise the configured order.
pub fn resolve_order(
    cli_order: Option<PlaybackOrder>,
    config_order: &str,
    is_range_mode: bool,
    is_filtered: bool,
) -> (r: PlaybackOrder)
    ensures
        r == match cli_order {
            Some(o) => o,
            None => if is_range_mode || is_filtered {
                PlaybackOrder::Asc
            } else {
                order_named(config_order@)
            },
        },
{
    proof {
        reveal_strlit("asc");
        reveal_strlit("desc");
    }
    let configured = if str_eq(config_order, "asc") {
        PlaybackOrder::Asc
    } else if str_eq(config_order, "desc") {
        PlaybackOrder::Desc
    } else {
        PlaybackOrder::Random
    };
    match cli_order {
        Some(o) => o,
        None => if is_range_mode || is_filtered {
            PlaybackOrder::Asc
        } else {
            configured
        },
    }
}

/// The repository stays attached to the player unless exactly one commit
/// was asked for, without range, filter or looping.
pub fn should_keep_repo_ref(
    is_range_mode: bool,
    is_filtered: bool,
    is_commit_specified: bool,
    loop_playback: bool,
) -> (r: bool)
    ensures
        r == (is_range_mode || is_filtered || !is_commit_specified || loop_playback),
{
    is_range_mode || is_filtered || !is_commit_specified || loop_playback
}

/// The command line.
pub struct Args {
    /// Path to the repository (the current directory when absent).
    pub path: Option<String>,
    /// A commit, or a range of commits when it contains `..`.
    pub commit: Option<String>,
    /// Milliseconds per typed character.
    pub speed: Option<u64>,
    /// Theme name.
    pub theme: Option<String>,
    /// Whether to draw background colours.
    pub background: Option<bool>,
    /// Playback order.
    pub order: Option<PlaybackOrder>,
    /// Whether to loop playback.
    pub loop_playback: Option<bool>,
    /// Show the third-party licences and stop.
    pub license: bool,
    /// Only commits whose author matches.
    pub author: Option<String>,
    /// Only commits before this date.
    pub before: Option<String>,
    /// Only commits after this date.
    pub after: Option<String>,
    /// Ignore patterns (gitignore syntax).
    pub ignore: Vec<String>,
    /// A file of ignore patterns, one per line.
    pub ignore_file: Option<String>,
    /// Per-file typing speeds, `PATTERN:MS`.
    pub speed_rule: Vec<String>,
    /// A subcommand.
    pub command: Option<Commands>,
}

/// Subcommands.
pub enum Commands {
    /// Theme management.
    Theme { command: ThemeCommands },
    /// Replay the working tree's staged (or unstaged) changes.
    Diff {
        unstaged: bool,
        speed: Option<u64>,
        theme: Option<String>,
        background: Option<bool>,
        loop_playback: Option<bool>,
        ignore: Vec<String>,
        speed_rule: Vec<String>,
    },
}

/// Theme subcommands.
pub enum ThemeCommands {
    /// List the themes.
    List,
    /// Make a theme the default in the settings file (the `set`
    /// subcommand).
    SetDefault { name: String },
}

/// Why the repository path was refused.
#[derive(Debug, PartialEq, Eq)]
pub enum ValidateError {
    /// The path given does not exist.
    PathDoesNotExist(String),
    /// The path could not be made absolute.
    ResolveFailed,
    /// Neither the path nor a directory above it holds `.git`.
    NotARepository(String),
}

impl ValidateError {
    /// The error's message.
    pub fn message(&self) -> (m: String)
        ensures
            m@ == match self {
                ValidateError::PathDoesNotExist(p) => "Path does not exist: "@ + p@,
                ValidateError::ResolveFailed => "Failed to resolve path"@,
                ValidateError::NotARepository(p) => "Not a Git repository: "@ + p@ + " (or any parent directories)"@,
            },
    {
        match self {
            ValidateError::PathDoesNotExist(p) => {
                let mut m = String::from_str("Path does not exist: ");
                m.append(p.as_str());
                m
            },
            ValidateError::ResolveFailed => String::from_str("Failed to resolve path"),
            ValidateError::NotARepository(p) => {
                let mut m = String::from_str("Not a Git repository: ");
                m.append(p.as_str());
                m.append(" (or any parent directories)");
                m
            },
        }
    }
}

/// The parent directory of a normalised path (no `.` or `..` components,
/// no repeated or trailing `/`), as `Path::parent` gives it: the text
/// before the last `/` (the root when that is empty); the empty path for a
/// single relative component; none for the root and the empty path.
pub open spec fn parent_path(p: Seq<char>) -> Option<Seq<char>> {
    let k = last_index_of(p, '/');
    if p.len() == 0 {
        None
    } else if k < 0 {
        Some(Seq::empty())
    } else if k == 0 {
        if p.len() == 1 {
            None
        } else {
            Some("/"@)
        }
    } else {
        Some(p.take(k))
    }
}

/// A parent is shorter than its child.
pub proof fn lemma_parent_shorter(p: Seq<char>)
    ensures
        parent_path(p) matches Some(q) ==> q.len() < p.len(),
{
    lemma_last_index_of_bounds(p, '/');
    reveal_strlit("/");
}

/// The path and the directories above it, nearest first.
pub open spec fn ancestors(p: Seq<char>) -> Seq<Seq<char>>
    decreases p.len(),
{
    proof {
        lemma_parent_shorter(p);
    }
    match parent_path(p) {
        Some(q) => seq![p] + ancestors(q),
        None => seq![p],
    }
}

/// The directories searched for `.git`, nearest first: from the path
/// itself, or from its directory when it names a file, up to the root.
pub open spec fn root_candidates(canonical: Seq<char>, is_file: bool) -> Seq<Seq<char>> {
    if is_file {
        match parent_path(canonical) {
            Some(d) => ancestors(d),
            None => Seq::empty(),
        }
    } else {
        ancestors(canonical)
    }
}

/// Candidate `i` is the first one found to hold `.git`.
pub open spec fn is_first_root(candidates: Seq<Seq<char>>, has_git: Seq<bool>, i: int) -> bool {
    &&& 0 <= i < candidates.len()
    &&& i < has_git.len()
    &&& has_git[i]
    &&& forall|j: int| 0 <= j < i ==> !#[trigger] has_git[j]
}

/// `root` is the first candidate found to hold `.git`.
pub open spec fn is_root_found(root: Seq<char>, candidates: Seq<Seq<char>>, has_git: Seq<bool>) -> bool {
    exists|i: int| is_first_root(candidates, has_git, i) && root == candidates[i]
}

/// Some candidate was found to hold `.git`.
pub open spec fn some_root(candidates: Seq<Seq<char>>, has_git: Seq<bool>) -> bool {
    exists|i: int| 0 <= i < candidates.len() && i < has_git.len() && #[trigger] has_git[i]
}

/// `parent_path` computed.
pub fn parent_of(p: &str) -> (r: Option<String>)
    ensures
        match (r, parent_path(p@)) {
            (Some(a), Some(b)) => a@ == b,
            (None, None) => true,
            _ => false,
        },
{
    proof {
        reveal_strlit("/");
        lemma_last_index_of_bounds(p@, '/');
    }
    let v = chars_of(p);
    if v.len() == 0 {
        return None;
    }
    match find_last(&v, '/') {
        None => Some(String::new()),
        Some(k) => {
            if k == 0 {
                if v.len() == 1 {
                    None
                } else {
                    Some(String::from_str("/"))
                }
            } else {
                Some(string_from_prefix(&v, k))
            }
        },
    }
}

/// `ancestors` computed.
pub fn ancestor_paths(p: &str) -> (r: Vec<String>)
    ensures
        string_views(r@) == ancestors(p@),
{
    let mut out: Vec<String> = Vec::new();
    let mut cur = String::from_str(p);
    assert(string_views(out@) + ancestors(cur@) =~= ancestors(p@));
    loop
        invariant
            string_views(out@) + ancestors(cur@) == ancestors(p@),
        decreases cur@.len(),
    {
        let parent = parent_of(cur.as_str());
        proof {
            lemma_parent_shorter(cur@);
        }
        let ghost before = string_views(out@);
        let ghost c = cur@;
        match parent {
            Some(q) => {
                let done = cur;
                out.push(done);
                assert(string_views(out@) =~= before.push(c));
                assert(ancestors(c) == seq![c] + ancestors(q@));
                assert(string_views(out@) + ancestors(q@) =~= before + (seq![c] + ancestors(q@)));
                cur = q;
            },
            None => {
                out.push(cur);
                assert(string_views(out@) =~= before.push(c));
                assert(ancestors(c) == seq![c]);
                assert(string_views(out@) =~= ancestors(p@));
                return out;
            },
        }
    }
}

/// The directories to search for `.git` (see `root_candidates`).
pub fn git_root_candidates(canonical: &str, is_file: bool) -> (r: Vec<String>)
    ensures
        string_views(r@) == root_candidates(canonical@, is_file),
{
    if is_file {
        match parent_of(canonical) {
            Some(d) => ancestor_paths(d.as_str()),
            None => {
                let r: Vec<String> = Vec::new();
                assert(string_views(r@) =~= Seq::<Seq<char>>::empty());
                r
            },
        }
    } else {
        ancestor_paths(canonical)
    }
}

/// The path the command line names: `.` when it names none.
pub open spec fn start_path_of(args: Args) -> Seq<char> {
    match args.path {
        Some(p) => p@,
        None => "."@,
    }
}

impl Args {
    /// The path the command line names (see `start_path_of`).
    pub fn start_path(&self) -> (p: String)
        ensures
            p@ == start_path_of(*self),
    {
        match &self.path {
            Some(p) => p.clone(),
            None => String::from_str("."),
        }
    }

    /// The repository's root directory, from what the file system says of
    /// the path the command line names: whether it exists, its absolute
    /// form (`None` when that failed), whether it is a file, and, for each
    /// of `git_root_candidates` in turn, whether it holds `.git` (a
    /// candidate past the end of `has_git` counts as not holding it). The
    /// root is the first candidate holding `.git`.
    pub fn validate(&self, exists: bool, canonical: Option<&str>, is_file: bool, has_git: &Vec<bool>) -> (r: Result<
        String,
        ValidateError,
    >)
        ensures
            !exists ==> (r matches Err(ValidateError::PathDoesNotExist(p)) && p@ == start_path_of(*self)),
            exists && canonical is None ==> r matches Err(ValidateError::ResolveFailed),
            exists && canonical is Some ==> (r is Ok <==> some_root(
                root_candidates(canonical->0@, is_file),
                has_git@,
            )),
            exists && canonical is Some && r is Ok ==> (r matches Ok(root) && is_root_found(
                root@,
                root_candidates(canonical->0@, is_file),
                has_git@,
            )),
            exists && canonical is Some && r is Err ==> (r matches Err(ValidateError::NotARepository(p)) && p@
                == start_path_of(*self)),
    {
        let start = self.start_path();
        if !exists {
            return Err(ValidateError::PathDoesNotExist(start));
        }
        let c = match canonical {
            Some(c) => c,
            None => {
                return Err(ValidateError::ResolveFailed);
            },
        };
        match Self::find_git_root(c, is_file, has_git) {
            Some(root) => Ok(root),
            None => Err(ValidateError::NotARepository(start)),
        }
    }

    /// The repository's root above an absolute path: the first of
    /// `git_root_candidates` that holds `.git`, as `has_git` says for each
    /// candidate in turn (a candidate past its end counts as not holding
    /// it); `None` when no candidate does.
    pub fn find_git_root(canonical: &str, is_file: bool, has_git: &Vec<bool>) -> (r: Option<String>)
        ensures
            r is Some <==> some_root(root_candidates(canonical@, is_file), has_git@),
            r matches Some(root) ==> is_root_found(root@, root_candidates(canonical@, is_file), has_git@),
    {
        let cands = git_root_candidates(canonical, is_file);
        let ghost cv = root_candidates(canonical@, is_file);
        let mut i: usize = 0;
        while i < cands.len() && i < has_git.len()
            invariant
                cv == root_candidates(canonical@, is_file),
                string_views(cands@) == cv,
                i <= cands@.len(),
                forall|j: int| 0 <= j < i && j < has_git@.len() ==> !#[trigger] has_git@[j],
            decreases cands@.len() - i,
        {
            if has_git[i] {
                let root = cands[i].clone();
                assert(cv[i as int] == cands@[i as int]@);
                assert(root@ == cv[i as int]);
                assert(is_first_root(cv, has_git@, i as int));
                assert(is_root_found(root@, cv, has_git@));
                return Some(root);
            }
            i += 1;
        }
        assert(!some_root(cv, has_git@));
        None
    }


    /// Whether the command line filters commits (by author or date).
    pub fn is_filtered(&self) -> (r: bool)
        ensures
            r == (self.author is Some || self.before is Some || self.after is Some),
    {
        self.author.is_some() || self.before.is_some() || self.after.is_some()
    }
}

/// A line of an ignore file that holds a pattern: not blank and not a
/// `#` comment.
pub open spec fn pattern_line(l: Seq<char>) -> bool {
    !is_blank(l) && !(l.len() > 0 && l[0] == '#')
}

/// The ignore patterns in force: the settings file's, then the ignore
/// file's pattern lines, then the command line's.
pub open spec fn ignore_patterns_of(config: Seq<Seq<char>>, file_text: Option<Seq<char>>, cli: Seq<Seq<char>>) -> Seq<
    Seq<char>,
> {
    config + match file_text {
        Some(t) => lines_of(t).filter(|l: Seq<char>| pattern_line(l)),
        None => Seq::empty(),
    } + cli
}

fn push_all(out: &mut Vec<String>, items: &Vec<String>)
    ensures
        string_views(final(out)@) == string_views(old(out)@) + string_views(items@),
{
    let ghost start = string_views(out@);
    let mut i: usize = 0;
    while i < items.len()
        invariant
            i <= items@.len(),
            string_views(out@) == start + string_views(items@).take(i as int),
        decreases items@.len() - i,
    {
        let c = items[i].clone();
        let ghost before = out@;
        out.push(c);
        assert(string_views(out@) =~= string_views(before).push(c@));
        assert(string_views(out@) =~= start + string_views(items@).take(i + 1));
        i += 1;
    }
    assert(string_views(items@).take(items@.len() as int) =~= string_views(items@));
}

/// The ignore patterns in force (see `ignore_patterns_of`), given the
/// text of the ignore file (`None` when there is none or it cannot be
/// read).
pub fn collect_ignore_patterns(config_patterns: &Vec<String>, ignore_file: Option<&str>, cli_patterns: &Vec<String>) -> (r: Vec<String>)
    ensures
        string_views(r@) == ignore_patterns_of(
            string_views(config_patterns@),
            match ignore_file {
                Some(t) => Some(t@),
                None => None,
            },
            string_views(cli_patterns@),
        ),
{
    let mut out: Vec<String> = Vec::new();
    assert(string_views(out@) =~= Seq::<Seq<char>>::empty());
    push_all(&mut out, config_patterns);
    let ghost head = string_views(out@);
    let ghost keep = |l: Seq<char>| pattern_line(l);
    match ignore_file {
        Some(text) => {
            let lines = split_lines(text);
            let mut i: usize = 0;
            while i < lines.len()
                invariant
                    i <= lines@.len(),
                    string_views(lines@) == lines_of(text@),
                    keep == (|l: Seq<char>| pattern_line(l)),
                    string_views(out@) == head + string_views(lines@).take(i as int).filter(keep),
                decreases lines@.len() - i,
            {
                let ghost prefix = string_views(lines@).take(i as int);
                proof {
                    assert(string_views(lines@).take(i + 1) =~= prefix.push(lines@[i as int]@));
                    prefix.lemma_filter_push(lines@[i as int]@, keep);
                }
                let l = lines[i].as_str();
                let is_comment = l.unicode_len() > 0 && l.get_char(0) == '#';
                if !blank(l) && !is_comment {
                    let c = lines[i].clone();
                    let ghost before = out@;
                    out.push(c);
                    assert(string_views(out@) =~= string_views(before).push(c@));
                }
                i += 1;
            }
            assert(string_views(lines@).take(lines@.len() as int) =~= string_views(lines@));
        },
        None => {
            assert(head + Seq::<Seq<char>>::empty() =~= head);
        },
    }
    push_all(&mut out, cli_patterns);
    out
}

/// What loading the first commit asks of the repository: for a range,
/// the range (to select first) and the range's request in `order`; for a
/// single commit, that commit; otherwise the history's request in `order`.
pub fn load_initial_commit(commit: Option<&str>, order: PlaybackOrder) -> (r: (Option<String>, CommitRequest))
    ensures
        match commit {
            Some(c) => if has_double_dot(c@) {
                (r.0 matches Some(range) && range@ == c@) && r.1@ == order_request(order, true)
            } else {
                r.0 is None && r.1@ == CommitRequestView::Specific(c@)
            },
            None => r.0 is None && r.1@ == order_request(order, false),
        },
{
    match commit {
        Some(c) => {
            if contains_double_dot(c) {
                (Some(String::from_str(c)), request_for_order(order, true))
            } else {
                (None, CommitRequest::Specific(String::from_str(c)))
            }
        },
        None => (None, request_for_order(order, false)),
    }
}

/// The playback order chosen (see `resolve_order`).
pub open spec fn resolved_order(
    cli_order: Option<PlaybackOrder>,
    config_order: Seq<char>,
    is_range_mode: bool,
    is_filtered: bool,
) -> PlaybackOrder {
    match cli_order {
        Some(o) => o,
        None => if is_range_mode || is_filtered {
            PlaybackOrder::Asc
        } else {
            order_named(config_order)
        },
    }
}

/// The settings playback runs with.
pub struct PlaybackSettings {
    pub theme: String,
    pub speed: u64,
    pub background: bool,
    pub order: PlaybackOrder,
    pub loop_playback: bool,
}

/// The value the command line gives, else the settings file's.
pub open spec fn chosen<T>(cli: Option<T>, config: T) -> T {
    match cli {
        Some(v) => v,
        None => config,
    }
}

/// The text the command line gives, else the settings file's.
pub open spec fn chosen_text(cli: Option<String>, config: Seq<char>) -> Seq<char> {
    match cli {
        Some(v) => v@,
        None => config,
    }
}

fn text_or(cli: &Option<String>, config: &String) -> (r: String)
    ensures
        r@ == chosen_text(*cli, config@),
{
    match cli {
        Some(v) => v.clone(),
        None => config.clone(),
    }
}

/// The settings of commit playback: each from the command line, else from
/// the settings file; the order as `resolve_order` chooses it.
pub fn playback_settings(args: &Args, config: &Config, is_range_mode: bool, is_filtered: bool) -> (r: PlaybackSettings)
    ensures
        r.theme@ == chosen_text(args.theme, config.theme@),
        r.speed == chosen(args.speed, config.speed),
        r.background == chosen(args.background, config.background),
        r.order == resolved_order(args.order, config.order@, is_range_mode, is_filtered),
        r.loop_playback == chosen(args.loop_playback, config.loop_playback),
{
    PlaybackSettings {
        theme: text_or(&args.theme, &config.theme),
        speed: match args.speed {
            Some(s) => s,
            None => config.speed,
        },
        background: match args.background {
            Some(b) => b,
            None => config.background,
        },
        order: resolve_order(args.order, config.order.as_str(), is_range_mode, is_filtered),
        loop_playback: match args.loop_playback {
            Some(l) => l,
            None => config.loop_playback,
        },
    }
}

/// The settings of working-tree playback: each from the subcommand's
/// options, else from the settings file; oldest first; looping only when
/// asked for.
pub fn diff_settings(
    speed: Option<u64>,
    theme: &Option<String>,
    background: Option<bool>,
    loop_playback: Option<bool>,
    config: &Config,
) -> (r: PlaybackSettings)
    ensures
        r.theme@ == chosen_text(*theme, config.theme@),
        r.speed == chosen(speed, config.speed),
        r.background == chosen(background, config.background),
        r.order == PlaybackOrder::Asc,
        r.loop_playback == chosen(loop_playback, false),
{
    PlaybackSettings {
        theme: text_or(theme, &config.theme),
        speed: match speed {
            Some(s) => s,
            None => config.speed,
        },
        background: match background {
            Some(b) => b,
            None => config.background,
        },
        order: PlaybackOrder::Asc,
        loop_playback: match loop_playback {
            Some(l) => l,
            None => false,
        },
    }
}

} // verus!
