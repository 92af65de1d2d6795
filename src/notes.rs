//! The notes root, the command-line configuration, and the decisions of the
//! two operations: search, and opening today's note.
use vstd::prelude::*;
use vstd::string::{StrSliceExecFns, StringExecFns};
use crate::date::{daily_note_name, daily_note_name_of, CalendarDate};

verus! {

/// What to do about a path that should exist: create it, or keep what is there.
#[derive(Clone, Copy, Debug, PartialEq, Eq, Structural)]
pub enum FsStep {
    Create,
    Keep,
}

/// What became of the notes root before the configuration was built.
#[derive(Clone, Copy, Debug, PartialEq, Eq, Structural)]
pub enum RootOutcome {
    /// The directory was already there.
    Existing,
    /// The directory was missing and has been created.
    Created,
    /// The directory was missing and could not be created.
    CreateFailed,
}

/// The resolved configuration: the optional search term and the notes root.
pub struct Config {
    pub query: Option<String>,
    pub repo_url: String,
}

/// What one invocation does.
pub enum Task {
    /// Search the notes root for a term.
    Search { root: String, term: String },
    /// Open today's note under the notes root.
    OpenToday { root: String },
}

/// The name of the notes root inside the home directory.
pub open spec fn notes_dir_name() -> Seq<char> {
    seq!['.', 'n', 'o', 'v', 'a']
}

/// `name` joined onto `base` as a path: a separator is put between them unless
/// `base` is empty or already ends with one.
pub open spec fn join_path(base: Seq<char>, name: Seq<char>) -> Seq<char> {
    if base.len() == 0 {
        name
    } else if base.last() == '/' {
        base + name
    } else {
        base + seq!['/'] + name
    }
}

/// The notes root for a home directory: `<home>/.nova`.
pub open spec fn notes_root_of(home: Seq<char>) -> Seq<char> {
    join_path(home, notes_dir_name())
}

/// A path is created where it is missing and kept where it exists.
pub open spec fn ensure_step_of(exists: bool) -> FsStep {
    if exists {
        FsStep::Keep
    } else {
        FsStep::Create
    }
}

/// The directories on disk after the notes root at `root` has been resolved.
pub open spec fn dirs_after_resolve(dirs: Set<Seq<char>>, root: Seq<char>) -> Set<Seq<char>> {
    match ensure_step_of(dirs.contains(root)) {
        FsStep::Create => dirs.insert(root),
        FsStep::Keep => dirs,
    }
}

/// The path of the daily note for `date` under `root`.
pub open spec fn daily_note_path(root: Seq<char>, date: CalendarDate) -> Seq<char> {
    root + seq!['/'] + daily_note_name_of(date)
}

/// The files on disk, path to contents, after the note at `path` has been
/// made sure of: an empty file where there was none, the old file otherwise.
pub open spec fn files_after_ensure(files: Map<Seq<char>, Seq<char>>, path: Seq<char>) -> Map<
    Seq<char>,
    Seq<char>,
> {
    match ensure_step_of(files.contains_key(path)) {
        FsStep::Create => files.insert(path, Seq::empty()),
        FsStep::Keep => files,
    }
}

/// Whether a path that should exist is to be created or kept.
pub fn ensure_step(exists: bool) -> (r: FsStep)
    ensures
        r == ensure_step_of(exists),
{
    if exists {
        FsStep::Keep
    } else {
        FsStep::Create
    }
}

/// The notes root for the home directory `home`.
pub fn notes_root(home: &str) -> (r: String)
    ensures
        r@ == notes_root_of(home@),
{
    let n = home.unicode_len();
    proof {
        reveal_strlit(".nova");
        reveal_strlit("/.nova");
    }
    let base = String::from_str(home);
    if n == 0 {
        String::from_str(".nova")
    } else if home.get_char(n - 1) == '/' {
        base.concat(".nova")
    } else {
        assert(seq!['/'] + notes_dir_name() =~= "/.nova"@);
        assert(home@ + seq!['/'] + notes_dir_name() =~= home@ + "/.nova"@);
        base.concat("/.nova")
    }
}

impl Config {
    /// Builds the configuration from the command-line arguments (the first
    /// is the program's name, the second, if any, the search term), the home
    /// directory, and what became of the notes root. Fails exactly when the
    /// notes root could not be created.
    pub fn build(args: Vec<String>, home: &str, root: RootOutcome) -> (r: Result<
        Config,
        &'static str,
    >)
        ensures
            r is Err <==> root == RootOutcome::CreateFailed,
            r matches Ok(c) ==> c.repo_url@ == notes_root_of(home@) && c.query == (if args@.len()
                >= 2 {
                Some(args@[1])
            } else {
                None
            }),
    {
        if root == RootOutcome::CreateFailed {
            return Err("Cannot create the notes directory");
        }
        let query = if args.len() >= 2 {
            Some(args[1].clone())
        } else {
            None
        };
        Ok(Config { query, repo_url: notes_root(home) })
    }
}

/// The path of today's note under `dir`, given today's date.
pub fn open(dir: &str, today: &CalendarDate) -> (r: String)
    requires
        today.wf(),
    ensures
        r@ == daily_note_path(dir@, *today),
{
    let name = daily_note_name(today);
    proof {
        reveal_strlit("/");
    }
    let with_sep = String::from_str(dir).concat("/");
    let r = with_sep.concat(name.as_str());
    assert(r@ =~= daily_note_path(dir@, *today));
    r
}

/// Chooses the operation: a search where a term was given, today's note
/// otherwise, both on the configured notes root.
pub fn run(config: Config) -> (r: Task)
    ensures
        match config.query {
            Some(q) => r == (Task::Search { root: config.repo_url, term: q }),
            None => r == (Task::OpenToday { root: config.repo_url }),
        },
{
    match config.query {
        Some(q) => Task::Search { root: config.repo_url, term: q },
        None => Task::OpenToday { root: config.repo_url },
    }
}

/// Resolving the notes root twice in a row: the second time the directory
/// is already there, so it is kept and nothing more is created.
pub proof fn lemma_resolve_root_twice(home: Seq<char>, dirs: Set<Seq<char>>)
    ensures
        dirs_after_resolve(dirs, notes_root_of(home)).contains(notes_root_of(home)),
        ensure_step_of(dirs_after_resolve(dirs, notes_root_of(home)).contains(notes_root_of(home)))
            == FsStep::Keep,
        dirs_after_resolve(dirs_after_resolve(dirs, notes_root_of(home)), notes_root_of(home))
            == dirs_after_resolve(dirs, notes_root_of(home)),
{
}

/// Opening today's note: where it was missing, an empty file now stands at
/// `<root>/DD-MM-YYYY.md`; where it was there, its contents are kept; no other
/// file changes; and opening it again the same day changes nothing.
pub proof fn lemma_open_daily_note_twice(
    root: Seq<char>,
    date: CalendarDate,
    files: Map<Seq<char>, Seq<char>>,
)
    requires
        date.wf(),
    ensures
        ({
            let p = daily_note_path(root, date);
            let once = files_after_ensure(files, p);
            &&& once.contains_key(p)
            &&& !files.contains_key(p) ==> once[p] == Seq::<char>::empty()
            &&& files.contains_key(p) ==> once[p] == files[p]
            &&& forall|q: Seq<char>| q != p ==> once.contains_key(q) == files.contains_key(q)
            &&& forall|q: Seq<char>| q != p && files.contains_key(q) ==> once[q] == files[q]
            &&& ensure_step_of(once.contains_key(p)) == FsStep::Keep
            &&& files_after_ensure(once, p) == once
        }),
{
}

} // verus!
