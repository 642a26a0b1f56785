//! Resolution of the task file that belongs to a working directory.
//!
//! The directory listings are taken as plain values: each entry carries its
//! name, whether it is a directory, and its modification time in nanoseconds
//! since the Unix epoch. Every function here is a pure function of them, so a
//! resolution reflects exactly the listing it is handed and caches nothing.
use vstd::prelude::*;
use vstd::string::*;
use crate::todo::text_eq;

verus! {

/// One entry of a directory listing.
#[derive(Debug, Clone)]
pub struct EntryInfo {
    pub name: String,
    pub is_dir: bool,
    pub modified: u64,
}

pub struct EntryModel {
    pub name: Seq<char>,
    pub is_dir: bool,
    pub modified: u64,
}

impl View for EntryInfo {
    type V = EntryModel;

    open spec fn view(&self) -> EntryModel {
        EntryModel { name: self.name@, is_dir: self.is_dir, modified: self.modified }
    }
}

pub open spec fn entries_view(v: Seq<EntryInfo>) -> Seq<EntryModel> {
    v.map_values(|e: EntryInfo| e@)
}

/// Why no task file could be resolved.
#[derive(Debug, Clone, Copy, PartialEq, Eq, Structural)]
pub enum ResolveError {
    /// No project directory for the working directory.
    NoProject,
    /// The project directory holds no session directory.
    NoSession,
    /// No candidate task file.
    NoDataFile,
}

/// The outcome of a resolution: the session, when one was matched to the
/// working directory, and the path of the task file.
#[derive(Debug, Clone)]
pub struct ResolvedSession {
    pub session_id: Option<String>,
    pub path: String,
}

pub struct ResolvedModel {
    pub session_id: Option<Seq<char>>,
    pub path: Seq<char>,
}

impl View for ResolvedSession {
    type V = ResolvedModel;

    open spec fn view(&self) -> ResolvedModel {
        ResolvedModel {
            session_id: match self.session_id {
                Some(s) => Some(s@),
                None => None,
            },
            path: self.path@,
        }
    }
}

/// What the file system shows at one moment: the session directories of the
/// working directory's project (`None` when there is no such project, or no
/// working directory is tracked) and the flat pool of task files.
#[derive(Debug, Clone)]
pub struct FsSnapshot {
    pub project_sessions: Option<Vec<EntryInfo>>,
    pub data_files: Vec<EntryInfo>,
}

pub open spec fn sessions_view(p: Option<Vec<EntryInfo>>) -> Option<Seq<EntryModel>> {
    match p {
        Some(v) => Some(entries_view(v@)),
        None => None,
    }
}

/// A path below a directory, with one separator between them.
pub open spec fn join_spec(dir: Seq<char>, name: Seq<char>) -> Seq<char> {
    if dir.len() > 0 && dir.last() == '/' {
        dir + name
    } else {
        dir + "/"@ + name
    }
}

/// The project folder name of a working directory: each `/` becomes `-`.
pub open spec fn project_key(path: Seq<char>) -> Seq<char> {
    path.map_values(|c: char| if c == '/' { '-' } else { c })
}

pub open spec fn has_prefix(s: Seq<char>, p: Seq<char>) -> bool {
    p.len() <= s.len() && s.subrange(0, p.len() as int) == p
}

/// A name whose extension is `json`: it ends in `.json` after a non-empty stem.
pub open spec fn has_json_extension(name: Seq<char>) -> bool {
    name.len() > 5 && name.subrange(name.len() - 5, name.len() as int) == ".json"@
}

/// The name of a session's own task file: `{id}-agent-{id}.json`.
pub open spec fn canonical_name(id: Seq<char>) -> Seq<char> {
    id + "-agent-"@ + id + ".json"@
}

/// Candidates among entries: session directories, or task files.
pub open spec fn eligible(e: EntryModel, dirs: bool) -> bool {
    if dirs {
        e.is_dir
    } else {
        has_json_extension(e.name)
    }
}

/// Lexicographic order of names, by character code.
pub open spec fn name_lt(a: Seq<char>, b: Seq<char>) -> bool
    decreases a.len(),
{
    if a.len() == 0 {
        b.len() > 0
    } else if b.len() == 0 {
        false
    } else if a[0] != b[0] {
        a[0] < b[0]
    } else {
        name_lt(a.drop_first(), b.drop_first())
    }
}

/// `a` sorts before `b`: modified earlier, or at the same time with a smaller name.
pub open spec fn sorts_before(a: EntryModel, b: EntryModel) -> bool {
    a.modified < b.modified || (a.modified == b.modified && name_lt(a.name, b.name))
}

pub open spec fn same_key(a: EntryModel, b: EntryModel) -> bool {
    a.modified == b.modified && a.name == b.name
}

/// `i` is the most recently modified candidate; among equal times, the one
/// with the greatest name (and among entries equal in both, the last listed).
pub open spec fn is_latest(s: Seq<EntryModel>, dirs: bool, i: int) -> bool {
    &&& 0 <= i < s.len()
    &&& eligible(s[i], dirs)
    &&& forall|j: int|
        0 <= j < s.len() && j != i && eligible(#[trigger] s[j], dirs) ==> sorts_before(s[j], s[i]) || (same_key(
            s[j],
            s[i],
        ) && j < i)
}

proof fn lemma_name_lt_irreflexive(a: Seq<char>)
    ensures
        !name_lt(a, a),
    decreases a.len(),
{
    if a.len() > 0 {
        lemma_name_lt_irreflexive(a.drop_first());
    }
}

proof fn lemma_name_lt_asymmetric(a: Seq<char>, b: Seq<char>)
    ensures
        name_lt(a, b) ==> !name_lt(b, a),
    decreases a.len(),
{
    if a.len() > 0 && b.len() > 0 && a[0] == b[0] {
        lemma_name_lt_asymmetric(a.drop_first(), b.drop_first());
    }
}

proof fn lemma_name_lt_transitive(a: Seq<char>, b: Seq<char>, c: Seq<char>)
    ensures
        name_lt(a, b) && name_lt(b, c) ==> name_lt(a, c),
    decreases a.len(),
{
    if a.len() > 0 && b.len() > 0 && c.len() > 0 && a[0] == b[0] && b[0] == c[0] {
        lemma_name_lt_transitive(a.drop_first(), b.drop_first(), c.drop_first());
    }
}

proof fn lemma_name_lt_total(a: Seq<char>, b: Seq<char>)
    ensures
        a == b || name_lt(a, b) || name_lt(b, a),
    decreases a.len(),
{
    if a.len() == 0 && b.len() == 0 {
        assert(a =~= b);
    } else if a.len() > 0 && b.len() > 0 {
        if a[0] == b[0] {
            lemma_name_lt_total(a.drop_first(), b.drop_first());
            if a.drop_first() == b.drop_first() {
                assert(a =~= seq![a[0]] + a.drop_first());
                assert(b =~= seq![b[0]] + b.drop_first());
            }
        } else {
            assert(a[0] < b[0] || b[0] < a[0]);
        }
    }
}

proof fn lemma_sorts_before_transitive(a: EntryModel, b: EntryModel, c: EntryModel)
    ensures
        sorts_before(a, b) && sorts_before(b, c) ==> sorts_before(a, c),
{
    lemma_name_lt_transitive(a.name, b.name, c.name);
}

pub open spec fn latest_index(s: Seq<EntryModel>, dirs: bool) -> Option<int> {
    if exists|i: int| is_latest(s, dirs, i) {
        Some(choose|i: int| is_latest(s, dirs, i))
    } else {
        None
    }
}

/// A task file of session `id`: exactly its canonical name, or any name that starts with `id`.
pub open spec fn file_matches(e: EntryModel, id: Seq<char>, exact: bool) -> bool {
    if exact {
        e.name == canonical_name(id)
    } else {
        has_prefix(e.name, id)
    }
}

pub open spec fn is_first(s: Seq<EntryModel>, id: Seq<char>, exact: bool, i: int) -> bool {
    &&& 0 <= i < s.len()
    &&& file_matches(s[i], id, exact)
    &&& forall|j: int| 0 <= j < i ==> !file_matches(#[trigger] s[j], id, exact)
}

pub open spec fn first_index(s: Seq<EntryModel>, id: Seq<char>, exact: bool) -> Option<int> {
    if exists|i: int| is_first(s, id, exact, i) {
        Some(choose|i: int| is_first(s, id, exact, i))
    } else {
        None
    }
}

/// The latest session of a project.
pub open spec fn session_spec(p: Option<Seq<EntryModel>>) -> Result<Seq<char>, ResolveError> {
    match p {
        None => Err(ResolveError::NoProject),
        Some(s) => match latest_index(s, true) {
            None => Err(ResolveError::NoSession),
            Some(i) => Ok(s[i].name),
        },
    }
}

/// The task file of a session: the canonical one if listed, else the first prefix match.
pub open spec fn session_file_spec(id: Seq<char>, s: Seq<EntryModel>) -> Result<Seq<char>, ResolveError> {
    match first_index(s, id, true) {
        Some(i) => Ok(s[i].name),
        None => match first_index(s, id, false) {
            Some(i) => Ok(s[i].name),
            None => Err(ResolveError::NoDataFile),
        },
    }
}

/// The most recently modified task file.
pub open spec fn latest_file_spec(s: Seq<EntryModel>) -> Result<Seq<char>, ResolveError> {
    match latest_index(s, false) {
        Some(i) => Ok(s[i].name),
        None => Err(ResolveError::NoDataFile),
    }
}

/// Latest-wins resolution over the task file pool.
pub open spec fn fallback_spec(files: Seq<EntryModel>, root: Seq<char>) -> Result<ResolvedModel, ResolveError> {
    match latest_file_spec(files) {
        Ok(n) => Ok(ResolvedModel { session_id: None, path: join_spec(root, n) }),
        Err(e) => Err(e),
    }
}

/// Context-bound resolution, falling back to latest-wins when it fails.
pub open spec fn resolve_spec(
    p: Option<Seq<EntryModel>>,
    files: Seq<EntryModel>,
    root: Seq<char>,
) -> Result<ResolvedModel, ResolveError> {
    match session_spec(p) {
        Ok(id) => match session_file_spec(id, files) {
            Ok(n) => Ok(ResolvedModel { session_id: Some(id), path: join_spec(root, n) }),
            Err(_) => fallback_spec(files, root),
        },
        Err(_) => fallback_spec(files, root),
    }
}

proof fn lemma_latest_unique(s: Seq<EntryModel>, dirs: bool, i: int, k: int)
    requires
        is_latest(s, dirs, i),
        is_latest(s, dirs, k),
    ensures
        i == k,
{
    if i != k {
        assert(sorts_before(s[k], s[i]) || (same_key(s[k], s[i]) && k < i));
        assert(sorts_before(s[i], s[k]) || (same_key(s[i], s[k]) && i < k));
        lemma_name_lt_asymmetric(s[i].name, s[k].name);
        lemma_name_lt_irreflexive(s[i].name);
        lemma_name_lt_irreflexive(s[k].name);
    }
}

proof fn lemma_first_unique(s: Seq<EntryModel>, id: Seq<char>, exact: bool, i: int, k: int)
    requires
        is_first(s, id, exact, i),
        is_first(s, id, exact, k),
    ensures
        i == k,
{
    if i < k {
        assert(!file_matches(s[i], id, exact));
    } else if k < i {
        assert(!file_matches(s[k], id, exact));
    }
}

/// Of two session directories, the one modified later is the session of the
/// project, in whatever order they are listed.
pub proof fn lemma_newer_session_wins(s: Seq<EntryModel>, a: int, b: int)
    requires
        0 <= a < s.len(),
        0 <= b < s.len(),
        s[a].is_dir,
        s[b].is_dir,
        s[a].modified < s[b].modified,
        forall|j: int| 0 <= j < s.len() && (#[trigger] s[j]).is_dir ==> j == a || j == b,
    ensures
        session_spec(Some(s)) == Ok::<Seq<char>, ResolveError>(s[b].name),
{
    assert(is_latest(s, true, b));
    let c = choose|i: int| is_latest(s, true, i);
    lemma_latest_unique(s, true, b, c);
}

/// When context-bound resolution finds nothing, the task file modified last
/// among the pool is resolved, with no session.
pub proof fn lemma_fallback_to_latest(p: Option<Seq<EntryModel>>, files: Seq<EntryModel>, root: Seq<char>, c: int)
    requires
        session_spec(p) is Err || session_file_spec(session_spec(p)->Ok_0, files) is Err,
        0 <= c < files.len(),
        has_json_extension(files[c].name),
        forall|j: int|
            0 <= j < files.len() && j != c && has_json_extension(#[trigger] files[j].name) ==> files[j].modified
                < files[c].modified,
    ensures
        resolve_spec(p, files, root) == Ok::<ResolvedModel, ResolveError>(
            ResolvedModel { session_id: None, path: join_spec(root, files[c].name) },
        ),
{
    assert(is_latest(files, false, c));
    let k = choose|i: int| is_latest(files, false, i);
    lemma_latest_unique(files, false, c, k);
}

/// Resolution has no memory: the same listings resolve to the same result.
pub proof fn lemma_resolve_idempotent(
    p1: Option<Seq<EntryModel>>,
    files1: Seq<EntryModel>,
    p2: Option<Seq<EntryModel>>,
    files2: Seq<EntryModel>,
    root: Seq<char>,
)
    requires
        p1 == p2,
        files1 == files2,
    ensures
        resolve_spec(p1, files1, root) == resolve_spec(p2, files2, root),
{
}

/// Whether `s` starts with `p`, character by character.
pub fn starts_with(s: &str, p: &str) -> (r: bool)
    ensures
        r == has_prefix(s@, p@),
{
    let n = p.unicode_len();
    let m = s.unicode_len();
    if n > m {
        return false;
    }
    let mut i: usize = 0;
    while i < n
        invariant
            n == p@.len(),
            m == s@.len(),
            n <= m,
            i <= n,
            s@.subrange(0, i as int) == p@.subrange(0, i as int),
        decreases n - i,
    {
        if s.get_char(i) != p.get_char(i) {
            assert(s@.subrange(0, n as int)[i as int] != p@[i as int]);
            return false;
        }
        assert(s@.subrange(0, i as int + 1) =~= s@.subrange(0, i as int).push(s@[i as int]));
        assert(p@.subrange(0, i as int + 1) =~= p@.subrange(0, i as int).push(p@[i as int]));
        i = i + 1;
    }
    assert(p@.subrange(0, n as int) =~= p@);
    true
}

/// Whether a file name has the extension `json`.
pub fn is_json_file(name: &str) -> (r: bool)
    ensures
        r == has_json_extension(name@),
{
    proof {
        reveal_strlit(".json");
    }
    let n = name.unicode_len();
    if n <= 5 {
        return false;
    }
    let tail = name.substring_char(n - 5, n);
    text_eq(tail, ".json")
}

/// A path below a directory.
pub fn join_path(dir: &str, name: &str) -> (r: String)
    ensures
        r@ == join_spec(dir@, name@),
{
    proof {
        reveal_strlit("/");
    }
    let mut r = String::from_str(dir);
    let n = dir.unicode_len();
    if !(n > 0 && dir.get_char(n - 1) == '/') {
        r.append("/");
    }
    r.append(name);
    r
}

/// Converts a working directory path to its project folder name,
/// e.g. `/home/u/work` to `-home-u-work`.
pub fn path_to_project_name(path: &str) -> (r: String)
    ensures
        r@ == project_key(path@),
{
    proof {
        reveal_strlit("-");
    }
    let n = path.unicode_len();
    let mut r = String::new();
    let mut i: usize = 0;
    while i < n
        invariant
            n == path@.len(),
            i <= n,
            r@ == project_key(path@.subrange(0, i as int)),
        decreases n - i,
    {
        let c = path.get_char(i);
        let ghost mapped: char = if c == '/' { '-' } else { c };
        if c == '/' {
            proof {
                reveal_strlit("-");
                assert("-"@ =~= seq![mapped]);
            }
            r.append("-");
        } else {
            let one = path.substring_char(i, i + 1);
            assert(one@ =~= seq![mapped]);
            r.append(one);
        }
        assert(path@.subrange(0, i as int + 1) =~= path@.subrange(0, i as int).push(c));
        assert(project_key(path@.subrange(0, i as int + 1)) =~= project_key(path@.subrange(0, i as int)).push(mapped));
        i = i + 1;
    }
    assert(path@.subrange(0, n as int) =~= path@);
    r
}

/// The task file directory below the agent's configuration directory: `{agent_dir}/todos`.
pub fn get_todos_dir(agent_dir: &str) -> (r: String)
    ensures
        r@ == join_spec(agent_dir@, "todos"@),
{
    join_path(agent_dir, "todos")
}

/// The project directory below the agent's configuration directory: `{agent_dir}/projects`.
pub fn get_projects_dir(agent_dir: &str) -> (r: String)
    ensures
        r@ == join_spec(agent_dir@, "projects"@),
{
    join_path(agent_dir, "projects")
}

fn is_eligible(e: &EntryInfo, dirs: bool) -> (r: bool)
    ensures
        r == eligible(e@, dirs),
{
    if dirs {
        e.is_dir
    } else {
        is_json_file(e.name.as_str())
    }
}

/// Whether `a` sorts before `b` by character code.
pub fn name_less(a: &str, b: &str) -> (r: bool)
    ensures
        r == name_lt(a@, b@),
{
    let la = a.unicode_len();
    let lb = b.unicode_len();
    let mut i: usize = 0;
    assert(a@.subrange(0, la as int) =~= a@);
    assert(b@.subrange(0, lb as int) =~= b@);
    while i < la && i < lb
        invariant
            la == a@.len(),
            lb == b@.len(),
            i <= la,
            i <= lb,
            name_lt(a@, b@) == name_lt(a@.subrange(i as int, la as int), b@.subrange(i as int, lb as int)),
        decreases la - i,
    {
        let ca = a.get_char(i);
        let cb = b.get_char(i);
        let ghost ra = a@.subrange(i as int, la as int);
        let ghost rb = b@.subrange(i as int, lb as int);
        assert(ra[0] == ca && rb[0] == cb);
        if ca != cb {
            return ca < cb;
        }
        assert(ra.drop_first() =~= a@.subrange(i as int + 1, la as int));
        assert(rb.drop_first() =~= b@.subrange(i as int + 1, lb as int));
        i = i + 1;
    }
    i == la && i < lb
}

/// Index of the most recently modified candidate; ties go to the greatest name.
fn latest_entry(entries: &Vec<EntryInfo>, dirs: bool) -> (r: Option<usize>)
    ensures
        match r {
            Some(i) => latest_index(entries_view(entries@), dirs) == Some(i as int),
            None => latest_index(entries_view(entries@), dirs) is None,
        },
{
    let ghost s = entries_view(entries@);
    let mut best: Option<usize> = None;
    let mut k: usize = 0;
    while k < entries.len()
        invariant
            k <= entries.len(),
            s == entries_view(entries@),
            s.len() == entries.len(),
            match best {
                None => forall|j: int| 0 <= j < k ==> !eligible(#[trigger] s[j], dirs),
                Some(b) => {
                    &&& b < k
                    &&& eligible(s[b as int], dirs)
                    &&& forall|j: int|
                        0 <= j < k && j != b && eligible(#[trigger] s[j], dirs) ==> sorts_before(s[j], s[b as int])
                            || (same_key(s[j], s[b as int]) && j < b)
                },
            },
        decreases entries.len() - k,
    {
        let e = &entries[k];
        assert(s[k as int] == e@);
        if is_eligible(e, dirs) {
            match best {
                None => {
                    best = Some(k);
                },
                Some(b) => {
                    let cur = &entries[b];
                    assert(s[b as int] == cur@);
                    if e.modified > cur.modified || (e.modified == cur.modified && !name_less(
                        e.name.as_str(),
                        cur.name.as_str(),
                    )) {
                        proof {
                            lemma_name_lt_total(e@.name, cur@.name);
                            assert forall|j: int|
                                0 <= j < k + 1 && j != k && eligible(#[trigger] s[j], dirs) implies sorts_before(
                                s[j],
                                s[k as int],
                            ) || (same_key(s[j], s[k as int]) && j < k) by {
                                lemma_sorts_before_transitive(s[j], s[b as int], s[k as int]);
                            }
                        }
                        best = Some(k);
                    }
                },
            }
        }
        k = k + 1;
    }
    match best {
        None => {
            assert(!exists|i: int| is_latest(s, dirs, i));
        },
        Some(b) => {
            assert(is_latest(s, dirs, b as int));
            proof {
                let c = choose|i: int| is_latest(s, dirs, i);
                lemma_latest_unique(s, dirs, b as int, c);
            }
        },
    }
    best
}

/// Index of the first task file of session `id` (exactly canonical, or by prefix).
fn first_match(id: &str, files: &Vec<EntryInfo>, exact: bool) -> (r: Option<usize>)
    ensures
        match r {
            Some(i) => first_index(entries_view(files@), id@, exact) == Some(i as int),
            None => first_index(entries_view(files@), id@, exact) is None,
        },
{
    let ghost s = entries_view(files@);
    proof {
        reveal_strlit("-agent-");
        reveal_strlit(".json");
    }
    let mut canon = String::from_str(id);
    canon.append("-agent-");
    canon.append(id);
    canon.append(".json");
    let mut k: usize = 0;
    while k < files.len()
        invariant
            k <= files.len(),
            s == entries_view(files@),
            s.len() == files.len(),
            canon@ == canonical_name(id@),
            forall|j: int| 0 <= j < k ==> !file_matches(#[trigger] s[j], id@, exact),
        decreases files.len() - k,
    {
        let e = &files[k];
        assert(s[k as int] == e@);
        let hit = if exact {
            text_eq(e.name.as_str(), canon.as_str())
        } else {
            starts_with(e.name.as_str(), id)
        };
        if hit {
            assert(is_first(s, id@, exact, k as int));
            proof {
                let c = choose|i: int| is_first(s, id@, exact, i);
                lemma_first_unique(s, id@, exact, k as int, c);
            }
            return Some(k);
        }
        k = k + 1;
    }
    assert(!exists|i: int| is_first(s, id@, exact, i));
    None
}

/// The latest session of the working directory's project: the name of its most
/// recently modified session directory, the greatest name among equal times
/// (so the listing order never matters). `sessions` is the listing of the
/// project directory, `None` when that directory does not exist.
pub fn find_session_for_cwd(sessions: &Option<Vec<EntryInfo>>) -> (r: Result<String, ResolveError>)
    ensures
        match r {
            Ok(id) => session_spec(sessions_view(*sessions)) == Ok::<Seq<char>, ResolveError>(id@),
            Err(e) => session_spec(sessions_view(*sessions)) == Err::<Seq<char>, ResolveError>(e),
        },
{
    match sessions {
        None => Err(ResolveError::NoProject),
        Some(list) => match latest_entry(list, true) {
            None => Err(ResolveError::NoSession),
            Some(i) => Ok(list[i].name.clone()),
        },
    }
}

/// The name of the task file of session `session_id` among `files`: the
/// canonical `{id}-agent-{id}.json` when listed, else the first name that
/// starts with the identifier.
pub fn find_todo_file_for_session(session_id: &str, files: &Vec<EntryInfo>) -> (r: Result<String, ResolveError>)
    ensures
        match r {
            Ok(n) => session_file_spec(session_id@, entries_view(files@)) == Ok::<Seq<char>, ResolveError>(n@),
            Err(e) => session_file_spec(session_id@, entries_view(files@)) == Err::<Seq<char>, ResolveError>(e),
        },
{
    match first_match(session_id, files, true) {
        Some(i) => Ok(files[i].name.clone()),
        None => match first_match(session_id, files, false) {
            Some(i) => Ok(files[i].name.clone()),
            None => Err(ResolveError::NoDataFile),
        },
    }
}

/// The name of the most recently modified `.json` file among `files`; the
/// greatest name among equal times.
pub fn find_latest_todo_file(files: &Vec<EntryInfo>) -> (r: Result<String, ResolveError>)
    ensures
        match r {
            Ok(n) => latest_file_spec(entries_view(files@)) == Ok::<Seq<char>, ResolveError>(n@),
            Err(e) => latest_file_spec(entries_view(files@)) == Err::<Seq<char>, ResolveError>(e),
        },
{
    match latest_entry(files, false) {
        Some(i) => Ok(files[i].name.clone()),
        None => Err(ResolveError::NoDataFile),
    }
}

fn resolve_latest(snap: &FsSnapshot, data_root: &str) -> (r: Result<ResolvedSession, ResolveError>)
    ensures
        match r {
            Ok(v) => fallback_spec(entries_view(snap.data_files@), data_root@) == Ok::<ResolvedModel, ResolveError>(v@),
            Err(e) => fallback_spec(entries_view(snap.data_files@), data_root@) == Err::<ResolvedModel, ResolveError>(e),
        },
{
    match find_latest_todo_file(&snap.data_files) {
        Ok(n) => Ok(ResolvedSession { session_id: None, path: join_path(data_root, n.as_str()) }),
        Err(e) => Err(e),
    }
}

/// Resolves the task file to show. With a listed project that has a session
/// and a task file for it, that file; otherwise the most recently modified task
/// file of the pool, with no session. `data_root` is the pool's directory.
pub fn resolve(snap: &FsSnapshot, data_root: &str) -> (r: Result<ResolvedSession, ResolveError>)
    ensures
        match r {
            Ok(v) => resolve_spec(sessions_view(snap.project_sessions), entries_view(snap.data_files@), data_root@)
                == Ok::<ResolvedModel, ResolveError>(v@),
            Err(e) => resolve_spec(sessions_view(snap.project_sessions), entries_view(snap.data_files@), data_root@)
                == Err::<ResolvedModel, ResolveError>(e),
        },
        r is Err ==> r->Err_0 == ResolveError::NoDataFile,
{
    match find_session_for_cwd(&snap.project_sessions) {
        Ok(id) => match find_todo_file_for_session(id.as_str(), &snap.data_files) {
            Ok(n) => Ok(ResolvedSession { session_id: Some(id), path: join_path(data_root, n.as_str()) }),
            Err(_) => resolve_latest(snap, data_root),
        },
        Err(_) => resolve_latest(snap, data_root),
    }
}

} // verus!
