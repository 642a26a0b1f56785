//! The refresh cycle: the session state shown on screen and the decisions of
//! each tick. The loop that performs reads, waits and drawing drives these
//! transitions and carries out the actions they return.
use vstd::prelude::*;
use crate::resolve::{ResolveError, ResolvedSession, ResolvedModel};
use crate::todo::{decode_spec, decoded_view, load_todos, DecodeError, Todo, TodoModel};

verus! {

/// The session state: the tracked working directory, the resolved task file
/// (empty path when none was resolved yet) and its tasks, and whether the user
/// asked to quit.
#[derive(Debug)]
pub struct App {
    pub todos: Vec<Todo>,
    pub file_path: String,
    pub session_id: Option<String>,
    pub cwd: Option<String>,
    pub should_quit: bool,
}

pub struct AppModel {
    pub todos: Seq<TodoModel>,
    pub file_path: Seq<char>,
    pub session_id: Option<Seq<char>>,
    pub cwd: Option<Seq<char>>,
    pub should_quit: bool,
}

pub open spec fn opt_view(o: Option<String>) -> Option<Seq<char>> {
    match o {
        Some(s) => Some(s@),
        None => None,
    }
}

pub open spec fn todos_view(v: Seq<Todo>) -> Seq<TodoModel> {
    v.map_values(|t: Todo| t@)
}

impl View for App {
    type V = AppModel;

    open spec fn view(&self) -> AppModel {
        AppModel {
            todos: todos_view(self.todos@),
            file_path: self.file_path@,
            session_id: opt_view(self.session_id),
            cwd: opt_view(self.cwd),
            should_quit: self.should_quit,
        }
    }
}

/// What the loop does at the start of a tick.
#[derive(Debug, Clone, Copy, PartialEq, Eq, Structural)]
pub enum TickAction {
    /// Leave the loop: nothing more is reloaded or drawn.
    Exit,
    /// Reload, then draw.
    Reload,
    /// Draw what is there.
    Render,
}

/// A key press as the loop sees it.
#[derive(Debug, Clone, Copy, PartialEq, Eq, Structural)]
pub enum KeyInput {
    Quit,
    Reload,
    Other,
}

pub open spec fn tick_spec(should_quit: bool, changed: bool) -> TickAction {
    if should_quit {
        TickAction::Exit
    } else if changed {
        TickAction::Reload
    } else {
        TickAction::Render
    }
}

/// The state after an input (or none) and whether it asks for a reload.
pub open spec fn input_spec(m: AppModel, input: Option<KeyInput>) -> (AppModel, bool) {
    match input {
        Some(KeyInput::Quit) => (AppModel { should_quit: true, ..m }, false),
        Some(KeyInput::Reload) => (m, true),
        _ => (m, false),
    }
}

/// A reload replaces the session, path and tasks together, and only when both
/// the resolution and the decoding succeeded; otherwise nothing changes.
pub open spec fn reload_spec(
    m: AppModel,
    resolved: Result<ResolvedModel, ResolveError>,
    decoded: Result<Seq<TodoModel>, DecodeError>,
) -> AppModel {
    match (resolved, decoded) {
        (Ok(r), Ok(ts)) => AppModel { todos: ts, file_path: r.path, session_id: r.session_id, ..m },
        _ => m,
    }
}

/// The decoding of a file's contents; unreadable contents count as malformed.
pub open spec fn content_decoded(content: Option<Vec<u8>>) -> Result<Seq<TodoModel>, DecodeError> {
    match content {
        Some(b) => decode_spec(b@),
        None => Err(DecodeError::Malformed),
    }
}

/// The first state: the initial resolution, when there is one, with its tasks,
/// or no tasks where they could not be decoded.
pub open spec fn initial_spec(
    cwd: Option<Seq<char>>,
    resolved: Result<ResolvedModel, ResolveError>,
    decoded: Result<Seq<TodoModel>, DecodeError>,
) -> AppModel {
    let (path, sid) = match resolved {
        Ok(r) => (r.path, r.session_id),
        Err(_) => (Seq::<char>::empty(), None),
    };
    AppModel {
        todos: match (resolved, decoded) {
            (Ok(_), Ok(ts)) => ts,
            _ => Seq::empty(),
        },
        file_path: path,
        session_id: sid,
        cwd,
        should_quit: false,
    }
}

pub open spec fn resolved_view(r: Result<ResolvedSession, ResolveError>) -> Result<ResolvedModel, ResolveError> {
    match r {
        Ok(v) => Ok(v@),
        Err(e) => Err(e),
    }
}

impl App {
    /// The first state, from the initial resolution and the decoding of the
    /// resolved file's contents. Failures leave an empty task list.
    pub fn from_parts(
        cwd: Option<String>,
        resolved: Result<ResolvedSession, ResolveError>,
        decoded: Result<Vec<Todo>, DecodeError>,
    ) -> (r: App)
        ensures
            r@ == initial_spec(opt_view(cwd), resolved_view(resolved), decoded_view(decoded)),
    {
        let (file_path, session_id, ok) = match resolved {
            Ok(r) => (r.path, r.session_id, true),
            Err(_) => (String::new(), None, false),
        };
        let todos = match decoded {
            Ok(ts) => if ok { ts } else { Vec::new() },
            Err(_) => Vec::new(),
        };
        proof {
            assert(todos_view(Seq::<Todo>::empty()) =~= Seq::<TodoModel>::empty());
        }
        App { todos, file_path, session_id, cwd, should_quit: false }
    }

    /// The first state, decoding `content`, the bytes of the resolved file
    /// when it could be read.
    pub fn new(
        cwd: Option<String>,
        resolved: Result<ResolvedSession, ResolveError>,
        content: Option<Vec<u8>>,
    ) -> (r: App)
        ensures
            r@ == initial_spec(opt_view(cwd), resolved_view(resolved), content_decoded(content)),
    {
        let decoded = match content {
            Some(bytes) => load_todos(bytes.as_slice()),
            None => Err(DecodeError::Malformed),
        };
        App::from_parts(cwd, resolved, decoded)
    }

    /// Applies the outcome of a reload (see `reload_spec`).
    pub fn apply_reload(
        &mut self,
        resolved: Result<ResolvedSession, ResolveError>,
        decoded: Result<Vec<Todo>, DecodeError>,
    )
        ensures
            final(self)@ == reload_spec(old(self)@, resolved_view(resolved), decoded_view(decoded)),
    {
        match resolved {
            Ok(r) => match decoded {
                Ok(ts) => {
                    self.todos = ts;
                    self.file_path = r.path;
                    self.session_id = r.session_id;
                },
                Err(_) => {},
            },
            Err(_) => {},
        }
    }

    /// Reloads from a fresh resolution and `content`, the bytes of the file it
    /// names when they could be read. Any failure keeps the previous state.
    pub fn reload_todos(&mut self, resolved: Result<ResolvedSession, ResolveError>, content: Option<Vec<u8>>)
        ensures
            final(self)@ == match content {
                None => old(self)@,
                Some(b) => reload_spec(old(self)@, resolved_view(resolved), decode_spec(b@)),
            },
    {
        match content {
            Some(bytes) => {
                let decoded = load_todos(bytes.as_slice());
                self.apply_reload(resolved, decoded);
            },
            None => {},
        }
    }

    /// The decision at the start of a tick, from whether a change signal was drained.
    pub fn begin_tick(&self, changed: bool) -> (r: TickAction)
        ensures
            r == tick_spec(self.should_quit, changed),
    {
        if self.should_quit {
            TickAction::Exit
        } else if changed {
            TickAction::Reload
        } else {
            TickAction::Render
        }
    }

    /// Handles the input of a tick, if any arrived; returns whether to reload.
    pub fn handle_input(&mut self, input: Option<KeyInput>) -> (r: bool)
        ensures
            (final(self)@, r) == input_spec(old(self)@, input),
    {
        match input {
            Some(KeyInput::Quit) => {
                self.should_quit = true;
                false
            },
            Some(KeyInput::Reload) => true,
            _ => false,
        }
    }
}

/// A quit key in any state asks for no reload, and the tick that follows
/// exits before anything is reloaded or drawn, whatever the change signal.
pub proof fn lemma_quit_is_terminal(m: AppModel, changed: bool)
    ensures
        !input_spec(m, Some(KeyInput::Quit)).1,
        input_spec(m, Some(KeyInput::Quit)).0.should_quit,
        tick_spec(input_spec(m, Some(KeyInput::Quit)).0.should_quit, changed) == TickAction::Exit,
{
}

/// Once quitting, no input and no reload outcome leaves the terminal state.
pub proof fn lemma_quitting_stays(
    m: AppModel,
    input: Option<KeyInput>,
    resolved: Result<ResolvedModel, ResolveError>,
    decoded: Result<Seq<TodoModel>, DecodeError>,
)
    requires
        m.should_quit,
    ensures
        input_spec(m, input).0.should_quit,
        reload_spec(m, resolved, decoded).should_quit,
{
}

/// Reloading twice with the same outcome gives the state of reloading once.
pub proof fn lemma_reload_idempotent(
    m: AppModel,
    resolved: Result<ResolvedModel, ResolveError>,
    decoded: Result<Seq<TodoModel>, DecodeError>,
)
    ensures
        reload_spec(reload_spec(m, resolved, decoded), resolved, decoded) == reload_spec(m, resolved, decoded),
{
}

} // verus!
