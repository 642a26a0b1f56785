//! Task records and the decoder from a task file's bytes to a task list.
use vstd::prelude::*;
use vstd::string::*;

verus! {


/// Progress state of one task.
#[derive(Debug, Clone, Copy, PartialEq, Eq, Structural)]
pub enum TodoStatus {
    Pending,
    InProgress,
    Completed,
}

/// One task as the agent wrote it.
#[derive(Debug, Clone)]
pub struct Todo {
    pub content: String,
    pub status: TodoStatus,
    pub active_form: String,
}

/// Mathematical value of a task.
pub struct TodoModel {
    pub content: Seq<char>,
    pub status: TodoStatus,
    pub active_form: Seq<char>,
}

impl View for Todo {
    type V = TodoModel;

    open spec fn view(&self) -> TodoModel {
        TodoModel { content: self.content@, status: self.status, active_form: self.active_form@ }
    }
}

/// Why a task file could not be decoded.
#[derive(Debug, Clone, Copy, PartialEq, Eq, Structural)]
pub enum DecodeError {
    /// Not a JSON array of objects, or a field that is not a string.
    Malformed,
    /// A status token other than the three known ones.
    UnknownStatus,
    /// A record without one of its required fields.
    MissingField,
}

/// A field of a task object as it stands in the file.
#[derive(Debug, Clone)]
pub enum RawField {
    Absent,
    NotText,
    Text(String),
}

/// `None`: absent; `Some(None)`: present but not a string; `Some(Some(s))`: the string `s`.
impl View for RawField {
    type V = Option<Option<Seq<char>>>;

    open spec fn view(&self) -> Option<Option<Seq<char>>> {
        match self {
            RawField::Absent => None,
            RawField::NotText => Some(None),
            RawField::Text(s) => Some(Some(s@)),
        }
    }
}

/// The three fields of one task object, not yet checked.
#[derive(Debug, Clone)]
pub struct RawTodo {
    pub content: RawField,
    pub status: RawField,
    pub active_form: RawField,
}

pub struct RawTodoModel {
    pub content: Option<Option<Seq<char>>>,
    pub status: Option<Option<Seq<char>>>,
    pub active_form: Option<Option<Seq<char>>>,
}

impl View for RawTodo {
    type V = RawTodoModel;

    open spec fn view(&self) -> RawTodoModel {
        RawTodoModel { content: self.content@, status: self.status@, active_form: self.active_form@ }
    }
}

/// The status that a token names: the snake-case spelling of the variant.
pub open spec fn status_of_token(t: Seq<char>) -> Option<TodoStatus> {
    if t == "pending"@ {
        Some(TodoStatus::Pending)
    } else if t == "in_progress"@ {
        Some(TodoStatus::InProgress)
    } else if t == "completed"@ {
        Some(TodoStatus::Completed)
    } else {
        None
    }
}

/// A required text field: absent is `MissingField`, a non-string `Malformed`.
pub open spec fn text_field(f: Option<Option<Seq<char>>>) -> Result<Seq<char>, DecodeError> {
    match f {
        None => Err(DecodeError::MissingField),
        Some(None) => Err(DecodeError::Malformed),
        Some(Some(s)) => Ok(s),
    }
}

/// One record checked field by field, in the order content, status, activeForm.
pub open spec fn todo_of_raw(r: RawTodoModel) -> Result<TodoModel, DecodeError> {
    match text_field(r.content) {
        Err(e) => Err(e),
        Ok(content) => match text_field(r.status) {
            Err(e) => Err(e),
            Ok(token) => match status_of_token(token) {
                None => Err(DecodeError::UnknownStatus),
                Some(status) => match text_field(r.active_form) {
                    Err(e) => Err(e),
                    Ok(active_form) => Ok(TodoModel { content, status, active_form }),
                },
            },
        },
    }
}

/// A whole list: every record decoded in order, or the error of the first bad one.
pub open spec fn todos_of_raw(rs: Seq<RawTodoModel>) -> Result<Seq<TodoModel>, DecodeError>
    decreases rs.len(),
{
    if rs.len() == 0 {
        Ok(Seq::empty())
    } else {
        match todos_of_raw(rs.drop_last()) {
            Err(e) => Err(e),
            Ok(done) => match todo_of_raw(rs.last()) {
                Err(e) => Err(e),
                Ok(t) => Ok(done.push(t)),
            },
        }
    }
}

/// Character-wise equality of two strings.
pub(crate) fn text_eq(a: &str, b: &str) -> (r: bool)
    ensures
        r == (a@ == b@),
{
    let x = a.to_owned();
    let y = b.to_owned();
    x == y
}

/// Reads a status token.
pub fn status_from_token(t: &str) -> (r: Option<TodoStatus>)
    ensures
        r == status_of_token(t@),
{
    proof {
        reveal_strlit("pending");
        reveal_strlit("in_progress");
        reveal_strlit("completed");
    }
    if text_eq(t, "pending") {
        Some(TodoStatus::Pending)
    } else if text_eq(t, "in_progress") {
        Some(TodoStatus::InProgress)
    } else if text_eq(t, "completed") {
        Some(TodoStatus::Completed)
    } else {
        None
    }
}

fn text_of_field(f: &RawField) -> (r: Result<String, DecodeError>)
    ensures
        match r {
            Ok(s) => text_field(f@) == Ok::<Seq<char>, DecodeError>(s@),
            Err(e) => text_field(f@) == Err::<Seq<char>, DecodeError>(e),
        },
{
    match f {
        RawField::Absent => Err(DecodeError::MissingField),
        RawField::NotText => Err(DecodeError::Malformed),
        RawField::Text(s) => Ok(s.clone()),
    }
}

/// Checks one record.
pub fn todo_from_raw(r: &RawTodo) -> (res: Result<Todo, DecodeError>)
    ensures
        match res {
            Ok(t) => todo_of_raw(r@) == Ok::<TodoModel, DecodeError>(t@),
            Err(e) => todo_of_raw(r@) == Err::<TodoModel, DecodeError>(e),
        },
{
    let content = match text_of_field(&r.content) {
        Err(e) => return Err(e),
        Ok(s) => s,
    };
    let token = match text_of_field(&r.status) {
        Err(e) => return Err(e),
        Ok(s) => s,
    };
    let status = match status_from_token(token.as_str()) {
        None => return Err(DecodeError::UnknownStatus),
        Some(st) => st,
    };
    let active_form = match text_of_field(&r.active_form) {
        Err(e) => return Err(e),
        Ok(s) => s,
    };
    Ok(Todo { content, status, active_form })
}

/// Checks every record in order; all of them decode or the list fails.
pub fn todos_from_raw(rs: &Vec<RawTodo>) -> (res: Result<Vec<Todo>, DecodeError>)
    ensures
        match res {
            Ok(ts) => todos_of_raw(rs@.map_values(|r: RawTodo| r@)) == Ok::<Seq<TodoModel>, DecodeError>(ts@.map_values(|t: Todo| t@)),
            Err(e) => todos_of_raw(rs@.map_values(|r: RawTodo| r@)) == Err::<Seq<TodoModel>, DecodeError>(e),
        },
{
    let ghost raws = rs@.map_values(|r: RawTodo| r@);
    let mut out: Vec<Todo> = Vec::new();
    let mut i: usize = 0;
    proof {
        assert(raws.take(0) =~= Seq::<RawTodoModel>::empty());
        assert(out@.map_values(|t: Todo| t@) =~= Seq::<TodoModel>::empty());
    }
    while i < rs.len()
        invariant
            i <= rs.len(),
            raws == rs@.map_values(|r: RawTodo| r@),
            todos_of_raw(raws.take(i as int)) == Ok::<Seq<TodoModel>, DecodeError>(out@.map_values(|t: Todo| t@)),
        decreases rs.len() - i,
    {
        let ghost before = out@.map_values(|t: Todo| t@);
        assert(raws.take(i as int + 1).drop_last() =~= raws.take(i as int));
        assert(raws.take(i as int + 1).last() == rs@[i as int]@);
        match todo_from_raw(&rs[i]) {
            Err(e) => {
                proof {
                    lemma_error_persists(raws, i as int + 1, e);
                }
                return Err(e);
            }
            Ok(t) => {
                out.push(t);
                assert(out@.map_values(|t: Todo| t@) =~= before.push(t@));
            }
        }
        i = i + 1;
    }
    assert(raws.take(i as int) =~= raws);
    Ok(out)
}

/// Once a prefix fails, the whole list fails with the same error.
proof fn lemma_error_persists(rs: Seq<RawTodoModel>, k: int, e: DecodeError)
    requires
        0 <= k <= rs.len(),
        todos_of_raw(rs.take(k)) == Err::<Seq<TodoModel>, DecodeError>(e),
    ensures
        todos_of_raw(rs) == Err::<Seq<TodoModel>, DecodeError>(e),
    decreases rs.len() - k,
{
    if k < rs.len() {
        assert(rs.take(k + 1).drop_last() =~= rs.take(k));
        lemma_error_persists(rs, k + 1, e);
    } else {
        assert(rs.take(k) =~= rs);
    }
}

/// A record that lacks a required field or holds an unknown status token.
pub open spec fn is_bad_record(r: RawTodoModel) -> bool {
    ||| r.content is None
    ||| r.status is None
    ||| r.active_form is None
    ||| exists|t: Seq<char>| r.status == Some(Some(t)) && status_of_token(t) is None
}

/// A list of well-formed records decodes to exactly as many tasks, each the
/// decoding of the record at the same position.
pub proof fn lemma_well_formed_decodes(rs: Seq<RawTodoModel>)
    requires
        forall|i: int| 0 <= i < rs.len() ==> todo_of_raw(#[trigger] rs[i]) is Ok,
    ensures
        todos_of_raw(rs) is Ok,
        todos_of_raw(rs)->Ok_0.len() == rs.len(),
        forall|i: int| 0 <= i < rs.len() ==> todo_of_raw(#[trigger] rs[i]) == Ok::<TodoModel, DecodeError>(
            todos_of_raw(rs)->Ok_0[i],
        ),
    decreases rs.len(),
{
    if rs.len() > 0 {
        let init = rs.drop_last();
        assert forall|i: int| 0 <= i < init.len() implies todo_of_raw(#[trigger] init[i]) is Ok by {
            assert(init[i] == rs[i]);
        }
        lemma_well_formed_decodes(init);
        assert(todo_of_raw(rs[rs.len() - 1]) is Ok);
        let done = todos_of_raw(init)->Ok_0;
        assert forall|i: int| 0 <= i < rs.len() implies todo_of_raw(#[trigger] rs[i]) == Ok::<TodoModel, DecodeError>(
            todos_of_raw(rs)->Ok_0[i],
        ) by {
            if i < rs.len() - 1 {
                assert(init[i] == rs[i]);
            }
        }
    }
}

/// A list with a record that lacks a field or has an unknown status fails as
/// a whole: no partial list comes out.
pub proof fn lemma_bad_record_fails(rs: Seq<RawTodoModel>, k: int)
    requires
        0 <= k < rs.len(),
        is_bad_record(rs[k]),
    ensures
        todos_of_raw(rs) is Err,
{
    assert(todo_of_raw(rs[k]) is Err);
    assert(rs.take(k + 1).drop_last() =~= rs.take(k));
    assert(rs.take(k + 1).last() == rs[k]);
    let e = todos_of_raw(rs.take(k + 1))->Err_0;
    lemma_error_persists(rs, k + 1, e);
}

/// How many tasks have status `st`.
pub open spec fn count_status_spec(ts: Seq<TodoModel>, st: TodoStatus) -> nat
    decreases ts.len(),
{
    if ts.len() == 0 {
        0
    } else {
        count_status_spec(ts.drop_last(), st) + if ts.last().status == st { 1nat } else { 0nat }
    }
}

proof fn lemma_count_bounded(ts: Seq<TodoModel>, st: TodoStatus)
    ensures
        count_status_spec(ts, st) <= ts.len(),
    decreases ts.len(),
{
    if ts.len() > 0 {
        lemma_count_bounded(ts.drop_last(), st);
    }
}

/// The number of tasks with status `st` (the completed count of the progress bar).
pub fn count_status(todos: &Vec<Todo>, st: TodoStatus) -> (r: usize)
    ensures
        r == count_status_spec(todos@.map_values(|t: Todo| t@), st),
{
    let ghost ms = todos@.map_values(|t: Todo| t@);
    let mut n: usize = 0;
    let mut i: usize = 0;
    proof {
        assert(ms.take(0) =~= Seq::<TodoModel>::empty());
    }
    while i < todos.len()
        invariant
            i <= todos.len(),
            ms == todos@.map_values(|t: Todo| t@),
            n == count_status_spec(ms.take(i as int), st),
        decreases todos.len() - i,
    {
        proof {
            assert(ms.take(i as int + 1).drop_last() =~= ms.take(i as int));
            lemma_count_bounded(ms.take(i as int), st);
        }
        if todos[i].status == st {
            n = n + 1;
        }
        i = i + 1;
    }
    proof {
        assert(ms.take(i as int) =~= ms);
    }
    n
}

/// The positions of the tasks with status `st`, in list order: the tasks of
/// one group of the display.
pub fn indices_with_status(todos: &Vec<Todo>, st: TodoStatus) -> (r: Vec<usize>)
    ensures
        forall|k: int| 0 <= k < r.len() ==> r[k] < todos.len() && todos[#[trigger] r[k] as int].status == st,
        forall|k: int, l: int| 0 <= k < l < r.len() ==> r[k] < r[l],
        forall|i: int| 0 <= i < todos.len() && todos[i].status == st ==> exists|k: int| 0 <= k < r.len() && r[k] == i,
{
    let mut r: Vec<usize> = Vec::new();
    let mut i: usize = 0;
    while i < todos.len()
        invariant
            i <= todos.len(),
            forall|k: int| 0 <= k < r.len() ==> r[k] < i && todos[#[trigger] r[k] as int].status == st,
            forall|k: int, l: int| 0 <= k < l < r.len() ==> r[k] < r[l],
            forall|j: int| 0 <= j < i && todos[j].status == st ==> exists|k: int| 0 <= k < r.len() && r[k] == j,
        decreases todos.len() - i,
    {
        let ghost before = r@;
        if todos[i].status == st {
            r.push(i);
        }
        assert forall|j: int| 0 <= j < i + 1 && todos[j].status == st implies exists|k: int|
            0 <= k < r.len() && r[k] == j by {
            if j < i {
                let k = choose|k: int| 0 <= k < before.len() && before[k] == j;
                assert(r[k] == before[k]);
            } else {
                assert(r[r.len() - 1] == i);
            }
        }
        i = i + 1;
    }
    r
}

/// The last segment of a slash-separated path: the characters after its last `/`.
pub open spec fn last_segment(p: Seq<char>, r: Seq<char>) -> bool {
    &&& r.len() <= p.len()
    &&& r == p.subrange(p.len() - r.len(), p.len() as int)
    &&& forall|k: int| 0 <= k < r.len() ==> r[k] != '/'
    &&& (r.len() == p.len() || p[p.len() - r.len() - 1] == '/')
}

/// The file name of a path, as the status bar shows it.
pub fn file_name_of(path: &str) -> (r: String)
    ensures
        last_segment(path@, r@),
{
    let n = path.unicode_len();
    let mut start: usize = n;
    while start > 0 && path.get_char(start - 1) != '/'
        invariant
            n == path@.len(),
            start <= n,
            forall|k: int| start <= k < n ==> path@[k] != '/',
        decreases start,
    {
        start = start - 1;
    }
    let tail = path.substring_char(start, n);
    String::from_str(tail)
}

/// One member of a JSON object: its key, and its text when the value is a string.
pub type JsonMember = (String, Option<String>);

/// A JSON document that is an array, each element an object (`Some`, its
/// members) or anything else (`None`); `None` when the bytes are not JSON or
/// not an array.
pub type JsonObjects = Option<Vec<Option<Vec<JsonMember>>>>;

pub type JsonMemberModel = (Seq<char>, Option<Seq<char>>);

pub open spec fn member_view(m: JsonMember) -> JsonMemberModel {
    (m.0@, match m.1 {
        Some(t) => Some(t@),
        None => None,
    })
}

pub open spec fn object_view(o: Option<Vec<JsonMember>>) -> Option<Seq<JsonMemberModel>> {
    match o {
        Some(ms) => Some(ms@.map_values(|m: JsonMember| member_view(m))),
        None => None,
    }
}

pub open spec fn objects_view(r: JsonObjects) -> Option<Seq<Option<Seq<JsonMemberModel>>>> {
    match r {
        Some(os) => Some(os@.map_values(|o: Option<Vec<JsonMember>>| object_view(o))),
        None => None,
    }
}

/// What serde_json parses `b` into, as plain values: see `JsonObjects`.
pub uninterp spec fn json_objects_of(b: Seq<u8>) -> Option<Seq<Option<Seq<JsonMemberModel>>>>;

/// Relies on serde_json::from_slice into a `Value`, on its `Array` and
/// `Object` variants, and on `Value::as_str` for each member's value.
#[verifier::external_body]
fn parse_objects(b: &[u8]) -> (r: JsonObjects)
    ensures
        objects_view(r) == json_objects_of(b@),
{
    match serde_json::from_slice::<serde_json::Value>(b) {
        Ok(serde_json::Value::Array(items)) => Some(items.into_iter().map(|v| match v {
            serde_json::Value::Object(m) => Some(m.into_iter().map(|(k, x)| (k, x.as_str().map(String::from))).collect()),
            _ => None,
        }).collect()),
        _ => None,
    }
}

/// The value under `key`: the first member with that key, if any.
pub open spec fn member_of(ms: Seq<JsonMemberModel>, key: Seq<char>) -> Option<Option<Seq<char>>>
    decreases ms.len(),
{
    if ms.len() == 0 {
        None
    } else if ms[0].0 == key {
        Some(ms[0].1)
    } else {
        member_of(ms.drop_first(), key)
    }
}

/// The three fields of a task object.
pub open spec fn raw_of_object(ms: Seq<JsonMemberModel>) -> RawTodoModel {
    RawTodoModel {
        content: member_of(ms, "content"@),
        status: member_of(ms, "status"@),
        active_form: member_of(ms, "activeForm"@),
    }
}

/// The records of an array of objects; `None` when the document is not such an array.
pub open spec fn raw_of(d: Option<Seq<Option<Seq<JsonMemberModel>>>>) -> Option<Seq<RawTodoModel>> {
    match d {
        None => None,
        Some(os) => if forall|i: int| 0 <= i < os.len() ==> (#[trigger] os[i]) is Some {
            Some(os.map_values(|o: Option<Seq<JsonMemberModel>>| raw_of_object(o->Some_0)))
        } else {
            None
        },
    }
}

/// Decoding of a task file's bytes.
pub open spec fn decode_spec(b: Seq<u8>) -> Result<Seq<TodoModel>, DecodeError> {
    match raw_of(json_objects_of(b)) {
        None => Err(DecodeError::Malformed),
        Some(rs) => todos_of_raw(rs),
    }
}

pub open spec fn raw_view(r: Option<Vec<RawTodo>>) -> Option<Seq<RawTodoModel>> {
    match r {
        Some(v) => Some(v@.map_values(|x: RawTodo| x@)),
        None => None,
    }
}

pub open spec fn decoded_view(d: Result<Vec<Todo>, DecodeError>) -> Result<Seq<TodoModel>, DecodeError> {
    match d {
        Ok(v) => Ok(v@.map_values(|t: Todo| t@)),
        Err(e) => Err(e),
    }
}

fn raw_field(ms: &Vec<JsonMember>, key: &str) -> (r: RawField)
    ensures
        r@ == member_of(ms@.map_values(|m: JsonMember| member_view(m)), key@),
{
    let ghost v = ms@.map_values(|m: JsonMember| member_view(m));
    let mut i: usize = 0;
    assert(v.subrange(0, v.len() as int) =~= v);
    while i < ms.len()
        invariant
            i <= ms.len(),
            v == ms@.map_values(|m: JsonMember| member_view(m)),
            member_of(v, key@) == member_of(v.subrange(i as int, v.len() as int), key@),
        decreases ms.len() - i,
    {
        let ghost rest = v.subrange(i as int, v.len() as int);
        assert(rest[0] == member_view(ms@[i as int]));
        if text_eq(ms[i].0.as_str(), key) {
            return match &ms[i].1 {
                Some(t) => RawField::Text(t.clone()),
                None => RawField::NotText,
            };
        }
        assert(rest.drop_first() =~= v.subrange(i as int + 1, v.len() as int));
        i = i + 1;
    }
    assert(v.subrange(i as int, v.len() as int).len() == 0);
    RawField::Absent
}

/// Reads a JSON array of objects into unchecked records, in array order.
/// `None` when the document is not JSON, not an array, or holds a non-object.
pub fn raw_todos(bytes: &[u8]) -> (r: Option<Vec<RawTodo>>)
    ensures
        raw_view(r) == raw_of(json_objects_of(bytes@)),
{
    proof {
        reveal_strlit("content");
        reveal_strlit("status");
        reveal_strlit("activeForm");
    }
    let parsed = parse_objects(bytes);
    let items = match parsed {
        None => return None,
        Some(a) => a,
    };
    let ghost os = objects_view(Some(items))->Some_0;
    assert(Some(os) == json_objects_of(bytes@));
    let mut out: Vec<RawTodo> = Vec::new();
    let mut i: usize = 0;
    while i < items.len()
        invariant
            i <= items.len(),
            os == objects_view(Some(items))->Some_0,
            Some(os) == json_objects_of(bytes@),
            out@.len() == i,
            forall|k: int| 0 <= k < i ==> (#[trigger] os[k]) is Some,
            forall|k: int| 0 <= k < i ==> (#[trigger] out@[k])@ == raw_of_object(os[k]->Some_0),
        decreases items.len() - i,
    {
        assert(os[i as int] == object_view(items@[i as int]));
        let ms = match &items[i] {
            None => {
                assert(os[i as int] is None);
                assert(!(forall|k: int| 0 <= k < os.len() ==> (#[trigger] os[k]) is Some));
                return None;
            },
            Some(ms) => ms,
        };
        out.push(RawTodo {
            content: raw_field(ms, "content"),
            status: raw_field(ms, "status"),
            active_form: raw_field(ms, "activeForm"),
        });
        i = i + 1;
    }
    proof {
        assert(out@.map_values(|x: RawTodo| x@) =~= raw_of(Some(os))->Some_0);
    }
    Some(out)
}

/// Decodes a task file: the task list in file order, or why it is refused.
/// A list is never partly decoded: any bad record fails the whole file.
pub fn load_todos(bytes: &[u8]) -> (res: Result<Vec<Todo>, DecodeError>)
    ensures
        decoded_view(res) == decode_spec(bytes@),
{
    match raw_todos(bytes) {
        None => Err(DecodeError::Malformed),
        Some(rs) => todos_from_raw(&rs),
    }
}

} // verus!
