use vstd::prelude::*;

use crate::text::blank;
use crate::text::is_blank;
use crate::window::to_zone;
use crate::window::zone_text;
use crate::window::TimeError;

verus! {

/// One logged piece of work. `create_datetime` is filled in by the store.
pub struct Task {
    pub id: String,
    pub description: String,
    pub time: String,
    pub task_url: String,
    pub create_datetime: Option<String>,
}

/// Relies on `uuid::Uuid::new_v4` and its `String` form: a random UUID
/// written hyphenated, 36 characters with '-' at 8, 13, 18 and 23 and the
/// version digit '4' at 14.
#[verifier::external_body]
fn fresh_id() -> (r: String)
    ensures
        r@.len() == 36,
        r@[8] == '-' && r@[13] == '-' && r@[18] == '-' && r@[23] == '-',
        r@[14] == '4',
{
    String::from(uuid::Uuid::new_v4())
}

impl Task {
    /// A task with the given fields, not yet stored.
    pub fn new(id: String, description: String, time: String, task_url: String) -> (r: Task)
        ensures
            r.id@ == id@,
            r.description@ == description@,
            r.time@ == time@,
            r.task_url@ == task_url@,
            r.create_datetime is None,
    {
        Task { id, description, time, task_url, create_datetime: None }
    }

    /// A task with a freshly generated identifier, the texts kept verbatim.
    pub fn create(description: String, time: String, task_url: String) -> (r: Task)
        ensures
            r.id@.len() == 36,
            r.description@ == description@,
            r.time@ == time@,
            r.task_url@ == task_url@,
            r.create_datetime is None,
    {
        Task::new(fresh_id(), description, time, task_url)
    }

    /// The values bound to the insert statement, in column order: id,
    /// description, time, url.
    pub fn insert_values(&self) -> (r: Vec<String>)
        ensures
            r@.len() == 4,
            r@[0]@ == self.id@,
            r@[1]@ == self.description@,
            r@[2]@ == self.time@,
            r@[3]@ == self.task_url@,
    {
        let mut v: Vec<String> = Vec::new();
        v.push(self.id.clone());
        v.push(self.description.clone());
        v.push(self.time.clone());
        v.push(self.task_url.clone());
        v
    }
}

/// Which answer the form waits for.
#[derive(Clone, Copy, Debug, PartialEq, Eq, Structural)]
pub enum Stage {
    Description,
    Time,
    Url,
    Complete,
}

/// The questions that `new` asks, one field after the other. Each answer is
/// appended to what was typed for that field so far; a field whose text is
/// still blank is asked again.
pub struct TaskForm {
    pub stage: Stage,
    pub description: String,
    pub time: String,
    pub task_url: String,
}

impl TaskForm {
    pub fn new() -> (r: TaskForm)
        ensures
            r.stage == Stage::Description,
            r.description@.len() == 0,
            r.time@.len() == 0,
            r.task_url@.len() == 0,
    {
        TaskForm {
            stage: Stage::Description,
            description: String::new(),
            time: String::new(),
            task_url: String::new(),
        }
    }

    /// The question for the current field, or `None` once all are answered.
    pub fn prompt(&self) -> (r: Option<&'static str>)
        ensures
            r is None <==> self.stage == Stage::Complete,
    {
        match self.stage {
            Stage::Description => Some("Ingrese la descripcion de lo realizado"),
            Stage::Time => Some("Ingrese el tiempo dedicado"),
            Stage::Url => Some("Ingrese la url de la tarea"),
            Stage::Complete => None,
        }
    }

    /// Takes one line typed for the current field. Returns whether the field
    /// is now answered, that is, no longer blank.
    pub fn feed(&mut self, line: &str) -> (accepted: bool)
        requires
            old(self).stage != Stage::Complete,
        ensures
            old(self).stage == Stage::Description ==> {
                &&& final(self).description@ == old(self).description@ + line@
                &&& final(self).time@ == old(self).time@
                &&& final(self).task_url@ == old(self).task_url@
                &&& accepted == !blank(final(self).description@)
                &&& final(self).stage == if accepted {
                    Stage::Time
                } else {
                    Stage::Description
                }
            },
            old(self).stage == Stage::Time ==> {
                &&& final(self).description@ == old(self).description@
                &&& final(self).time@ == old(self).time@ + line@
                &&& final(self).task_url@ == old(self).task_url@
                &&& accepted == !blank(final(self).time@)
                &&& final(self).stage == if accepted {
                    Stage::Url
                } else {
                    Stage::Time
                }
            },
            old(self).stage == Stage::Url ==> {
                &&& final(self).description@ == old(self).description@
                &&& final(self).time@ == old(self).time@
                &&& final(self).task_url@ == old(self).task_url@ + line@
                &&& accepted == !blank(final(self).task_url@)
                &&& final(self).stage == if accepted {
                    Stage::Complete
                } else {
                    Stage::Url
                }
            },
    {
        match self.stage {
            Stage::Description => {
                self.description.append(line);
                let ok = !is_blank(self.description.as_str());
                if ok {
                    self.stage = Stage::Time;
                }
                ok
            },
            Stage::Time => {
                self.time.append(line);
                let ok = !is_blank(self.time.as_str());
                if ok {
                    self.stage = Stage::Url;
                }
                ok
            },
            _ => {
                self.task_url.append(line);
                let ok = !is_blank(self.task_url.as_str());
                if ok {
                    self.stage = Stage::Complete;
                }
                ok
            },
        }
    }

    /// The task that the answers make, with a fresh identifier, once every
    /// field is answered; the texts are kept exactly as typed.
    pub fn finish(self) -> (r: Option<Task>)
        ensures
            self.stage == Stage::Complete <==> r is Some,
            r matches Some(t) ==> {
                &&& t.id@.len() == 36
                &&& t.description@ == self.description@
                &&& t.time@ == self.time@
                &&& t.task_url@ == self.task_url@
                &&& t.create_datetime is None
            },
    {
        match self.stage {
            Stage::Complete => Some(Task::create(self.description, self.time, self.task_url)),
            _ => None,
        }
    }
}

/// A string as `{:?}` writes it: quoted, with escapes.
pub uninterp spec fn debug_text(s: Seq<char>) -> Seq<char>;

/// Relies on `<str as Debug>::fmt`: the text depends on the string alone.
#[verifier::external_body]
fn debug_quoted(s: &str) -> (r: String)
    ensures
        r@ == debug_text(s@),
{
    format!("{:?}", s)
}

pub open spec fn lines_view(v: Seq<String>) -> Seq<Seq<char>> {
    v.map_values(|s: String| s@)
}

/// The lines that show one task whose creation time reads `shown`.
pub open spec fn block_spec(t: Task, shown: Seq<char>) -> Seq<Seq<char>> {
    seq![
        "========================================="@,
        "ID: "@ + debug_text(t.id@),
        "Description: "@ + debug_text(t.description@),
        "Time : "@ + debug_text(t.time@),
        "Task url: "@ + debug_text(t.task_url@),
        "Create Date: "@ + debug_text(shown),
    ]
}

/// A task's creation time on the wall clock of `offset`.
pub open spec fn shown_time(t: Task, offset: Seq<char>) -> Result<Seq<char>, TimeError> {
    match t.create_datetime {
        None => Err(TimeError::MissingTimestamp),
        Some(s) => zone_text(s@, offset),
    }
}

fn labelled(label: &str, value: &str) -> (r: String)
    ensures
        r@ == label@ + debug_text(value@),
{
    let q = debug_quoted(value);
    String::from_str(label).concat(q.as_str())
}

/// The lines that show one task, its creation time at `offset`.
pub fn record_lines(t: &Task, offset: &str) -> (r: Result<Vec<String>, TimeError>)
    ensures
        match shown_time(*t, offset@) {
            Err(e) => r == Err::<Vec<String>, TimeError>(e),
            Ok(shown) => r matches Ok(v) && lines_view(v@) == block_spec(*t, shown),
        },
{
    let stamp = match &t.create_datetime {
        None => {
            return Err(TimeError::MissingTimestamp);
        },
        Some(s) => s,
    };
    let shown = match to_zone(stamp.as_str(), offset) {
        Err(e) => {
            return Err(e);
        },
        Ok(s) => s,
    };
    let mut v: Vec<String> = Vec::new();
    v.push(String::from_str("========================================="));
    v.push(labelled("ID: ", t.id.as_str()));
    v.push(labelled("Description: ", t.description.as_str()));
    v.push(labelled("Time : ", t.time.as_str()));
    v.push(labelled("Task url: ", t.task_url.as_str()));
    v.push(labelled("Create Date: ", shown.as_str()));
    assert(lines_view(v@) =~= block_spec(*t, shown@));
    Ok(v)
}

/// The listing of `tasks`: the header line, then one block per task in
/// order; the first task that cannot be shown gives the error.
pub open spec fn listing_spec(header: Seq<char>, tasks: Seq<Task>, offset: Seq<char>) -> Result<
    Seq<Seq<char>>,
    TimeError,
>
    decreases tasks.len(),
{
    if tasks.len() == 0 {
        Ok(seq![header])
    } else {
        match listing_spec(header, tasks.drop_last(), offset) {
            Err(e) => Err(e),
            Ok(prev) => match shown_time(tasks.last(), offset) {
                Err(e) => Err(e),
                Ok(shown) => Ok(prev + block_spec(tasks.last(), shown)),
            },
        }
    }
}

/// The lines that `list` prints: `header`, then a block for each task.
pub fn listing(header: &str, tasks: &Vec<Task>, offset: &str) -> (r: Result<Vec<String>, TimeError>)
    ensures
        match listing_spec(header@, tasks@, offset@) {
            Err(e) => r == Err::<Vec<String>, TimeError>(e),
            Ok(lines) => r matches Ok(v) && lines_view(v@) == lines,
        },
{
    let mut out: Vec<String> = Vec::new();
    out.push(String::from_str(header));
    assert(lines_view(out@) =~= seq![header@]);
    let mut i: usize = 0;
    while i < tasks.len()
        invariant
            i <= tasks.len(),
            listing_spec(header@, tasks@.subrange(0, i as int), offset@) == Ok::<
                Seq<Seq<char>>,
                TimeError,
            >(lines_view(out@)),
        decreases tasks.len() - i,
    {
        let ghost prefix = tasks@.subrange(0, i + 1);
        assert(prefix.drop_last() =~= tasks@.subrange(0, i as int));
        assert(prefix.last() == tasks@[i as int]);
        let block = match record_lines(&tasks[i], offset) {
            Err(e) => {
                proof {
                    lemma_listing_fails(header@, tasks@, offset@, i as int + 1);
                }
                return Err(e);
            },
            Ok(b) => b,
        };
        let ghost before = out@;
        let mut j: usize = 0;
        while j < block.len()
            invariant
                j <= block.len(),
                lines_view(out@) == lines_view(before) + lines_view(block@.subrange(0, j as int)),
            decreases block.len() - j,
        {
            let ghost prev = out@;
            let line = block[j].clone();
            assert(line@ == block@[j as int]@);
            out.push(line);
            assert(lines_view(out@) =~= lines_view(prev).push(block@[j as int]@));
            assert(lines_view(block@.subrange(0, j + 1)) =~= lines_view(block@.subrange(0, j as int)).push(block@[j as int]@));
            assert(lines_view(out@) =~= lines_view(before) + lines_view(
                block@.subrange(0, j + 1),
            ));
            j = j + 1;
        }
        assert(block@.subrange(0, block.len() as int) =~= block@);
        i = i + 1;
    }
    assert(tasks@.subrange(0, tasks.len() as int) =~= tasks@);
    Ok(out)
}

/// Once the listing of a prefix fails, the listing of any longer prefix fails
/// with the same error.
proof fn lemma_listing_fails(header: Seq<char>, tasks: Seq<Task>, offset: Seq<char>, k: int)
    requires
        0 < k <= tasks.len(),
        listing_spec(header, tasks.subrange(0, k), offset) is Err,
    ensures
        listing_spec(header, tasks, offset) == listing_spec(header, tasks.subrange(0, k), offset),
    decreases tasks.len() - k,
{
    if k < tasks.len() {
        let p = tasks.subrange(0, k + 1);
        assert(p.drop_last() =~= tasks.subrange(0, k));
        lemma_listing_fails(header, tasks, offset, k + 1);
    } else {
        assert(tasks.subrange(0, k) =~= tasks);
    }
}

} // verus!
