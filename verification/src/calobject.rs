//! The calendar-object parser and serializer.
//!
//! A calendar-object document is line-oriented text: a fixed preamble
//! (`BEGIN:VCALENDAR`, `VERSION:2.0`, a `PRODID` line), zero or more
//! `BEGIN:VTODO` ... `END:VTODO` task blocks, and an `END:VCALENDAR`
//! terminator.  Parsing is a finite-state machine over lines, each line
//! split at its first `:` into a key and a value.  The machine is given
//! here as a pure transition function over an explicit state record, and
//! the executable parser is proved to run that machine.  Serialization
//! renders one task block per task in the same fixed shapes, and a proof
//! shows that parsing a serialized document yields the tasks back.
use vstd::prelude::*;
use crate::error::{Error, ErrorKind};
use crate::strutil::{str_eq, str_to_string};
use crate::task::Task;
use crate::timestamp::{parse_utc_timestamp, spec_format_timestamp, spec_parse_timestamp, Timestamp};

verus! {

/// The index of the first occurrence of `c` in `s`, or `s.len()`.
pub open spec fn first_index_of(s: Seq<char>, c: char) -> int
    decreases s.len(),
{
    if s.len() == 0 {
        0
    } else if s[0] == c {
        0
    } else {
        1 + first_index_of(s.drop_first(), c)
    }
}

/// The first occurrence index is in range, nothing before it is `c`,
/// and it points at `c` unless `c` does not occur.
pub proof fn lemma_first_index_of(s: Seq<char>, c: char)
    ensures
        0 <= first_index_of(s, c) <= s.len(),
        forall|j: int| 0 <= j < first_index_of(s, c) ==> s[j] != c,
        first_index_of(s, c) < s.len() ==> s[first_index_of(s, c)] == c,
    decreases s.len(),
{
    if s.len() == 0 {
    } else if s[0] == c {
    } else {
        lemma_first_index_of(s.drop_first(), c);
        assert(forall|j: int| 0 <= j < first_index_of(s.drop_first(), c) ==> s.drop_first()[j] != c);
        assert forall|j: int| 0 <= j < first_index_of(s, c) implies s[j] != c by {
            if j > 0 {
                assert(s.drop_first()[j - 1] != c);
                assert(s.drop_first()[j - 1] == s[j]);
            }
        }
    }
}

/// Any index below which `c` does not occur, and at which `c` stands or
/// the string ends, is the first occurrence index.
pub proof fn lemma_first_index_of_unique(s: Seq<char>, c: char, i: int)
    requires
        0 <= i <= s.len(),
        forall|j: int| 0 <= j < i ==> s[j] != c,
        i == s.len() || s[i] == c,
    ensures
        first_index_of(s, c) == i,
    decreases s.len(),
{
    if s.len() == 0 {
    } else if s[0] == c {
        if i > 0 {
            assert(s[0] != c);
        }
    } else {
        assert(i > 0) by {
            if i == 0 {
                assert(s[0] == c);
            }
        }
        assert(forall|j: int| 0 <= j < i - 1 ==> s.drop_first()[j] == s[j + 1] && s[j + 1] != c);
        assert(i - 1 == s.drop_first().len() || s.drop_first()[i - 1] == c);
        lemma_first_index_of_unique(s.drop_first(), c, i - 1);
    }
}

/// The line with one trailing carriage return removed, if any.
pub open spec fn strip_cr(l: Seq<char>) -> Seq<char> {
    if l.len() > 0 && l.last() == '\r' {
        l.drop_last()
    } else {
        l
    }
}

/// The lines of `s`: split at every line feed, one trailing carriage
/// return removed per line, no empty line after a final line feed.
pub open spec fn spec_lines(s: Seq<char>) -> Seq<Seq<char>>
    decreases s.len(),
{
    if s.len() == 0 {
        Seq::empty()
    } else {
        let i = first_index_of(s, '\n');
        proof {
            lemma_first_index_of(s, '\n');
        }
        if i == s.len() {
            seq![strip_cr(s)]
        } else {
            seq![strip_cr(s.take(i))] + spec_lines(s.skip(i + 1))
        }
    }
}

/// The key and value of a content line, split at the first `:`; `None`
/// where the line carries no `:`.
pub open spec fn spec_split_line(l: Seq<char>) -> Option<(Seq<char>, Seq<char>)> {
    let i = first_index_of(l, ':');
    if i == l.len() {
        None
    } else {
        Some((l.take(i), l.skip(i + 1)))
    }
}

/// Scans `s` for `c`, from `start`; returns the first index at or after
/// `start` holding `c`, or the length of `s`.
pub fn find_char_from(s: &str, c: char, start: usize) -> (r: usize)
    requires
        start <= s@.len(),
    ensures
        start <= r <= s@.len(),
        forall|j: int| start <= j < r ==> s@[j] != c,
        r < s@.len() ==> s@[r as int] == c,
{
    let n = s.unicode_len();
    let mut i = start;
    while i < n
        invariant
            start <= i <= n,
            n == s@.len(),
            forall|j: int| start <= j < i ==> s@[j] != c,
        decreases n - i,
    {
        if s.get_char(i) == c {
            return i;
        }
        i = i + 1;
    }
    i
}

/// Splits a content line at its first `:` into key and value.
pub fn split_content_line<'a>(l: &'a str) -> (r: Option<(&'a str, &'a str)>)
    ensures
        r matches Some((k, v)) ==> spec_split_line(l@) == Some((k@, v@)),
        r is None ==> spec_split_line(l@) is None,
{
    let n = l.unicode_len();
    let i = find_char_from(l, ':', 0);
    proof {
        lemma_first_index_of_unique(l@, ':', i as int);
    }
    if i == n {
        None
    } else {
        let k = l.substring_char(0, i);
        let v = l.substring_char(i + 1, n);
        proof {
            assert(k@ =~= l@.take(i as int));
            assert(v@ =~= l@.skip(i as int + 1));
        }
        Some((k, v))
    }
}

/// Splits a document into its lines.
pub fn split_lines(s: &str) -> (r: Vec<String>)
    ensures
        r.deep_view() =~= spec_lines(s@),
{
    let n = s.unicode_len();
    let mut out: Vec<String> = Vec::new();
    let mut start: usize = 0;
    proof {
        assert(s@.skip(0) =~= s@);
        assert(out.deep_view() =~= Seq::<Seq<char>>::empty());
    }
    while start < n
        invariant
            start <= n,
            n == s@.len(),
            spec_lines(s@) =~= out.deep_view() + spec_lines(s@.skip(start as int)),
        decreases n - start,
    {
        let i = find_char_from(s, '\n', start);
        let end = if i > start && s.get_char(i - 1) == '\r' {
            i - 1
        } else {
            i
        };
        let line = s.substring_char(start, end);
        proof {
            let tail = s@.skip(start as int);
            assert(tail.len() == n - start);
            assert(forall|j: int| 0 <= j < i - start ==> tail[j] == s@[j + start] && tail[j] != '\n');
            if i < n {
                assert(tail[i - start] == s@[i as int]);
            }
            lemma_first_index_of_unique(tail, '\n', i - start as int);
            let raw = if i - start == tail.len() {
                tail
            } else {
                tail.take(i - start as int)
            };
            assert(raw =~= s@.subrange(start as int, i as int));
            assert(strip_cr(raw) =~= line@);
        }
        out.push(str_to_string(line));
        proof {
            let tail = s@.skip(start as int);
            if i < n {
                assert(tail.skip(i - start as int + 1) =~= s@.skip(i as int + 1));
                assert(spec_lines(tail) =~= seq![line@] + spec_lines(s@.skip(i as int + 1)));
            } else {
                assert(spec_lines(tail) =~= seq![line@]);
            }
        }
        if i < n {
            start = i + 1;
        } else {
            start = n;
            proof {
                assert(s@.skip(n as int) =~= Seq::<char>::empty());
            }
        }
        proof {
            assert(spec_lines(s@) =~= out.deep_view() + spec_lines(s@.skip(start as int)));
        }
    }
    proof {
        assert(s@.skip(start as int) =~= Seq::<char>::empty());
        assert(start == n ==> s@.skip(start as int).len() == 0);
    }
    out
}

/// The abstract content of one parsed task: its summary and its
/// completion instant, if any.
#[verifier::ext_equal]
pub struct TaskModel {
    pub summary: Seq<char>,
    pub completed: Option<Timestamp>,
}

/// The states of the parser: the three fixed preamble lines, the
/// calendar level, the inside of a task block, and the terminal state.
#[derive(Clone, Copy, Debug, PartialEq, Eq, Structural)]
pub enum ParseState {
    ExpectBegin,
    ExpectVersion,
    ExpectProdid,
    Calendar,
    Task,
    Done,
}

/// The full machine state: parser state, tasks finished so far, and the
/// builder fields of the task block being read.
#[verifier::ext_equal]
pub struct MachineState {
    pub state: ParseState,
    pub tasks: Seq<TaskModel>,
    pub summary: Option<Seq<char>>,
    pub completed: Option<Timestamp>,
}

/// The machine state before the first line.
pub open spec fn initial_machine_state() -> MachineState {
    MachineState { state: ParseState::ExpectBegin, tasks: Seq::empty(), summary: None, completed: None }
}

/// The pure transition function of the parser: one line turns one
/// machine state into the next, or into an error.
///
/// Tolerated inputs are first-class transitions: an unrecognized block
/// or key leaves the state unchanged.  An unrecognized block's interior
/// lines are not consumed structurally; they fall through to the
/// enclosing level's handling.
pub open spec fn spec_step(st: MachineState, line: Seq<char>) -> Result<MachineState, ErrorKind> {
    match spec_split_line(line) {
        None => Err(ErrorKind::DocumentParse),
        Some((k, v)) => match st.state {
            ParseState::ExpectBegin => if k == "BEGIN"@ && v == "VCALENDAR"@ {
                Ok(MachineState { state: ParseState::ExpectVersion, ..st })
            } else {
                Err(ErrorKind::DocumentParse)
            },
            ParseState::ExpectVersion => if k == "VERSION"@ && v == "2.0"@ {
                Ok(MachineState { state: ParseState::ExpectProdid, ..st })
            } else {
                Err(ErrorKind::DocumentParse)
            },
            ParseState::ExpectProdid => if k == "PRODID"@ {
                Ok(MachineState { state: ParseState::Calendar, ..st })
            } else {
                Err(ErrorKind::DocumentParse)
            },
            ParseState::Done => Err(ErrorKind::DocumentParse),
            ParseState::Calendar => if k == "BEGIN"@ && v == "VTODO"@ {
                Ok(MachineState { state: ParseState::Task, summary: None, completed: None, ..st })
            } else if k == "END"@ && v == "VCALENDAR"@ {
                Ok(MachineState { state: ParseState::Done, ..st })
            } else {
                Ok(st)
            },
            ParseState::Task => if k == "END"@ && v == "VTODO"@ {
                match st.summary {
                    Some(sum) => Ok(
                        MachineState {
                            state: ParseState::Calendar,
                            tasks: st.tasks.push(TaskModel { summary: sum, completed: st.completed }),
                            summary: None,
                            completed: None,
                        },
                    ),
                    None => Err(ErrorKind::DocumentParse),
                }
            } else if k == "BEGIN"@ || k == "END"@ {
                Ok(st)
            } else if k == "SUMMARY"@ {
                Ok(MachineState { summary: Some(v), ..st })
            } else if k == "COMPLETED"@ {
                match spec_parse_timestamp(v) {
                    Some(t) => Ok(MachineState { completed: Some(t), ..st }),
                    None => Err(ErrorKind::Timestamp),
                }
            } else {
                Ok(st)
            },
        },
    }
}

/// Runs the machine over the remaining lines; at the end of input the
/// run is an error unless the terminal state was reached.
pub open spec fn spec_run(st: MachineState, lines: Seq<Seq<char>>) -> Result<
    Seq<TaskModel>,
    ErrorKind,
>
    decreases lines.len(),
{
    if lines.len() == 0 {
        if st.state is Done {
            Ok(st.tasks)
        } else {
            Err(ErrorKind::DocumentParse)
        }
    } else {
        match spec_step(st, lines[0]) {
            Ok(st2) => spec_run(st2, lines.drop_first()),
            Err(e) => Err(e),
        }
    }
}

/// The tasks denoted by a calendar-object document, or the kind of error
/// on which parsing it fails.
pub open spec fn spec_parse_document(s: Seq<char>) -> Result<Seq<TaskModel>, ErrorKind> {
    spec_run(initial_machine_state(), spec_lines(s))
}

/// The abstract content of a task value.
pub open spec fn task_model(t: Task) -> TaskModel {
    TaskModel {
        summary: match t.spec_summary() {
            Some(s) => s,
            None => Seq::empty(),
        },
        completed: t.spec_completed(),
    }
}

/// The parsed contents of one calendar-object document: its tasks, in
/// document order.
#[derive(Debug)]
pub struct Data {
    pub tasks: Vec<Task>,
}

impl View for Data {
    type V = Seq<TaskModel>;

    open spec fn view(&self) -> Seq<TaskModel> {
        self.tasks@.map_values(|t: Task| task_model(t))
    }
}

impl Data {
    /// Every task of the collection is well-formed.
    pub open spec fn wf(self) -> bool {
        forall|i: int| 0 <= i < self.tasks@.len() ==> (#[trigger] self.tasks@[i]).wf()
    }
}

/// The view of an optional owned string.
pub open spec fn opt_str_view(o: Option<String>) -> Option<Seq<char>> {
    match o {
        Some(x) => Some(x@),
        None => None,
    }
}

/// Builds the document-parse error for an offending line or document.
fn document_error(context: &str, line: &str) -> (r: Error)
    ensures
        r.spec_kind() == ErrorKind::DocumentParse,
{
    let mut m = String::new();
    m.append(context);
    m.append(line);
    Error::DocumentParse(m)
}

/// Parses a calendar-object document into its task sequence.
///
/// The result is exactly the run of the line machine: the documents the
/// machine accepts yield their tasks, and the documents it rejects yield
/// the error kind at which it stops.
pub fn parse_calendar_document(s: &str) -> (r: Result<Data, Error>)
    ensures
        spec_parse_document(s@) matches Ok(ms) ==> (r matches Ok(d) && d@ == ms && d.wf()),
        spec_parse_document(s@) matches Err(k) ==> (r matches Err(e) && e.spec_kind() == k),
{
    let lines = split_lines(s);
    let ghost lv = lines.deep_view();
    proof {
        assert(lv =~= spec_lines(s@));
    }
    let mut state = ParseState::ExpectBegin;
    let mut tasks: Vec<Task> = Vec::new();
    let mut summary: Option<String> = None;
    let mut completed: Option<Timestamp> = None;
    let n = lines.len();
    let mut i: usize = 0;
    proof {
        assert(tasks@.map_values(|t: Task| task_model(t)) =~= Seq::<TaskModel>::empty());
        assert(lv.skip(0) =~= lv);
    }
    while i < n
        invariant
            i <= n,
            n == lines@.len(),
            lv == lines.deep_view(),
            spec_parse_document(s@) == spec_run(
                MachineState {
                    state: state,
                    tasks: tasks@.map_values(|t: Task| task_model(t)),
                    summary: opt_str_view(summary),
                    completed: completed,
                },
                lv.skip(i as int),
            ),
            forall|j: int| 0 <= j < tasks@.len() ==> (#[trigger] tasks@[j]).wf(),
            completed matches Some(t) ==> t.wf(),
        decreases n - i,
    {
        let ghost cur = MachineState {
            state: state,
            tasks: tasks@.map_values(|t: Task| task_model(t)),
            summary: opt_str_view(summary),
            completed: completed,
        };
        let ghost rem = lv.skip(i as int);
        proof {
            assert(rem[0] == lv[i as int]);
            assert(rem.drop_first() =~= lv.skip(i as int + 1));
        }
        let line = &lines[i];
        match split_content_line(line.as_str()) {
            None => {
                return Err(document_error("calendar-object line without ':': ", line.as_str()));
            },
            Some((k, v)) => {
                match state {
                    ParseState::ExpectBegin => {
                        if str_eq(k, "BEGIN") && str_eq(v, "VCALENDAR") {
                            state = ParseState::ExpectVersion;
                        } else {
                            return Err(
                                document_error("malformed calendar-object preamble: ", line.as_str()),
                            );
                        }
                    },
                    ParseState::ExpectVersion => {
                        if str_eq(k, "VERSION") && str_eq(v, "2.0") {
                            state = ParseState::ExpectProdid;
                        } else {
                            return Err(
                                document_error("malformed calendar-object preamble: ", line.as_str()),
                            );
                        }
                    },
                    ParseState::ExpectProdid => {
                        if str_eq(k, "PRODID") {
                            state = ParseState::Calendar;
                        } else {
                            return Err(
                                document_error("malformed calendar-object preamble: ", line.as_str()),
                            );
                        }
                    },
                    ParseState::Done => {
                        return Err(
                            document_error("unexpected line after END:VCALENDAR: ", line.as_str()),
                        );
                    },
                    ParseState::Calendar => {
                        if str_eq(k, "BEGIN") && str_eq(v, "VTODO") {
                            state = ParseState::Task;
                            summary = None;
                            completed = None;
                        } else if str_eq(k, "END") && str_eq(v, "VCALENDAR") {
                            state = ParseState::Done;
                        } else {
                            // unrecognized block or stray line: tolerated
                        }
                    },
                    ParseState::Task => {
                        if str_eq(k, "END") && str_eq(v, "VTODO") {
                            match summary {
                                None => {
                                    return Err(
                                        document_error(
                                            "task block without SUMMARY at: ",
                                            line.as_str(),
                                        ),
                                    );
                                },
                                Some(sum) => {
                                    let mut t = Task::new(sum);
                                    match completed {
                                        Some(ts) => t.set_done(ts),
                                        None => {},
                                    }
                                    proof {
                                        assert(task_model(t) == TaskModel {
                                            summary: cur.summary->0,
                                            completed: cur.completed,
                                        });
                                    }
                                    tasks.push(t);
                                    summary = None;
                                    completed = None;
                                    state = ParseState::Calendar;
                                    proof {
                                        assert(tasks@.map_values(|x: Task| task_model(x))
                                            =~= cur.tasks.push(task_model(t)));
                                    }
                                },
                            }
                        } else if str_eq(k, "BEGIN") || str_eq(k, "END") {
                            // unrecognized nested block boundary: tolerated
                        } else if str_eq(k, "SUMMARY") {
                            summary = Some(str_to_string(v));
                        } else if str_eq(k, "COMPLETED") {
                            match parse_utc_timestamp(v) {
                                Ok(ts) => {
                                    completed = Some(ts);
                                },
                                Err(e) => {
                                    return Err(e);
                                },
                            }
                        } else {
                            // unknown task field: dropped
                        }
                    },
                }
            },
        }
        i = i + 1;
        proof {
            let next = MachineState {
                state: state,
                tasks: tasks@.map_values(|t: Task| task_model(t)),
                summary: opt_str_view(summary),
                completed: completed,
            };
            assert(rem[0] == line@);
            assert(spec_step(cur, rem[0]) == Ok::<MachineState, ErrorKind>(next));
            assert(spec_run(cur, rem) == spec_run(next, rem.drop_first()));
            assert(spec_run(next, lv.skip(i as int)) == spec_run(next, rem.drop_first()));
            assert(spec_parse_document(s@) == spec_run(next, lv.skip(i as int)));
        }
    }
    proof {
        assert(lv.skip(i as int) =~= Seq::<Seq<char>>::empty());
    }
    match state {
        ParseState::Done => Ok(Data { tasks }),
        _ => Err(document_error("unexpected end of calendar document", "")),
    }
}

/// The document text of a sequence of lines, each terminated by a
/// carriage return and line feed.
pub open spec fn spec_unlines(ls: Seq<Seq<char>>) -> Seq<char>
    decreases ls.len(),
{
    if ls.len() == 0 {
        Seq::empty()
    } else {
        ls[0] + seq!['\r', '\n'] + spec_unlines(ls.drop_first())
    }
}

/// The lines of one serialized task block.
pub open spec fn render_task_lines(m: TaskModel) -> Seq<Seq<char>> {
    seq!["BEGIN:VTODO"@, "SUMMARY:"@ + m.summary] + (match m.completed {
        Some(t) => seq!["COMPLETED:"@ + spec_format_timestamp(t)],
        None => Seq::empty(),
    }) + seq!["END:VTODO"@]
}

/// The lines of the serialized task blocks, in order.
pub open spec fn render_tasks(ms: Seq<TaskModel>) -> Seq<Seq<char>>
    decreases ms.len(),
{
    if ms.len() == 0 {
        Seq::empty()
    } else {
        render_task_lines(ms[0]) + render_tasks(ms.drop_first())
    }
}

/// The lines of a whole serialized document: preamble, task blocks,
/// terminator.
pub open spec fn render_document_lines(ms: Seq<TaskModel>) -> Seq<Seq<char>> {
    seq!["BEGIN:VCALENDAR"@, "VERSION:2.0"@, "PRODID:caldav-tasks"@] + render_tasks(ms) + seq![
        "END:VCALENDAR"@,
    ]
}

/// The serialized text of a task sequence.
pub open spec fn spec_serialize_document(ms: Seq<TaskModel>) -> Seq<char> {
    spec_unlines(render_document_lines(ms))
}

/// Joining lines distributes over concatenation of line sequences.
pub proof fn lemma_unlines_concat(a: Seq<Seq<char>>, b: Seq<Seq<char>>)
    ensures
        spec_unlines(a + b) == spec_unlines(a) + spec_unlines(b),
    decreases a.len(),
{
    if a.len() == 0 {
        assert(a + b =~= b);
        assert(spec_unlines(a) =~= Seq::<char>::empty());
        assert(spec_unlines(a) + spec_unlines(b) =~= spec_unlines(b));
    } else {
        assert((a + b)[0] == a[0]);
        assert((a + b).drop_first() =~= a.drop_first() + b);
        lemma_unlines_concat(a.drop_first(), b);
        assert(spec_unlines(a + b) =~= spec_unlines(a) + spec_unlines(b));
    }
}

/// Serializing one more task appends its block's lines.
proof fn lemma_render_tasks_snoc(ms: Seq<TaskModel>, m: TaskModel)
    ensures
        render_tasks(ms.push(m)) == render_tasks(ms) + render_task_lines(m),
    decreases ms.len(),
{
    if ms.len() == 0 {
        assert(ms.push(m)[0] == m);
        assert(ms.push(m).drop_first() =~= Seq::<TaskModel>::empty());
        assert(render_tasks(Seq::<TaskModel>::empty()) == Seq::<Seq<char>>::empty());
        assert(render_tasks(ms.push(m)) =~= render_tasks(ms) + render_task_lines(m));
    } else {
        assert(ms.push(m)[0] == ms[0]);
        assert(ms.push(m).drop_first() =~= ms.drop_first().push(m));
        lemma_render_tasks_snoc(ms.drop_first(), m);
        assert(render_tasks(ms.push(m)) == render_task_lines(ms[0]) + render_tasks(
            ms.drop_first().push(m),
        ));
        assert(render_tasks(ms) == render_task_lines(ms[0]) + render_tasks(ms.drop_first()));
        assert(render_tasks(ms.push(m)) =~= render_tasks(ms) + render_task_lines(m));
    }
}

/// Joining one line.
proof fn lemma_unlines1(l0: Seq<char>)
    ensures
        spec_unlines(seq![l0]) == l0 + seq!['\r', '\n'],
{
    let ls = seq![l0];
    assert(ls[0] == l0);
    assert(ls.drop_first() =~= Seq::<Seq<char>>::empty());
    assert(spec_unlines(Seq::<Seq<char>>::empty()) == Seq::<char>::empty());
    assert(spec_unlines(ls) =~= l0 + seq!['\r', '\n']);
}

/// Joining two lines.
proof fn lemma_unlines2(l0: Seq<char>, l1: Seq<char>)
    ensures
        spec_unlines(seq![l0, l1]) == l0 + seq!['\r', '\n'] + l1 + seq!['\r', '\n'],
{
    let ls = seq![l0, l1];
    assert(ls[0] == l0);
    assert(ls.drop_first() =~= seq![l1]);
    lemma_unlines1(l1);
    assert(spec_unlines(ls) =~= l0 + seq!['\r', '\n'] + l1 + seq!['\r', '\n']);
}

/// Joining three lines.
proof fn lemma_unlines3(l0: Seq<char>, l1: Seq<char>, l2: Seq<char>)
    ensures
        spec_unlines(seq![l0, l1, l2]) == l0 + seq!['\r', '\n'] + l1 + seq!['\r', '\n'] + l2
            + seq!['\r', '\n'],
{
    let ls = seq![l0, l1, l2];
    assert(ls[0] == l0);
    assert(ls.drop_first() =~= seq![l1, l2]);
    lemma_unlines2(l1, l2);
    assert(spec_unlines(ls) =~= l0 + seq!['\r', '\n'] + l1 + seq!['\r', '\n'] + l2 + seq![
        '\r',
        '\n',
    ]);
}

/// Joining four lines.
proof fn lemma_unlines4(l0: Seq<char>, l1: Seq<char>, l2: Seq<char>, l3: Seq<char>)
    ensures
        spec_unlines(seq![l0, l1, l2, l3]) == l0 + seq!['\r', '\n'] + l1 + seq!['\r', '\n'] + l2
            + seq!['\r', '\n'] + l3 + seq!['\r', '\n'],
{
    let ls = seq![l0, l1, l2, l3];
    assert(ls.drop_first() =~= seq![l1, l2, l3]);
    lemma_unlines3(l1, l2, l3);
    assert(spec_unlines(ls) =~= l0 + seq!['\r', '\n'] + l1 + seq!['\r', '\n'] + l2 + seq![
        '\r',
        '\n',
    ] + l3 + seq!['\r', '\n']);
}

/// Appends one line and its terminator.
fn append_line(out: &mut String, line: &str)
    ensures
        final(out)@ == old(out)@ + line@ + seq!['\r', '\n'],
{
    proof {
        reveal_strlit("\r\n");
    }
    out.append(line);
    out.append("\r\n");
    proof {
        assert(out@ =~= old(out)@ + line@ + seq!['\r', '\n']);
    }
}

/// Appends one serialized task block.
fn append_task_block(out: &mut String, t: &Task)
    requires
        t.wf(),
    ensures
        final(out)@ == old(out)@ + spec_unlines(render_task_lines(task_model(*t))),
{
    let ghost m = task_model(*t);
    append_line(out, "BEGIN:VTODO");
    let ghost before_summary = out@;
    proof {
        reveal_strlit("\r\n");
    }
    out.append("SUMMARY:");
    out.append(t.summary().as_str());
    out.append("\r\n");
    proof {
        assert(out@ =~= before_summary + ("SUMMARY:"@ + m.summary) + seq!['\r', '\n']);
    }
    match t.done() {
        Some(ts) => {
            let ghost before_completed = out@;
            let rendered = crate::timestamp::format_utc_timestamp(&ts);
            out.append("COMPLETED:");
            out.append(rendered.as_str());
            out.append("\r\n");
            proof {
                assert(out@ =~= before_completed + ("COMPLETED:"@ + spec_format_timestamp(ts))
                    + seq!['\r', '\n']);
            }
        },
        None => {},
    }
    append_line(out, "END:VTODO");
    proof {
        match m.completed {
            Some(ts) => {
                assert(render_task_lines(m) =~= seq![
                    "BEGIN:VTODO"@,
                    "SUMMARY:"@ + m.summary,
                    "COMPLETED:"@ + spec_format_timestamp(ts),
                    "END:VTODO"@,
                ]);
                lemma_unlines4(
                    "BEGIN:VTODO"@,
                    "SUMMARY:"@ + m.summary,
                    "COMPLETED:"@ + spec_format_timestamp(ts),
                    "END:VTODO"@,
                );
            },
            None => {
                assert(render_task_lines(m) =~= seq![
                    "BEGIN:VTODO"@,
                    "SUMMARY:"@ + m.summary,
                    "END:VTODO"@,
                ]);
                lemma_unlines3("BEGIN:VTODO"@, "SUMMARY:"@ + m.summary, "END:VTODO"@);
            },
        }
        assert(out@ =~= old(out)@ + spec_unlines(render_task_lines(m)));
    }
}

/// Serializes a task sequence as a calendar-object document: the fixed
/// preamble, one task block per task in order, and the terminator.
pub fn serialize_calendar_document(d: &Data) -> (r: String)
    requires
        d.wf(),
    ensures
        r@ == spec_serialize_document(d@),
{
    let mut out = String::new();
    append_line(&mut out, "BEGIN:VCALENDAR");
    append_line(&mut out, "VERSION:2.0");
    append_line(&mut out, "PRODID:caldav-tasks");
    let ghost preamble = seq!["BEGIN:VCALENDAR"@, "VERSION:2.0"@, "PRODID:caldav-tasks"@];
    proof {
        lemma_unlines3("BEGIN:VCALENDAR"@, "VERSION:2.0"@, "PRODID:caldav-tasks"@);
        assert(render_tasks(d@.take(0)) =~= Seq::<Seq<char>>::empty()) by {
            assert(d@.take(0) =~= Seq::<TaskModel>::empty());
        }
        assert(spec_unlines(Seq::<Seq<char>>::empty()) =~= Seq::<char>::empty());
        assert(out@ =~= spec_unlines(preamble) + spec_unlines(render_tasks(d@.take(0))));
    }
    let n = d.tasks.len();
    let mut i: usize = 0;
    while i < n
        invariant
            i <= n,
            n == d.tasks@.len(),
            d.wf(),
            out@ == spec_unlines(preamble) + spec_unlines(render_tasks(d@.take(i as int))),
        decreases n - i,
    {
        append_task_block(&mut out, &d.tasks[i]);
        i = i + 1;
        proof {
            assert(d@.take(i as int) =~= d@.take(i - 1).push(d@[i - 1]));
            lemma_render_tasks_snoc(d@.take(i - 1), d@[i - 1]);
            assert(d@[i - 1] == task_model(d.tasks@[i - 1]));
            lemma_unlines_concat(render_tasks(d@.take(i - 1)), render_task_lines(d@[i - 1]));
            assert(out@ =~= spec_unlines(preamble) + spec_unlines(render_tasks(d@.take(i as int))));
        }
    }
    append_line(&mut out, "END:VCALENDAR");
    proof {
        assert(d@.take(n as int) =~= d@);
        let terminator = seq!["END:VCALENDAR"@];
        lemma_unlines1("END:VCALENDAR"@);
        lemma_unlines_concat(preamble, render_tasks(d@));
        lemma_unlines_concat(preamble + render_tasks(d@), terminator);
        assert(render_document_lines(d@) =~= (preamble + render_tasks(d@)) + terminator);
        assert(out@ =~= spec_serialize_document(d@));
    }
    out
}

/// Whether a line is free of line feeds, so that joining and splitting
/// lines is lossless.
pub open spec fn no_newline(l: Seq<char>) -> bool {
    forall|j: int| 0 <= j < l.len() ==> l[j] != '\n'
}

/// A well-formed task model: a summary that can stand on one line, and
/// a well-formed completion instant where one is set.
pub open spec fn wf_task_model(m: TaskModel) -> bool {
    &&& no_newline(m.summary)
    &&& (m.completed matches Some(t) ==> t.wf())
}

/// The shapes of the fixed protocol lines: how each splits at its first
/// `:`, that the keyword literals are pairwise distinct where the
/// machine tells them apart, and that none of the fixed lines holds a
/// line feed.
pub proof fn lemma_protocol_literals()
    ensures
        spec_split_line("BEGIN:VCALENDAR"@) == Some(("BEGIN"@, "VCALENDAR"@)),
        spec_split_line("VERSION:2.0"@) == Some(("VERSION"@, "2.0"@)),
        spec_split_line("PRODID:caldav-tasks"@) == Some(("PRODID"@, "caldav-tasks"@)),
        spec_split_line("BEGIN:VTODO"@) == Some(("BEGIN"@, "VTODO"@)),
        spec_split_line("END:VTODO"@) == Some(("END"@, "VTODO"@)),
        spec_split_line("END:VCALENDAR"@) == Some(("END"@, "VCALENDAR"@)),
        "END"@ != "BEGIN"@,
        "SUMMARY"@ != "END"@,
        "SUMMARY"@ != "BEGIN"@,
        "COMPLETED"@ != "END"@,
        "COMPLETED"@ != "BEGIN"@,
        "COMPLETED"@ != "SUMMARY"@,
        no_newline("BEGIN:VCALENDAR"@),
        no_newline("VERSION:2.0"@),
        no_newline("PRODID:caldav-tasks"@),
        no_newline("BEGIN:VTODO"@),
        no_newline("END:VTODO"@),
        no_newline("END:VCALENDAR"@),
{
    reveal_strlit("BEGIN:VCALENDAR");
    reveal_strlit("VERSION:2.0");
    reveal_strlit("PRODID:caldav-tasks");
    reveal_strlit("BEGIN:VTODO");
    reveal_strlit("END:VTODO");
    reveal_strlit("END:VCALENDAR");
    reveal_strlit("BEGIN");
    reveal_strlit("END");
    reveal_strlit("VERSION");
    reveal_strlit("PRODID");
    reveal_strlit("SUMMARY");
    reveal_strlit("COMPLETED");
    reveal_strlit("VCALENDAR");
    reveal_strlit("VTODO");
    reveal_strlit("2.0");
    reveal_strlit("caldav-tasks");
    lemma_first_index_of_unique("BEGIN:VCALENDAR"@, ':', 5);
    assert("BEGIN:VCALENDAR"@.take(5) =~= "BEGIN"@);
    assert("BEGIN:VCALENDAR"@.skip(6) =~= "VCALENDAR"@);
    lemma_first_index_of_unique("VERSION:2.0"@, ':', 7);
    assert("VERSION:2.0"@.take(7) =~= "VERSION"@);
    assert("VERSION:2.0"@.skip(8) =~= "2.0"@);
    lemma_first_index_of_unique("PRODID:caldav-tasks"@, ':', 6);
    assert("PRODID:caldav-tasks"@.take(6) =~= "PRODID"@);
    assert("PRODID:caldav-tasks"@.skip(7) =~= "caldav-tasks"@);
    lemma_first_index_of_unique("BEGIN:VTODO"@, ':', 5);
    assert("BEGIN:VTODO"@.take(5) =~= "BEGIN"@);
    assert("BEGIN:VTODO"@.skip(6) =~= "VTODO"@);
    lemma_first_index_of_unique("END:VTODO"@, ':', 3);
    assert("END:VTODO"@.take(3) =~= "END"@);
    assert("END:VTODO"@.skip(4) =~= "VTODO"@);
    lemma_first_index_of_unique("END:VCALENDAR"@, ':', 3);
    assert("END:VCALENDAR"@.take(3) =~= "END"@);
    assert("END:VCALENDAR"@.skip(4) =~= "VCALENDAR"@);
    assert("BEGIN"@.len() == 5);
    assert("END"@.len() == 3);
    assert("SUMMARY"@.len() == 7);
    assert("COMPLETED"@.len() == 9);
}

/// A summary content line splits into the `SUMMARY` key and its value.
pub proof fn lemma_split_summary_line(v: Seq<char>)
    ensures
        spec_split_line("SUMMARY:"@ + v) == Some(("SUMMARY"@, v)),
{
    reveal_strlit("SUMMARY:");
    reveal_strlit("SUMMARY");
    let l = "SUMMARY:"@ + v;
    assert(forall|j: int| 0 <= j < 8 ==> l[j] == "SUMMARY:"@[j]);
    assert(forall|j: int| 0 <= j < 7 ==> l[j] != ':');
    assert(l[7] == ':');
    lemma_first_index_of_unique(l, ':', 7);
    assert(l.take(7) =~= "SUMMARY"@);
    assert(l.skip(8) =~= v);
}

/// A completion content line splits into the `COMPLETED` key and its
/// value.
pub proof fn lemma_split_completed_line(v: Seq<char>)
    ensures
        spec_split_line("COMPLETED:"@ + v) == Some(("COMPLETED"@, v)),
{
    reveal_strlit("COMPLETED:");
    reveal_strlit("COMPLETED");
    let l = "COMPLETED:"@ + v;
    assert(forall|j: int| 0 <= j < 10 ==> l[j] == "COMPLETED:"@[j]);
    assert(forall|j: int| 0 <= j < 9 ==> l[j] != ':');
    assert(l[9] == ':');
    lemma_first_index_of_unique(l, ':', 9);
    assert(l.take(9) =~= "COMPLETED"@);
    assert(l.skip(10) =~= v);
}

/// No character of a rendered timestamp is a line feed.
pub proof fn lemma_format_timestamp_no_newline(t: Timestamp)
    ensures
        no_newline(spec_format_timestamp(t)),
{
    let f = spec_format_timestamp(t);
    assert forall|j: int| 0 <= j < f.len() implies f[j] != '\n' by {
        assert(crate::timestamp::digit_char(0) != '\n');
    }
}

/// Splitting the joined text of line-feed-free lines yields the lines
/// back.
pub proof fn lemma_lines_of_unlines(ls: Seq<Seq<char>>)
    requires
        forall|i: int| 0 <= i < ls.len() ==> no_newline(#[trigger] ls[i]),
    ensures
        spec_lines(spec_unlines(ls)) == ls,
    decreases ls.len(),
{
    if ls.len() == 0 {
        assert(spec_unlines(ls) =~= Seq::<char>::empty());
        assert(spec_lines(Seq::<char>::empty()) =~= Seq::<Seq<char>>::empty());
    } else {
        let l0 = ls[0];
        let rest_u = spec_unlines(ls.drop_first());
        let u = spec_unlines(ls);
        assert(u == l0 + seq!['\r', '\n'] + rest_u);
        assert(no_newline(l0));
        assert forall|j: int| 0 <= j < l0.len() + 1 implies u[j] != '\n' by {
            if j < l0.len() {
                assert(u[j] == l0[j]);
            } else {
                assert(u[j] == '\r');
            }
        }
        assert(u[l0.len() as int + 1] == '\n');
        lemma_first_index_of_unique(u, '\n', l0.len() as int + 1);
        assert(u.len() == l0.len() + 2 + rest_u.len());
        let taken = u.take(l0.len() as int + 1);
        assert(taken =~= l0 + seq!['\r']);
        assert(taken.last() == '\r');
        assert(strip_cr(taken) =~= l0);
        assert(u.skip(l0.len() as int + 2) =~= rest_u);
        lemma_lines_of_unlines(ls.drop_first());
        assert(spec_lines(u) =~= seq![strip_cr(taken)] + ls.drop_first());
        assert(seq![l0] + ls.drop_first() =~= ls);
        assert(spec_lines(spec_unlines(ls)) =~= ls);
    }
}

/// The per-line machine invariant that carries well-formedness: every
/// finished task is well-formed, and the builder fields are too.
pub open spec fn machine_wf(st: MachineState) -> bool {
    &&& forall|i: int| 0 <= i < st.tasks.len() ==> wf_task_model(#[trigger] st.tasks[i])
    &&& (st.summary matches Some(x) ==> no_newline(x))
    &&& (st.completed matches Some(t) ==> t.wf())
}

/// One step of the machine, on a line without line feeds, preserves the
/// well-formedness invariant.
proof fn lemma_step_preserves_wf(st: MachineState, l: Seq<char>)
    requires
        machine_wf(st),
        no_newline(l),
        spec_step(st, l) is Ok,
    ensures
        machine_wf(spec_step(st, l)->Ok_0),
{
    let st2 = spec_step(st, l)->Ok_0;
    match spec_split_line(l) {
        None => {},
        Some((k, v)) => {
            assert(v == l.skip(first_index_of(l, ':') + 1));
            lemma_first_index_of(l, ':');
            assert(no_newline(v)) by {
                assert(forall|j: int| 0 <= j < v.len() ==> v[j] == l[j + first_index_of(l, ':') + 1]);
            }
            if st.state is Task && k == "END"@ && v == "VTODO"@ && st.summary is Some {
                let m = TaskModel { summary: st.summary->0, completed: st.completed };
                assert(wf_task_model(m));
                assert forall|i: int| 0 <= i < st2.tasks.len() implies wf_task_model(
                    #[trigger] st2.tasks[i],
                ) by {
                    if i < st.tasks.len() {
                        assert(st2.tasks[i] == st.tasks[i]);
                    } else {
                        assert(st2.tasks[i] == m);
                    }
                }
            }
            if st.state is Task && k == "COMPLETED"@ {
                match spec_parse_timestamp(v) {
                    Some(t) => {
                        assert(t.wf());
                    },
                    None => {},
                }
            }
        },
    }
}

/// A run of the machine on lines without line feeds, from a state that
/// meets the invariant, yields only well-formed task models.
proof fn lemma_run_wf(st: MachineState, lines: Seq<Seq<char>>)
    requires
        machine_wf(st),
        forall|i: int| 0 <= i < lines.len() ==> no_newline(#[trigger] lines[i]),
    ensures
        spec_run(st, lines) matches Ok(ms) ==> forall|i: int|
            0 <= i < ms.len() ==> wf_task_model(#[trigger] ms[i]),
    decreases lines.len(),
{
    if lines.len() == 0 {
    } else {
        match spec_step(st, lines[0]) {
            Ok(st2) => {
                lemma_step_preserves_wf(st, lines[0]);
                assert(forall|i: int|
                    0 <= i < lines.drop_first().len() ==> no_newline(
                        #[trigger] lines.drop_first()[i],
                    )) by {
                    assert(forall|i: int|
                        0 <= i < lines.drop_first().len() ==> lines.drop_first()[i] == lines[i
                            + 1]);
                }
                lemma_run_wf(st2, lines.drop_first());
            },
            Err(_) => {},
        }
    }
}

/// Every line that document splitting yields is free of line feeds.
proof fn lemma_spec_lines_no_newline(s: Seq<char>)
    ensures
        forall|i: int| 0 <= i < spec_lines(s).len() ==> no_newline(#[trigger] spec_lines(s)[i]),
    decreases s.len(),
{
    if s.len() == 0 {
    } else {
        let i = first_index_of(s, '\n');
        lemma_first_index_of(s, '\n');
        if i == s.len() {
            assert(no_newline(strip_cr(s))) by {
                assert(forall|j: int| 0 <= j < s.len() ==> s[j] != '\n');
                assert(forall|j: int| 0 <= j < strip_cr(s).len() ==> strip_cr(s)[j] == s[j]);
            }
            assert(spec_lines(s)[0] == strip_cr(s));
        } else {
            let line = strip_cr(s.take(i));
            assert(no_newline(line)) by {
                assert(forall|j: int| 0 <= j < s.take(i).len() ==> s.take(i)[j] == s[j]);
                assert(forall|j: int| 0 <= j < line.len() ==> line[j] == s.take(i)[j]);
            }
            lemma_spec_lines_no_newline(s.skip(i + 1));
            let rest = spec_lines(s.skip(i + 1));
            assert forall|j: int| 0 <= j < spec_lines(s).len() implies no_newline(
                #[trigger] spec_lines(s)[j],
            ) by {
                if j == 0 {
                    assert(spec_lines(s)[0] == line);
                } else {
                    assert(spec_lines(s)[j] == rest[j - 1]);
                }
            }
        }
    }
}

/// Documents the machine accepts carry only well-formed task models.
pub proof fn lemma_parse_models_wf(s: Seq<char>)
    ensures
        spec_parse_document(s) matches Ok(ms) ==> forall|i: int|
            0 <= i < ms.len() ==> wf_task_model(#[trigger] ms[i]),
{
    lemma_spec_lines_no_newline(s);
    lemma_run_wf(initial_machine_state(), spec_lines(s));
}

/// No line of a rendered task block holds a line feed.
proof fn lemma_render_task_lines_no_newline(m: TaskModel)
    requires
        wf_task_model(m),
    ensures
        forall|i: int| 0 <= i < render_task_lines(m).len() ==> no_newline(
            #[trigger] render_task_lines(m)[i],
        ),
{
    lemma_protocol_literals();
    reveal_strlit("SUMMARY:");
    reveal_strlit("COMPLETED:");
    let sline = "SUMMARY:"@ + m.summary;
    assert(no_newline(sline)) by {
        assert(forall|j: int| 0 <= j < 8 ==> sline[j] == "SUMMARY:"@[j]);
        assert(forall|j: int| 8 <= j < sline.len() ==> sline[j] == m.summary[j - 8]);
    }
    match m.completed {
        Some(t) => {
            lemma_format_timestamp_no_newline(t);
            let f = spec_format_timestamp(t);
            let cline = "COMPLETED:"@ + f;
            assert(no_newline(cline)) by {
                assert(forall|j: int| 0 <= j < 10 ==> cline[j] == "COMPLETED:"@[j]);
                assert(forall|j: int| 10 <= j < cline.len() ==> cline[j] == f[j - 10]);
            }
            assert(render_task_lines(m) =~= seq!["BEGIN:VTODO"@, sline, cline, "END:VTODO"@]);
        },
        None => {
            assert(render_task_lines(m) =~= seq!["BEGIN:VTODO"@, sline, "END:VTODO"@]);
        },
    }
}

/// No line of the rendered task blocks holds a line feed.
proof fn lemma_render_tasks_no_newline(ms: Seq<TaskModel>)
    requires
        forall|i: int| 0 <= i < ms.len() ==> wf_task_model(#[trigger] ms[i]),
    ensures
        forall|i: int| 0 <= i < render_tasks(ms).len() ==> no_newline(#[trigger] render_tasks(ms)[i]),
    decreases ms.len(),
{
    if ms.len() == 0 {
    } else {
        lemma_render_task_lines_no_newline(ms[0]);
        assert(forall|i: int| 0 <= i < ms.drop_first().len() ==> wf_task_model(
            #[trigger] ms.drop_first()[i],
        )) by {
            assert(forall|i: int| 0 <= i < ms.drop_first().len() ==> ms.drop_first()[i] == ms[i + 1]);
        }
        lemma_render_tasks_no_newline(ms.drop_first());
        let head = render_task_lines(ms[0]);
        let tail = render_tasks(ms.drop_first());
        assert forall|i: int| 0 <= i < render_tasks(ms).len() implies no_newline(
            #[trigger] render_tasks(ms)[i],
        ) by {
            if i < head.len() {
                assert(render_tasks(ms)[i] == head[i]);
            } else {
                assert(render_tasks(ms)[i] == tail[i - head.len()]);
            }
        }
    }
}

/// Running the machine from the calendar level over rendered task
/// blocks and the terminator accepts, appending exactly those tasks.
proof fn lemma_run_render_tasks(
    acc: Seq<TaskModel>,
    s0: Option<Seq<char>>,
    c0: Option<Timestamp>,
    ms: Seq<TaskModel>,
)
    requires
        forall|i: int| 0 <= i < ms.len() ==> wf_task_model(#[trigger] ms[i]),
    ensures
        spec_run(
            MachineState { state: ParseState::Calendar, tasks: acc, summary: s0, completed: c0 },
            render_tasks(ms) + seq!["END:VCALENDAR"@],
        ) == Ok::<Seq<TaskModel>, ErrorKind>(acc + ms),
    decreases ms.len(),
{
    lemma_protocol_literals();
    let st = MachineState { state: ParseState::Calendar, tasks: acc, summary: s0, completed: c0 };
    let endl = seq!["END:VCALENDAR"@];
    let lines = render_tasks(ms) + endl;
    if ms.len() == 0 {
        assert(render_tasks(ms) == Seq::<Seq<char>>::empty());
        assert(lines =~= endl);
        assert(lines[0] == "END:VCALENDAR"@);
        let st2 = MachineState { state: ParseState::Done, ..st };
        assert(spec_step(st, lines[0]) == Ok::<MachineState, ErrorKind>(st2));
        assert(lines.drop_first() =~= Seq::<Seq<char>>::empty());
        assert(spec_run(st2, Seq::<Seq<char>>::empty()) == Ok::<Seq<TaskModel>, ErrorKind>(acc));
        assert(spec_run(st, lines) == Ok::<Seq<TaskModel>, ErrorKind>(acc));
        assert(acc + ms =~= acc);
    } else {
        let m0 = ms[0];
        let rest = ms.drop_first();
        assert(wf_task_model(m0));
        assert(forall|i: int| 0 <= i < rest.len() ==> wf_task_model(#[trigger] rest[i])) by {
            assert(forall|i: int| 0 <= i < rest.len() ==> rest[i] == ms[i + 1]);
        }
        let rl = render_tasks(rest) + endl;
        let st1 = MachineState { state: ParseState::Task, tasks: acc, summary: None, completed: None };
        let st2 = MachineState {
            state: ParseState::Task,
            tasks: acc,
            summary: Some(m0.summary),
            completed: None,
        };
        let stp = MachineState {
            state: ParseState::Calendar,
            tasks: acc.push(m0),
            summary: None,
            completed: None,
        };
        assert(render_tasks(ms) == render_task_lines(m0) + render_tasks(rest));
        lemma_split_summary_line(m0.summary);
        match m0.completed {
            None => {
                let tl = seq!["BEGIN:VTODO"@, "SUMMARY:"@ + m0.summary, "END:VTODO"@];
                assert(render_task_lines(m0) =~= tl);
                assert(lines =~= tl + rl);
                assert(lines[0] == "BEGIN:VTODO"@);
                assert(spec_step(st, lines[0]) == Ok::<MachineState, ErrorKind>(st1));
                let lines1 = lines.drop_first();
                assert(lines1 =~= seq!["SUMMARY:"@ + m0.summary, "END:VTODO"@] + rl);
                assert(lines1[0] == "SUMMARY:"@ + m0.summary);
                assert(spec_step(st1, lines1[0]) == Ok::<MachineState, ErrorKind>(st2));
                let lines2 = lines1.drop_first();
                assert(lines2 =~= seq!["END:VTODO"@] + rl);
                assert(lines2[0] == "END:VTODO"@);
                assert(TaskModel { summary: m0.summary, completed: None } =~= m0);
                assert(spec_step(st2, lines2[0]) == Ok::<MachineState, ErrorKind>(stp));
                let lines3 = lines2.drop_first();
                assert(lines3 =~= rl);
                lemma_run_render_tasks(acc.push(m0), None, None, rest);
                assert(spec_run(stp, rl) == Ok::<Seq<TaskModel>, ErrorKind>(acc.push(m0) + rest));
                assert(acc.push(m0) + rest =~= acc + ms);
                assert(spec_run(st, lines) == spec_run(st1, lines1));
                assert(spec_run(st1, lines1) == spec_run(st2, lines2));
                assert(spec_run(st2, lines2) == spec_run(stp, lines3));
                assert(spec_run(stp, lines3) == spec_run(stp, rl));
            },
            Some(t) => {
                assert(t.wf());
                crate::timestamp::lemma_timestamp_round_trip(t);
                let f = spec_format_timestamp(t);
                lemma_split_completed_line(f);
                let st3 = MachineState {
                    state: ParseState::Task,
                    tasks: acc,
                    summary: Some(m0.summary),
                    completed: Some(t),
                };
                let tl = seq![
                    "BEGIN:VTODO"@,
                    "SUMMARY:"@ + m0.summary,
                    "COMPLETED:"@ + f,
                    "END:VTODO"@,
                ];
                assert(render_task_lines(m0) =~= tl);
                assert(lines =~= tl + rl);
                assert(lines[0] == "BEGIN:VTODO"@);
                assert(spec_step(st, lines[0]) == Ok::<MachineState, ErrorKind>(st1));
                let lines1 = lines.drop_first();
                assert(lines1 =~= seq!["SUMMARY:"@ + m0.summary, "COMPLETED:"@ + f, "END:VTODO"@]
                    + rl);
                assert(lines1[0] == "SUMMARY:"@ + m0.summary);
                assert(spec_step(st1, lines1[0]) == Ok::<MachineState, ErrorKind>(st2));
                let lines2 = lines1.drop_first();
                assert(lines2 =~= seq!["COMPLETED:"@ + f, "END:VTODO"@] + rl);
                assert(lines2[0] == "COMPLETED:"@ + f);
                assert(spec_parse_timestamp(f) == Some(t));
                assert(spec_step(st2, lines2[0]) == Ok::<MachineState, ErrorKind>(st3));
                let lines3 = lines2.drop_first();
                assert(lines3 =~= seq!["END:VTODO"@] + rl);
                assert(lines3[0] == "END:VTODO"@);
                assert(TaskModel { summary: m0.summary, completed: Some(t) } =~= m0);
                assert(spec_step(st3, lines3[0]) == Ok::<MachineState, ErrorKind>(stp));
                let lines4 = lines3.drop_first();
                assert(lines4 =~= rl);
                lemma_run_render_tasks(acc.push(m0), None, None, rest);
                assert(spec_run(stp, rl) == Ok::<Seq<TaskModel>, ErrorKind>(acc.push(m0) + rest));
                assert(acc.push(m0) + rest =~= acc + ms);
                assert(spec_run(st, lines) == spec_run(st1, lines1));
                assert(spec_run(st1, lines1) == spec_run(st2, lines2));
                assert(spec_run(st2, lines2) == spec_run(st3, lines3));
                assert(spec_run(st3, lines3) == spec_run(stp, lines4));
                assert(spec_run(stp, lines4) == spec_run(stp, rl));
            },
        }
    }
}

/// Serializing well-formed task models and parsing the result yields
/// the same task sequence: the document format is lossless for the
/// summary and the completion instant.
pub proof fn lemma_serialize_parse_round_trip(ms: Seq<TaskModel>)
    requires
        forall|i: int| 0 <= i < ms.len() ==> wf_task_model(#[trigger] ms[i]),
    ensures
        spec_parse_document(spec_serialize_document(ms)) == Ok::<Seq<TaskModel>, ErrorKind>(ms),
{
    lemma_protocol_literals();
    let pre = seq!["BEGIN:VCALENDAR"@, "VERSION:2.0"@, "PRODID:caldav-tasks"@];
    let endl = seq!["END:VCALENDAR"@];
    let body = render_tasks(ms);
    let all = render_document_lines(ms);
    assert(all == pre + body + endl);
    lemma_render_tasks_no_newline(ms);
    assert forall|i: int| 0 <= i < all.len() implies no_newline(#[trigger] all[i]) by {
        if i < 3 {
            assert(all[i] == pre[i]);
        } else if i < 3 + body.len() {
            assert(all[i] == body[i - 3]);
        } else {
            assert(all[i] == "END:VCALENDAR"@);
        }
    }
    lemma_lines_of_unlines(all);
    let st0 = initial_machine_state();
    let st1 = MachineState { state: ParseState::ExpectVersion, ..st0 };
    let st2 = MachineState { state: ParseState::ExpectProdid, ..st0 };
    let st3 = MachineState { state: ParseState::Calendar, ..st0 };
    assert(all[0] == "BEGIN:VCALENDAR"@);
    assert(spec_step(st0, all[0]) == Ok::<MachineState, ErrorKind>(st1));
    let all1 = all.drop_first();
    assert(all1 =~= seq!["VERSION:2.0"@, "PRODID:caldav-tasks"@] + body + endl);
    assert(all1[0] == "VERSION:2.0"@);
    assert(spec_step(st1, all1[0]) == Ok::<MachineState, ErrorKind>(st2));
    let all2 = all1.drop_first();
    assert(all2 =~= seq!["PRODID:caldav-tasks"@] + body + endl);
    assert(all2[0] == "PRODID:caldav-tasks"@);
    assert(spec_step(st2, all2[0]) == Ok::<MachineState, ErrorKind>(st3));
    let all3 = all2.drop_first();
    assert(all3 =~= body + endl);
    lemma_run_render_tasks(Seq::empty(), None, None, ms);
    assert(st3 == MachineState {
        state: ParseState::Calendar,
        tasks: Seq::<TaskModel>::empty(),
        summary: None,
        completed: None,
    });
    assert(spec_run(st3, body + endl) == Ok::<Seq<TaskModel>, ErrorKind>(
        Seq::<TaskModel>::empty() + ms,
    ));
    assert(Seq::<TaskModel>::empty() + ms =~= ms);
    assert(spec_run(st0, all) == spec_run(st1, all1));
    assert(spec_run(st1, all1) == spec_run(st2, all2));
    assert(spec_run(st2, all2) == spec_run(st3, all3));
    assert(spec_run(st3, all3) == spec_run(st3, body + endl));
}

/// Round-trip stability: whatever a document parses to, serializing
/// that task sequence and parsing it again yields the same sequence,
/// summary and completion timestamp alike.
pub proof fn lemma_parse_serialize_parse(d: Seq<char>, ms: Seq<TaskModel>)
    requires
        spec_parse_document(d) == Ok::<Seq<TaskModel>, ErrorKind>(ms),
    ensures
        spec_parse_document(spec_serialize_document(ms)) == Ok::<Seq<TaskModel>, ErrorKind>(ms),
{
    lemma_parse_models_wf(d);
    assert(spec_parse_document(d)->Ok_0 == ms);
    lemma_serialize_parse_round_trip(ms);
}

/// A task block whose summary was never set is rejected at its
/// `END:VTODO` line with a document-parse error; it never yields a task
/// with an empty summary.
pub proof fn lemma_missing_summary_rejected(st: MachineState)
    requires
        st.state is Task,
        st.summary is None,
    ensures
        spec_step(st, "END:VTODO"@) == Err::<MachineState, ErrorKind>(ErrorKind::DocumentParse),
{
    lemma_protocol_literals();
}

/// A whole run from inside a task block with no summary set fails where
/// the block ends: where every line up to the block's `END:VTODO`
/// carries neither the `SUMMARY` key nor an earlier block end, and any
/// completion timestamp among them is well-formed, the run fails with a
/// document-parse error at the `END:VTODO` line — never producing a
/// task with an empty or inherited summary.
pub proof fn lemma_run_missing_summary_rejected(st: MachineState, lines: Seq<Seq<char>>, i: int)
    requires
        st.state is Task,
        st.summary is None,
        0 <= i < lines.len(),
        spec_split_line(lines[i]) == Some(("END"@, "VTODO"@)),
        forall|j: int|
            0 <= j < i ==> ((#[trigger] spec_split_line(lines[j])) matches Some((k, v)) && k
                != "SUMMARY"@ && !(k == "END"@ && v == "VTODO"@) && (k == "COMPLETED"@
                ==> spec_parse_timestamp(v) is Some)),
    ensures
        spec_run(st, lines) == Err::<Seq<TaskModel>, ErrorKind>(ErrorKind::DocumentParse),
    decreases i,
{
    if i == 0 {
        assert(spec_step(st, lines[0]) == Err::<MachineState, ErrorKind>(
            ErrorKind::DocumentParse,
        ));
    } else {
        assert(spec_split_line(lines[0]) matches Some((k, v)) && k != "SUMMARY"@ && !(k == "END"@
            && v == "VTODO"@) && (k == "COMPLETED"@ ==> spec_parse_timestamp(v) is Some));
        let st2 = spec_step(st, lines[0])->Ok_0;
        assert(spec_step(st, lines[0]) is Ok && st2.state is Task && st2.summary is None);
        assert(lines.drop_first()[i - 1] == lines[i]);
        assert forall|j: int|
            0 <= j < i - 1 implies (#[trigger] spec_split_line(lines.drop_first()[j])) matches Some(
            (k, v),
        ) && k != "SUMMARY"@ && !(k == "END"@ && v == "VTODO"@) && (k == "COMPLETED"@
            ==> spec_parse_timestamp(v) is Some) by {
            assert(lines.drop_first()[j] == lines[j + 1]);
        }
        lemma_run_missing_summary_rejected(st2, lines.drop_first(), i - 1);
    }
}

} // verus!
