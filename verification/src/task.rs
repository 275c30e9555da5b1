//! The task data model: an ordered property list with find-or-insert and
//! delete operations, typed accessors for the mandatory summary and the
//! optional completion timestamp, and the mutation messages applied to a
//! task.
use vstd::prelude::*;
use crate::strutil::{str_eq, str_to_string};
use crate::timestamp::{
    format_utc_timestamp, parse_utc_timestamp, spec_format_timestamp, spec_parse_timestamp,
    Timestamp,
};

verus! {

/// One named property of a task, as one content line of a task block.
#[derive(Debug)]
pub struct Property {
    pub name: String,
    pub value: String,
}

/// The first value stored under `name`, scanning in order.
pub open spec fn spec_find_value(ps: Seq<(Seq<char>, Seq<char>)>, name: Seq<char>) -> Option<
    Seq<char>,
>
    decreases ps.len(),
{
    if ps.len() == 0 {
        None
    } else if ps[0].0 == name {
        Some(ps[0].1)
    } else {
        spec_find_value(ps.drop_first(), name)
    }
}

/// The property list with every entry named `name` removed.
pub open spec fn spec_remove_props(ps: Seq<(Seq<char>, Seq<char>)>, name: Seq<char>) -> Seq<
    (Seq<char>, Seq<char>),
>
    decreases ps.len(),
{
    if ps.len() == 0 {
        Seq::empty()
    } else if ps[0].0 == name {
        spec_remove_props(ps.drop_first(), name)
    } else {
        seq![ps[0]] + spec_remove_props(ps.drop_first(), name)
    }
}

/// The property list with the first entry named `name` set to `value`,
/// or with `(name, value)` appended where no entry carries that name.
pub open spec fn spec_set_value(
    ps: Seq<(Seq<char>, Seq<char>)>,
    name: Seq<char>,
    value: Seq<char>,
) -> Seq<(Seq<char>, Seq<char>)>
    decreases ps.len(),
{
    if ps.len() == 0 {
        seq![(name, value)]
    } else if ps[0].0 == name {
        seq![(name, value)] + ps.drop_first()
    } else {
        seq![ps[0]] + spec_set_value(ps.drop_first(), name, value)
    }
}

/// Setting a value and then looking the same name up yields that value.
pub proof fn lemma_find_after_set_same(
    ps: Seq<(Seq<char>, Seq<char>)>,
    name: Seq<char>,
    value: Seq<char>,
)
    ensures
        spec_find_value(spec_set_value(ps, name, value), name) == Some(value),
    decreases ps.len(),
{
    if ps.len() == 0 {
    } else if ps[0].0 == name {
        assert((seq![(name, value)] + ps.drop_first())[0] == (name, value));
    } else {
        lemma_find_after_set_same(ps.drop_first(), name, value);
        let s = seq![ps[0]] + spec_set_value(ps.drop_first(), name, value);
        assert(s[0] == ps[0]);
        assert(s.drop_first() =~= spec_set_value(ps.drop_first(), name, value));
    }
}

/// Setting one name leaves lookups of every other name unchanged.
pub proof fn lemma_find_after_set_other(
    ps: Seq<(Seq<char>, Seq<char>)>,
    name: Seq<char>,
    value: Seq<char>,
    other: Seq<char>,
)
    requires
        other != name,
    ensures
        spec_find_value(spec_set_value(ps, name, value), other) == spec_find_value(ps, other),
    decreases ps.len(),
{
    if ps.len() == 0 {
        let s = seq![(name, value)];
        assert(s[0] == (name, value));
        assert(s.drop_first() =~= Seq::<(Seq<char>, Seq<char>)>::empty());
        assert(spec_find_value(Seq::<(Seq<char>, Seq<char>)>::empty(), other) is None);
        assert(spec_find_value(s, other) is None);
    } else if ps[0].0 == name {
        let s = seq![(name, value)] + ps.drop_first();
        assert(s[0] == (name, value));
        assert(s.drop_first() =~= ps.drop_first());
    } else {
        lemma_find_after_set_other(ps.drop_first(), name, value, other);
        let s = seq![ps[0]] + spec_set_value(ps.drop_first(), name, value);
        assert(s[0] == ps[0]);
        assert(s.drop_first() =~= spec_set_value(ps.drop_first(), name, value));
    }
}

/// After removing a name, looking it up yields nothing.
pub proof fn lemma_find_after_remove_same(ps: Seq<(Seq<char>, Seq<char>)>, name: Seq<char>)
    ensures
        spec_find_value(spec_remove_props(ps, name), name) is None,
    decreases ps.len(),
{
    if ps.len() == 0 {
    } else if ps[0].0 == name {
        lemma_find_after_remove_same(ps.drop_first(), name);
    } else {
        lemma_find_after_remove_same(ps.drop_first(), name);
        let s = seq![ps[0]] + spec_remove_props(ps.drop_first(), name);
        assert(s[0] == ps[0]);
        assert(s.drop_first() =~= spec_remove_props(ps.drop_first(), name));
    }
}

/// Removing one name leaves lookups of every other name unchanged.
pub proof fn lemma_find_after_remove_other(
    ps: Seq<(Seq<char>, Seq<char>)>,
    name: Seq<char>,
    other: Seq<char>,
)
    requires
        other != name,
    ensures
        spec_find_value(spec_remove_props(ps, name), other) == spec_find_value(ps, other),
    decreases ps.len(),
{
    if ps.len() == 0 {
    } else if ps[0].0 == name {
        lemma_find_after_remove_other(ps.drop_first(), name, other);
    } else {
        lemma_find_after_remove_other(ps.drop_first(), name, other);
        let s = seq![ps[0]] + spec_remove_props(ps.drop_first(), name);
        assert(s[0] == ps[0]);
        assert(s.drop_first() =~= spec_remove_props(ps.drop_first(), name));
    }
}

/// The `SUMMARY` and `COMPLETED` property names differ.
pub proof fn lemma_keys_distinct()
    ensures
        "SUMMARY"@ != "COMPLETED"@,
{
    reveal_strlit("SUMMARY");
    reveal_strlit("COMPLETED");
    assert("SUMMARY"@.len() == 7);
    assert("COMPLETED"@.len() == 9);
}

/// Where the first match stands at index `i`, setting is updating there.
proof fn lemma_set_value_at_index(
    ps: Seq<(Seq<char>, Seq<char>)>,
    name: Seq<char>,
    value: Seq<char>,
    i: int,
)
    requires
        0 <= i < ps.len(),
        ps[i].0 == name,
        forall|j: int| 0 <= j < i ==> (#[trigger] ps[j]).0 != name,
    ensures
        spec_set_value(ps, name, value) =~= ps.update(i, (name, value)),
    decreases i,
{
    if i == 0 {
        assert(spec_set_value(ps, name, value) =~= ps.update(0, (name, value)));
    } else {
        assert(ps[0].0 != name);
        assert(ps.drop_first()[i - 1].0 == name);
        assert(forall|j: int| 0 <= j < i - 1 ==> (#[trigger] ps.drop_first()[j]).0 != name);
        lemma_set_value_at_index(ps.drop_first(), name, value, i - 1);
        assert(spec_set_value(ps, name, value) =~= ps.update(i, (name, value)));
    }
}

/// Where no entry carries the name, setting is appending.
proof fn lemma_set_value_append(ps: Seq<(Seq<char>, Seq<char>)>, name: Seq<char>, value: Seq<char>)
    requires
        forall|j: int| 0 <= j < ps.len() ==> (#[trigger] ps[j]).0 != name,
    ensures
        spec_set_value(ps, name, value) =~= ps + seq![(name, value)],
    decreases ps.len(),
{
    if ps.len() == 0 {
    } else {
        assert(ps[0].0 != name);
        assert(forall|j: int|
            0 <= j < ps.drop_first().len() ==> (#[trigger] ps.drop_first()[j]).0 != name);
        lemma_set_value_append(ps.drop_first(), name, value);
        assert(spec_set_value(ps, name, value) =~= ps + seq![(name, value)]);
    }
}

/// One task: an ordered, possibly sparse list of named properties.
///
/// The mandatory summary and the optional completion timestamp are held
/// as the `SUMMARY` and `COMPLETED` properties; the accessors below read
/// and write them by name.
#[derive(Debug)]
pub struct Task {
    pub properties: Vec<Property>,
}

impl View for Task {
    type V = Seq<(Seq<char>, Seq<char>)>;

    open spec fn view(&self) -> Seq<(Seq<char>, Seq<char>)> {
        self.properties@.map_values(|p: Property| (p.name@, p.value@))
    }
}

impl Task {
    /// The summary of the task, where one is set.
    pub open spec fn spec_summary(self) -> Option<Seq<char>> {
        spec_find_value(self@, "SUMMARY"@)
    }

    /// The raw completion value of the task, where one is set.
    pub open spec fn spec_completed_value(self) -> Option<Seq<char>> {
        spec_find_value(self@, "COMPLETED"@)
    }

    /// The completion instant of the task, where one is set.
    pub open spec fn spec_completed(self) -> Option<Timestamp> {
        match spec_find_value(self@, "COMPLETED"@) {
            Some(v) => spec_parse_timestamp(v),
            None => None,
        }
    }

    /// Well-formedness: a summary is present, and a completion value, if
    /// present, is a well-formed timestamp.
    pub open spec fn wf(self) -> bool {
        &&& self.spec_summary() is Some
        &&& (self.spec_completed_value() matches Some(v) ==> spec_parse_timestamp(v) is Some)
    }

    /// Builds a task that carries only the given summary.
    pub fn new(summary: String) -> (r: Task)
        ensures
            r@ =~= seq![("SUMMARY"@, summary@)],
            r.wf(),
            r.spec_summary() == Some(summary@),
            r.spec_completed() is None,
    {
        let mut properties: Vec<Property> = Vec::new();
        properties.push(Property { name: str_to_string("SUMMARY"), value: summary });
        let r = Task { properties };
        proof {
            lemma_keys_distinct();
            assert(r@ =~= seq![("SUMMARY"@, summary@)]);
            assert(r@[0] == ("SUMMARY"@, summary@));
            assert(r@.drop_first() =~= Seq::<(Seq<char>, Seq<char>)>::empty());
            assert(r.spec_summary() == Some(summary@));
            assert(spec_find_value(Seq::<(Seq<char>, Seq<char>)>::empty(), "COMPLETED"@) is None);
            assert(r.spec_completed_value() is None);
        }
        r
    }

    /// The index of the first property named `name`, if any.
    fn find_index(&self, name: &str) -> (r: Option<usize>)
        ensures
            r matches Some(i) ==> i < self@.len() && self@[i as int].0 == name@ && (forall|j: int|
                0 <= j < i ==> (#[trigger] self@[j]).0 != name@),
            r is None ==> forall|j: int| 0 <= j < self@.len() ==> (#[trigger] self@[j]).0 != name@,
    {
        let n = self.properties.len();
        let mut i: usize = 0;
        while i < n
            invariant
                i <= n,
                n == self@.len(),
                self@.len() == self.properties@.len(),
                forall|j: int| 0 <= j < i ==> (#[trigger] self@[j]).0 != name@,
            decreases n - i,
        {
            if str_eq(self.properties[i].name.as_str(), name) {
                return Some(i);
            }
            i = i + 1;
        }
        None
    }

    /// The first value stored under `name`, if any.
    pub fn find_property_value(&self, name: &str) -> (r: Option<&String>)
        ensures
            r matches Some(v) ==> spec_find_value(self@, name@) == Some(v@),
            r is None ==> spec_find_value(self@, name@) is None,
    {
        proof {
            lemma_find_by_index(self@, name@);
        }
        match self.find_index(name) {
            Some(i) => Some(&self.properties[i].value),
            None => None,
        }
    }

    /// The summary of the task.
    pub fn summary(&self) -> (r: &String)
        requires
            self.wf(),
        ensures
            Some(r@) == self.spec_summary(),
    {
        match self.find_property_value("SUMMARY") {
            Some(v) => v,
            None => vstd::pervasive::unreached(),
        }
    }

    /// The completion instant of the task, where it is marked done.
    pub fn done(&self) -> (r: Option<Timestamp>)
        requires
            self.wf(),
        ensures
            r == self.spec_completed(),
    {
        match self.find_property_value("COMPLETED") {
            Some(v) => match parse_utc_timestamp(v.as_str()) {
                Ok(t) => Some(t),
                Err(_) => vstd::pervasive::unreached(),
            },
            None => None,
        }
    }

    /// Sets the first property named `name` to `value`, appending the
    /// property where none carries that name.
    fn find_or_insert_value(&mut self, name: &str, value: String)
        ensures
            final(self)@ =~= spec_set_value(old(self)@, name@, value@),
    {
        match self.find_index(name) {
            Some(i) => {
                let p = self.properties.remove(i);
                self.properties.insert(i, Property { name: p.name, value });
                proof {
                    lemma_set_value_at_index(old(self)@, name@, value@, i as int);
                    assert(old(self)@[i as int].0 == name@);
                    assert(self@ =~= old(self)@.update(i as int, (name@, value@)));
                }
            },
            None => {
                self.properties.push(Property { name: str_to_string(name), value });
                proof {
                    lemma_set_value_append(old(self)@, name@, value@);
                    assert(self@ =~= old(self)@ + seq![(name@, value@)]);
                }
            },
        }
    }

    /// Removes every property named `name`.
    fn delete_property(&mut self, name: &str)
        ensures
            final(self)@ =~= spec_remove_props(old(self)@, name@),
    {
        let ghost ps = old(self)@;
        let mut k = self.properties.len();
        proof {
            assert(self@ =~= ps.take(k as int) + spec_remove_props(ps.skip(k as int), name@));
        }
        while k > 0
            invariant
                k <= ps.len(),
                self@.len() == self.properties@.len(),
                self@ =~= ps.take(k as int) + spec_remove_props(ps.skip(k as int), name@),
            decreases k,
        {
            k = k - 1;
            let ghost prev = self@;
            let ghost rest = spec_remove_props(ps.skip(k as int + 1), name@);
            proof {
                assert(ps.skip(k as int)[0] == ps[k as int]);
                assert(ps.skip(k as int).drop_first() =~= ps.skip(k as int + 1));
                assert(prev[k as int] == ps[k as int]);
            }
            if str_eq(self.properties[k].name.as_str(), name) {
                self.properties.remove(k);
                proof {
                    assert(ps[k as int].0 == name@);
                    assert(spec_remove_props(ps.skip(k as int), name@) == rest);
                    assert(self@ =~= prev.remove(k as int));
                    assert(prev.remove(k as int) =~= ps.take(k as int) + rest);
                }
            } else {
                proof {
                    assert(ps[k as int].0 != name@);
                    assert(spec_remove_props(ps.skip(k as int), name@) == seq![ps[k as int]]
                        + rest);
                    assert(self@ =~= ps.take(k as int) + (seq![ps[k as int]] + rest));
                }
            }
        }
        proof {
            assert(ps.skip(0) =~= ps);
            assert(ps.take(0) =~= Seq::empty());
        }
    }

    /// Marks the task done at the given instant: the completion property
    /// is set, in place where present, appended where absent.
    pub fn set_done(&mut self, ts: Timestamp)
        requires
            ts.wf(),
        ensures
            final(self)@ == spec_set_value(old(self)@, "COMPLETED"@, spec_format_timestamp(ts)),
            final(self).spec_completed() == Some(ts),
            final(self).spec_summary() == old(self).spec_summary(),
            old(self).wf() ==> final(self).wf(),
    {
        let v = format_utc_timestamp(&ts);
        self.find_or_insert_value("COMPLETED", v);
        proof {
            lemma_find_after_set_same(old(self)@, "COMPLETED"@, spec_format_timestamp(ts));
            crate::timestamp::lemma_timestamp_round_trip(ts);
            lemma_keys_distinct();
            lemma_find_after_set_other(
                old(self)@,
                "COMPLETED"@,
                spec_format_timestamp(ts),
                "SUMMARY"@,
            );
        }
    }

    /// Marks the task not done: every completion property is removed.
    pub fn set_undone(&mut self)
        ensures
            final(self)@ == spec_remove_props(old(self)@, "COMPLETED"@),
            final(self).spec_completed() is None,
            final(self).spec_summary() == old(self).spec_summary(),
            old(self).wf() ==> final(self).wf(),
    {
        self.delete_property("COMPLETED");
        proof {
            lemma_find_after_remove_same(old(self)@, "COMPLETED"@);
            lemma_keys_distinct();
            lemma_find_after_remove_other(old(self)@, "COMPLETED"@, "SUMMARY"@);
        }
    }
}

/// Relates the index-wise characterization of a first match to the
/// recursive lookup.
proof fn lemma_find_by_index(ps: Seq<(Seq<char>, Seq<char>)>, name: Seq<char>)
    ensures
        forall|i: int|
            0 <= i < ps.len() && (#[trigger] ps[i]).0 == name && (forall|j: int|
                0 <= j < i ==> (#[trigger] ps[j]).0 != name) ==> spec_find_value(ps, name) == Some(
                ps[i].1,
            ),
        (forall|j: int| 0 <= j < ps.len() ==> (#[trigger] ps[j]).0 != name) ==> spec_find_value(
            ps,
            name,
        ) is None,
    decreases ps.len(),
{
    if ps.len() == 0 {
    } else {
        lemma_find_by_index(ps.drop_first(), name);
        assert forall|i: int|
            0 <= i < ps.len() && (#[trigger] ps[i]).0 == name && (forall|j: int|
                0 <= j < i ==> (#[trigger] ps[j]).0 != name) implies spec_find_value(ps, name)
            == Some(ps[i].1) by {
            if i == 0 {
            } else {
                assert(ps[0].0 != name);
                assert(ps.drop_first()[i - 1] == ps[i]);
                assert(forall|j: int|
                    0 <= j < i - 1 ==> (#[trigger] ps.drop_first()[j]).0 != name);
            }
        }
        if forall|j: int| 0 <= j < ps.len() ==> (#[trigger] ps[j]).0 != name {
            assert(ps[0].0 != name);
            assert(forall|j: int|
                0 <= j < ps.drop_first().len() ==> (#[trigger] ps.drop_first()[j]).0 != name);
        }
    }
}

/// Marking a task done and then undone leaves it with no completion
/// instant: the clear operation restores `completed == None` whatever
/// the completion state before.
pub proof fn lemma_mark_done_then_undone(t: Task, ts: Timestamp)
    requires
        ts.wf(),
    ensures
        ({
            let after_done = spec_set_value(t@, "COMPLETED"@, spec_format_timestamp(ts));
            let after_undone = spec_remove_props(after_done, "COMPLETED"@);
            spec_find_value(after_undone, "COMPLETED"@) is None
        }),
{
    let after_done = spec_set_value(t@, "COMPLETED"@, spec_format_timestamp(ts));
    lemma_find_after_remove_same(after_done, "COMPLETED"@);
}

/// A mutation message addressed to one task.
#[derive(Debug)]
pub enum TaskMessage {
    /// Sets or clears the completion state.
    Completed(bool),
}

impl TaskMessage {
    /// Applies the message: completion is set to the given instant, or
    /// cleared.
    pub fn apply(self, task: &mut Task, now: Timestamp)
        requires
            now.wf(),
        ensures
            self matches TaskMessage::Completed(true) ==> final(task)@ == spec_set_value(
                old(task)@,
                "COMPLETED"@,
                spec_format_timestamp(now),
            ) && final(task).spec_completed() == Some(now),
            self matches TaskMessage::Completed(false) ==> final(task)@ == spec_remove_props(
                old(task)@,
                "COMPLETED"@,
            ) && final(task).spec_completed() is None,
            final(task).spec_summary() == old(task).spec_summary(),
            old(task).wf() ==> final(task).wf(),
    {
        match self {
            TaskMessage::Completed(true) => task.set_done(now),
            TaskMessage::Completed(false) => task.set_undone(),
        }
    }
}

} // verus!
