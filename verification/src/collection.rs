//! The task collection and sync engine: the parsed contents of one
//! calendar-object resource, the task-query request, in-memory task
//! mutation, and the write-back request.
use vstd::prelude::*;
use crate::calobject::{serialize_calendar_document, spec_serialize_document, Data, TaskModel};
use crate::error::{Error, ErrorKind};
use crate::multistatus::{spec_lookup_prop, spec_parse_entry, EntryModel, PropertyModel, ResponseEntry};
use crate::strutil::str_to_string;
use crate::task::{spec_remove_props, spec_set_value, Task, TaskMessage};
use crate::timestamp::{spec_format_timestamp, Timestamp};
use crate::transport::{Method, Request};
use crate::urlutil::{join_url, spec_url_join};
use crate::xml::{parse_xml_text, spec_xml_tree, XmlElement};

verus! {

/// The change token of an entry model, where one was sent.
pub open spec fn spec_entry_etag(m: EntryModel) -> Option<Seq<char>> {
    match spec_lookup_prop(m.properties, "getetag"@) {
        Some(PropertyModel::Etag(t)) => Some(t),
        _ => None,
    }
}

/// The parsed calendar-object document of an entry model, where one
/// was present and parseable.
pub open spec fn spec_entry_document(m: EntryModel) -> Option<Seq<TaskModel>> {
    match spec_lookup_prop(m.properties, "calendar-data"@) {
        Some(PropertyModel::CalendarData(Some(ms))) => Some(ms),
        _ => None,
    }
}

/// The abstract content of one task collection.
#[verifier::ext_equal]
pub struct CollectionModel {
    pub url: Seq<char>,
    pub etag: Option<Seq<char>>,
    pub index: int,
    pub tasks: Seq<TaskModel>,
}

/// The parsed contents of one calendar-object resource fetched from the
/// server: its URL, the change token as last fetched, the tasks, and
/// the position of the collection among those one query returned.
///
/// The change token reflects the document as last fetched; it is not
/// updated on local mutation — only a successful write-back makes it
/// trustworthy again.
#[derive(Debug)]
pub struct TaskCollection {
    pub url: String,
    pub etag: Option<String>,
    pub index: usize,
    pub data: Data,
}

impl View for TaskCollection {
    type V = CollectionModel;

    open spec fn view(&self) -> CollectionModel {
        CollectionModel {
            url: self.url@,
            etag: crate::calobject::opt_str_view(self.etag),
            index: self.index as int,
            tasks: self.data@,
        }
    }
}

/// The collection one response entry denotes: URL resolved against the
/// calendar URL, the entry's change token, and its tasks — an absent or
/// unparseable calendar-object document degrades to an empty task list
/// rather than failing the fetch.
pub open spec fn spec_collection_from_entry(m: EntryModel, cal_url: Seq<char>, idx: int) -> Result<
    CollectionModel,
    ErrorKind,
> {
    match spec_url_join(cal_url, m.href) {
        None => Err(ErrorKind::Url),
        Some(u) => Ok(
            CollectionModel {
                url: u,
                etag: spec_entry_etag(m),
                index: idx,
                tasks: match spec_entry_document(m) {
                    Some(ms) => ms,
                    None => Seq::empty(),
                },
            },
        ),
    }
}

impl TaskCollection {
    /// Every task of the collection is well-formed.
    pub open spec fn wf(self) -> bool {
        self.data.wf()
    }

    /// Builds one collection from a parsed response entry.
    pub fn from_data(entry: ResponseEntry, calendar_url: &str, index: usize) -> (r: Result<
        TaskCollection,
        Error,
    >)
        requires
            entry.wf(),
        ensures
            spec_collection_from_entry(entry@, calendar_url@, index as int) matches Ok(cm) ==> (r
                matches Ok(col) && col@ == cm && col.wf()),
            spec_collection_from_entry(entry@, calendar_url@, index as int) matches Err(k) ==> (r
                matches Err(e) && e.spec_kind() == k),
    {
        let url = match join_url(calendar_url, entry.href.as_str()) {
            Ok(u) => u,
            Err(e) => {
                return Err(e);
            },
        };
        let etag = entry.etag();
        let data = match entry.document() {
            Some(d) => d,
            None => Data { tasks: Vec::new() },
        };
        let col = TaskCollection { url, etag, index, data };
        proof {
            assert(col@.tasks =~= spec_collection_from_entry(
                entry@,
                calendar_url@,
                index as int,
            )->Ok_0.tasks);
            assert(col@ =~= spec_collection_from_entry(entry@, calendar_url@, index as int)->Ok_0);
        }
        Ok(col)
    }

    /// The tasks of this collection, in document order.
    pub fn tasks(&self) -> (r: &Vec<Task>)
        ensures
            r@ == self.data.tasks@,
    {
        &self.data.tasks
    }

    /// Applies a mutation message to the task at `i`: a pure in-memory
    /// mutation with no network effect.
    pub fn update_task(&mut self, i: usize, msg: TaskMessage, now: Timestamp)
        requires
            i < old(self).data.tasks@.len(),
            now.wf(),
        ensures
            final(self).url == old(self).url,
            final(self).etag == old(self).etag,
            final(self).index == old(self).index,
            final(self).data.tasks@.len() == old(self).data.tasks@.len(),
            forall|j: int|
                0 <= j < old(self).data.tasks@.len() && j != i ==> final(self).data.tasks@[j]
                    == old(self).data.tasks@[j],
            ({
                let t0 = old(self).data.tasks@[i as int];
                let t1 = final(self).data.tasks@[i as int];
                &&& (msg matches TaskMessage::Completed(true) ==> t1@ == spec_set_value(
                    t0@,
                    "COMPLETED"@,
                    spec_format_timestamp(now),
                ) && t1.spec_completed() == Some(now))
                &&& (msg matches TaskMessage::Completed(false) ==> t1@ == spec_remove_props(
                    t0@,
                    "COMPLETED"@,
                ) && t1.spec_completed() is None)
                &&& t1.spec_summary() == t0.spec_summary()
                &&& (t0.wf() ==> t1.wf())
            }),
    {
        let mut t = self.data.tasks.remove(i);
        msg.apply(&mut t, now);
        self.data.tasks.insert(i, t);
        proof {
            assert(final(self).data.tasks@ =~= old(self).data.tasks@.remove(i as int).insert(
                i as int,
                final(self).data.tasks@[i as int],
            ));
        }
    }

    /// Builds the write-back request: a write of the full serialized
    /// document of this collection, to be issued against its URL.
    ///
    /// The write is unconditional: the held change token is not sent as
    /// a precondition, so a concurrent remote modification is
    /// overwritten.
    pub fn write_request(&self) -> (r: Request)
        requires
            self.wf(),
        ensures
            r.method == Method::Put,
            r.depth == 0,
            r.body@ == spec_serialize_document(self@.tasks),
    {
        Request { method: Method::Put, depth: 0, body: serialize_calendar_document(&self.data) }
    }
}

/// The body of the task-query request.
pub open spec fn spec_task_query_request_body() -> Seq<char> {
    "<c:calendar-query xmlns:d=\"DAV:\" xmlns:c=\"urn:ietf:params:xml:ns:caldav\"><d:prop><d:getetag /><c:calendar-data /></d:prop><c:filter><c:comp-filter name=\"VCALENDAR\"><c:comp-filter name=\"VTODO\" /></c:comp-filter></c:filter></c:calendar-query>"@
}

/// Builds the task-query request: a query of depth 1 against a
/// calendar's URL, requesting change token and calendar-object data,
/// filtered to resources containing the task component.
pub fn task_query_request() -> (r: Request)
    ensures
        r.method == Method::Report,
        r.depth == 1,
        r.body@ == spec_task_query_request_body(),
{
    Request {
        method: Method::Report,
        depth: 1,
        body: str_to_string(
            "<c:calendar-query xmlns:d=\"DAV:\" xmlns:c=\"urn:ietf:params:xml:ns:caldav\"><d:prop><d:getetag /><c:calendar-data /></d:prop><c:filter><c:comp-filter name=\"VCALENDAR\"><c:comp-filter name=\"VTODO\" /></c:comp-filter></c:filter></c:calendar-query>",
        ),
    }
}

/// The collections a whole task-query response denotes: one per entry,
/// in order, numbered by position; the first error aborts.
pub open spec fn spec_collections_from(cal_url: Seq<char>, cs: Seq<XmlElement>, idx: int) -> Result<
    Seq<CollectionModel>,
    ErrorKind,
>
    decreases cs.len(),
{
    if cs.len() == 0 {
        Ok(Seq::empty())
    } else {
        match spec_parse_entry(cs[0]) {
            Err(k) => Err(k),
            Ok(m) => match spec_collection_from_entry(m, cal_url, idx) {
                Err(k) => Err(k),
                Ok(cm) => match spec_collections_from(cal_url, cs.drop_first(), idx + 1) {
                    Err(k) => Err(k),
                    Ok(rest) => Ok(seq![cm] + rest),
                },
            },
        }
    }
}

/// The collection models of task collections.
pub open spec fn collections_model(cs: Seq<TaskCollection>) -> Seq<CollectionModel> {
    cs.map_values(|c: TaskCollection| c@)
}

/// Reads a whole task-query response: one collection per entry of the
/// multistatus root, each run through the structured-response model and
/// the calendar-object parser.
pub fn collections_from_response(cal_url: &str, xml: &XmlElement) -> (r: Result<
    Vec<TaskCollection>,
    Error,
>)
    ensures
        spec_collections_from(cal_url@, xml.children@, 0) matches Ok(ms) ==> (r matches Ok(cols)
            && collections_model(cols@) == ms && (forall|j: int|
            0 <= j < cols@.len() ==> (#[trigger] cols@[j]).wf())),
        spec_collections_from(cal_url@, xml.children@, 0) matches Err(k) ==> (r matches Err(e)
            && e.spec_kind() == k),
{
    let ghost all = xml.children@;
    let mut out: Vec<TaskCollection> = Vec::new();
    let n = xml.children.len();
    let mut i: usize = 0;
    proof {
        assert(all.skip(0) =~= all);
        assert(collections_model(out@) =~= Seq::<CollectionModel>::empty());
    }
    while i < n
        invariant
            i <= n,
            n == all.len(),
            all == xml.children@,
            out@.len() == i as int,
            forall|j: int| 0 <= j < out@.len() ==> (#[trigger] out@[j]).wf(),
            spec_collections_from(cal_url@, all.skip(i as int), i as int) matches Ok(rest)
                ==> spec_collections_from(cal_url@, all, 0) == Ok::<
                Seq<CollectionModel>,
                ErrorKind,
            >(collections_model(out@) + rest),
            spec_collections_from(cal_url@, all.skip(i as int), i as int) matches Err(k)
                ==> spec_collections_from(cal_url@, all, 0) == Err::<
                Seq<CollectionModel>,
                ErrorKind,
            >(k),
        decreases n - i,
    {
        let ghost rem = all.skip(i as int);
        let ghost prev_models = collections_model(out@);
        proof {
            assert(rem[0] == all[i as int]);
            assert(rem.drop_first() =~= all.skip(i as int + 1));
        }
        let entry = match ResponseEntry::parse(&xml.children[i]) {
            Ok(en) => en,
            Err(e) => {
                return Err(e);
            },
        };
        let col = match TaskCollection::from_data(entry, cal_url, i) {
            Ok(c) => c,
            Err(e) => {
                return Err(e);
            },
        };
        out.push(col);
        i = i + 1;
        proof {
            match spec_parse_entry(rem[0]) {
                Err(_) => {},
                Ok(m) => {
                    match spec_collection_from_entry(m, cal_url@, i - 1) {
                        Err(_) => {},
                        Ok(cm) => {
                            assert(collections_model(out@) =~= prev_models + seq![cm]);
                            match spec_collections_from(cal_url@, all.skip(i as int), i as int) {
                                Ok(rest) => {
                                    assert(prev_models + (seq![cm] + rest) =~= (prev_models + seq![
                                        cm,
                                    ]) + rest);
                                },
                                Err(_) => {},
                            }
                        },
                    }
                },
            }
        }
    }
    proof {
        assert(all.skip(n as int) =~= Seq::<XmlElement>::empty());
        assert(collections_model(out@) + Seq::<CollectionModel>::empty() =~= collections_model(
            out@,
        ));
    }
    Ok(out)
}

/// Reads the task collections out of a task-query response body.
pub fn collections_from_document(cal_url: &str, body: &str) -> (r: Result<Vec<TaskCollection>, Error>)
    ensures
        spec_xml_tree(body@) is None ==> (r matches Err(e) && e.spec_kind()
            == ErrorKind::DocumentParse),
        spec_xml_tree(body@) matches Some(tree) ==> ((spec_collections_from(
            cal_url@,
            tree.children@,
            0,
        ) matches Ok(ms) ==> (r matches Ok(cols) && collections_model(cols@) == ms)) && (
        spec_collections_from(cal_url@, tree.children@, 0) matches Err(k) ==> (r matches Err(e)
            && e.spec_kind() == k))),
{
    match parse_xml_text(body) {
        None => Err(
            Error::DocumentParse(str_to_string("response body is not a well-formed XML document")),
        ),
        Some(tree) => collections_from_response(cal_url, &tree),
    }
}

} // verus!
