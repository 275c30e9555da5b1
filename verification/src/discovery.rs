//! The discovery engine: the request bodies of the principal →
//! home-set → calendar-listing sequence, and the interpretation of each
//! response, down to the list of task-capable calendars.
//!
//! The transport itself is the collaborator's business: the functions
//! here build [`Request`] values and read response documents handed
//! back as text.
use vstd::prelude::*;
use crate::calobject::opt_str_view;
use crate::error::{Error, ErrorKind};
use crate::strutil::{str_eq, str_to_string};
use crate::transport::{Method, Request};
use crate::urlutil::{join_url, spec_url_join};
use crate::xml::{
    apply_xml_path, element_text, parse_xml_text, spec_apply_path, spec_first_child,
    spec_strip_quotes, spec_xml_tree, XmlElement,
};

verus! {

/// A discovered task-capable calendar: absolute URL, opaque change
/// token, display name.  Immutable once returned; identified by URL.
#[derive(Debug)]
pub struct Calendar {
    pub url: String,
    pub etag: String,
    pub name: String,
}

/// The abstract content of a discovered calendar.
#[verifier::ext_equal]
pub struct CalendarModel {
    pub url: Seq<char>,
    pub etag: Seq<char>,
    pub name: Seq<char>,
}

impl View for Calendar {
    type V = CalendarModel;

    open spec fn view(&self) -> CalendarModel {
        CalendarModel { url: self.url@, etag: self.etag@, name: self.name@ }
    }
}

/// One typed property of a calendar-listing entry.
#[derive(Debug)]
pub enum CalProp {
    /// The opaque change token.
    Etag(String),
    /// Whether the resource type names a calendar.
    IsCalendar(bool),
    /// The component names the resource supports.
    SupportedComponents(Vec<String>),
    /// The display name.
    Name(String),
}

/// The abstract value of a calendar-listing property.
#[verifier::ext_equal]
pub enum CalPropModel {
    Etag(Seq<char>),
    IsCalendar(bool),
    SupportedComponents(Seq<Seq<char>>),
    Name(Seq<char>),
}

/// The abstract value of a typed calendar-listing property.
pub open spec fn cal_prop_model(v: CalProp) -> CalPropModel {
    match v {
        CalProp::Etag(s) => CalPropModel::Etag(s@),
        CalProp::IsCalendar(b) => CalPropModel::IsCalendar(b),
        CalProp::SupportedComponents(ns) => CalPropModel::SupportedComponents(ns.deep_view()),
        CalProp::Name(s) => CalPropModel::Name(s@),
    }
}

/// The component names of a supported-component-set element: the `name`
/// attribute of each child, or `None` where a child carries none.
pub open spec fn spec_comp_names(cs: Seq<XmlElement>) -> Option<Seq<Seq<char>>>
    decreases cs.len(),
{
    if cs.len() == 0 {
        Some(Seq::empty())
    } else {
        match (cs[0].name_attr, spec_comp_names(cs.drop_first())) {
            (Some(n), Some(rest)) => Some(seq![n@] + rest),
            _ => None,
        }
    }
}

/// The typed property a calendar-listing `prop` child denotes, or a
/// protocol error for an unknown property or a component without a
/// name.
pub open spec fn spec_cal_prop(e: XmlElement) -> Result<CalPropModel, ErrorKind> {
    if e.name@ == "getetag"@ {
        Ok(CalPropModel::Etag(spec_strip_quotes(e.text@)))
    } else if e.name@ == "displayname"@ {
        Ok(CalPropModel::Name(spec_strip_quotes(e.text@)))
    } else if e.name@ == "resourcetype"@ {
        Ok(CalPropModel::IsCalendar(spec_first_child(e.children@, "calendar"@) is Some))
    } else if e.name@ == "supported-calendar-component-set"@ {
        match spec_comp_names(e.children@) {
            Some(ns) => Ok(CalPropModel::SupportedComponents(ns)),
            None => Err(ErrorKind::Protocol),
        }
    } else {
        Err(ErrorKind::Protocol)
    }
}

/// Reading component names one element further appends its name.
proof fn lemma_comp_names_snoc(cs: Seq<XmlElement>, c: XmlElement)
    ensures
        spec_comp_names(cs.push(c)) == (match (spec_comp_names(cs), c.name_attr) {
            (Some(ns), Some(n)) => Some(ns + seq![n@]),
            _ => None::<Seq<Seq<char>>>,
        }),
    decreases cs.len(),
{
    if cs.len() == 0 {
        assert(cs.push(c)[0] == c);
        assert(cs.push(c).drop_first() =~= Seq::<XmlElement>::empty());
        assert(spec_comp_names(Seq::<XmlElement>::empty()) == Some(Seq::<Seq<char>>::empty()));
        match (c.name_attr, spec_comp_names(cs)) {
            (Some(n), Some(ns)) => {
                assert(spec_comp_names(cs.push(c))->0 =~= ns + seq![n@]);
            },
            _ => {},
        }
    } else {
        assert(cs.push(c)[0] == cs[0]);
        assert(cs.push(c).drop_first() =~= cs.drop_first().push(c));
        lemma_comp_names_snoc(cs.drop_first(), c);
        match (cs[0].name_attr, spec_comp_names(cs.drop_first()), c.name_attr) {
            (Some(h), Some(rest), Some(n)) => {
                assert(spec_comp_names(cs.push(c))->0 =~= spec_comp_names(cs)->0 + seq![n@]);
            },
            _ => {},
        }
    }
}

/// The success and not-found status lines differ.
proof fn lemma_status_literals()
    ensures
        "HTTP/1.1 404 Not Found"@ != "HTTP/1.1 200 OK"@,
{
    reveal_strlit("HTTP/1.1 404 Not Found");
    reveal_strlit("HTTP/1.1 200 OK");
    assert("HTTP/1.1 404 Not Found"@.len() == 22);
    assert("HTTP/1.1 200 OK"@.len() == 15);
}

impl CalProp {
    /// Reads one calendar-listing property element: the change token,
    /// the display name, the resource type, or the supported component
    /// set; any other property is a protocol error.
    pub fn from_xml(xml: &XmlElement) -> (r: Result<CalProp, Error>)
        ensures
            spec_cal_prop(*xml) matches Ok(m) ==> (r matches Ok(v) && cal_prop_model(v) == m),
            spec_cal_prop(*xml) matches Err(k) ==> (r matches Err(e) && e.spec_kind() == k),
    {
        if str_eq(xml.name.as_str(), "getetag") {
            Ok(CalProp::Etag(element_text(xml)))
        } else if str_eq(xml.name.as_str(), "displayname") {
            Ok(CalProp::Name(element_text(xml)))
        } else if str_eq(xml.name.as_str(), "resourcetype") {
            let is_cal = match xml.get_child("calendar") {
                Some(_) => true,
                None => false,
            };
            Ok(CalProp::IsCalendar(is_cal))
        } else if str_eq(xml.name.as_str(), "supported-calendar-component-set") {
            let n = xml.children.len();
            let mut names: Vec<String> = Vec::new();
            let mut i: usize = 0;
            proof {
                assert(xml.children@.take(0) =~= Seq::<XmlElement>::empty());
                assert(names.deep_view() =~= Seq::<Seq<char>>::empty());
            }
            while i < n
                invariant
                    i <= n,
                    n == xml.children@.len(),
                    spec_comp_names(xml.children@.take(i as int)) == Some(names.deep_view()),
                    xml.name@ != "getetag"@,
                    xml.name@ != "displayname"@,
                    xml.name@ != "resourcetype"@,
                    xml.name@ == "supported-calendar-component-set"@,
                decreases n - i,
            {
                let c = &xml.children[i];
                match &c.name_attr {
                    Some(nm) => {
                        names.push(nm.clone());
                    },
                    None => {
                        proof {
                            lemma_comp_names_missing(xml.children@, i as int);
                        }
                        return Err(
                            Error::Protocol(
                                str_to_string("supported component without a name attribute"),
                            ),
                        );
                    },
                }
                i = i + 1;
                proof {
                    lemma_comp_names_snoc(xml.children@.take(i - 1), xml.children@[i - 1]);
                    assert(xml.children@.take(i as int) =~= xml.children@.take(i - 1).push(
                        xml.children@[i - 1],
                    ));
                    assert(spec_comp_names(xml.children@.take(i as int))->0 =~= names.deep_view());
                }
            }
            proof {
                assert(xml.children@.take(n as int) =~= xml.children@);
            }
            Ok(CalProp::SupportedComponents(names))
        } else {
            let mut m = String::new();
            m.append("unable to read calendar listing: unknown property ");
            m.append(xml.name.as_str());
            Err(Error::Protocol(m))
        }
    }
}

/// Exit invariant of the error path of component-name reading: where a
/// child lacks a name attribute, the whole set has no names.
proof fn lemma_comp_names_missing(cs: Seq<XmlElement>, i: int)
    requires
        0 <= i < cs.len(),
        cs[i].name_attr is None,
    ensures
        spec_comp_names(cs) is None,
    decreases i,
{
    if i == 0 {
    } else {
        assert(cs.drop_first()[i - 1] == cs[i]);
        lemma_comp_names_missing(cs.drop_first(), i - 1);
    }
}

/// The accumulator state of a scan over calendar-listing properties:
/// the change token and display name seen so far.
pub open spec fn spec_scan_props(
    cs: Seq<XmlElement>,
    etag: Option<Seq<char>>,
    name: Option<Seq<char>>,
) -> Result<Option<(Option<Seq<char>>, Option<Seq<char>>)>, ErrorKind>
    decreases cs.len(),
{
    if cs.len() == 0 {
        Ok(Some((etag, name)))
    } else {
        match spec_cal_prop(cs[0]) {
            Err(k) => Err(k),
            Ok(CalPropModel::Etag(v)) => spec_scan_props(cs.drop_first(), Some(v), name),
            Ok(CalPropModel::Name(v)) => spec_scan_props(cs.drop_first(), etag, Some(v)),
            Ok(CalPropModel::IsCalendar(b)) => if b {
                spec_scan_props(cs.drop_first(), etag, name)
            } else {
                Ok(None)
            },
            Ok(CalPropModel::SupportedComponents(ns)) => if ns.contains("VTODO"@) {
                spec_scan_props(cs.drop_first(), etag, name)
            } else {
                Ok(None)
            },
        }
    }
}

/// The tail of reading one calendar entry, after its properties were
/// scanned: resolve the URL, then require the change token and the
/// display name.
pub open spec fn spec_finish_calendar(
    base: Seq<char>,
    href: Seq<char>,
    scan: Result<Option<(Option<Seq<char>>, Option<Seq<char>>)>, ErrorKind>,
) -> Result<Option<CalendarModel>, ErrorKind> {
    match scan {
        Err(k) => Err(k),
        Ok(None) => Ok(None),
        Ok(Some((etag_opt, name_opt))) => match spec_url_join(base, href) {
            None => Err(ErrorKind::Url),
            Some(u) => match (etag_opt, name_opt) {
                (Some(t), Some(nm)) => Ok(Some(CalendarModel { url: u, etag: t, name: nm })),
                _ => Err(ErrorKind::Protocol),
            },
        },
    }
}

/// The calendar one listing entry denotes: `Ok(None)` for the filtered
/// cases (a not-found status, a missing href, a non-calendar resource
/// type, a component set without the task component), an error for a
/// non-success status, a malformed entry or an unresolvable URL, and a
/// calendar otherwise.
pub open spec fn spec_calendar_from(base: Seq<char>, e: XmlElement) -> Result<
    Option<CalendarModel>,
    ErrorKind,
> {
    match spec_first_child(e.children@, "propstat"@) {
        None => Err(ErrorKind::Protocol),
        Some(propstat) => {
            let status = match spec_first_child(propstat.children@, "status"@) {
                Some(s) => spec_strip_quotes(s.text@),
                None => "HTTP/1.1 200 OK"@,
            };
            if status == "HTTP/1.1 404 Not Found"@ {
                Ok(None)
            } else if status != "HTTP/1.1 200 OK"@ {
                Err(ErrorKind::Protocol)
            } else {
                match spec_first_child(e.children@, "href"@) {
                    None => Ok(None),
                    Some(href_el) => match spec_first_child(propstat.children@, "prop"@) {
                        None => Err(ErrorKind::Protocol),
                        Some(prop) => spec_finish_calendar(
                            base,
                            spec_strip_quotes(href_el.text@),
                            spec_scan_props(prop.children@, None, None),
                        ),
                    },
                }
            }
        },
    }
}

/// Tests whether one of the strings equals `needle`.
fn contains_str(v: &Vec<String>, needle: &str) -> (r: bool)
    ensures
        r == v.deep_view().contains(needle@),
{
    let n = v.len();
    let mut i: usize = 0;
    while i < n
        invariant
            i <= n,
            n == v@.len(),
            forall|j: int| 0 <= j < i ==> v.deep_view()[j] != needle@,
        decreases n - i,
    {
        if str_eq(v[i].as_str(), needle) {
            proof {
                assert(v.deep_view()[i as int] == needle@);
            }
            return true;
        }
        i = i + 1;
    }
    proof {
        if v.deep_view().contains(needle@) {
            let j = choose|j: int| 0 <= j < v.deep_view().len() && v.deep_view()[j] == needle@;
            assert(v.deep_view()[j] != needle@);
        }
    }
    false
}

impl Calendar {
    /// Reads one calendar-listing entry.
    ///
    /// The home-set container itself commonly appears with a not-found
    /// status or without calendar semantics; such entries, and entries
    /// whose component set excludes the task component, are filtered as
    /// `Ok(None)`, never reported as corruption.  An entry with another
    /// non-success status, an unknown property, or a missing change
    /// token or display name fails.
    pub fn from_xml(base_url: &str, xml: &XmlElement) -> (r: Result<Option<Calendar>, Error>)
        ensures
            spec_calendar_from(base_url@, *xml) matches Ok(Some(m)) ==> (r matches Ok(o) && o
                matches Some(cal) && cal@ == m),
            spec_calendar_from(base_url@, *xml) matches Ok(None) ==> (r matches Ok(o) && o is None),
            spec_calendar_from(base_url@, *xml) matches Err(k) ==> (r matches Err(e)
                && e.spec_kind() == k),
    {
        proof {
            lemma_status_literals();
        }
        let propstat = match xml.get_child("propstat") {
            Some(p) => p,
            None => {
                return Err(Error::Protocol(str_to_string("response element without propstat")));
            },
        };
        match propstat.get_child("status") {
            Some(s) => {
                let status = element_text(s);
                if str_eq(status.as_str(), "HTTP/1.1 404 Not Found") {
                    // the root or home-set container: filtered, not an error
                    return Ok(None);
                }
                if !str_eq(status.as_str(), "HTTP/1.1 200 OK") {
                    return Err(
                        Error::Protocol(str_to_string("invalid status in calendar-listing entry")),
                    );
                }
            },
            None => {},
        }
        let href_el = match xml.get_child("href") {
            Some(h) => h,
            None => {
                // entries without an href (such as the root) are filtered
                return Ok(None);
            },
        };
        let prop = match propstat.get_child("prop") {
            Some(p) => p,
            None => {
                return Err(Error::Protocol(str_to_string("response element without prop")));
            },
        };
        let ghost all = prop.children@;
        let mut etag: Option<String> = None;
        let mut name: Option<String> = None;
        let n = prop.children.len();
        let mut i: usize = 0;
        proof {
            assert(all.skip(0) =~= all);
        }
        while i < n
            invariant
                i <= n,
                n == all.len(),
                all == prop.children@,
                spec_calendar_from(base_url@, *xml) == spec_finish_calendar(
                    base_url@,
                    spec_strip_quotes(href_el.text@),
                    spec_scan_props(all, None, None),
                ),
                spec_scan_props(all, None, None) == spec_scan_props(
                    all.skip(i as int),
                    opt_str_view(etag),
                    opt_str_view(name),
                ),
            decreases n - i,
        {
            let ghost rem = all.skip(i as int);
            proof {
                assert(rem[0] == all[i as int]);
                assert(rem.drop_first() =~= all.skip(i as int + 1));
            }
            let c = &prop.children[i];
            match CalProp::from_xml(c) {
                Err(e) => {
                    return Err(e);
                },
                Ok(CalProp::Etag(v)) => {
                    etag = Some(v);
                },
                Ok(CalProp::Name(v)) => {
                    name = Some(v);
                },
                Ok(CalProp::IsCalendar(b)) => {
                    if !b {
                        // not a calendar resource: filtered
                        return Ok(None);
                    }
                },
                Ok(CalProp::SupportedComponents(ns)) => {
                    if !contains_str(&ns, "VTODO") {
                        // the task component is not supported: filtered
                        return Ok(None);
                    }
                },
            }
            i = i + 1;
            proof {
                assert(spec_scan_props(all, None, None) == spec_scan_props(
                    all.skip(i as int),
                    opt_str_view(etag),
                    opt_str_view(name),
                ));
            }
        }
        proof {
            assert(all.skip(n as int) =~= Seq::<XmlElement>::empty());
        }
        let href = element_text(href_el);
        let url = match join_url(base_url, href.as_str()) {
            Ok(u) => u,
            Err(e) => {
                return Err(e);
            },
        };
        let etag_val = match etag {
            Some(t) => t,
            None => {
                return Err(
                    Error::Protocol(str_to_string("calendar-listing entry without change token")),
                );
            },
        };
        let name_val = match name {
            Some(nm) => nm,
            None => {
                return Err(
                    Error::Protocol(str_to_string("calendar-listing entry without display name")),
                );
            },
        };
        Ok(Some(Calendar { url, etag: etag_val, name: name_val }))
    }
}

/// The calendar models of discovered calendars.
pub open spec fn calendars_model(cs: Seq<Calendar>) -> Seq<CalendarModel> {
    cs.map_values(|c: Calendar| c@)
}

/// The calendars a whole listing response denotes: each entry read in
/// order, the filtered entries skipped, the first error aborting.
pub open spec fn spec_calendars_from(base: Seq<char>, cs: Seq<XmlElement>) -> Result<
    Seq<CalendarModel>,
    ErrorKind,
>
    decreases cs.len(),
{
    if cs.len() == 0 {
        Ok(Seq::empty())
    } else {
        match spec_calendar_from(base, cs[0]) {
            Err(k) => Err(k),
            Ok(opt) => match spec_calendars_from(base, cs.drop_first()) {
                Err(k) => Err(k),
                Ok(rest) => Ok(
                    (match opt {
                        Some(c) => seq![c],
                        None => Seq::empty(),
                    }) + rest,
                ),
            },
        }
    }
}

/// Reads a whole calendar-listing response: one entry per child of the
/// multistatus root, filtered entries skipped, URLs resolved against
/// the caller's own base URL.
pub fn calendars_from_response(base_url: &str, xml: &XmlElement) -> (r: Result<Vec<Calendar>, Error>)
    ensures
        spec_calendars_from(base_url@, xml.children@) matches Ok(ms) ==> (r matches Ok(cals)
            && calendars_model(cals@) == ms),
        spec_calendars_from(base_url@, xml.children@) matches Err(k) ==> (r matches Err(e)
            && e.spec_kind() == k),
{
    let ghost all = xml.children@;
    let mut out: Vec<Calendar> = Vec::new();
    let n = xml.children.len();
    let mut i: usize = 0;
    proof {
        assert(all.skip(0) =~= all);
        assert(calendars_model(out@) =~= Seq::<CalendarModel>::empty());
    }
    while i < n
        invariant
            i <= n,
            n == all.len(),
            all == xml.children@,
            spec_calendars_from(base_url@, all.skip(i as int)) matches Ok(rest)
                ==> spec_calendars_from(base_url@, all) == Ok::<Seq<CalendarModel>, ErrorKind>(
                calendars_model(out@) + rest,
            ),
            spec_calendars_from(base_url@, all.skip(i as int)) matches Err(k)
                ==> spec_calendars_from(base_url@, all) == Err::<Seq<CalendarModel>, ErrorKind>(k),
        decreases n - i,
    {
        let ghost rem = all.skip(i as int);
        let ghost prev_models = calendars_model(out@);
        proof {
            assert(rem[0] == all[i as int]);
            assert(rem.drop_first() =~= all.skip(i as int + 1));
        }
        match Calendar::from_xml(base_url, &xml.children[i]) {
            Err(e) => {
                return Err(e);
            },
            Ok(Some(cal)) => {
                out.push(cal);
            },
            Ok(None) => {},
        }
        i = i + 1;
        proof {
            match spec_calendar_from(base_url@, rem[0]) {
                Err(k) => {},
                Ok(opt) => {
                    let head = match opt {
                        Some(c) => seq![c],
                        None => Seq::<CalendarModel>::empty(),
                    };
                    assert(calendars_model(out@) =~= prev_models + head);
                    match spec_calendars_from(base_url@, all.skip(i as int)) {
                        Ok(rest) => {
                            assert(spec_calendars_from(base_url@, rem) == Ok::<
                                Seq<CalendarModel>,
                                ErrorKind,
                            >(head + rest));
                            assert(prev_models + (head + rest) =~= (prev_models + head) + rest);
                        },
                        Err(k) => {},
                    }
                },
            }
        }
    }
    proof {
        assert(all.skip(n as int) =~= Seq::<XmlElement>::empty());
        assert(calendars_model(out@) + Seq::<CalendarModel>::empty() =~= calendars_model(out@));
    }
    Ok(out)
}

/// The body of the principal-discovery request.
pub open spec fn spec_principal_request_body() -> Seq<char> {
    "<d:propfind xmlns:d=\"DAV:\"><d:prop><d:current-user-principal /></d:prop></d:propfind>"@
}

/// Builds the property-find request of the principal-discovery step:
/// depth 0, requesting the current-user-principal property.
pub fn principal_request() -> (r: Request)
    ensures
        r.method == Method::PropFind,
        r.depth == 0,
        r.body@ == spec_principal_request_body(),
{
    Request {
        method: Method::PropFind,
        depth: 0,
        body: str_to_string(
            "<d:propfind xmlns:d=\"DAV:\"><d:prop><d:current-user-principal /></d:prop></d:propfind>",
        ),
    }
}

/// The body of the home-set discovery request.
pub open spec fn spec_home_set_request_body() -> Seq<char> {
    "<d:propfind xmlns:d=\"DAV:\" xmlns:c=\"urn:ietf:params:xml:ns:caldav\"><d:self/><d:prop><c:calendar-home-set /></d:prop></d:propfind>"@
}

/// Builds the property-find request of the home-set discovery step:
/// depth 0, requesting the calendar-home-set property, to be issued
/// against the principal URL.
pub fn home_set_request() -> (r: Request)
    ensures
        r.method == Method::PropFind,
        r.depth == 0,
        r.body@ == spec_home_set_request_body(),
{
    Request {
        method: Method::PropFind,
        depth: 0,
        body: str_to_string(
            "<d:propfind xmlns:d=\"DAV:\" xmlns:c=\"urn:ietf:params:xml:ns:caldav\"><d:self/><d:prop><c:calendar-home-set /></d:prop></d:propfind>",
        ),
    }
}

/// The body of the calendar-listing request.
pub open spec fn spec_calendar_list_request_body() -> Seq<char> {
    "<c:calendar-query xmlns:d=\"DAV:\" xmlns:c=\"urn:ietf:params:xml:ns:caldav\"><d:prop><d:getetag /><d:displayname /><d:resourcetype /><c:supported-calendar-component-set /></d:prop><c:filter><c:comp-filter name=\"VCALENDAR\" /></c:filter></c:calendar-query>"@
}

/// Builds the calendar-listing request: depth 1 against the home-set
/// URL, requesting change token, display name, resource type and the
/// supported component set, filtered to calendar resources.
pub fn calendar_list_request() -> (r: Request)
    ensures
        r.method == Method::PropFind,
        r.depth == 1,
        r.body@ == spec_calendar_list_request_body(),
{
    Request {
        method: Method::PropFind,
        depth: 1,
        body: str_to_string(
            "<c:calendar-query xmlns:d=\"DAV:\" xmlns:c=\"urn:ietf:params:xml:ns:caldav\"><d:prop><d:getetag /><d:displayname /><d:resourcetype /><c:supported-calendar-component-set /></d:prop><c:filter><c:comp-filter name=\"VCALENDAR\" /></c:filter></c:calendar-query>",
        ),
    }
}

/// The path of the principal href inside the discovery response.
pub open spec fn spec_principal_path() -> Seq<Seq<char>> {
    seq!["response"@, "propstat"@, "prop"@, "current-user-principal"@, "href"@]
}

/// The path of the home-set href inside the discovery response: the
/// href of the calendar-home-set property, not the response's own
/// href (which names the principal resource itself).
pub open spec fn spec_home_set_path() -> Seq<Seq<char>> {
    seq!["response"@, "propstat"@, "prop"@, "calendar-home-set"@, "href"@]
}

/// The URL that resolving the text found at `path` in `tree` against
/// `base` yields: a protocol error where the path or its text is
/// absent, a URL error where resolution fails.
pub open spec fn spec_resolve_at_path(
    base: Seq<char>,
    tree: XmlElement,
    path: Seq<Seq<char>>,
) -> Result<Seq<char>, ErrorKind> {
    match spec_apply_path(tree, path) {
        Some(el) => if el.text@.len() > 0 {
            match spec_url_join(base, el.text@) {
                Some(u) => Ok(u),
                None => Err(ErrorKind::Url),
            }
        } else {
            Err(ErrorKind::Protocol)
        },
        None => Err(ErrorKind::Protocol),
    }
}

/// Extracts the principal href of a principal-discovery response and
/// resolves it against the bookmark URL.  A missing property is fatal
/// to discovery.
pub fn principal_url_from_response(base_url: &str, xml: &XmlElement) -> (r: Result<String, Error>)
    ensures
        spec_resolve_at_path(base_url@, *xml, spec_principal_path()) matches Ok(u) ==> (r matches
            Ok(s) && s@ == u),
        spec_resolve_at_path(base_url@, *xml, spec_principal_path()) matches Err(k) ==> (r matches
            Err(e) && e.spec_kind() == k),
{
    let mut path: Vec<&str> = Vec::new();
    path.push("response");
    path.push("propstat");
    path.push("prop");
    path.push("current-user-principal");
    path.push("href");
    proof {
        assert(path@.map_values(|p: &str| p@) =~= spec_principal_path());
    }
    let href = match apply_xml_path(xml, &path) {
        Ok(h) => h,
        Err(e) => {
            return Err(e);
        },
    };
    join_url(base_url, href.as_str())
}

/// Extracts the href of the calendar-home-set property out of a
/// home-set discovery response and resolves it against the principal
/// URL.  An absent property is a protocol error, fatal to discovery.
pub fn home_set_url_from_response(principal_url: &str, xml: &XmlElement) -> (r: Result<
    String,
    Error,
>)
    ensures
        spec_resolve_at_path(principal_url@, *xml, spec_home_set_path()) matches Ok(u) ==> (r
            matches Ok(s) && s@ == u),
        spec_resolve_at_path(principal_url@, *xml, spec_home_set_path()) matches Err(k) ==> (r
            matches Err(e) && e.spec_kind() == k),
{
    let mut path: Vec<&str> = Vec::new();
    path.push("response");
    path.push("propstat");
    path.push("prop");
    path.push("calendar-home-set");
    path.push("href");
    proof {
        assert(path@.map_values(|p: &str| p@) =~= spec_home_set_path());
    }
    let href = match apply_xml_path(xml, &path) {
        Ok(h) => h,
        Err(e) => {
            return Err(e);
        },
    };
    join_url(principal_url, href.as_str())
}

/// Builds the malformed-response error.
fn xml_error() -> (r: Error)
    ensures
        r.spec_kind() == ErrorKind::DocumentParse,
{
    Error::DocumentParse(str_to_string("response body is not a well-formed XML document"))
}

/// Resolves the principal URL out of a principal-discovery response
/// body.
pub fn principal_url_from_document(base_url: &str, body: &str) -> (r: Result<String, Error>)
    ensures
        spec_xml_tree(body@) is None ==> (r matches Err(e) && e.spec_kind()
            == ErrorKind::DocumentParse),
        spec_xml_tree(body@) matches Some(tree) ==> ((spec_resolve_at_path(
            base_url@,
            tree,
            spec_principal_path(),
        ) matches Ok(u) ==> (r matches Ok(s) && s@ == u)) && (spec_resolve_at_path(
            base_url@,
            tree,
            spec_principal_path(),
        ) matches Err(k) ==> (r matches Err(e) && e.spec_kind() == k))),
{
    match parse_xml_text(body) {
        None => Err(xml_error()),
        Some(tree) => principal_url_from_response(base_url, &tree),
    }
}

/// Resolves the home-set URL out of a home-set discovery response
/// body.
pub fn home_set_url_from_document(principal_url: &str, body: &str) -> (r: Result<String, Error>)
    ensures
        spec_xml_tree(body@) is None ==> (r matches Err(e) && e.spec_kind()
            == ErrorKind::DocumentParse),
        spec_xml_tree(body@) matches Some(tree) ==> ((spec_resolve_at_path(
            principal_url@,
            tree,
            spec_home_set_path(),
        ) matches Ok(u) ==> (r matches Ok(s) && s@ == u)) && (spec_resolve_at_path(
            principal_url@,
            tree,
            spec_home_set_path(),
        ) matches Err(k) ==> (r matches Err(e) && e.spec_kind() == k))),
{
    match parse_xml_text(body) {
        None => Err(xml_error()),
        Some(tree) => home_set_url_from_response(principal_url, &tree),
    }
}

/// Reads the task-capable calendars out of a calendar-listing response
/// body, with URLs resolved against the caller's own base URL.
pub fn calendars_from_document(base_url: &str, body: &str) -> (r: Result<Vec<Calendar>, Error>)
    ensures
        spec_xml_tree(body@) is None ==> (r matches Err(e) && e.spec_kind()
            == ErrorKind::DocumentParse),
        spec_xml_tree(body@) matches Some(tree) ==> ((spec_calendars_from(
            base_url@,
            tree.children@,
        ) matches Ok(ms) ==> (r matches Ok(cals) && calendars_model(cals@) == ms)) && (
        spec_calendars_from(
            base_url@,
            tree.children@,
        ) matches Err(k) ==> (r matches Err(e) && e.spec_kind() == k))),
{
    match parse_xml_text(body) {
        None => Err(xml_error()),
        Some(tree) => calendars_from_response(base_url, &tree),
    }
}

/// The listing property names the machine tells apart are pairwise
/// distinct.
proof fn lemma_listing_tags_distinct()
    ensures
        "resourcetype"@ != "getetag"@,
        "resourcetype"@ != "displayname"@,
        "supported-calendar-component-set"@ != "getetag"@,
        "supported-calendar-component-set"@ != "displayname"@,
        "supported-calendar-component-set"@ != "resourcetype"@,
{
    reveal_strlit("resourcetype");
    reveal_strlit("getetag");
    reveal_strlit("displayname");
    reveal_strlit("supported-calendar-component-set");
    assert("resourcetype"@.len() == 12);
    assert("getetag"@.len() == 7);
    assert("displayname"@.len() == 11);
    assert("supported-calendar-component-set"@.len() == 32);
}

/// A property scan that meets a filtering property never accepts: a
/// resource type naming no calendar, or a component set without the
/// task component, yields no calendar.
proof fn lemma_scan_filters(
    cs: Seq<XmlElement>,
    etag: Option<Seq<char>>,
    name: Option<Seq<char>>,
    i: int,
)
    requires
        0 <= i < cs.len(),
        match spec_cal_prop(cs[i]) {
            Ok(CalPropModel::IsCalendar(b)) => !b,
            Ok(CalPropModel::SupportedComponents(ns)) => !ns.contains("VTODO"@),
            _ => false,
        },
    ensures
        !(spec_scan_props(cs, etag, name) matches Ok(Some(_x))),
    decreases i,
{
    if i == 0 {
    } else {
        assert(cs.drop_first()[i - 1] == cs[i]);
        match spec_cal_prop(cs[0]) {
            Err(_) => {},
            Ok(CalPropModel::Etag(v)) => {
                lemma_scan_filters(cs.drop_first(), Some(v), name, i - 1);
            },
            Ok(CalPropModel::Name(v)) => {
                lemma_scan_filters(cs.drop_first(), etag, Some(v), i - 1);
            },
            Ok(CalPropModel::IsCalendar(b)) => {
                if b {
                    lemma_scan_filters(cs.drop_first(), etag, name, i - 1);
                }
            },
            Ok(CalPropModel::SupportedComponents(ns)) => {
                if ns.contains("VTODO"@) {
                    lemma_scan_filters(cs.drop_first(), etag, name, i - 1);
                }
            },
        }
    }
}

/// A resource whose resource type does not name a calendar never
/// appears in the returned calendar list: its entry yields no calendar,
/// whatever else it carries.
pub proof fn lemma_non_calendar_filtered(base: Seq<char>, e: XmlElement, i: int)
    requires
        spec_first_child(e.children@, "propstat"@) is Some,
        spec_first_child(spec_first_child(e.children@, "propstat"@)->0.children@, "prop"@)
            is Some,
        ({
            let propstat = spec_first_child(e.children@, "propstat"@)->0;
            let prop = spec_first_child(propstat.children@, "prop"@)->0;
            &&& 0 <= i < prop.children@.len()
            &&& prop.children@[i].name@ == "resourcetype"@
            &&& spec_first_child(prop.children@[i].children@, "calendar"@) is None
        }),
    ensures
        !(spec_calendar_from(base, e) matches Ok(Some(_c))),
{
    lemma_listing_tags_distinct();
    let propstat = spec_first_child(e.children@, "propstat"@)->0;
    let prop = spec_first_child(propstat.children@, "prop"@)->0;
    assert(spec_cal_prop(prop.children@[i]) == Ok::<CalPropModel, ErrorKind>(
        CalPropModel::IsCalendar(false),
    ));
    lemma_scan_filters(prop.children@, None, None, i);
}

/// A resource whose supported component set excludes the task
/// component never appears in the returned calendar list: its entry
/// yields no calendar, whatever else it carries.
pub proof fn lemma_unsupported_components_filtered(base: Seq<char>, e: XmlElement, i: int)
    requires
        spec_first_child(e.children@, "propstat"@) is Some,
        spec_first_child(spec_first_child(e.children@, "propstat"@)->0.children@, "prop"@)
            is Some,
        ({
            let propstat = spec_first_child(e.children@, "propstat"@)->0;
            let prop = spec_first_child(propstat.children@, "prop"@)->0;
            &&& 0 <= i < prop.children@.len()
            &&& prop.children@[i].name@ == "supported-calendar-component-set"@
            &&& (spec_comp_names(prop.children@[i].children@) matches Some(ns)
                && !ns.contains("VTODO"@))
        }),
    ensures
        !(spec_calendar_from(base, e) matches Ok(Some(_c))),
{
    lemma_listing_tags_distinct();
    let propstat = spec_first_child(e.children@, "propstat"@)->0;
    let prop = spec_first_child(propstat.children@, "prop"@)->0;
    assert(spec_cal_prop(prop.children@[i]) matches Ok(m) && m matches
        CalPropModel::SupportedComponents(ns) && !ns.contains("VTODO"@));
    lemma_scan_filters(prop.children@, None, None, i);
}

/// An entry that yields no calendar leaves the returned list exactly
/// the list of the other entries: a filtered resource never appears.
pub proof fn lemma_filtered_entry_absent(base: Seq<char>, cs: Seq<XmlElement>, i: int)
    requires
        0 <= i < cs.len(),
        spec_calendar_from(base, cs[i]) == Ok::<Option<CalendarModel>, ErrorKind>(
            None::<CalendarModel>,
        ),
    ensures
        spec_calendars_from(base, cs) == spec_calendars_from(base, cs.remove(i)),
    decreases i,
{
    if i == 0 {
        assert(cs.remove(0) =~= cs.drop_first());
        match spec_calendars_from(base, cs.drop_first()) {
            Err(_) => {},
            Ok(rest) => {
                assert(Seq::<CalendarModel>::empty() + rest =~= rest);
            },
        }
    } else {
        assert(cs.remove(i)[0] == cs[0]);
        assert(cs.remove(i).drop_first() =~= cs.drop_first().remove(i - 1));
        assert(cs.drop_first()[i - 1] == cs[i]);
        lemma_filtered_entry_absent(base, cs.drop_first(), i - 1);
        assert(spec_calendars_from(base, cs.drop_first()) == spec_calendars_from(
            base,
            cs.drop_first().remove(i - 1),
        ));
    }
}

} // verus!
