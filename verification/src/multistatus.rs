//! The structured-response model: one `response` entry of a
//! multistatus document, as `{ href, status, properties }`, with typed
//! accessors for the change token and the calendar-object document.
use vstd::prelude::*;
use crate::calobject::{opt_str_view, parse_calendar_document, spec_parse_document, Data, TaskModel};
use crate::error::{Error, ErrorKind};
use crate::strutil::{str_eq, str_to_string};
use crate::xml::{element_text, spec_first_child, spec_strip_quotes, XmlElement};

verus! {

/// The abstract value of one named property of a response entry.
#[verifier::ext_equal]
pub enum PropertyModel {
    /// An opaque change token.
    Etag(Seq<char>),
    /// A calendar-object document: its tasks, or `None` where the text
    /// does not parse.
    CalendarData(Option<Seq<TaskModel>>),
    /// Any other property, retained by name for diagnostics.
    Unrecognized(Seq<char>),
}

/// One named property of a response entry.
#[derive(Debug)]
pub enum PropertyValue {
    /// An opaque change token.
    Etag(String),
    /// A parsed calendar-object document, or `None` where the text did
    /// not parse: an unparseable document degrades rather than failing
    /// the whole fetch.
    CalendarData(Option<Data>),
    /// Any other property, retained by name for diagnostics.
    Unrecognized(String),
}

/// The abstract value of a property value.
pub open spec fn property_value_model(v: PropertyValue) -> PropertyModel {
    match v {
        PropertyValue::Etag(s) => PropertyModel::Etag(s@),
        PropertyValue::CalendarData(Some(d)) => PropertyModel::CalendarData(Some(d@)),
        PropertyValue::CalendarData(None) => PropertyModel::CalendarData(None),
        PropertyValue::Unrecognized(s) => PropertyModel::Unrecognized(s@),
    }
}

/// The abstract value that one child of a `prop` element denotes: a
/// change-token tag yields the token text, a calendar-data tag runs the
/// calendar-object parser, and any other tag is retained verbatim.
pub open spec fn spec_prop_model(c: XmlElement) -> PropertyModel {
    if c.name@ == "getetag"@ {
        PropertyModel::Etag(spec_strip_quotes(c.text@))
    } else if c.name@ == "calendar-data"@ {
        PropertyModel::CalendarData(
            match spec_parse_document(c.text@) {
                Ok(ms) => Some(ms),
                Err(_) => None,
            },
        )
    } else {
        PropertyModel::Unrecognized(c.name@)
    }
}

/// The property-pair models of stored properties.
pub open spec fn props_model(ps: Seq<(String, PropertyValue)>) -> Seq<(Seq<char>, PropertyModel)> {
    ps.map_values(|p: (String, PropertyValue)| (p.0@, property_value_model(p.1)))
}

/// The property-pair models that the children of a `prop` element
/// denote.
pub open spec fn children_model(cs: Seq<XmlElement>) -> Seq<(Seq<char>, PropertyModel)> {
    cs.map_values(|c: XmlElement| (c.name@, spec_prop_model(c)))
}

/// The change-token and calendar-data tag names differ.
pub proof fn lemma_prop_tags_distinct()
    ensures
        "getetag"@ != "calendar-data"@,
{
    reveal_strlit("getetag");
    reveal_strlit("calendar-data");
    assert("getetag"@.len() == 7);
    assert("calendar-data"@.len() == 13);
}

/// The abstract content of one response entry.
#[verifier::ext_equal]
pub struct EntryModel {
    pub href: Seq<char>,
    pub status: Option<Seq<char>>,
    pub properties: Seq<(Seq<char>, PropertyModel)>,
}

/// One `response` entry of a multistatus document.
#[derive(Debug)]
pub struct ResponseEntry {
    pub href: String,
    pub status: Option<String>,
    pub properties: Vec<(String, PropertyValue)>,
}

impl View for ResponseEntry {
    type V = EntryModel;

    open spec fn view(&self) -> EntryModel {
        EntryModel {
            href: self.href@,
            status: opt_str_view(self.status),
            properties: props_model(self.properties@),
        }
    }
}

/// Well-formedness of one stored property pair: the tag names and the
/// value variants correspond, and a parsed document is well-formed.
pub open spec fn prop_pair_wf(p: (String, PropertyValue)) -> bool {
    &&& (p.0@ == "getetag"@ <==> p.1 is Etag)
    &&& (p.0@ == "calendar-data"@ <==> p.1 is CalendarData)
    &&& (p.1 matches PropertyValue::CalendarData(Some(d)) ==> d.wf())
}

/// The entry a `response` element denotes, or the kind of error on
/// which reading it fails: the element must carry a `propstat` with a
/// `prop` substructure and an `href`.
pub open spec fn spec_parse_entry(e: XmlElement) -> Result<EntryModel, ErrorKind> {
    match spec_first_child(e.children@, "propstat"@) {
        None => Err(ErrorKind::Protocol),
        Some(propstat) => {
            let status = match spec_first_child(propstat.children@, "status"@) {
                Some(s) => Some(spec_strip_quotes(s.text@)),
                None => None,
            };
            match spec_first_child(propstat.children@, "prop"@) {
                None => Err(ErrorKind::Protocol),
                Some(prop) => match spec_first_child(e.children@, "href"@) {
                    None => Err(ErrorKind::Protocol),
                    Some(href) => Ok(
                        EntryModel {
                            href: spec_strip_quotes(href.text@),
                            status,
                            properties: children_model(prop.children@),
                        },
                    ),
                },
            }
        },
    }
}

/// The first property stored under `name`, scanning in document order.
pub open spec fn spec_lookup_prop(
    ps: Seq<(Seq<char>, PropertyModel)>,
    name: Seq<char>,
) -> Option<PropertyModel>
    decreases ps.len(),
{
    if ps.len() == 0 {
        None
    } else if ps[0].0 == name {
        Some(ps[0].1)
    } else {
        spec_lookup_prop(ps.drop_first(), name)
    }
}

/// Relates the index-wise characterization of a first property match to
/// the recursive lookup.
proof fn lemma_lookup_prop_by_index(ps: Seq<(Seq<char>, PropertyModel)>, name: Seq<char>)
    ensures
        forall|i: int|
            0 <= i < ps.len() && (#[trigger] ps[i]).0 == name && (forall|j: int|
                0 <= j < i ==> (#[trigger] ps[j]).0 != name) ==> spec_lookup_prop(ps, name) == Some(
                ps[i].1,
            ),
        (forall|j: int| 0 <= j < ps.len() ==> (#[trigger] ps[j]).0 != name) ==> spec_lookup_prop(
            ps,
            name,
        ) is None,
    decreases ps.len(),
{
    if ps.len() == 0 {
    } else {
        lemma_lookup_prop_by_index(ps.drop_first(), name);
        assert forall|i: int|
            0 <= i < ps.len() && (#[trigger] ps[i]).0 == name && (forall|j: int|
                0 <= j < i ==> (#[trigger] ps[j]).0 != name) implies spec_lookup_prop(ps, name)
            == Some(ps[i].1) by {
            if i > 0 {
                assert(ps[0].0 != name);
                assert(ps.drop_first()[i - 1] == ps[i]);
                assert(forall|j: int|
                    0 <= j < i - 1 ==> (#[trigger] ps.drop_first()[j]).0 != name);
            }
        }
        if forall|j: int| 0 <= j < ps.len() ==> (#[trigger] ps[j]).0 != name {
            assert(ps[0].0 != name);
            assert(forall|j: int|
                0 <= j < ps.drop_first().len() ==> (#[trigger] ps.drop_first()[j]).0 != name);
        }
    }
}

impl ResponseEntry {
    /// Every stored property pair is well-formed.
    pub open spec fn wf(self) -> bool {
        forall|i: int| 0 <= i < self.properties@.len() ==> prop_pair_wf(
            #[trigger] self.properties@[i],
        )
    }

    /// Reads one `response` element into an entry.
    ///
    /// Fails with a protocol error where the `propstat`, its `prop`
    /// substructure, or the `href` is absent.  Each child of `prop` is
    /// dispatched by tag name; unseen tags are retained verbatim so
    /// that server extensions stay visible without aborting.
    pub fn parse(xml: &XmlElement) -> (r: Result<ResponseEntry, Error>)
        ensures
            spec_parse_entry(*xml) matches Ok(m) ==> (r matches Ok(en) && en@ == m && en.wf()),
            spec_parse_entry(*xml) matches Err(k) ==> (r matches Err(e) && e.spec_kind() == k),
    {
        let propstat = match xml.get_child("propstat") {
            Some(p) => p,
            None => {
                return Err(
                    Error::Protocol(str_to_string("response element without propstat")),
                );
            },
        };
        let status = match propstat.get_child("status") {
            Some(s) => Some(element_text(s)),
            None => None,
        };
        let prop = match propstat.get_child("prop") {
            Some(p) => p,
            None => {
                return Err(Error::Protocol(str_to_string("response element without prop")));
            },
        };
        let href_el = match xml.get_child("href") {
            Some(h) => h,
            None => {
                return Err(Error::Protocol(str_to_string("response element without href")));
            },
        };
        let href = element_text(href_el);
        let mut properties: Vec<(String, PropertyValue)> = Vec::new();
        let n = prop.children.len();
        let mut i: usize = 0;
        proof {
            assert(props_model(properties@) =~= children_model(prop.children@.take(0)));
        }
        while i < n
            invariant
                i <= n,
                n == prop.children@.len(),
                properties@.len() == i as int,
                props_model(properties@) =~= children_model(prop.children@.take(i as int)),
                forall|j: int| 0 <= j < properties@.len() ==> prop_pair_wf(
                    #[trigger] properties@[j],
                ),
            decreases n - i,
        {
            let ghost i0 = i as int;
            let ghost start_props = properties@;
            let c = &prop.children[i];
            let value = if str_eq(c.name.as_str(), "getetag") {
                PropertyValue::Etag(element_text(c))
            } else if str_eq(c.name.as_str(), "calendar-data") {
                match parse_calendar_document(c.text.as_str()) {
                    Ok(d) => PropertyValue::CalendarData(Some(d)),
                    Err(_) => PropertyValue::CalendarData(None),
                }
            } else {
                PropertyValue::Unrecognized(c.name.clone())
            };
            proof {
                lemma_prop_tags_distinct();
                assert(property_value_model(value) == spec_prop_model(prop.children@[i as int]));
            }
            properties.push((c.name.clone(), value));
            i = i + 1;
            proof {
                assert(prop.children@.take(i as int) =~= prop.children@.take(i - 1).push(
                    prop.children@[i - 1],
                ));
                let lm = props_model(properties@);
                let rm = children_model(prop.children@.take(i as int));
                assert(lm.len() == i);
                assert(rm.len() == i);
                assert forall|j: int| 0 <= j < i - 1 implies lm[j] == #[trigger] rm[j] by {
                    assert(properties@[j] == start_props[j]);
                    assert(lm[j] == (properties@[j].0@, property_value_model(properties@[j].1)));
                    assert(props_model(start_props)[j] == (start_props[j].0@,
                        property_value_model(start_props[j].1)));
                    assert(props_model(start_props) == children_model(prop.children@.take(i0)));
                    assert(children_model(prop.children@.take(i0))[j] == (prop.children@[j].name@,
                        spec_prop_model(prop.children@[j])));
                    assert(rm[j] == (prop.children@[j].name@, spec_prop_model(prop.children@[j])));
                }
                assert(lm[i - 1] == rm[i - 1]);
                assert(props_model(properties@) =~= children_model(prop.children@.take(i as int)));
            }
        }
        let entry = ResponseEntry { href, status, properties };
        proof {
            assert(prop.children@.take(n as int) =~= prop.children@);
            assert(entry@ =~= spec_parse_entry(*xml)->Ok_0);
        }
        Ok(entry)
    }

    /// The index of the first property named `name`, if any.
    fn find_prop_index(&self, name: &str) -> (r: Option<usize>)
        ensures
            r matches Some(i) ==> i < self.properties@.len() && self.properties@[i as int].0@
                == name@ && spec_lookup_prop(self@.properties, name@) == Some(
                property_value_model(self.properties@[i as int].1),
            ),
            r is None ==> spec_lookup_prop(self@.properties, name@) is None,
    {
        let n = self.properties.len();
        let mut i: usize = 0;
        while i < n
            invariant
                i <= n,
                n == self.properties@.len(),
                forall|j: int| 0 <= j < i ==> (#[trigger] self.properties@[j]).0@ != name@,
            decreases n - i,
        {
            if str_eq(self.properties[i].0.as_str(), name) {
                proof {
                    lemma_lookup_prop_by_index(self@.properties, name@);
                    assert(self@.properties[i as int].0 == name@);
                    assert(forall|j: int|
                        0 <= j < i ==> (#[trigger] self@.properties[j]).0 != name@);
                }
                return Some(i);
            }
            i = i + 1;
        }
        proof {
            lemma_lookup_prop_by_index(self@.properties, name@);
            assert(forall|j: int|
                0 <= j < self@.properties.len() ==> (#[trigger] self@.properties[j]).0 != name@);
        }
        None
    }

    /// The change token of this entry, where the server sent one.
    ///
    /// A property stored under the change-token tag with another
    /// variant would be an internal invariant violation; well-formed
    /// entries, as `parse` builds them, rule it out.
    pub fn etag(&self) -> (r: Option<String>)
        requires
            self.wf(),
        ensures
            spec_lookup_prop(self@.properties, "getetag"@) matches Some(pm) ==> (pm matches
                PropertyModel::Etag(t) && (r matches Some(s) && s@ == t)),
            spec_lookup_prop(self@.properties, "getetag"@) is None ==> r is None,
    {
        match self.find_prop_index("getetag") {
            Some(i) => match &self.properties[i].1 {
                PropertyValue::Etag(t) => Some(t.clone()),
                _ => vstd::pervasive::unreached(),
            },
            None => None,
        }
    }

    /// The parsed calendar-object document of this entry, where one was
    /// present and parseable; `None` degrades both absence and an
    /// unparseable document.
    pub fn document(self) -> (r: Option<Data>)
        requires
            self.wf(),
        ensures
            spec_lookup_prop(self@.properties, "calendar-data"@) matches Some(pm) ==> (pm matches
                PropertyModel::CalendarData(od) && (match od {
                Some(ms) => r matches Some(d) && d@ == ms && d.wf(),
                None => r is None,
            })),
            spec_lookup_prop(self@.properties, "calendar-data"@) is None ==> r is None,
    {
        let mut this = self;
        match this.find_prop_index("calendar-data") {
            Some(i) => {
                let (_, v) = this.properties.remove(i);
                match v {
                    PropertyValue::CalendarData(od) => od,
                    _ => vstd::pervasive::unreached(),
                }
            },
            None => None,
        }
    }
}

} // verus!
