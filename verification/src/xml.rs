//! The structured-document tree that multistatus responses are read
//! from.
//!
//! The tree type is the library's own; the outside XML parser fills it
//! through a trusted boundary.  Each element carries what the protocol
//! reads: the local tag name, the `name` attribute, the concatenated
//! text content, and the element children in document order.
use vstd::prelude::*;
use crate::error::{Error, ErrorKind};
use crate::strutil::str_eq;

verus! {

/// One element of a structured document: local name, the `name`
/// attribute where present, concatenated text content (empty where the
/// element holds none), and the element children in document order.
#[derive(Debug)]
pub struct XmlElement {
    pub name: String,
    pub name_attr: Option<String>,
    pub text: String,
    pub children: Vec<XmlElement>,
}

/// The first child element carrying the given name, scanning in
/// document order.
pub open spec fn spec_first_child(cs: Seq<XmlElement>, name: Seq<char>) -> Option<XmlElement>
    decreases cs.len(),
{
    if cs.len() == 0 {
        None
    } else if cs[0].name@ == name {
        Some(cs[0])
    } else {
        spec_first_child(cs.drop_first(), name)
    }
}

/// Relates the index-wise characterization of a first matching child to
/// the recursive lookup.
pub proof fn lemma_first_child_by_index(cs: Seq<XmlElement>, name: Seq<char>)
    ensures
        forall|i: int|
            0 <= i < cs.len() && (#[trigger] cs[i]).name@ == name && (forall|j: int|
                0 <= j < i ==> (#[trigger] cs[j]).name@ != name) ==> spec_first_child(cs, name)
                == Some(cs[i]),
        (forall|j: int| 0 <= j < cs.len() ==> (#[trigger] cs[j]).name@ != name)
            ==> spec_first_child(cs, name) is None,
    decreases cs.len(),
{
    if cs.len() == 0 {
    } else {
        lemma_first_child_by_index(cs.drop_first(), name);
        assert forall|i: int|
            0 <= i < cs.len() && (#[trigger] cs[i]).name@ == name && (forall|j: int|
                0 <= j < i ==> (#[trigger] cs[j]).name@ != name) implies spec_first_child(cs, name)
            == Some(cs[i]) by {
            if i == 0 {
            } else {
                assert(cs[0].name@ != name);
                assert(cs.drop_first()[i - 1] == cs[i]);
                assert(forall|j: int|
                    0 <= j < i - 1 ==> (#[trigger] cs.drop_first()[j]).name@ != name);
            }
        }
        if forall|j: int| 0 <= j < cs.len() ==> (#[trigger] cs[j]).name@ != name {
            assert(cs[0].name@ != name);
            assert(forall|j: int|
                0 <= j < cs.drop_first().len() ==> (#[trigger] cs.drop_first()[j]).name@ != name);
        }
    }
}

impl XmlElement {
    /// The first child element named `name`, if any.
    pub fn get_child(&self, name: &str) -> (r: Option<&XmlElement>)
        ensures
            r matches Some(c) ==> spec_first_child(self.children@, name@) == Some(*c),
            r is None ==> spec_first_child(self.children@, name@) is None,
    {
        proof {
            lemma_first_child_by_index(self.children@, name@);
        }
        let n = self.children.len();
        let mut i: usize = 0;
        while i < n
            invariant
                i <= n,
                n == self.children@.len(),
                forall|j: int| 0 <= j < i ==> (#[trigger] self.children@[j]).name@ != name@,
            decreases n - i,
        {
            if str_eq(self.children[i].name.as_str(), name) {
                proof {
                    lemma_first_child_by_index(self.children@, name@);
                }
                return Some(&self.children[i]);
            }
            i = i + 1;
        }
        None
    }
}

/// The text with every double quote removed, as change tokens and
/// status lines are read.
pub open spec fn spec_strip_quotes(s: Seq<char>) -> Seq<char>
    decreases s.len(),
{
    if s.len() == 0 {
        Seq::empty()
    } else if s[0] == '"' {
        spec_strip_quotes(s.drop_first())
    } else {
        seq![s[0]] + spec_strip_quotes(s.drop_first())
    }
}

/// Stripping quotes of one more character appends it unless it is a
/// quote.
proof fn lemma_strip_quotes_snoc(ps: Seq<char>, c: char)
    ensures
        spec_strip_quotes(ps.push(c)) == spec_strip_quotes(ps) + (if c == '"' {
            Seq::<char>::empty()
        } else {
            seq![c]
        }),
    decreases ps.len(),
{
    let tail = if c == '"' {
        Seq::<char>::empty()
    } else {
        seq![c]
    };
    if ps.len() == 0 {
        assert(ps.push(c)[0] == c);
        assert(ps.push(c).drop_first() =~= Seq::<char>::empty());
        assert(spec_strip_quotes(Seq::<char>::empty()) == Seq::<char>::empty());
        assert(spec_strip_quotes(ps.push(c)) =~= spec_strip_quotes(ps) + tail);
    } else {
        assert(ps.push(c)[0] == ps[0]);
        assert(ps.push(c).drop_first() =~= ps.drop_first().push(c));
        lemma_strip_quotes_snoc(ps.drop_first(), c);
        assert(spec_strip_quotes(ps.push(c)) =~= spec_strip_quotes(ps) + tail);
    }
}

/// Removes every double quote of `s`.
pub fn strip_quotes(s: &str) -> (r: String)
    ensures
        r@ == spec_strip_quotes(s@),
{
    let n = s.unicode_len();
    let mut out = String::new();
    let mut i: usize = 0;
    proof {
        assert(s@.take(0) =~= Seq::<char>::empty());
    }
    while i < n
        invariant
            i <= n,
            n == s@.len(),
            out@ == spec_strip_quotes(s@.take(i as int)),
        decreases n - i,
    {
        let c = s.get_char(i);
        if c != '"' {
            out.append(s.substring_char(i, i + 1));
            proof {
                assert(s@.subrange(i as int, i as int + 1) =~= seq![s@[i as int]]);
            }
        }
        i = i + 1;
        proof {
            lemma_strip_quotes_snoc(s@.take(i - 1), s@[i - 1]);
            assert(s@.take(i as int) =~= s@.take(i - 1).push(s@[i - 1]));
        }
    }
    proof {
        assert(s@.take(n as int) =~= s@);
    }
    out
}

/// The element's text with quotes removed, as status lines, change
/// tokens and hrefs are extracted.
pub fn element_text(e: &XmlElement) -> (r: String)
    ensures
        r@ == spec_strip_quotes(e.text@),
{
    strip_quotes(e.text.as_str())
}

/// The element addressed by walking `path`: at each step the first
/// child named by the path component.
pub open spec fn spec_apply_path(e: XmlElement, path: Seq<Seq<char>>) -> Option<XmlElement>
    decreases path.len(),
{
    if path.len() == 0 {
        Some(e)
    } else {
        match spec_first_child(e.children@, path[0]) {
            Some(c) => spec_apply_path(c, path.drop_first()),
            None => None,
        }
    }
}

/// Walks `path` down the tree, first matching child at every step, and
/// returns the text of the element it ends at.  Fails with a protocol
/// error where a step has no matching child or the final element holds
/// no text.
pub fn apply_xml_path(xml: &XmlElement, path: &Vec<&str>) -> (r: Result<String, Error>)
    ensures
        ({
            let pv = path@.map_values(|p: &str| p@);
            match spec_apply_path(*xml, pv) {
                Some(el) => (el.text@.len() > 0 ==> (r matches Ok(t) && t@ == el.text@)) && (
                el.text@.len() == 0 ==> (r matches Err(e) && e.spec_kind() == ErrorKind::Protocol)),
                None => r matches Err(e) && e.spec_kind() == ErrorKind::Protocol,
            }
        }),
{
    let ghost pv = path@.map_values(|p: &str| p@);
    let n = path.len();
    let mut cur: &XmlElement = xml;
    let mut i: usize = 0;
    proof {
        assert(pv.skip(0) =~= pv);
    }
    while i < n
        invariant
            i <= n,
            n == path@.len(),
            pv == path@.map_values(|p: &str| p@),
            spec_apply_path(*xml, pv) == spec_apply_path(*cur, pv.skip(i as int)),
        decreases n - i,
    {
        let ghost rem = pv.skip(i as int);
        proof {
            assert(rem[0] == pv[i as int]);
            assert(rem.drop_first() =~= pv.skip(i as int + 1));
        }
        match cur.get_child(path[i]) {
            Some(c) => {
                cur = c;
            },
            None => {
                let mut m = String::new();
                m.append("unable to apply path: no element named ");
                m.append(path[i]);
                return Err(Error::Protocol(m));
            },
        }
        i = i + 1;
    }
    proof {
        assert(pv.skip(n as int) =~= Seq::<Seq<char>>::empty());
    }
    if cur.text.as_str().unicode_len() > 0 {
        let mut out = String::new();
        out.append(cur.text.as_str());
        Ok(out)
    } else {
        Err(Error::Protocol(crate::strutil::str_to_string("unable to apply path: element holds no text")))
    }
}

/// The element tree that the outside XML parser reads off a document,
/// reduced to what the protocol consumes, or `None` for a document it
/// rejects.
pub uninterp spec fn spec_xml_tree(s: Seq<char>) -> Option<XmlElement>;

/// Relies on xmltree::Element::parse: it builds the element tree of an
/// XML document, or fails on malformed input; the result depends on the
/// document text alone.  The tree is reduced by `convert_element`.
#[verifier::external_body]
pub(crate) fn parse_xml_text(s: &str) -> (r: Option<XmlElement>)
    ensures
        r == spec_xml_tree(s@),
{
    match xmltree::Element::parse(s.as_bytes()) {
        Ok(e) => Some(convert_element(&e)),
        Err(_) => None,
    }
}

/// Carries one parsed element into the library's tree, one for one:
/// the local name, the `name` attribute, the concatenated text content
/// (relies on xmltree::Element::get_text), and the element children in
/// document order.
#[verifier::external_body]
fn convert_element(e: &xmltree::Element) -> XmlElement {
    let children = e.children.iter().filter_map(|c| match c {
        xmltree::XMLNode::Element(el) => Some(convert_element(el)),
        _ => None,
    }).collect();
    XmlElement {
        name: e.name.clone(),
        name_attr: e.attributes.get("name").cloned(),
        text: e.get_text().map(|t| t.to_string()).unwrap_or(String::new()),
        children,
    }
}

/// The outside element type, declared so that the conversion above can
/// take it.
#[verifier::external_type_specification]
#[verifier::external_body]
pub struct ExXmlTreeElement(xmltree::Element);

} // verus!
