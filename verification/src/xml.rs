//! A protocol description document as a plain tree of elements.  The XML
//! itself is read by an outside parser behind a small trusted boundary;
//! everything that interprets the tree is verified against this plain
//! representation.

use vstd::prelude::*;

verus! {

use crate::strutil::str_eq;

/// One XML element, reduced to plain values: its tag name, its attributes
/// in document order, the text of its first child when that child is a
/// text node, and its element children in document order.
pub struct XmlNode {
    pub tag: String,
    pub attrs: Vec<(String, String)>,
    pub text: Option<String>,
    pub children: Vec<XmlNode>,
}

/// The ghost mirror of one element: plain sequences for the tag, the
/// attributes, the text and the children, in the same style as the module
/// mirrors of the syntax tree.
pub struct SpecXml {
    pub tag: Seq<char>,
    pub attrs: Seq<(Seq<char>, Seq<char>)>,
    pub text: Option<Seq<char>>,
    pub children: Seq<SpecXml>,
}

pub open spec fn xml_view(n: XmlNode) -> SpecXml
    decreases n, 1int,
    via xml_view_dec
{
    SpecXml {
        tag: n.tag@,
        attrs: Seq::new(n.attrs@.len(), |i: int| (n.attrs@[i].0@, n.attrs@[i].1@)),
        text: match n.text {
            Some(t) => Some(t@),
            None => None,
        },
        children: xml_views(n.children@),
    }
}

/// The mirrors of a run of elements, in order.
pub open spec fn xml_views(s: Seq<XmlNode>) -> Seq<SpecXml>
    decreases s, 0int,
{
    if s.len() == 0 {
        Seq::empty()
    } else {
        xml_views(s.subrange(0, s.len() - 1)).push(xml_view(s[s.len() - 1]))
    }
}

#[via_fn]
proof fn xml_view_dec(n: XmlNode) {
    assert(decreases_to!(n => n.children));
    assert(decreases_to!(n.children => n.children@));
    assert(decreases_to!(n => n.children@));
}

impl DeepView for XmlNode {
    type V = SpecXml;

    open spec fn deep_view(&self) -> SpecXml {
        xml_view(*self)
    }
}

#[verifier::external_type_specification]
#[verifier::external_body]
pub struct ExNode<'a, 'input: 'a>(roxmltree::Node<'a, 'input>);

/// Relies on roxmltree::Node: `tag_name().name()` is the element's local
/// tag name, `attributes()` its attributes in document order,
/// `text()` the text of its first child when that child is a text node,
/// and `children()` its child nodes, filtered here to elements.
#[verifier::external_body]
fn node_to_tree(n: roxmltree::Node) -> XmlNode {
    XmlNode {
        tag: n.tag_name().name().to_string(),
        attrs: n.attributes().map(|a| (a.name().to_string(), a.value().to_string())).collect(),
        text: n.text().map(|t| t.to_string()),
        children: n.children().filter(|c| c.is_element()).map(node_to_tree).collect(),
    }
}

/// Relies on roxmltree::Document::parse: reads an XML document and hands
/// its root element over as a plain tree; a malformed document yields the
/// parser's message.  Nothing is assumed of the result: every consumer is
/// verified for each possible tree.
/// The element tree that parsing a given text yields, if any.  XML
/// parsing is a function of the text alone, so the outside parser's
/// result bears this name; the trusted boundary below states no more of
/// it than which tree each run hands over.
pub uninterp spec fn xml_tree_of(s: Seq<char>) -> Option<SpecXml>;

/// Relies on roxmltree::Document::parse: reads an XML document and hands
/// its root element over as a plain tree; a malformed document yields the
/// parser's message.  The parse depends on the text alone, so the result
/// is named `xml_tree_of`; nothing further is assumed of it — every
/// consumer is verified for each possible tree.
#[verifier::external_body]
pub fn parse_document(text: &str) -> (r: Result<XmlNode, String>)
    ensures
        match r {
            Ok(n) => xml_tree_of(text@) == Some(n.deep_view()),
            Err(_) => xml_tree_of(text@) is None,
        },
{
    match roxmltree::Document::parse(text) {
        Ok(doc) => Ok(node_to_tree(doc.root_element())),
        Err(e) => Err(e.to_string()),
    }
}

/// The element mirrors line up with the elements, one to one.
pub proof fn lemma_xml_views(s: Seq<XmlNode>)
    ensures
        xml_views(s).len() == s.len(),
        forall|i: int| 0 <= i < s.len() ==> xml_views(s)[i] == xml_view(#[trigger] s[i]),
    decreases s.len(),
{
    if s.len() > 0 {
        lemma_xml_views(s.subrange(0, s.len() - 1));
        assert(forall|i: int|
            0 <= i < s.len() - 1 ==> s.subrange(0, s.len() - 1)[i] == s[i]);
    }
}

/// The value of the first attribute with the given name.
pub open spec fn spec_attr(n: SpecXml, name: Seq<char>) -> Option<Seq<char>> {
    crate::ast::spec_assoc(n.attrs, name)
}

/// The value of an attribute, by name; the first occurrence counts.
pub fn get_attr<'a>(n: &'a XmlNode, name: &str) -> (r: Option<&'a String>)
    ensures
        match r {
            Some(s) => spec_attr(n.deep_view(), name@) == Some(s@),
            None => spec_attr(n.deep_view(), name@) is None,
        },
{
    let ghost av = n.deep_view().attrs;
    let mut i: usize = 0;
    while i < n.attrs.len()
        invariant
            i <= n.attrs.len(),
            av == n.deep_view().attrs,
            av.len() == n.attrs.len(),
            forall|k: int| 0 <= k < i ==> (#[trigger] av[k]).0 != name@,
        decreases n.attrs.len() - i,
    {
        proof {
            assert(av[i as int] == (n.attrs@[i as int].0@, n.attrs@[i as int].1@));
        }
        if str_eq(n.attrs[i].0.as_str(), name) {
            proof {
                crate::ast::lemma_spec_assoc_skip(av, name@, i as int);
                assert(av.skip(i as int)[0] == av[i as int]);
            }
            return Some(&n.attrs[i].1);
        }
        i = i + 1;
    }
    proof {
        crate::ast::lemma_spec_assoc_skip(av, name@, n.attrs.len() as int);
        assert(av.skip(n.attrs.len() as int) =~= Seq::<(Seq<char>, Seq<char>)>::empty());
    }
    None
}

} // verus!
