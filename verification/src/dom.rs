//! The document-query boundary. Fetched pages arrive as parsed `kuchiki`
//! documents; a small set of trusted wrappers exposes selecting, attribute
//! and text reads, and everything above them — the listing classifier, the
//! last-match-wins selection policy, and the page readers that feed the tree
//! walker — is verified.

use crate::records::{Department, DeptView};
use crate::text::{str_eq, trim_blank, trim_spec};
use crate::walker::{ChildLink, PageData};
use kuchiki::traits::TendrilSink;
use vstd::prelude::*;

verus! {

#[verifier::external_type_specification]
#[verifier::external_body]
pub struct ExNodeRef(kuchiki::NodeRef);

/// Relies on kuchiki::parse_html and TendrilSink::one: parses an HTML string
/// into a document tree.
#[verifier::external_body]
pub(crate) fn parse_document(html: &str) -> (doc: kuchiki::NodeRef) {
    kuchiki::parse_html().one(html.to_string())
}

/// Relies on kuchiki's NodeRef::select: the descendant elements matching a
/// CSS selector group, in document order; Err on a selector the engine
/// rejects, which callers treat as no match or a logged failure.
#[verifier::external_body]
fn select_nodes(root: &kuchiki::NodeRef, selector: &str) -> (r: Option<Vec<kuchiki::NodeRef>>) {
    match root.select(selector) {
        Ok(matches) => Some(matches.map(|m| m.as_node().clone()).collect()),
        Err(()) => None,
    }
}

/// Relies on kuchiki's NodeRef::as_element and Attributes::get: the value of
/// one attribute of an element node, None on a non-element or a missing
/// attribute.
#[verifier::external_body]
fn element_attr(node: &kuchiki::NodeRef, name: &str) -> (r: Option<String>) {
    match node.as_element() {
        Some(data) => data.attributes.borrow().get(name).map(|v| v.to_string()),
        None => None,
    }
}

/// Relies on kuchiki's NodeRef::first_child.
#[verifier::external_body]
fn node_first_child(node: &kuchiki::NodeRef) -> (r: Option<kuchiki::NodeRef>) {
    node.first_child()
}

/// Relies on kuchiki's NodeRef::parent.
#[verifier::external_body]
fn node_parent(node: &kuchiki::NodeRef) -> (r: Option<kuchiki::NodeRef>) {
    node.parent()
}

/// Relies on kuchiki's NodeRef::as_text: the contents of a text node.
#[verifier::external_body]
fn text_value(node: &kuchiki::NodeRef) -> (r: Option<String>) {
    match node.as_text() {
        Some(cell) => Some(cell.borrow().clone()),
        None => None,
    }
}

/// The text of the last element matching `selector` under `root`, trimmed of
/// blanks. When several elements match, the last match in document order is
/// authoritative. None when nothing matches, when the match holds no leading
/// text node, or when the query fails.
pub fn select_last_text(root: &kuchiki::NodeRef, selector: &str) -> Option<String> {
    match select_nodes(root, selector) {
        Some(nodes) => {
            if nodes.len() == 0 {
                None
            } else {
                match node_first_child(&nodes[nodes.len() - 1]) {
                    Some(t) => match text_value(&t) {
                        Some(s) => Some(trim_blank(s.as_str())),
                        None => None,
                    },
                    None => None,
                }
            }
        },
        None => None,
    }
}

/// The value of attribute `name` on the last element matching `selector`
/// under `root`; the last match in document order is authoritative. None
/// when nothing matches or the query fails.
pub fn select_last_attr(root: &kuchiki::NodeRef, selector: &str, name: &str) -> Option<String> {
    match select_nodes(root, selector) {
        Some(nodes) => {
            if nodes.len() == 0 {
                None
            } else {
                element_attr(&nodes[nodes.len() - 1], name)
            }
        },
        None => None,
    }
}

/// The classifier: a page is a product listing iff at least one block
/// matches either listing shape — the structured product list or the legacy
/// product marker. A failed query classifies as a department page
/// (fail-closed), so ambiguous pages descend rather than mis-collect.
pub fn is_product_listing(doc: &kuchiki::NodeRef) -> bool {
    match select_nodes(doc, "#productLists .productDetails, .seoProduct") {
        Some(nodes) => nodes.len() > 0,
        None => false,
    }
}

/// Reads what one fetched page shows, for the tree walker: classification,
/// then either the product anchor hrefs of a listing page or the child
/// department links of an inner page, each child's label resolved relative
/// to the parent element of its matched link.
pub fn read_page(doc: &kuchiki::NodeRef) -> PageData {
    if is_product_listing(doc) {
        match select_nodes(doc, "#productLists .productDetails a, .seoProduct") {
            Some(nodes) => {
                let mut anchors: Vec<Option<String>> = Vec::new();
                let mut i: usize = 0;
                while i < nodes.len()
                    invariant
                        i <= nodes@.len(),
                    decreases nodes@.len() - i,
                {
                    anchors.push(element_attr(&nodes[i], "href"));
                    i = i + 1;
                }
                PageData::Listing { anchors: Some(anchors) }
            },
            None => PageData::Listing { anchors: None },
        }
    } else {
        match select_nodes(doc, ".visualNavContainer a") {
            Some(nodes) => {
                let mut children: Vec<ChildLink> = Vec::new();
                let mut i: usize = 0;
                while i < nodes.len()
                    invariant
                        i <= nodes@.len(),
                    decreases nodes@.len() - i,
                {
                    let href = element_attr(&nodes[i], "href");
                    let name = match node_parent(&nodes[i]) {
                        Some(container) => select_last_text(
                            &container,
                            ".categoryContainer a:first-child",
                        ),
                        None => None,
                    };
                    children.push(ChildLink { href, name });
                    i = i + 1;
                }
                PageData::Inner { children: Some(children) }
            },
            None => PageData::Inner { children: None },
        }
    }
}

/// Parses a fetched body and reads what the page shows, for the tree
/// walker.
pub fn read_page_html(html: &str) -> PageData {
    let doc = parse_document(html);
    read_page(&doc)
}

/// The value of an optional string.
pub open spec fn opt_view(o: Option<String>) -> Option<Seq<char>> {
    match o {
        Some(s) => Some(s@),
        None => None,
    }
}

/// The value of an optional department.
pub open spec fn opt_dept_view(o: Option<Department>) -> Option<DeptView> {
    match o {
        Some(d) => Some(d@),
        None => None,
    }
}

/// The root-level department an anchor yields: nothing without an href, for
/// the non-navigable placeholder `"#"`, or without a label; otherwise the
/// trimmed label and the href.
pub open spec fn department_from_anchor_spec(
    href: Option<Seq<char>>,
    label: Option<Seq<char>>,
) -> Option<DeptView> {
    match href {
        Some(h) => if h == "#"@ {
            None
        } else {
            match label {
                Some(l) => Some(DeptView { name: trim_spec(l), url: h }),
                None => None,
            }
        },
        None => None,
    }
}

/// Turns one root-page anchor into a department entry, or nothing when the
/// anchor is non-navigable or its label cannot be resolved.
pub fn department_from_anchor(href: Option<String>, label: Option<String>) -> (r: Option<
    Department,
>)
    ensures
        opt_dept_view(r) == department_from_anchor_spec(opt_view(href), opt_view(label)),
{
    match href {
        Some(h) => {
            if str_eq(h.as_str(), "#") {
                None
            } else {
                match label {
                    Some(l) => Some(Department { name: trim_blank(l.as_str()), url: h }),
                    None => None,
                }
            }
        },
        None => None,
    }
}

/// Reads the root departments from the configured market's entry page: one
/// department per navigable anchor whose label resolves, in document order.
/// None when the query fails, which abandons the pass.
pub fn read_departments(doc: &kuchiki::NodeRef) -> Option<Vec<Department>> {
    match select_nodes(doc, ".departmentLinkBlock a") {
        Some(nodes) => {
            let mut departments: Vec<Department> = Vec::new();
            let mut i: usize = 0;
            while i < nodes.len()
                invariant
                    i <= nodes@.len(),
                decreases nodes@.len() - i,
            {
                let href = element_attr(&nodes[i], "href");
                let label = match node_first_child(&nodes[i]) {
                    Some(t) => text_value(&t),
                    None => None,
                };
                match department_from_anchor(href, label) {
                    Some(d) => departments.push(d),
                    None => {},
                }
                i = i + 1;
            }
            Some(departments)
        },
        None => None,
    }
}

/// Parses the market entry page's body and reads the root departments.
pub fn read_departments_html(html: &str) -> Option<Vec<Department>> {
    let doc = parse_document(html);
    read_departments(&doc)
}

} // verus!
