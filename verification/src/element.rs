//! A generic structured element, the shape in which messages arrive and
//! leave: a name, an attribute list, text content, and ordered children.

use crate::text::str_eq;
use vstd::prelude::*;
use vstd::string::{StringExecFns, StrSliceExecFns};

verus! {

/// One node of a structured-element tree.
#[derive(Debug, PartialEq, Eq)]
pub struct Element {
    /// The element's name.
    pub name: String,
    /// The attributes, as key/value pairs in order.
    pub attributes: Vec<(String, String)>,
    /// The text content.
    pub content: String,
    /// The child elements, in order.
    pub children: Vec<Element>,
}

/// The first attribute value for the given key among the attributes with
/// index `i` or higher.
pub open spec fn attr_lookup(attrs: Seq<(String, String)>, key: Seq<char>, i: int) -> Option<
    Seq<char>,
>
    decreases attrs.len() - i,
{
    if i < 0 || i >= attrs.len() {
        None
    } else if attrs[i].0@ == key {
        Some(attrs[i].1@)
    } else {
        attr_lookup(attrs, key, i + 1)
    }
}

/// The first child with the given name among the children with index `i` or
/// higher.
pub open spec fn child_lookup(children: Seq<Element>, name: Seq<char>, i: int) -> Option<Element>
    decreases children.len() - i,
{
    if i < 0 || i >= children.len() {
        None
    } else if children[i].name@ == name {
        Some(children[i])
    } else {
        child_lookup(children, name, i + 1)
    }
}

impl Element {
    /// Creates an element with the given name and nothing else.
    pub fn new(name: &str) -> (r: Element)
        ensures
            r.name@ == name@,
            r.attributes@ == Seq::<(String, String)>::empty(),
            r.content@ == Seq::<char>::empty(),
            r.children@ == Seq::<Element>::empty(),
    {
        Element {
            name: String::from_str(name),
            attributes: Vec::new(),
            content: String::new(),
            children: Vec::new(),
        }
    }

    /// The element with one attribute appended.
    pub fn with_attribute(self, key: &str, value: &str) -> (r: Element)
        ensures
            r.name == self.name,
            r.content == self.content,
            r.children == self.children,
            r.attributes@.len() == self.attributes@.len() + 1,
            r.attributes@.drop_last() == self.attributes@,
            r.attributes@.last().0@ == key@,
            r.attributes@.last().1@ == value@,
    {
        let mut attributes = self.attributes;
        attributes.push((String::from_str(key), String::from_str(value)));
        proof {
            assert(attributes@.drop_last() =~= self.attributes@);
        }
        Element { name: self.name, attributes, content: self.content, children: self.children }
    }

    /// The element with its text content replaced.
    pub fn with_content(self, content: &str) -> (r: Element)
        ensures
            r.name == self.name,
            r.attributes == self.attributes,
            r.children == self.children,
            r.content@ == content@,
    {
        Element {
            name: self.name,
            attributes: self.attributes,
            content: String::from_str(content),
            children: self.children,
        }
    }

    /// The element with one child appended.
    pub fn with_child(self, child: Element) -> (r: Element)
        ensures
            r.name == self.name,
            r.attributes == self.attributes,
            r.content == self.content,
            r.children@ == self.children@.push(child),
    {
        let mut children = self.children;
        children.push(child);
        Element { name: self.name, attributes: self.attributes, content: self.content, children }
    }

    /// Fetches the first attribute value with the given key.
    pub fn attribute(&self, key: &str) -> (r: Option<&String>)
        ensures
            match r {
                Some(v) => attr_lookup(self.attributes@, key@, 0) == Some(v@),
                None => attr_lookup(self.attributes@, key@, 0) is None,
            },
    {
        let mut i: usize = 0;
        let n = self.attributes.len();
        while i < n
            invariant
                i <= n,
                n == self.attributes@.len(),
                attr_lookup(self.attributes@, key@, 0) == attr_lookup(
                    self.attributes@,
                    key@,
                    i as int,
                ),
            decreases n - i,
        {
            if str_eq(self.attributes[i].0.as_str(), key) {
                return Some(&self.attributes[i].1);
            }
            i += 1;
        }
        None
    }

    /// Fetches the first child element with the given name.
    pub fn child_by_name(&self, name: &str) -> (r: Option<&Element>)
        ensures
            match r {
                Some(c) => child_lookup(self.children@, name@, 0) == Some(*c),
                None => child_lookup(self.children@, name@, 0) is None,
            },
    {
        let mut i: usize = 0;
        let n = self.children.len();
        while i < n
            invariant
                i <= n,
                n == self.children@.len(),
                child_lookup(self.children@, name@, 0) == child_lookup(
                    self.children@,
                    name@,
                    i as int,
                ),
            decreases n - i,
        {
            if str_eq(self.children[i].name.as_str(), name) {
                return Some(&self.children[i]);
            }
            i += 1;
        }
        None
    }
}

} // verus!
