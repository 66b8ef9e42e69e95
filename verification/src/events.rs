//! The event model: the structural notifications a tokenizer produces while
//! scanning a markup document, reduced to plain values.
//!
//! Both scrapers consume a sequence of these events; nothing in them refers
//! back to the tokenizer.

use vstd::prelude::*;
use crate::TextPosition;

verus! {

/// A qualified name: local part, optional resolved namespace URI, optional
/// prefix.
#[derive(Debug)]
pub struct QualifiedName {
    pub local_name: String,
    pub namespace: Option<String>,
    pub prefix: Option<String>,
}

/// The mathematical value of a [`QualifiedName`].
#[verifier::ext_equal]
pub ghost struct QNameV {
    pub local_name: Seq<char>,
    pub namespace: Option<Seq<char>>,
    pub prefix: Option<Seq<char>>,
}

/// The mathematical value of an `Option<String>`.
pub open spec fn opt_str_view(s: Option<String>) -> Option<Seq<char>> {
    match s {
        Some(t) => Some(t@),
        None => None,
    }
}

impl View for QualifiedName {
    type V = QNameV;

    open spec fn view(&self) -> QNameV {
        QNameV {
            local_name: self.local_name@,
            namespace: opt_str_view(self.namespace),
            prefix: opt_str_view(self.prefix),
        }
    }
}

/// An attribute of a start element: its qualified name and its raw value.
#[derive(Debug)]
pub struct XmlAttribute {
    pub name: QualifiedName,
    pub value: String,
}

/// The mathematical value of an [`XmlAttribute`].
#[verifier::ext_equal]
pub ghost struct AttributeV {
    pub name: QNameV,
    pub value: Seq<char>,
}

impl View for XmlAttribute {
    type V = AttributeV;

    open spec fn view(&self) -> AttributeV {
        AttributeV { name: self.name@, value: self.value@ }
    }
}

/// One namespace binding in scope at a start element: a prefix bound to a
/// namespace URI.
#[derive(Debug)]
pub struct NamespaceBinding {
    pub prefix: String,
    pub uri: String,
}

/// The mathematical value of a [`NamespaceBinding`].
#[verifier::ext_equal]
pub ghost struct NamespaceBindingV {
    pub prefix: Seq<char>,
    pub uri: Seq<char>,
}

impl View for NamespaceBinding {
    type V = NamespaceBindingV;

    open spec fn view(&self) -> NamespaceBindingV {
        NamespaceBindingV { prefix: self.prefix@, uri: self.uri@ }
    }
}

/// What a structural event carries.  Events the scrapers ignore (document
/// start, processing instructions, whitespace-only text, doctypes) appear as
/// `Other`.
#[derive(Debug)]
pub enum MarkupEventKind {
    StartElement { name: QualifiedName, attributes: Vec<XmlAttribute>, namespaces: Vec<NamespaceBinding> },
    EndElement { name: QualifiedName },
    Characters { text: String },
    CData { text: String },
    Comment { text: String },
    EndDocument,
    Other,
}

/// A structural event together with the position the tokenizer reported for
/// it.
#[derive(Debug)]
pub struct MarkupEvent {
    pub position: TextPosition,
    pub kind: MarkupEventKind,
}

/// Sequence of attribute values.
pub open spec fn attrs_view(attrs: Seq<XmlAttribute>) -> Seq<AttributeV> {
    attrs.map_values(|a: XmlAttribute| a@)
}

/// Sequence of namespace-binding values.
pub open spec fn bindings_view(bs: Seq<NamespaceBinding>) -> Seq<NamespaceBindingV> {
    bs.map_values(|b: NamespaceBinding| b@)
}

/// The mathematical value of a [`MarkupEventKind`].
#[verifier::ext_equal]
pub ghost enum MarkupEventKindV {
    StartElement { name: QNameV, attributes: Seq<AttributeV>, namespaces: Seq<NamespaceBindingV> },
    EndElement { name: QNameV },
    Characters { text: Seq<char> },
    CData { text: Seq<char> },
    Comment { text: Seq<char> },
    EndDocument,
    Other,
}

impl View for MarkupEventKind {
    type V = MarkupEventKindV;

    open spec fn view(&self) -> MarkupEventKindV {
        match self {
            MarkupEventKind::StartElement { name, attributes, namespaces } =>
                MarkupEventKindV::StartElement {
                    name: name@,
                    attributes: attrs_view(attributes@),
                    namespaces: bindings_view(namespaces@),
                },
            MarkupEventKind::EndElement { name } => MarkupEventKindV::EndElement { name: name@ },
            MarkupEventKind::Characters { text } => MarkupEventKindV::Characters { text: text@ },
            MarkupEventKind::CData { text } => MarkupEventKindV::CData { text: text@ },
            MarkupEventKind::Comment { text } => MarkupEventKindV::Comment { text: text@ },
            MarkupEventKind::EndDocument => MarkupEventKindV::EndDocument,
            MarkupEventKind::Other => MarkupEventKindV::Other,
        }
    }
}

/// The mathematical value of a [`MarkupEvent`].
#[verifier::ext_equal]
pub ghost struct MarkupEventV {
    pub position: TextPosition,
    pub kind: MarkupEventKindV,
}

impl View for MarkupEvent {
    type V = MarkupEventV;

    open spec fn view(&self) -> MarkupEventV {
        MarkupEventV { position: self.position, kind: self.kind@ }
    }
}

/// Sequence of event values.
pub open spec fn events_view(events: Seq<MarkupEvent>) -> Seq<MarkupEventV> {
    events.map_values(|e: MarkupEvent| e@)
}

/// The mathematical value of an `Option<QualifiedName>`.
pub open spec fn opt_qname_view(n: Option<QualifiedName>) -> Option<QNameV> {
    match n {
        Some(q) => Some(q@),
        None => None,
    }
}

/// Clones a string option, preserving the value exactly.
pub fn clone_opt_string(s: &Option<String>) -> (r: Option<String>)
    ensures
        r == *s,
{
    match s {
        Some(t) => Some(t.clone()),
        None => None,
    }
}

/// Clones a qualified name, preserving the value exactly.
pub fn clone_qname(n: &QualifiedName) -> (r: QualifiedName)
    ensures
        r == *n,
{
    QualifiedName {
        local_name: n.local_name.clone(),
        namespace: clone_opt_string(&n.namespace),
        prefix: clone_opt_string(&n.prefix),
    }
}

/// Clones an attribute, preserving the value exactly.
pub fn clone_attribute(a: &XmlAttribute) -> (r: XmlAttribute)
    ensures
        r == *a,
{
    XmlAttribute { name: clone_qname(&a.name), value: a.value.clone() }
}

/// Clones a qualified-name option, preserving the value exactly.
pub fn clone_opt_qname(n: &Option<QualifiedName>) -> (r: Option<QualifiedName>)
    ensures
        r == *n,
{
    match n {
        Some(q) => Some(clone_qname(q)),
        None => None,
    }
}

} // verus!
