//! The generic link scraper: walks the whole event stream once and collects
//! every URL-shaped reference, classified by the syntactic context in which
//! it occurred.
//!
//! Namespace declarations are de-duplicated by (prefix, URI) pair and
//! reported once, at the position of their first declaration, after the
//! stream has ended; the reserved `xml` and `xmlns` bindings, which the
//! tokenizer places in scope of every element, are not reported.

pub mod svg;
pub mod xlink;

use vstd::prelude::*;
use crate::TextPosition;
use crate::events::{
    AttributeV, MarkupEvent, MarkupEventKind, MarkupEventKindV, MarkupEventV, NamespaceBinding,
    NamespaceBindingV, QNameV, QualifiedName, XmlAttribute, attrs_view, bindings_view,
    clone_attribute, clone_opt_qname, clone_qname, events_view, opt_qname_view,
};
use crate::helpers::{find_urls, found_urls, str_is};
use crate::tokenizer::{collect_events, tokenizer_outcome};

verus! {

/// Why a scrape failed: the byte source could not be read, or the tokenizer
/// rejected the document.  Either way the message of the underlying failure
/// is carried along.
#[derive(Debug)]
pub enum XmlScrapingError {
    IoError(String),
    XmlReaderError(String),
}

/// Which element encloses a text or CDATA link; absent at document root.
#[derive(Debug)]
pub struct ParentInformation {
    pub parent_tag_name: Option<QualifiedName>,
}

/// The mathematical value of a [`ParentInformation`].
#[verifier::ext_equal]
pub ghost struct ParentInformationV {
    pub parent_tag_name: Option<QNameV>,
}

impl View for ParentInformation {
    type V = ParentInformationV;

    open spec fn view(&self) -> ParentInformationV {
        ParentInformationV { parent_tag_name: opt_qname_view(self.parent_tag_name) }
    }
}

/// The syntactic context a link was found in.
#[derive(Debug)]
pub enum XmlLinkKind {
    /// Inside an attribute value; carries the whole attribute.
    Attribute(XmlAttribute),
    /// Inside a comment.
    Comment,
    /// Inside character data, under the named parent element.
    PlainText(ParentInformation),
    /// Inside a CDATA block, under the named parent element.
    CData(ParentInformation),
    /// A namespace declaration whose URI is URL-shaped; carries the prefix.
    NameSpace(String),
}

/// The mathematical value of an [`XmlLinkKind`].
#[verifier::ext_equal]
pub ghost enum XmlLinkKindV {
    Attribute(AttributeV),
    Comment,
    PlainText(ParentInformationV),
    CData(ParentInformationV),
    NameSpace(Seq<char>),
}

impl View for XmlLinkKind {
    type V = XmlLinkKindV;

    open spec fn view(&self) -> XmlLinkKindV {
        match self {
            XmlLinkKind::Attribute(a) => XmlLinkKindV::Attribute(a@),
            XmlLinkKind::Comment => XmlLinkKindV::Comment,
            XmlLinkKind::PlainText(p) => XmlLinkKindV::PlainText(p@),
            XmlLinkKind::CData(p) => XmlLinkKindV::CData(p@),
            XmlLinkKind::NameSpace(s) => XmlLinkKindV::NameSpace(s@),
        }
    }
}

/// A discovered reference: the matched URL text, the position of the event
/// it was found at, and its context.
#[derive(Debug)]
pub struct XmlLink {
    pub url: String,
    pub location: TextPosition,
    pub kind: XmlLinkKind,
}

/// The mathematical value of an [`XmlLink`].
#[verifier::ext_equal]
pub ghost struct XmlLinkV {
    pub url: Seq<char>,
    pub location: TextPosition,
    pub kind: XmlLinkKindV,
}

impl View for XmlLink {
    type V = XmlLinkV;

    open spec fn view(&self) -> XmlLinkV {
        XmlLinkV { url: self.url@, location: self.location, kind: self.kind@ }
    }
}

/// Sequence of link values.
pub open spec fn links_view(s: Seq<XmlLink>) -> Seq<XmlLinkV> {
    s.map_values(|l: XmlLink| l@)
}

/// A start element handed to a classifier: its name, attributes and the
/// namespace bindings in scope.
#[derive(Debug)]
pub struct XmlStartElement {
    pub name: QualifiedName,
    pub attributes: Vec<XmlAttribute>,
    pub namespace: Vec<NamespaceBinding>,
}

/// One namespace declaration first seen at some position.  Two occurrences
/// count as the same when prefix and URI both match, wherever each was
/// declared.
pub struct NamespaceOccurrence {
    pub namespace: String,
    pub namespace_uri: String,
    pub first_occurrence: TextPosition,
}

/// The mathematical value of a `NamespaceOccurrence`.
#[verifier::ext_equal]
pub ghost struct NamespaceOccurrenceV {
    pub namespace: Seq<char>,
    pub namespace_uri: Seq<char>,
    pub first_occurrence: TextPosition,
}

impl View for NamespaceOccurrence {
    type V = NamespaceOccurrenceV;

    open spec fn view(&self) -> NamespaceOccurrenceV {
        NamespaceOccurrenceV {
            namespace: self.namespace@,
            namespace_uri: self.namespace_uri@,
            first_occurrence: self.first_occurrence,
        }
    }
}

/// Sequence of namespace-occurrence values.
pub open spec fn occurrences_view(s: Seq<NamespaceOccurrence>) -> Seq<NamespaceOccurrenceV> {
    s.map_values(|o: NamespaceOccurrence| o@)
}

// ------------------------------------------------------------------
// Specification of the scrape
// ------------------------------------------------------------------

/// The links emitted for the first `n` matches the URL matcher finds in a
/// text, all sharing one position and context.
pub open spec fn url_links_upto(
    ms: Seq<(Seq<char>, int)>,
    n: int,
    pos: TextPosition,
    kind: XmlLinkKindV,
) -> Seq<XmlLinkV>
    decreases n,
{
    if n <= 0 {
        Seq::empty()
    } else {
        url_links_upto(ms, n - 1, pos, kind).push(
            XmlLinkV { url: ms[n - 1].0, location: pos, kind: kind },
        )
    }
}

/// One link per URL-shaped substring of the text, in match order.
pub open spec fn url_links(text: Seq<char>, pos: TextPosition, kind: XmlLinkKindV) -> Seq<XmlLinkV> {
    url_links_upto(found_urls(text), found_urls(text).len() as int, pos, kind)
}

/// The attribute links of the first `n` attributes of a start element.
pub open spec fn attrs_links_upto(attrs: Seq<AttributeV>, n: int, pos: TextPosition) -> Seq<XmlLinkV>
    decreases n,
{
    if n <= 0 {
        Seq::empty()
    } else {
        attrs_links_upto(attrs, n - 1, pos)
            + url_links(attrs[n - 1].value, pos, XmlLinkKindV::Attribute(attrs[n - 1]))
    }
}

/// The attribute links of a start element, in attribute order.
pub open spec fn attrs_links(attrs: Seq<AttributeV>, pos: TextPosition) -> Seq<XmlLinkV> {
    attrs_links_upto(attrs, attrs.len() as int, pos)
}

/// The `xml` and `xmlns` prefixes are implicitly in scope of every element,
/// so their bindings are never recorded.  As a consequence a document that
/// explicitly declares one of them (`xmlns:xml="…"`) gets no namespace
/// link for it either: the event stream cannot tell such a declaration
/// from the injected binding.
pub open spec fn is_reserved_prefix(prefix: Seq<char>) -> bool {
    prefix == "xml"@ || prefix == "xmlns"@
}

/// Whether a (prefix, URI) pair is already registered.
pub open spec fn occurrences_contain(
    occs: Seq<NamespaceOccurrenceV>,
    prefix: Seq<char>,
    uri: Seq<char>,
) -> bool {
    exists|i: int|
        0 <= i < occs.len() && (#[trigger] occs[i]).namespace == prefix && occs[i].namespace_uri
            == uri
}

/// Registers one binding: a new, unreserved (prefix, URI) pair is appended
/// with the current position; anything else leaves the registry unchanged.
pub open spec fn register_binding(
    occs: Seq<NamespaceOccurrenceV>,
    b: NamespaceBindingV,
    pos: TextPosition,
) -> Seq<NamespaceOccurrenceV> {
    if is_reserved_prefix(b.prefix) || occurrences_contain(occs, b.prefix, b.uri) {
        occs
    } else {
        occs.push(
            NamespaceOccurrenceV {
                namespace: b.prefix,
                namespace_uri: b.uri,
                first_occurrence: pos,
            },
        )
    }
}

/// Registers the first `n` bindings of a start element, in order.
pub open spec fn register_bindings_upto(
    occs: Seq<NamespaceOccurrenceV>,
    bs: Seq<NamespaceBindingV>,
    pos: TextPosition,
    n: int,
) -> Seq<NamespaceOccurrenceV>
    decreases n,
{
    if n <= 0 {
        occs
    } else {
        register_binding(register_bindings_upto(occs, bs, pos, n - 1), bs[n - 1], pos)
    }
}

/// Registers all bindings of a start element.
pub open spec fn register_bindings(
    occs: Seq<NamespaceOccurrenceV>,
    bs: Seq<NamespaceBindingV>,
    pos: TextPosition,
) -> Seq<NamespaceOccurrenceV> {
    register_bindings_upto(occs, bs, pos, bs.len() as int)
}

/// The scraper's running state: whether the end-of-document sentinel has
/// been seen, the current enclosing element, the namespace registry, and
/// the links collected so far.
#[verifier::ext_equal]
pub ghost struct ScrapeState {
    pub done: bool,
    pub current_parent: Option<QNameV>,
    pub namespaces: Seq<NamespaceOccurrenceV>,
    pub links: Seq<XmlLinkV>,
}

/// The state before any event.
pub open spec fn scrape_init() -> ScrapeState {
    ScrapeState {
        done: false,
        current_parent: None,
        namespaces: Seq::empty(),
        links: Seq::empty(),
    }
}

/// How one event advances the scraper.  After the end-of-document sentinel
/// every event is ignored.
pub open spec fn scrape_step(s: ScrapeState, ev: MarkupEventV) -> ScrapeState {
    if s.done {
        s
    } else {
        match ev.kind {
            MarkupEventKindV::StartElement { name, attributes, namespaces } => ScrapeState {
                done: false,
                current_parent: Some(name),
                namespaces: register_bindings(s.namespaces, namespaces, ev.position),
                links: s.links + attrs_links(attributes, ev.position),
            },
            MarkupEventKindV::Comment { text } => ScrapeState {
                links: s.links + url_links(text, ev.position, XmlLinkKindV::Comment),
                ..s
            },
            MarkupEventKindV::Characters { text } => ScrapeState {
                links: s.links + url_links(
                    text,
                    ev.position,
                    XmlLinkKindV::PlainText(ParentInformationV { parent_tag_name: s.current_parent }),
                ),
                ..s
            },
            MarkupEventKindV::CData { text } => ScrapeState {
                links: s.links + url_links(
                    text,
                    ev.position,
                    XmlLinkKindV::CData(ParentInformationV { parent_tag_name: s.current_parent }),
                ),
                ..s
            },
            MarkupEventKindV::EndDocument => ScrapeState { done: true, ..s },
            _ => s,
        }
    }
}

/// The state after the first `n` events.
pub open spec fn scrape_state_at(events: Seq<MarkupEventV>, n: int) -> ScrapeState
    decreases n,
{
    if n <= 0 {
        scrape_init()
    } else {
        scrape_step(scrape_state_at(events, n - 1), events[n - 1])
    }
}

/// The namespace links flushed for the first `n` registered occurrences:
/// one link per occurrence whose URI is URL-shaped, carrying the whole URI
/// at the position of first declaration.
pub open spec fn namespace_links_upto(occs: Seq<NamespaceOccurrenceV>, n: int) -> Seq<XmlLinkV>
    decreases n,
{
    if n <= 0 {
        Seq::empty()
    } else {
        namespace_links_upto(occs, n - 1) + (if found_urls(occs[n - 1].namespace_uri).len() > 0 {
            seq![
                XmlLinkV {
                    url: occs[n - 1].namespace_uri,
                    location: occs[n - 1].first_occurrence,
                    kind: XmlLinkKindV::NameSpace(occs[n - 1].namespace),
                },
            ]
        } else {
            Seq::empty()
        })
    }
}

/// Everything the generic scraper emits for an event sequence: the links of
/// the traversal, then the de-duplicated namespace links.
pub open spec fn spec_scrape(events: Seq<MarkupEventV>) -> Seq<XmlLinkV> {
    let s = scrape_state_at(events, events.len() as int);
    s.links + namespace_links_upto(s.namespaces, s.namespaces.len() as int)
}

// ------------------------------------------------------------------
// Small view lemmas
// ------------------------------------------------------------------

/// Pushing a link commutes with taking views.
pub proof fn lemma_links_view_push(s: Seq<XmlLink>, x: XmlLink)
    ensures
        links_view(s.push(x)) == links_view(s).push(x@),
{
    assert(links_view(s.push(x)) =~= links_view(s).push(x@));
}

/// Pushing an occurrence commutes with taking views.
pub proof fn lemma_occurrences_view_push(s: Seq<NamespaceOccurrence>, x: NamespaceOccurrence)
    ensures
        occurrences_view(s.push(x)) == occurrences_view(s).push(x@),
{
    assert(occurrences_view(s.push(x)) =~= occurrences_view(s).push(x@));
}

// ------------------------------------------------------------------
// Executable scraper
// ------------------------------------------------------------------

/// Clones a link context, preserving the value exactly.
fn clone_link_kind(k: &XmlLinkKind) -> (r: XmlLinkKind)
    ensures
        r == *k,
{
    match k {
        XmlLinkKind::Attribute(a) => XmlLinkKind::Attribute(clone_attribute(a)),
        XmlLinkKind::Comment => XmlLinkKind::Comment,
        XmlLinkKind::PlainText(p) => XmlLinkKind::PlainText(
            ParentInformation { parent_tag_name: clone_opt_qname(&p.parent_tag_name) },
        ),
        XmlLinkKind::CData(p) => XmlLinkKind::CData(
            ParentInformation { parent_tag_name: clone_opt_qname(&p.parent_tag_name) },
        ),
        XmlLinkKind::NameSpace(s) => XmlLinkKind::NameSpace(s.clone()),
    }
}

/// Runs the URL matcher over a text and appends one link per match, all at
/// one position and with one context.
fn push_url_links(collector: &mut Vec<XmlLink>, text: &str, pos: TextPosition, kind: &XmlLinkKind)
    ensures
        links_view(final(collector)@) == links_view(old(collector)@) + url_links(text@, pos, kind@),
{
    let matches_list = find_urls(text);
    let ghost ms = found_urls(text@);
    assert(links_view(collector@) =~= links_view(old(collector)@) + url_links_upto(ms, 0, pos, kind@));
    for i in 0..matches_list.len()
        invariant
            links_view(collector@) == links_view(old(collector)@) + url_links_upto(
                ms,
                i as int,
                pos,
                kind@,
            ),
    {
        let url = matches_list[i].text.clone();
        let link = XmlLink { url, location: pos, kind: clone_link_kind(kind) };
        proof {
            assert(matches_list@[i as int]@ == ms[i as int]);
            assert(link@ == (XmlLinkV { url: ms[i as int].0, location: pos, kind: kind@ }));
            lemma_links_view_push(collector@, link);
            assert((links_view(old(collector)@) + url_links_upto(ms, i as int, pos, kind@)).push(
                link@,
            ) =~= links_view(old(collector)@) + url_links_upto(ms, i as int + 1, pos, kind@));
        }
        collector.push(link);
    }
    assert(url_links(text@, pos, kind@) == url_links_upto(ms, ms.len() as int, pos, kind@));
}

/// Whether the registry already holds this binding's (prefix, URI) pair.
fn contains_occurrence(occs: &Vec<NamespaceOccurrence>, b: &NamespaceBinding) -> (r: bool)
    ensures
        r == occurrences_contain(occurrences_view(occs@), b.prefix@, b.uri@),
{
    let mut k: usize = 0;
    while k < occs.len()
        invariant
            0 <= k <= occs.len(),
            forall|m: int|
                0 <= m < k ==> !((#[trigger] occurrences_view(occs@)[m]).namespace == b.prefix@
                    && occurrences_view(occs@)[m].namespace_uri == b.uri@),
        decreases occs.len() - k,
    {
        if occs[k].namespace == b.prefix && occs[k].namespace_uri == b.uri {
            proof {
                assert(occurrences_view(occs@)[k as int].namespace == b.prefix@
                    && occurrences_view(occs@)[k as int].namespace_uri == b.uri@);
            }
            return true;
        }
        k = k + 1;
    }
    false
}

/// Runs the whole event sequence through the scraper and returns every link
/// it emits, in emission order.
#[verifier::rlimit(60)]
pub fn scrape_from_events(events: &Vec<MarkupEvent>) -> (links: Vec<XmlLink>)
    ensures
        links_view(links@) == spec_scrape(events_view(events@)),
{
    let ghost evs = events_view(events@);
    let mut collector: Vec<XmlLink> = Vec::new();
    let mut namespaces: Vec<NamespaceOccurrence> = Vec::new();
    let mut current_parent: Option<QualifiedName> = None;
    let mut done: bool = false;
    for i in 0..events.len()
        invariant
            done == scrape_state_at(evs, i as int).done,
            opt_qname_view(current_parent) == scrape_state_at(evs, i as int).current_parent,
            occurrences_view(namespaces@) == scrape_state_at(evs, i as int).namespaces,
            links_view(collector@) == scrape_state_at(evs, i as int).links,
    {
        let ghost s = scrape_state_at(evs, i as int);
        proof {
            assert(evs[i as int] == events@[i as int]@);
            assert(scrape_state_at(evs, i as int + 1) == scrape_step(s, evs[i as int]));
        }
        let ev = &events[i];
        let pos = ev.position;
        if !done {
            match &ev.kind {
                MarkupEventKind::StartElement { name, attributes, namespaces: bindings } => {
                    for j in 0..bindings.len()
                        invariant
                            occurrences_view(namespaces@) == register_bindings_upto(
                                s.namespaces,
                                bindings_view(bindings@),
                                pos,
                                j as int,
                            ),
                    {
                        let b = &bindings[j];
                        proof {
                            assert(bindings_view(bindings@)[j as int] == bindings@[j as int]@);
                        }
                        let reserved = str_is(&b.prefix, "xml") || str_is(&b.prefix, "xmlns");
                        if !reserved && !contains_occurrence(&namespaces, b) {
                            let occ = NamespaceOccurrence {
                                namespace: b.prefix.clone(),
                                namespace_uri: b.uri.clone(),
                                first_occurrence: pos,
                            };
                            proof {
                                lemma_occurrences_view_push(namespaces@, occ);
                            }
                            namespaces.push(occ);
                        }
                    }
                    for j in 0..attributes.len()
                        invariant
                            links_view(collector@) == s.links + attrs_links_upto(
                                attrs_view(attributes@),
                                j as int,
                                pos,
                            ),
                    {
                        let a = &attributes[j];
                        let kind = XmlLinkKind::Attribute(clone_attribute(a));
                        push_url_links(&mut collector, a.value.as_str(), pos, &kind);
                        proof {
                            assert(attrs_view(attributes@)[j as int] == attributes@[j as int]@);
                            assert(kind@ == XmlLinkKindV::Attribute(attributes@[j as int]@));
                            assert(s.links + attrs_links_upto(attrs_view(attributes@), j as int, pos)
                                + url_links(attributes@[j as int].value@, pos, kind@)
                                =~= s.links + attrs_links_upto(
                                attrs_view(attributes@),
                                j as int + 1,
                                pos,
                            ));
                        }
                    }
                    current_parent = Some(clone_qname(name));
                },
                MarkupEventKind::Comment { text } => {
                    push_url_links(&mut collector, text.as_str(), pos, &XmlLinkKind::Comment);
                },
                MarkupEventKind::Characters { text } => {
                    let kind = XmlLinkKind::PlainText(
                        ParentInformation { parent_tag_name: clone_opt_qname(&current_parent) },
                    );
                    push_url_links(&mut collector, text.as_str(), pos, &kind);
                },
                MarkupEventKind::CData { text } => {
                    let kind = XmlLinkKind::CData(
                        ParentInformation { parent_tag_name: clone_opt_qname(&current_parent) },
                    );
                    push_url_links(&mut collector, text.as_str(), pos, &kind);
                },
                MarkupEventKind::EndDocument => {
                    done = true;
                },
                _ => {},
            }
        }
    }
    let ghost sfin = scrape_state_at(evs, evs.len() as int);
    for j in 0..namespaces.len()
        invariant
            occurrences_view(namespaces@) == sfin.namespaces,
            links_view(collector@) == sfin.links + namespace_links_upto(sfin.namespaces, j as int),
    {
        let occ = &namespaces[j];
        let matches_list = find_urls(occ.namespace_uri.as_str());
        if matches_list.len() > 0 {
            let link = XmlLink {
                url: occ.namespace_uri.clone(),
                location: occ.first_occurrence,
                kind: XmlLinkKind::NameSpace(occ.namespace.clone()),
            };
            proof {
                lemma_links_view_push(collector@, link);
                assert((sfin.links + namespace_links_upto(sfin.namespaces, j as int)).push(link@)
                    =~= sfin.links + namespace_links_upto(sfin.namespaces, j as int + 1));
            }
            collector.push(link);
        } else {
            proof {
                assert(sfin.links + namespace_links_upto(sfin.namespaces, j as int)
                    =~= sfin.links + namespace_links_upto(sfin.namespaces, j as int + 1));
            }
        }
    }
    collector
}

/// Scrapes every link from a whole document given as bytes: exactly the
/// scrape of the event sequence the tokenizer produces for these bytes;
/// the tokenizer's failure aborts the scrape with its message and no
/// links.
pub fn scrape(bytes: &[u8]) -> (r: Result<Vec<XmlLink>, XmlScrapingError>)
    ensures
        (tokenizer_outcome(bytes@).1 is None ==> (r matches Ok(links) && links_view(links@)
            == spec_scrape(tokenizer_outcome(bytes@).0))),
        (tokenizer_outcome(bytes@).1 matches Some(m) ==> (r matches Err(e) && e matches
            XmlScrapingError::XmlReaderError(msg) && msg@ == m)),
{
    match collect_events(bytes) {
        Err(message) => Err(XmlScrapingError::XmlReaderError(message)),
        Ok(events) => {
            let links = scrape_from_events(&events);
            Ok(links)
        },
    }
}

/// Whether a link sits in an attribute whose local name is `href`,
/// whatever its prefix.
pub open spec fn is_href_link(l: XmlLinkV) -> bool {
    match l.kind {
        XmlLinkKindV::Attribute(a) => a.name.local_name == "href"@,
        _ => false,
    }
}

/// The href-attribute links among the first `n` links.
pub open spec fn href_links_upto(s: Seq<XmlLinkV>, n: int) -> Seq<XmlLinkV>
    decreases n,
{
    if n <= 0 {
        Seq::empty()
    } else {
        href_links_upto(s, n - 1) + (if is_href_link(s[n - 1]) {
            seq![s[n - 1]]
        } else {
            Seq::empty()
        })
    }
}

/// The href-attribute links of a scrape, in emission order.
pub open spec fn href_links(s: Seq<XmlLinkV>) -> Seq<XmlLinkV> {
    href_links_upto(s, s.len() as int)
}

/// Clones a link, preserving the value exactly.
fn clone_xml_link(l: &XmlLink) -> (r: XmlLink)
    ensures
        r == *l,
{
    XmlLink { url: l.url.clone(), location: l.location, kind: clone_link_kind(&l.kind) }
}

/// Scrapes a document and keeps only the links found in `href` attributes,
/// regardless of their namespace or element: the full scrape of the same
/// bytes, filtered, in the same order.
pub fn scrape_from_href_tags(bytes: &[u8]) -> (r: Result<Vec<XmlLink>, XmlScrapingError>)
    ensures
        (tokenizer_outcome(bytes@).1 is None ==> (r matches Ok(links) && links_view(links@)
            == href_links(spec_scrape(tokenizer_outcome(bytes@).0)))),
        (tokenizer_outcome(bytes@).1 matches Some(m) ==> (r matches Err(e) && e matches
            XmlScrapingError::XmlReaderError(msg) && msg@ == m)),
{
    match collect_events(bytes) {
        Err(message) => Err(XmlScrapingError::XmlReaderError(message)),
        Ok(events) => {
            let all = scrape_from_events(&events);
            let mut kept: Vec<XmlLink> = Vec::new();
            for i in 0..all.len()
                invariant
                    links_view(kept@) == href_links_upto(links_view(all@), i as int),
            {
                let l = &all[i];
                let keep = match &l.kind {
                    XmlLinkKind::Attribute(a) => str_is(&a.name.local_name, "href"),
                    _ => false,
                };
                if keep {
                    let copy = clone_xml_link(l);
                    proof {
                        lemma_links_view_push(kept@, copy);
                        assert(href_links_upto(links_view(all@), i as int).push(copy@)
                            =~= href_links_upto(links_view(all@), i as int + 1));
                    }
                    kept.push(copy);
                } else {
                    proof {
                        assert(href_links_upto(links_view(all@), i as int)
                            =~= href_links_upto(links_view(all@), i as int + 1));
                    }
                }
            }
            proof {
                assert(links_view(kept@) == href_links(spec_scrape(events_view(events@))));
            }
            Ok(kept)
        },
    }
}

// ------------------------------------------------------------------
// Laws of the generic scrape
// ------------------------------------------------------------------

/// Whether a link is justified by the URL matcher: a link in attribute
/// context carries one of the matches the matcher found in that
/// attribute's value, and a namespace link only exists when the matcher
/// found something in the declared URI.
pub open spec fn link_is_justified(l: XmlLinkV) -> bool {
    match l.kind {
        XmlLinkKindV::Attribute(a) => exists|j: int|
            0 <= j < found_urls(a.value).len() && (#[trigger] found_urls(a.value)[j]).0 == l.url,
        XmlLinkKindV::NameSpace(_) => found_urls(l.url).len() > 0,
        _ => true,
    }
}

/// The links of one text all carry the given context, and there are as
/// many of them as requested.
proof fn lemma_url_links_upto_shape(ms: Seq<(Seq<char>, int)>, n: int, pos: TextPosition, kind: XmlLinkKindV)
    ensures
        url_links_upto(ms, n, pos, kind).len() == if n <= 0 { 0int } else { n },
        forall|k: int| 0 <= k < url_links_upto(ms, n, pos, kind).len()
            ==> (#[trigger] url_links_upto(ms, n, pos, kind)[k]).kind == kind,
        forall|k: int| 0 <= k < url_links_upto(ms, n, pos, kind).len()
            ==> (#[trigger] url_links_upto(ms, n, pos, kind)[k]).url == ms[k].0,
    decreases n,
{
    if n > 0 {
        lemma_url_links_upto_shape(ms, n - 1, pos, kind);
    }
}

/// Concatenation keeps every link justified.
proof fn lemma_justified_concat(a: Seq<XmlLinkV>, b: Seq<XmlLinkV>)
    requires
        forall|k: int| 0 <= k < a.len() ==> link_is_justified(#[trigger] a[k]),
        forall|k: int| 0 <= k < b.len() ==> link_is_justified(#[trigger] b[k]),
    ensures
        forall|k: int| 0 <= k < (a + b).len() ==> link_is_justified(#[trigger] (a + b)[k]),
{
    assert forall|k: int| 0 <= k < (a + b).len() implies link_is_justified(#[trigger] (a + b)[k]) by {
        if k < a.len() {
            assert((a + b)[k] == a[k]);
        } else {
            assert((a + b)[k] == b[k - a.len()]);
        }
    }
}

/// The links of one scanned text are all justified, as long as the
/// context names the scanned attribute (or no attribute at all).
proof fn lemma_url_links_justified(text: Seq<char>, pos: TextPosition, kind: XmlLinkKindV)
    requires
        match kind {
            XmlLinkKindV::Attribute(a) => a.value == text,
            XmlLinkKindV::NameSpace(_) => false,
            _ => true,
        },
    ensures
        forall|k: int| 0 <= k < url_links(text, pos, kind).len()
            ==> link_is_justified(#[trigger] url_links(text, pos, kind)[k]),
{
    let ms = found_urls(text);
    lemma_url_links_upto_shape(ms, ms.len() as int, pos, kind);
    assert forall|k: int| 0 <= k < url_links(text, pos, kind).len()
        implies link_is_justified(#[trigger] url_links(text, pos, kind)[k]) by {
        assert(url_links(text, pos, kind)[k].kind == kind);
        assert(url_links(text, pos, kind)[k].url == ms[k].0);
    }
}

/// Every attribute link of a start element is justified.
proof fn lemma_attrs_links_justified(attrs: Seq<AttributeV>, n: int, pos: TextPosition)
    ensures
        forall|k: int| 0 <= k < attrs_links_upto(attrs, n, pos).len()
            ==> link_is_justified(#[trigger] attrs_links_upto(attrs, n, pos)[k]),
    decreases n,
{
    if n > 0 {
        lemma_attrs_links_justified(attrs, n - 1, pos);
        let kind = XmlLinkKindV::Attribute(attrs[n - 1]);
        lemma_url_links_justified(attrs[n - 1].value, pos, kind);
        lemma_justified_concat(
            attrs_links_upto(attrs, n - 1, pos),
            url_links(attrs[n - 1].value, pos, kind),
        );
    }
}

/// Every link collected while the events are walked is justified.
proof fn lemma_state_links_justified(events: Seq<MarkupEventV>, n: int)
    requires
        0 <= n <= events.len(),
    ensures
        forall|k: int| 0 <= k < scrape_state_at(events, n).links.len()
            ==> link_is_justified(#[trigger] scrape_state_at(events, n).links[k]),
    decreases n,
{
    if n > 0 {
        lemma_state_links_justified(events, n - 1);
        let s = scrape_state_at(events, n - 1);
        let ev = events[n - 1];
        if !s.done {
            match ev.kind {
                MarkupEventKindV::StartElement { name, attributes, namespaces } => {
                    lemma_attrs_links_justified(attributes, attributes.len() as int, ev.position);
                    lemma_justified_concat(s.links, attrs_links(attributes, ev.position));
                },
                MarkupEventKindV::Comment { text } => {
                    lemma_url_links_justified(text, ev.position, XmlLinkKindV::Comment);
                    lemma_justified_concat(
                        s.links,
                        url_links(text, ev.position, XmlLinkKindV::Comment),
                    );
                },
                MarkupEventKindV::Characters { text } => {
                    let kind = XmlLinkKindV::PlainText(
                        ParentInformationV { parent_tag_name: s.current_parent },
                    );
                    lemma_url_links_justified(text, ev.position, kind);
                    lemma_justified_concat(s.links, url_links(text, ev.position, kind));
                },
                MarkupEventKindV::CData { text } => {
                    let kind = XmlLinkKindV::CData(
                        ParentInformationV { parent_tag_name: s.current_parent },
                    );
                    lemma_url_links_justified(text, ev.position, kind);
                    lemma_justified_concat(s.links, url_links(text, ev.position, kind));
                },
                _ => {},
            }
        }
    }
}

/// The link flushed for one namespace occurrence.
pub open spec fn occurrence_link(o: NamespaceOccurrenceV) -> XmlLinkV {
    XmlLinkV {
        url: o.namespace_uri,
        location: o.first_occurrence,
        kind: XmlLinkKindV::NameSpace(o.namespace),
    }
}

/// Every flushed namespace link is justified and comes from one of the
/// first `n` occurrences.
proof fn lemma_ns_links_shape(occs: Seq<NamespaceOccurrenceV>, n: int)
    requires
        n <= occs.len(),
    ensures
        forall|k: int| 0 <= k < namespace_links_upto(occs, n).len()
            ==> link_is_justified(#[trigger] namespace_links_upto(occs, n)[k]),
        forall|k: int| 0 <= k < namespace_links_upto(occs, n).len()
            ==> exists|m: int|
                0 <= m < n && (#[trigger] namespace_links_upto(occs, n)[k]) == occurrence_link(
                    occs[m],
                ),
    decreases n,
{
    if n > 0 {
        lemma_ns_links_shape(occs, n - 1);
        assert forall|k: int| 0 <= k < namespace_links_upto(occs, n).len() implies exists|m: int|
            0 <= m < n && (#[trigger] namespace_links_upto(occs, n)[k]) == occurrence_link(occs[m]) by {
            if k < namespace_links_upto(occs, n - 1).len() {
                let m = choose|m: int|
                    0 <= m < n - 1 && namespace_links_upto(occs, n - 1)[k] == occurrence_link(
                        occs[m],
                    );
                assert(namespace_links_upto(occs, n)[k] == occurrence_link(occs[m]));
            } else {
                assert(namespace_links_upto(occs, n)[k] == occurrence_link(occs[n - 1]));
            }
        }
    }
}

/// An attribute whose value is not URL-shaped produces no link, whatever
/// its context: every link emitted in attribute context carries one of the
/// matches the URL matcher found in that attribute's value, and every
/// namespace link a URI the matcher matched in.
pub proof fn lemma_no_link_without_url_shape(events: Seq<MarkupEventV>)
    ensures
        forall|k: int| 0 <= k < spec_scrape(events).len()
            ==> link_is_justified(#[trigger] spec_scrape(events)[k]),
{
    let s = scrape_state_at(events, events.len() as int);
    lemma_state_links_justified(events, events.len() as int);
    lemma_ns_links_shape(s.namespaces, s.namespaces.len() as int);
}

/// Whether the registered occurrences hold pairwise distinct
/// (prefix, URI) pairs.
pub open spec fn occurrences_distinct(occs: Seq<NamespaceOccurrenceV>) -> bool {
    forall|i: int, j: int| 0 <= i < j < occs.len()
        ==> !((#[trigger] occs[i]).namespace == (#[trigger] occs[j]).namespace
            && occs[i].namespace_uri == occs[j].namespace_uri)
}

/// Registration keeps the registry free of duplicate (prefix, URI) pairs.
proof fn lemma_register_upto_distinct(
    occs: Seq<NamespaceOccurrenceV>,
    bs: Seq<NamespaceBindingV>,
    pos: TextPosition,
    n: int,
)
    requires
        occurrences_distinct(occs),
    ensures
        occurrences_distinct(register_bindings_upto(occs, bs, pos, n)),
    decreases n,
{
    if n > 0 {
        lemma_register_upto_distinct(occs, bs, pos, n - 1);
        let prev = register_bindings_upto(occs, bs, pos, n - 1);
        let b = bs[n - 1];
        if !(is_reserved_prefix(b.prefix) || occurrences_contain(prev, b.prefix, b.uri)) {
            assert forall|i: int, j: int| 0 <= i < j < register_binding(prev, b, pos).len()
                implies !((#[trigger] register_binding(prev, b, pos)[i]).namespace
                    == (#[trigger] register_binding(prev, b, pos)[j]).namespace
                    && register_binding(prev, b, pos)[i].namespace_uri == register_binding(
                    prev,
                    b,
                    pos,
                )[j].namespace_uri) by {
                if j == prev.len() as int {
                    assert(!(prev[i].namespace == b.prefix && prev[i].namespace_uri == b.uri));
                }
            }
        }
    }
}

/// The registry never holds two occurrences of one (prefix, URI) pair.
proof fn lemma_state_occurrences_distinct(events: Seq<MarkupEventV>, n: int)
    requires
        0 <= n <= events.len(),
    ensures
        occurrences_distinct(scrape_state_at(events, n).namespaces),
    decreases n,
{
    if n > 0 {
        lemma_state_occurrences_distinct(events, n - 1);
        let s = scrape_state_at(events, n - 1);
        let ev = events[n - 1];
        if !s.done {
            match ev.kind {
                MarkupEventKindV::StartElement { name, attributes, namespaces } => {
                    lemma_register_upto_distinct(
                        s.namespaces,
                        namespaces,
                        ev.position,
                        namespaces.len() as int,
                    );
                },
                _ => {},
            }
        }
    }
}

/// No link collected during the walk is a namespace link; those only come
/// from the flush at the end.
proof fn lemma_state_links_not_namespace(events: Seq<MarkupEventV>, n: int)
    requires
        0 <= n <= events.len(),
    ensures
        forall|k: int| 0 <= k < scrape_state_at(events, n).links.len()
            ==> !((#[trigger] scrape_state_at(events, n).links[k]).kind is NameSpace),
    decreases n,
{
    if n > 0 {
        lemma_state_links_not_namespace(events, n - 1);
        let s = scrape_state_at(events, n - 1);
        let ev = events[n - 1];
        if !s.done {
            match ev.kind {
                MarkupEventKindV::StartElement { name, attributes, namespaces } => {
                    lemma_attrs_links_kinds(attributes, attributes.len() as int, ev.position);
                },
                MarkupEventKindV::Comment { text } => {
                    let ms = found_urls(text);
                    lemma_url_links_upto_shape(ms, ms.len() as int, ev.position, XmlLinkKindV::Comment);
                },
                MarkupEventKindV::Characters { text } => {
                    let ms = found_urls(text);
                    let kind = XmlLinkKindV::PlainText(
                        ParentInformationV { parent_tag_name: s.current_parent },
                    );
                    lemma_url_links_upto_shape(ms, ms.len() as int, ev.position, kind);
                },
                MarkupEventKindV::CData { text } => {
                    let ms = found_urls(text);
                    let kind = XmlLinkKindV::CData(
                        ParentInformationV { parent_tag_name: s.current_parent },
                    );
                    lemma_url_links_upto_shape(ms, ms.len() as int, ev.position, kind);
                },
                _ => {},
            }
        }
    }
}

/// Attribute links carry attribute contexts.
proof fn lemma_attrs_links_kinds(attrs: Seq<AttributeV>, n: int, pos: TextPosition)
    ensures
        forall|k: int| 0 <= k < attrs_links_upto(attrs, n, pos).len()
            ==> (#[trigger] attrs_links_upto(attrs, n, pos)[k]).kind is Attribute,
    decreases n,
{
    if n > 0 {
        lemma_attrs_links_kinds(attrs, n - 1, pos);
        let ms = found_urls(attrs[n - 1].value);
        let kind = XmlLinkKindV::Attribute(attrs[n - 1]);
        lemma_url_links_upto_shape(ms, ms.len() as int, pos, kind);
    }
}

/// Namespace links are emitted at most once per unique (prefix, URI) pair:
/// no two distinct links of one scrape agree on both the declared prefix
/// and the URI.
pub proof fn lemma_namespace_links_unique(events: Seq<MarkupEventV>)
    ensures
        forall|k1: int, k2: int|
            0 <= k1 < k2 < spec_scrape(events).len()
                && (#[trigger] spec_scrape(events)[k1]).kind is NameSpace
                && (#[trigger] spec_scrape(events)[k2]).kind is NameSpace ==> !(spec_scrape(
                events,
            )[k1].kind == spec_scrape(events)[k2].kind && spec_scrape(events)[k1].url == spec_scrape(
                events,
            )[k2].url),
{
    let s = scrape_state_at(events, events.len() as int);
    let flushed = namespace_links_upto(s.namespaces, s.namespaces.len() as int);
    lemma_state_links_not_namespace(events, events.len() as int);
    lemma_state_occurrences_distinct(events, events.len() as int);
    lemma_ns_links_shape(s.namespaces, s.namespaces.len() as int);
    lemma_ns_links_distinct(s.namespaces, s.namespaces.len() as int);
    assert forall|k1: int, k2: int|
        0 <= k1 < k2 < spec_scrape(events).len()
            && (#[trigger] spec_scrape(events)[k1]).kind is NameSpace
            && (#[trigger] spec_scrape(events)[k2]).kind is NameSpace implies !(spec_scrape(
        events,
    )[k1].kind == spec_scrape(events)[k2].kind && spec_scrape(events)[k1].url == spec_scrape(
        events,
    )[k2].url) by {
        assert(k1 >= s.links.len());
        assert(spec_scrape(events)[k1] == flushed[k1 - s.links.len()]);
        assert(spec_scrape(events)[k2] == flushed[k2 - s.links.len()]);
    }
}

/// Registering bindings only appends to the registry: what was recorded
/// stays, unchanged, at its place.
proof fn lemma_register_upto_prefix(
    occs: Seq<NamespaceOccurrenceV>,
    bs: Seq<NamespaceBindingV>,
    pos: TextPosition,
    n: int,
)
    ensures
        occs.is_prefix_of(register_bindings_upto(occs, bs, pos, n)),
    decreases n,
{
    if n > 0 {
        lemma_register_upto_prefix(occs, bs, pos, n - 1);
        let prev = register_bindings_upto(occs, bs, pos, n - 1);
        assert(prev.is_prefix_of(register_binding(prev, bs[n - 1], pos)));
    }
}

/// The namespace registry only grows while the events are walked: an
/// occurrence, once recorded, keeps its prefix, URI and first-seen
/// position.  Together with their uniqueness this pins every namespace
/// link to the position of the pair's first declaration.
pub proof fn lemma_registry_only_grows(events: Seq<MarkupEventV>, i: int, j: int)
    requires
        0 <= i <= j <= events.len(),
    ensures
        scrape_state_at(events, i).namespaces.is_prefix_of(scrape_state_at(events, j).namespaces),
    decreases j - i,
{
    if i < j {
        lemma_registry_only_grows(events, i, j - 1);
        let s = scrape_state_at(events, j - 1);
        let ev = events[j - 1];
        if !s.done {
            match ev.kind {
                MarkupEventKindV::StartElement { name, attributes, namespaces } => {
                    lemma_register_upto_prefix(
                        s.namespaces,
                        namespaces,
                        ev.position,
                        namespaces.len() as int,
                    );
                },
                _ => {},
            }
        }
    }
}

/// Whether a start element declares this (prefix, URI) binding.
pub open spec fn event_declares(ev: MarkupEventV, prefix: Seq<char>, uri: Seq<char>) -> bool {
    match ev.kind {
        MarkupEventKindV::StartElement { name, attributes, namespaces } => exists|j: int|
            0 <= j < namespaces.len() && (#[trigger] namespaces[j]).prefix == prefix
                && namespaces[j].uri == uri,
        _ => false,
    }
}

/// Whether the occurrence's pair became registered exactly at step `i`:
/// absent before it, present after it, declared by that event, and the
/// recorded position is that event's.
pub open spec fn first_declared_at(
    events: Seq<MarkupEventV>,
    o: NamespaceOccurrenceV,
    i: int,
) -> bool {
    &&& 0 <= i < events.len()
    &&& !occurrences_contain(
        scrape_state_at(events, i).namespaces,
        o.namespace,
        o.namespace_uri,
    )
    &&& occurrences_contain(
        scrape_state_at(events, i + 1).namespaces,
        o.namespace,
        o.namespace_uri,
    )
    &&& event_declares(events[i], o.namespace, o.namespace_uri)
    &&& o.first_occurrence == events[i].position
}

/// Whether some step first declared this occurrence's pair.
pub open spec fn occurrence_has_first_declaration(
    events: Seq<MarkupEventV>,
    o: NamespaceOccurrenceV,
) -> bool {
    exists|i: int| #[trigger] first_declared_at(events, o, i)
}

/// Everything the registration of one start element adds comes from one of
/// its bindings, carries the element's position, and was absent before.
proof fn lemma_register_upto_provenance(
    occs: Seq<NamespaceOccurrenceV>,
    bs: Seq<NamespaceBindingV>,
    pos: TextPosition,
    n: int,
)
    ensures
        forall|m: int| 0 <= m < register_bindings_upto(occs, bs, pos, n).len() ==> ((m
            < occs.len() && #[trigger] register_bindings_upto(occs, bs, pos, n)[m] == occs[m]) || (
        register_bindings_upto(occs, bs, pos, n)[m].first_occurrence == pos && !occurrences_contain(
            occs,
            register_bindings_upto(occs, bs, pos, n)[m].namespace,
            register_bindings_upto(occs, bs, pos, n)[m].namespace_uri,
        ) && exists|j: int|
            0 <= j < n && (#[trigger] bs[j]).prefix == register_bindings_upto(
                occs,
                bs,
                pos,
                n,
            )[m].namespace && bs[j].uri == register_bindings_upto(occs, bs, pos, n)[m].namespace_uri)),
    decreases n,
{
    if n > 0 {
        lemma_register_upto_provenance(occs, bs, pos, n - 1);
        lemma_register_upto_prefix(occs, bs, pos, n - 1);
        let prev = register_bindings_upto(occs, bs, pos, n - 1);
        let cur = register_bindings_upto(occs, bs, pos, n);
        let b = bs[n - 1];
        assert(prev.take(occs.len() as int) == occs);
        assert forall|m: int| 0 <= m < cur.len() implies ((m < occs.len() && #[trigger] cur[m]
            == occs[m]) || (cur[m].first_occurrence == pos && !occurrences_contain(
            occs,
            cur[m].namespace,
            cur[m].namespace_uri,
        ) && exists|j: int|
            0 <= j < n && (#[trigger] bs[j]).prefix == cur[m].namespace && bs[j].uri
                == cur[m].namespace_uri)) by {
            if m < prev.len() {
                assert(cur[m] == prev[m]);
            } else {
                // the freshly pushed occurrence comes from bs[n - 1]
                assert(!occurrences_contain(prev, b.prefix, b.uri));
                if occurrences_contain(occs, cur[m].namespace, cur[m].namespace_uri) {
                    let i = choose|i: int|
                        0 <= i < occs.len() && (#[trigger] occs[i]).namespace == cur[m].namespace
                            && occs[i].namespace_uri == cur[m].namespace_uri;
                    assert(prev[i] == prev.take(occs.len() as int)[i]);
                    assert(false);
                }
                assert(bs[n - 1].prefix == cur[m].namespace && bs[n - 1].uri
                    == cur[m].namespace_uri);
            }
        }
    }
}

/// Every registered occurrence was first declared at some step, which its
/// recorded position comes from.
proof fn lemma_state_occurrence_provenance(events: Seq<MarkupEventV>, n: int)
    requires
        0 <= n <= events.len(),
    ensures
        forall|m: int| 0 <= m < scrape_state_at(events, n).namespaces.len()
            ==> occurrence_has_first_declaration(
            events,
            #[trigger] scrape_state_at(events, n).namespaces[m],
        ),
    decreases n,
{
    if n > 0 {
        lemma_state_occurrence_provenance(events, n - 1);
        let s = scrape_state_at(events, n - 1);
        let cur = scrape_state_at(events, n).namespaces;
        let ev = events[n - 1];
        if !s.done && ev.kind is StartElement {
            let bs = ev.kind->StartElement_namespaces;
            lemma_register_upto_provenance(s.namespaces, bs, ev.position, bs.len() as int);
            assert forall|m: int| 0 <= m < cur.len() implies occurrence_has_first_declaration(
                events,
                #[trigger] cur[m],
            ) by {
                if m < s.namespaces.len() && cur[m] == s.namespaces[m] {
                    assert(occurrence_has_first_declaration(events, s.namespaces[m]));
                } else {
                    assert(cur[m].first_occurrence == ev.position && !occurrences_contain(
                        s.namespaces,
                        cur[m].namespace,
                        cur[m].namespace_uri,
                    ) && exists|j: int|
                        0 <= j < bs.len() && (#[trigger] bs[j]).prefix == cur[m].namespace
                            && bs[j].uri == cur[m].namespace_uri);
                    assert(occurrences_contain(cur, cur[m].namespace, cur[m].namespace_uri));
                    assert(event_declares(ev, cur[m].namespace, cur[m].namespace_uri));
                    assert(first_declared_at(events, cur[m], n - 1));
                }
            }
        } else {
            assert(cur == s.namespaces);
            assert forall|m: int| 0 <= m < cur.len() implies occurrence_has_first_declaration(
                events,
                #[trigger] cur[m],
            ) by {
                assert(cur[m] == scrape_state_at(events, n - 1).namespaces[m]);
            }
        }
    }
}

/// Every namespace link of a scrape stands at the position of the event
/// that first declared its (prefix, URI) pair, and carries that pair.
pub proof fn lemma_namespace_link_position_is_first_declaration(events: Seq<MarkupEventV>)
    ensures
        forall|k: int| 0 <= k < spec_scrape(events).len() && (#[trigger] spec_scrape(
            events,
        )[k]).kind is NameSpace ==> exists|o: NamespaceOccurrenceV|
            (#[trigger] occurrence_link(o)) == spec_scrape(events)[k]
                && occurrence_has_first_declaration(events, o),
{
    let s = scrape_state_at(events, events.len() as int);
    let flushed = namespace_links_upto(s.namespaces, s.namespaces.len() as int);
    lemma_state_links_not_namespace(events, events.len() as int);
    lemma_ns_links_shape(s.namespaces, s.namespaces.len() as int);
    lemma_state_occurrence_provenance(events, events.len() as int);
    assert forall|k: int| 0 <= k < spec_scrape(events).len() && (#[trigger] spec_scrape(
        events,
    )[k]).kind is NameSpace implies exists|o: NamespaceOccurrenceV|
        (#[trigger] occurrence_link(o)) == spec_scrape(events)[k]
            && occurrence_has_first_declaration(events, o) by {
        assert(k >= s.links.len());
        assert(spec_scrape(events)[k] == flushed[k - s.links.len()]);
        let m = choose|m: int|
            0 <= m < s.namespaces.len() && flushed[k - s.links.len()] == occurrence_link(
                s.namespaces[m],
            );
        assert(occurrence_link(s.namespaces[m]) == spec_scrape(events)[k]
            && occurrence_has_first_declaration(events, s.namespaces[m]));
    }
}

/// Distinct occurrences flush to links with distinct (prefix, URI) pairs.
proof fn lemma_ns_links_distinct(occs: Seq<NamespaceOccurrenceV>, n: int)
    requires
        n <= occs.len(),
        occurrences_distinct(occs),
    ensures
        forall|k1: int, k2: int|
            0 <= k1 < k2 < namespace_links_upto(occs, n).len() ==> !((
            #[trigger] namespace_links_upto(occs, n)[k1]).kind == (
            #[trigger] namespace_links_upto(occs, n)[k2]).kind && namespace_links_upto(occs, n)[k1].url
                == namespace_links_upto(occs, n)[k2].url),
    decreases n,
{
    if n > 0 {
        lemma_ns_links_distinct(occs, n - 1);
        lemma_ns_links_shape(occs, n - 1);
        let prev = namespace_links_upto(occs, n - 1);
        let cur = namespace_links_upto(occs, n);
        assert forall|k1: int, k2: int| 0 <= k1 < k2 < cur.len() implies !((#[trigger] cur[k1]).kind
            == (#[trigger] cur[k2]).kind && cur[k1].url == cur[k2].url) by {
            if k2 >= prev.len() {
                let m = choose|m: int| 0 <= m < n - 1 && prev[k1] == occurrence_link(occs[m]);
                assert(cur[k1] == occurrence_link(occs[m]));
                assert(cur[k2] == occurrence_link(occs[n - 1]));
                assert(!(occs[m].namespace == occs[n - 1].namespace && occs[m].namespace_uri
                    == occs[n - 1].namespace_uri));
            } else {
                assert(cur[k1] == prev[k1]);
                assert(cur[k2] == prev[k2]);
            }
        }
    }
}

} // verus!
