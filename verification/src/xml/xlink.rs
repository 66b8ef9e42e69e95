//! The XLink-vocabulary scraper: recognizes the linking vocabulary (simple
//! and extended links, locators, arcs, resources, titles), enforces its
//! nesting rules, and harvests the references its attributes carry.
//!
//! The nesting rules are run as a two-state machine: at the top level
//! (`Idle`) a locator, arc or resource is fatal; directly inside an
//! `extended` element (`Inside`) a simple or extended element is fatal.
//! The enclosing extended element is left when an end tag with its
//! qualified name arrives; nesting depth of unrelated descendants with the
//! same name is not tracked.

use vstd::prelude::*;
use crate::TextPosition;
use crate::events::{
    AttributeV, MarkupEvent, MarkupEventKind, MarkupEventKindV, MarkupEventV, QNameV,
    QualifiedName, XmlAttribute, attrs_view, clone_qname, events_view, opt_str_view,
};
use crate::helpers::{find_urls, found_urls, str_is};
use crate::tokenizer::{collect_events, tokenizer_outcome};
use crate::xml::XmlStartElement;

verus! {

/// What role a harvested reference plays in the linking vocabulary.
#[derive(Debug, Clone, Copy, PartialEq, Eq, Structural)]
pub enum XLinkLinkKind {
    /// The `href` of a `simple` link.
    Simple,
    /// The `href` of a `locator` inside an `extended` link.
    Extended,
    /// A `role` attribute.
    Role,
    /// An `arcrole` attribute.
    ArcRole,
}

/// A reference harvested from the linking vocabulary.
#[derive(Debug)]
pub struct XLinkLink {
    pub url: String,
    pub location: TextPosition,
    pub kind: XLinkLinkKind,
}

/// The mathematical value of an [`XLinkLink`].
#[verifier::ext_equal]
pub ghost struct XLinkLinkV {
    pub url: Seq<char>,
    pub location: TextPosition,
    pub kind: XLinkLinkKind,
}

impl View for XLinkLink {
    type V = XLinkLinkV;

    open spec fn view(&self) -> XLinkLinkV {
        XLinkLinkV { url: self.url@, location: self.location, kind: self.kind }
    }
}

/// Sequence of link values.
pub open spec fn xlink_links_view(s: Seq<XLinkLink>) -> Seq<XLinkLinkV> {
    s.map_values(|l: XLinkLink| l@)
}

/// Why an XLink scrape failed.
#[derive(Debug)]
pub enum XLinkFormatError {
    /// The byte source could not be read.
    IoError(String),
    /// A `type` attribute held none of the six vocabulary words; carries
    /// the offending value.
    UnknownTypeError(String),
    /// A recognized element lacked a required attribute; carries its name.
    MissingRequiredAttributeError(String),
    /// A `locator` element stood outside any `extended` element.
    LocatorOutsideOfExtendedError,
    /// An `arc` element stood outside any `extended` element.
    ArcOutsideOfExtendedError,
    /// A `resource` element stood outside any `extended` element.
    ResourceOutsideOfExtendedError,
    /// A `simple` element stood directly inside an `extended` element.
    SimpleInsideOfExtendedError,
    /// An `extended` element stood directly inside an `extended` element.
    ExtendedInsideOfExtendedError,
    /// The tokenizer rejected the document; carries its message.
    XmlReaderError(String),
}

/// The mathematical value of an [`XLinkFormatError`].
#[verifier::ext_equal]
pub ghost enum XLinkFormatErrorV {
    IoError(Seq<char>),
    UnknownTypeError(Seq<char>),
    MissingRequiredAttributeError(Seq<char>),
    LocatorOutsideOfExtendedError,
    ArcOutsideOfExtendedError,
    ResourceOutsideOfExtendedError,
    SimpleInsideOfExtendedError,
    ExtendedInsideOfExtendedError,
    XmlReaderError(Seq<char>),
}

impl View for XLinkFormatError {
    type V = XLinkFormatErrorV;

    open spec fn view(&self) -> XLinkFormatErrorV {
        match self {
            XLinkFormatError::IoError(m) => XLinkFormatErrorV::IoError(m@),
            XLinkFormatError::UnknownTypeError(t) => XLinkFormatErrorV::UnknownTypeError(t@),
            XLinkFormatError::MissingRequiredAttributeError(a) =>
                XLinkFormatErrorV::MissingRequiredAttributeError(a@),
            XLinkFormatError::LocatorOutsideOfExtendedError =>
                XLinkFormatErrorV::LocatorOutsideOfExtendedError,
            XLinkFormatError::ArcOutsideOfExtendedError => XLinkFormatErrorV::ArcOutsideOfExtendedError,
            XLinkFormatError::ResourceOutsideOfExtendedError =>
                XLinkFormatErrorV::ResourceOutsideOfExtendedError,
            XLinkFormatError::SimpleInsideOfExtendedError =>
                XLinkFormatErrorV::SimpleInsideOfExtendedError,
            XLinkFormatError::ExtendedInsideOfExtendedError =>
                XLinkFormatErrorV::ExtendedInsideOfExtendedError,
            XLinkFormatError::XmlReaderError(m) => XLinkFormatErrorV::XmlReaderError(m@),
        }
    }
}

// ------------------------------------------------------------------
// The vocabulary elements and their classifier
// ------------------------------------------------------------------

/// A `simple` link; every payload attribute is optional.
#[derive(Debug)]
pub struct XlinkSimpleElement {
    pub href: Option<String>,
    pub role: Option<String>,
    pub arcrole: Option<String>,
    pub title: Option<String>,
}

/// An `extended` link: its optional `role`, and its own qualified name,
/// which later decides where its scope ends.
#[derive(Debug)]
pub struct XlinkExtendedElement {
    pub role: Option<String>,
    pub name: QualifiedName,
}

/// A `locator`: its required `href` and optional `role`.
#[derive(Debug)]
pub struct XlinkLocatorElement {
    pub href: String,
    pub role: Option<String>,
}

/// An `arc`: its optional `arcrole`.
#[derive(Debug)]
pub struct XlinkArcElement {
    pub arcrole: Option<String>,
}

/// A `resource`: its optional `role`.
#[derive(Debug)]
pub struct XlinkResourceElement {
    pub role: Option<String>,
}

/// A recognized linking-vocabulary element with its typed payload.
#[derive(Debug)]
pub enum XlinkElement {
    Simple(XlinkSimpleElement),
    Extended(XlinkExtendedElement),
    Locator(XlinkLocatorElement),
    Arc(XlinkArcElement),
    Resource(XlinkResourceElement),
    Title,
}

/// The mathematical value of an [`XlinkElement`].
#[allow(inconsistent_fields)]
#[verifier::ext_equal]
pub ghost enum XlinkElementV {
    Simple {
        href: Option<Seq<char>>,
        role: Option<Seq<char>>,
        arcrole: Option<Seq<char>>,
        title: Option<Seq<char>>,
    },
    Extended { role: Option<Seq<char>>, name: QNameV },
    Locator { href: Seq<char>, role: Option<Seq<char>> },
    Arc { arcrole: Option<Seq<char>> },
    Resource { role: Option<Seq<char>> },
    Title,
}

impl View for XlinkElement {
    type V = XlinkElementV;

    open spec fn view(&self) -> XlinkElementV {
        match self {
            XlinkElement::Simple(e) => XlinkElementV::Simple {
                href: opt_str_view(e.href),
                role: opt_str_view(e.role),
                arcrole: opt_str_view(e.arcrole),
                title: opt_str_view(e.title),
            },
            XlinkElement::Extended(e) => XlinkElementV::Extended {
                role: opt_str_view(e.role),
                name: e.name@,
            },
            XlinkElement::Locator(e) => XlinkElementV::Locator {
                href: e.href@,
                role: opt_str_view(e.role),
            },
            XlinkElement::Arc(e) => XlinkElementV::Arc { arcrole: opt_str_view(e.arcrole) },
            XlinkElement::Resource(e) => XlinkElementV::Resource { role: opt_str_view(e.role) },
            XlinkElement::Title => XlinkElementV::Title,
        }
    }
}

/// The namespace URI that qualifies the vocabulary's attributes.
pub open spec fn xlink_namespace() -> Seq<char> {
    "http://www.w3.org/1999/xlink"@
}

/// Whether an attribute is the vocabulary attribute of the given local
/// name: local name matches and the attribute sits in the XLink namespace.
pub open spec fn is_xlink_attribute(a: AttributeV, key: Seq<char>) -> bool {
    a.name.local_name == key && a.name.namespace == Some(xlink_namespace())
}

/// The value of the first vocabulary attribute of the given local name, if
/// any.
pub open spec fn spec_xlink_attribute(attrs: Seq<AttributeV>, key: Seq<char>) -> Option<Seq<char>>
    decreases attrs.len(),
{
    if attrs.len() == 0 {
        None
    } else if is_xlink_attribute(attrs[0], key) {
        Some(attrs[0].value)
    } else {
        spec_xlink_attribute(attrs.drop_first(), key)
    }
}

/// How a start element classifies: not a linking element (`Ok(None)`), a
/// recognized element with its payload, or a vocabulary error.
pub open spec fn spec_classify(name: QNameV, attrs: Seq<AttributeV>) -> Result<
    Option<XlinkElementV>,
    XLinkFormatErrorV,
> {
    match spec_xlink_attribute(attrs, "type"@) {
        None => Ok(None),
        Some(t) => {
            if t == "simple"@ {
                Ok(Some(XlinkElementV::Simple {
                    href: spec_xlink_attribute(attrs, "href"@),
                    role: spec_xlink_attribute(attrs, "role"@),
                    arcrole: spec_xlink_attribute(attrs, "arcrole"@),
                    title: spec_xlink_attribute(attrs, "title"@),
                }))
            } else if t == "extended"@ {
                Ok(Some(XlinkElementV::Extended {
                    role: spec_xlink_attribute(attrs, "role"@),
                    name: name,
                }))
            } else if t == "locator"@ {
                match spec_xlink_attribute(attrs, "href"@) {
                    None => Err(XLinkFormatErrorV::MissingRequiredAttributeError("href"@)),
                    Some(h) => Ok(Some(XlinkElementV::Locator {
                        href: h,
                        role: spec_xlink_attribute(attrs, "role"@),
                    })),
                }
            } else if t == "arc"@ {
                Ok(Some(XlinkElementV::Arc { arcrole: spec_xlink_attribute(attrs, "arcrole"@) }))
            } else if t == "resource"@ {
                Ok(Some(XlinkElementV::Resource { role: spec_xlink_attribute(attrs, "role"@) }))
            } else if t == "title"@ {
                Ok(Some(XlinkElementV::Title))
            } else {
                Err(XLinkFormatErrorV::UnknownTypeError(t))
            }
        },
    }
}

/// The mathematical value of a classification result.
pub open spec fn classified_view(r: Result<Option<XlinkElement>, XLinkFormatError>) -> Result<
    Option<XlinkElementV>,
    XLinkFormatErrorV,
> {
    match r {
        Ok(None) => Ok(None),
        Ok(Some(el)) => Ok(Some(el@)),
        Err(e) => Err(e@),
    }
}

/// The value of the first attribute with this local name in the XLink
/// namespace, searched in attribute order.
pub fn get_xlink_attribute_value(key: &str, attributes: &Vec<XmlAttribute>) -> (r: Option<String>)
    ensures
        opt_str_view(r) == spec_xlink_attribute(attrs_view(attributes@), key@),
{
    let ghost attrs = attrs_view(attributes@);
    let mut result: Option<String> = None;
    let mut j: usize = attributes.len();
    proof {
        assert(attrs.skip(j as int) =~= Seq::<AttributeV>::empty());
    }
    while j > 0
        invariant
            0 <= j <= attributes.len(),
            opt_str_view(result) == spec_xlink_attribute(attrs.skip(j as int), key@),
        decreases j,
    {
        j = j - 1;
        let a = &attributes[j];
        let in_namespace = match &a.name.namespace {
            Some(ns) => str_is(ns, "http://www.w3.org/1999/xlink"),
            None => false,
        };
        let hit = in_namespace && str_is(&a.name.local_name, key);
        proof {
            assert(attrs[j as int] == attributes@[j as int]@);
            assert(attrs.skip(j as int)[0] == attrs[j as int]);
            assert(attrs.skip(j as int).drop_first() =~= attrs.skip(j as int + 1));
            assert(hit == is_xlink_attribute(attrs[j as int], key@));
        }
        if hit {
            result = Some(a.value.clone());
        }
    }
    proof {
        assert(attrs.skip(0) =~= attrs);
    }
    result
}

/// Classifies a start element against the linking vocabulary.
fn classify_start_element(name: &QualifiedName, attributes: &Vec<XmlAttribute>) -> (r: Result<
    Option<XlinkElement>,
    XLinkFormatError,
>)
    ensures
        classified_view(r) == spec_classify(name@, attrs_view(attributes@)),
{
    let t = match get_xlink_attribute_value("type", attributes) {
        None => {
            return Ok(None);
        },
        Some(t) => t,
    };
    if str_is(&t, "simple") {
        Ok(Some(XlinkElement::Simple(XlinkSimpleElement {
            href: get_xlink_attribute_value("href", attributes),
            role: get_xlink_attribute_value("role", attributes),
            arcrole: get_xlink_attribute_value("arcrole", attributes),
            title: get_xlink_attribute_value("title", attributes),
        })))
    } else if str_is(&t, "extended") {
        Ok(Some(XlinkElement::Extended(XlinkExtendedElement {
            role: get_xlink_attribute_value("role", attributes),
            name: clone_qname(name),
        })))
    } else if str_is(&t, "locator") {
        match get_xlink_attribute_value("href", attributes) {
            None => Err(XLinkFormatError::MissingRequiredAttributeError("href".to_owned())),
            Some(href) => Ok(Some(XlinkElement::Locator(XlinkLocatorElement {
                href,
                role: get_xlink_attribute_value("role", attributes),
            }))),
        }
    } else if str_is(&t, "arc") {
        Ok(Some(XlinkElement::Arc(XlinkArcElement {
            arcrole: get_xlink_attribute_value("arcrole", attributes),
        })))
    } else if str_is(&t, "resource") {
        Ok(Some(XlinkElement::Resource(XlinkResourceElement {
            role: get_xlink_attribute_value("role", attributes),
        })))
    } else if str_is(&t, "title") {
        Ok(Some(XlinkElement::Title))
    } else {
        Err(XLinkFormatError::UnknownTypeError(t))
    }
}

impl XlinkElement {
    /// Classifies a start element against the linking vocabulary.
    pub fn try_from_xml_start_element(xse: &XmlStartElement) -> (r: Result<
        Option<XlinkElement>,
        XLinkFormatError,
    >)
        ensures
            classified_view(r) == spec_classify(xse.name@, attrs_view(xse.attributes@)),
    {
        classify_start_element(&xse.name, &xse.attributes)
    }
}

// ------------------------------------------------------------------
// The nesting state machine
// ------------------------------------------------------------------

/// Where the scraper stands: at the top level, or directly inside the
/// extended element of this name.
#[verifier::ext_equal]
pub ghost enum XLinkMode {
    Idle,
    Inside(QNameV),
}

/// The scraper's running state.
#[verifier::ext_equal]
pub ghost struct XLinkState {
    pub mode: XLinkMode,
    pub done: bool,
    pub links: Seq<XLinkLinkV>,
    pub error: Option<XLinkFormatErrorV>,
}

/// The state before any event.
pub open spec fn xlink_init() -> XLinkState {
    XLinkState { mode: XLinkMode::Idle, done: false, links: Seq::empty(), error: None }
}

/// The links emitted for the first `n` matches the URL matcher finds in a
/// text.
pub open spec fn xlink_url_links_upto(
    ms: Seq<(Seq<char>, int)>,
    n: int,
    pos: TextPosition,
    kind: XLinkLinkKind,
) -> Seq<XLinkLinkV>
    decreases n,
{
    if n <= 0 {
        Seq::empty()
    } else {
        xlink_url_links_upto(ms, n - 1, pos, kind).push(
            XLinkLinkV { url: ms[n - 1].0, location: pos, kind: kind },
        )
    }
}

/// One link per URL-shaped substring of the text, in match order.
pub open spec fn xlink_url_links(text: Seq<char>, pos: TextPosition, kind: XLinkLinkKind) -> Seq<
    XLinkLinkV,
> {
    xlink_url_links_upto(found_urls(text), found_urls(text).len() as int, pos, kind)
}

/// The links of an optional attribute value: none when the attribute is
/// absent, else its URL-shaped substrings.
pub open spec fn opt_url_links(
    text: Option<Seq<char>>,
    pos: TextPosition,
    kind: XLinkLinkKind,
) -> Seq<XLinkLinkV> {
    match text {
        None => Seq::empty(),
        Some(t) => xlink_url_links(t, pos, kind),
    }
}

/// The links of a `simple` element: its filtered `href`, `arcrole` and
/// `role`, in that order.
pub open spec fn simple_links(
    href: Option<Seq<char>>,
    role: Option<Seq<char>>,
    arcrole: Option<Seq<char>>,
    pos: TextPosition,
) -> Seq<XLinkLinkV> {
    opt_url_links(href, pos, XLinkLinkKind::Simple) + opt_url_links(
        arcrole,
        pos,
        XLinkLinkKind::ArcRole,
    ) + opt_url_links(role, pos, XLinkLinkKind::Role)
}

/// The links of a `locator` element: its `href` taken verbatim as an
/// `Extended` link, unfiltered, then its filtered `role`.
pub open spec fn locator_links(href: Seq<char>, role: Option<Seq<char>>, pos: TextPosition) -> Seq<
    XLinkLinkV,
> {
    seq![XLinkLinkV { url: href, location: pos, kind: XLinkLinkKind::Extended }] + opt_url_links(
        role,
        pos,
        XLinkLinkKind::Role,
    )
}

/// How one event advances the scraper.  After an error or the terminal
/// end-of-document every event is ignored.
pub open spec fn xlink_step(s: XLinkState, ev: MarkupEventV) -> XLinkState {
    if s.done || s.error is Some {
        s
    } else {
        match ev.kind {
            MarkupEventKindV::StartElement { name, attributes, namespaces } => match spec_classify(
                name,
                attributes,
            ) {
                Err(e) => XLinkState { error: Some(e), ..s },
                Ok(None) => s,
                Ok(Some(el)) => match s.mode {
                    XLinkMode::Idle => match el {
                        XlinkElementV::Simple { href, role, arcrole, title } => XLinkState {
                            links: s.links + simple_links(href, role, arcrole, ev.position),
                            ..s
                        },
                        XlinkElementV::Extended { role, name: extended_name } => XLinkState {
                            mode: XLinkMode::Inside(extended_name),
                            links: s.links + opt_url_links(role, ev.position, XLinkLinkKind::Role),
                            ..s
                        },
                        XlinkElementV::Locator { .. } => XLinkState {
                            error: Some(XLinkFormatErrorV::LocatorOutsideOfExtendedError),
                            ..s
                        },
                        XlinkElementV::Arc { .. } => XLinkState {
                            error: Some(XLinkFormatErrorV::ArcOutsideOfExtendedError),
                            ..s
                        },
                        XlinkElementV::Resource { .. } => XLinkState {
                            error: Some(XLinkFormatErrorV::ResourceOutsideOfExtendedError),
                            ..s
                        },
                        XlinkElementV::Title => s,
                    },
                    XLinkMode::Inside(_) => match el {
                        XlinkElementV::Simple { .. } => XLinkState {
                            error: Some(XLinkFormatErrorV::SimpleInsideOfExtendedError),
                            ..s
                        },
                        XlinkElementV::Extended { .. } => XLinkState {
                            error: Some(XLinkFormatErrorV::ExtendedInsideOfExtendedError),
                            ..s
                        },
                        XlinkElementV::Locator { href, role } => XLinkState {
                            links: s.links + locator_links(href, role, ev.position),
                            ..s
                        },
                        XlinkElementV::Arc { arcrole } => XLinkState {
                            links: s.links + opt_url_links(
                                arcrole,
                                ev.position,
                                XLinkLinkKind::ArcRole,
                            ),
                            ..s
                        },
                        XlinkElementV::Resource { role } => XLinkState {
                            links: s.links + opt_url_links(role, ev.position, XLinkLinkKind::Role),
                            ..s
                        },
                        XlinkElementV::Title => s,
                    },
                },
            },
            MarkupEventKindV::EndElement { name } => match s.mode {
                XLinkMode::Inside(extended_name) => if name == extended_name {
                    XLinkState { mode: XLinkMode::Idle, ..s }
                } else {
                    s
                },
                XLinkMode::Idle => s,
            },
            MarkupEventKindV::EndDocument => match s.mode {
                XLinkMode::Idle => XLinkState { done: true, ..s },
                XLinkMode::Inside(_) => s,
            },
            _ => s,
        }
    }
}

/// The state after the first `n` events.
pub open spec fn xlink_state_at(events: Seq<MarkupEventV>, n: int) -> XLinkState
    decreases n,
{
    if n <= 0 {
        xlink_init()
    } else {
        xlink_step(xlink_state_at(events, n - 1), events[n - 1])
    }
}

/// Everything the XLink scraper yields for an event sequence: its links in
/// emission order, or the first error; a failed scrape keeps no links.
pub open spec fn spec_xlink_scrape(events: Seq<MarkupEventV>) -> Result<
    Seq<XLinkLinkV>,
    XLinkFormatErrorV,
> {
    let s = xlink_state_at(events, events.len() as int);
    match s.error {
        Some(e) => Err(e),
        None => Ok(s.links),
    }
}

/// Once an error is recorded the state never changes again.
pub proof fn lemma_xlink_error_stays(events: Seq<MarkupEventV>, i: int, j: int)
    requires
        0 <= i <= j <= events.len(),
        xlink_state_at(events, i).error is Some,
    ensures
        xlink_state_at(events, j) == xlink_state_at(events, i),
    decreases j - i,
{
    if i < j {
        lemma_xlink_error_stays(events, i, j - 1);
    }
}

// ------------------------------------------------------------------
// Executable scraper
// ------------------------------------------------------------------

/// Pushing a link commutes with taking views.
pub proof fn lemma_xlink_links_view_push(s: Seq<XLinkLink>, x: XLinkLink)
    ensures
        xlink_links_view(s.push(x)) == xlink_links_view(s).push(x@),
{
    assert(xlink_links_view(s.push(x)) =~= xlink_links_view(s).push(x@));
}

/// Concatenation commutes with taking views.
pub proof fn lemma_xlink_links_view_concat(a: Seq<XLinkLink>, b: Seq<XLinkLink>)
    ensures
        xlink_links_view(a + b) == xlink_links_view(a) + xlink_links_view(b),
{
    assert(xlink_links_view(a + b) =~= xlink_links_view(a) + xlink_links_view(b));
}

/// Filters an optional attribute value through the URL matcher and emits
/// one link of the given kind per match.
pub fn scrape_from_option_string(
    value: Option<String>,
    link_type: XLinkLinkKind,
    position: TextPosition,
) -> (r: Vec<XLinkLink>)
    ensures
        xlink_links_view(r@) == opt_url_links(opt_str_view(value), position, link_type),
{
    let text = match value {
        None => {
            let empty: Vec<XLinkLink> = Vec::new();
            proof {
                assert(xlink_links_view(empty@) =~= Seq::<XLinkLinkV>::empty());
            }
            return empty;
        },
        Some(text) => text,
    };
    let matches_list = find_urls(text.as_str());
    let ghost ms = found_urls(text@);
    let mut links: Vec<XLinkLink> = Vec::new();
    proof {
        assert(xlink_links_view(links@) =~= xlink_url_links_upto(ms, 0, position, link_type));
    }
    for i in 0..matches_list.len()
        invariant
            xlink_links_view(links@) == xlink_url_links_upto(ms, i as int, position, link_type),
    {
        let link = XLinkLink {
            url: matches_list[i].text.clone(),
            location: position,
            kind: link_type,
        };
        proof {
            assert(matches_list@[i as int]@ == ms[i as int]);
            lemma_xlink_links_view_push(links@, link);
        }
        links.push(link);
    }
    links
}

/// The links of a `simple` element: its `href`, `arcrole` and `role`, each
/// filtered through the URL matcher, in that order.
pub fn scrape_from_xlink_simple(element: XlinkSimpleElement, position: TextPosition) -> (r: Vec<
    XLinkLink,
>)
    ensures
        xlink_links_view(r@) == simple_links(
            opt_str_view(element.href),
            opt_str_view(element.role),
            opt_str_view(element.arcrole),
            position,
        ),
{
    let XlinkSimpleElement { href, role, arcrole, title: _ } = element;
    let mut ret = scrape_from_option_string(href, XLinkLinkKind::Simple, position);
    let mut arcrole_links = scrape_from_option_string(arcrole, XLinkLinkKind::ArcRole, position);
    proof {
        lemma_xlink_links_view_concat(ret@, arcrole_links@);
    }
    ret.append(&mut arcrole_links);
    let mut role_links = scrape_from_option_string(role, XLinkLinkKind::Role, position);
    proof {
        lemma_xlink_links_view_concat(ret@, role_links@);
    }
    ret.append(&mut role_links);
    ret
}

/// Compares two qualified names by contents.
fn qname_matches(a: &QualifiedName, b: &QualifiedName) -> (r: bool)
    ensures
        r == (a@ == b@),
{
    let local_eq = a.local_name == b.local_name;
    let ns_eq = match (&a.namespace, &b.namespace) {
        (Some(x), Some(y)) => *x == *y,
        (None, None) => true,
        _ => false,
    };
    let prefix_eq = match (&a.prefix, &b.prefix) {
        (Some(x), Some(y)) => *x == *y,
        (None, None) => true,
        _ => false,
    };
    local_eq && ns_eq && prefix_eq
}

/// The mode the scraper is in, as a value.
pub open spec fn mode_view(inside: Option<QualifiedName>) -> XLinkMode {
    match inside {
        Some(q) => XLinkMode::Inside(q@),
        None => XLinkMode::Idle,
    }
}

/// The mathematical value of a scrape result.
pub open spec fn xlink_result_view(r: Result<Vec<XLinkLink>, XLinkFormatError>) -> Result<
    Seq<XLinkLinkV>,
    XLinkFormatErrorV,
> {
    match r {
        Ok(links) => Ok(xlink_links_view(links@)),
        Err(e) => Err(e@),
    }
}

/// Runs the whole event sequence through the XLink scraper: its links in
/// emission order, or the first vocabulary error with no links.
pub fn scrape_from_events(events: &Vec<MarkupEvent>) -> (r: Result<Vec<XLinkLink>, XLinkFormatError>)
    ensures
        xlink_result_view(r) == spec_xlink_scrape(events_view(events@)),
{
    let ghost evs = events_view(events@);
    let mut collector: Vec<XLinkLink> = Vec::new();
    let mut inside: Option<QualifiedName> = None;
    let mut done: bool = false;
    for i in 0..events.len()
        invariant
            xlink_state_at(evs, i as int).error is None,
            done == xlink_state_at(evs, i as int).done,
            mode_view(inside) == xlink_state_at(evs, i as int).mode,
            xlink_links_view(collector@) == xlink_state_at(evs, i as int).links,
    {
        let ghost s = xlink_state_at(evs, i as int);
        proof {
            assert(evs[i as int] == events@[i as int]@);
            assert(xlink_state_at(evs, i as int + 1) == xlink_step(s, evs[i as int]));
        }
        let ev = &events[i];
        let pos = ev.position;
        if !done {
            match &ev.kind {
                MarkupEventKind::StartElement { name, attributes, namespaces: _ } => {
                    match classify_start_element(name, attributes) {
                        Err(e) => {
                            proof {
                                lemma_xlink_error_stays(evs, i as int + 1, evs.len() as int);
                            }
                            return Err(e);
                        },
                        Ok(None) => {},
                        Ok(Some(el)) => {
                            let is_idle = matches!(inside, None);
                            if is_idle {
                                match el {
                                    XlinkElement::Simple(se) => {
                                        let mut links = scrape_from_xlink_simple(se, pos);
                                        proof {
                                            lemma_xlink_links_view_concat(collector@, links@);
                                        }
                                        collector.append(&mut links);
                                    },
                                    XlinkElement::Extended(ee) => {
                                        let XlinkExtendedElement { role, name: extended_name } = ee;
                                        let mut links = scrape_from_option_string(
                                            role,
                                            XLinkLinkKind::Role,
                                            pos,
                                        );
                                        proof {
                                            lemma_xlink_links_view_concat(collector@, links@);
                                        }
                                        collector.append(&mut links);
                                        inside = Some(extended_name);
                                    },
                                    XlinkElement::Locator(_) => {
                                        proof {
                                            lemma_xlink_error_stays(
                                                evs,
                                                i as int + 1,
                                                evs.len() as int,
                                            );
                                        }
                                        return Err(XLinkFormatError::LocatorOutsideOfExtendedError);
                                    },
                                    XlinkElement::Arc(_) => {
                                        proof {
                                            lemma_xlink_error_stays(
                                                evs,
                                                i as int + 1,
                                                evs.len() as int,
                                            );
                                        }
                                        return Err(XLinkFormatError::ArcOutsideOfExtendedError);
                                    },
                                    XlinkElement::Resource(_) => {
                                        proof {
                                            lemma_xlink_error_stays(
                                                evs,
                                                i as int + 1,
                                                evs.len() as int,
                                            );
                                        }
                                        return Err(XLinkFormatError::ResourceOutsideOfExtendedError);
                                    },
                                    XlinkElement::Title => {},
                                }
                            } else {
                                match el {
                                    XlinkElement::Simple(_) => {
                                        proof {
                                            lemma_xlink_error_stays(
                                                evs,
                                                i as int + 1,
                                                evs.len() as int,
                                            );
                                        }
                                        return Err(XLinkFormatError::SimpleInsideOfExtendedError);
                                    },
                                    XlinkElement::Extended(_) => {
                                        proof {
                                            lemma_xlink_error_stays(
                                                evs,
                                                i as int + 1,
                                                evs.len() as int,
                                            );
                                        }
                                        return Err(XLinkFormatError::ExtendedInsideOfExtendedError);
                                    },
                                    XlinkElement::Locator(le) => {
                                        let XlinkLocatorElement { href, role } = le;
                                        let verbatim = XLinkLink {
                                            url: href,
                                            location: pos,
                                            kind: XLinkLinkKind::Extended,
                                        };
                                        proof {
                                            lemma_xlink_links_view_push(collector@, verbatim);
                                        }
                                        collector.push(verbatim);
                                        let mut links = scrape_from_option_string(
                                            role,
                                            XLinkLinkKind::Role,
                                            pos,
                                        );
                                        proof {
                                            lemma_xlink_links_view_concat(collector@, links@);
                                            assert(s.links.push(
                                                XLinkLinkV {
                                                    url: href@,
                                                    location: pos,
                                                    kind: XLinkLinkKind::Extended,
                                                },
                                            ) + xlink_links_view(links@) =~= s.links + locator_links(
                                                href@,
                                                opt_str_view(role),
                                                pos,
                                            ));
                                        }
                                        collector.append(&mut links);
                                    },
                                    XlinkElement::Arc(ae) => {
                                        let mut links = scrape_from_option_string(
                                            ae.arcrole,
                                            XLinkLinkKind::ArcRole,
                                            pos,
                                        );
                                        proof {
                                            lemma_xlink_links_view_concat(collector@, links@);
                                        }
                                        collector.append(&mut links);
                                    },
                                    XlinkElement::Resource(re) => {
                                        let mut links = scrape_from_option_string(
                                            re.role,
                                            XLinkLinkKind::Role,
                                            pos,
                                        );
                                        proof {
                                            lemma_xlink_links_view_concat(collector@, links@);
                                        }
                                        collector.append(&mut links);
                                    },
                                    XlinkElement::Title => {},
                                }
                            }
                        },
                    }
                },
                MarkupEventKind::EndElement { name } => {
                    let leaving = match &inside {
                        Some(extended_name) => qname_matches(name, extended_name),
                        None => false,
                    };
                    if leaving {
                        inside = None;
                    }
                },
                MarkupEventKind::EndDocument => {
                    if matches!(inside, None) {
                        done = true;
                    }
                },
                _ => {},
            }
        }
    }
    Ok(collector)
}

/// Scrapes the linking vocabulary of a whole document given as bytes:
/// exactly the XLink scrape of the event sequence the tokenizer produces
/// for these bytes; the tokenizer's failure aborts the scrape with its
/// message and no links.
pub fn scrape(bytes: &[u8]) -> (r: Result<Vec<XLinkLink>, XLinkFormatError>)
    ensures
        (tokenizer_outcome(bytes@).1 is None ==> xlink_result_view(r) == spec_xlink_scrape(
            tokenizer_outcome(bytes@).0,
        )),
        (tokenizer_outcome(bytes@).1 matches Some(m) ==> (r matches Err(e) && e matches
            XLinkFormatError::XmlReaderError(msg) && msg@ == m)),
{
    match collect_events(bytes) {
        Err(message) => Err(XLinkFormatError::XmlReaderError(message)),
        Ok(events) => scrape_from_events(&events),
    }
}

// ------------------------------------------------------------------
// Laws of the nesting rules
// ------------------------------------------------------------------

/// Whether a harvested reference is justified by the URL matcher: every
/// link except a locator's verbatim `href` (kind `Extended`) carries one
/// of the matches the matcher found in the attribute value it was scanned
/// from.
pub open spec fn xlink_link_is_justified(l: XLinkLinkV) -> bool {
    l.kind == XLinkLinkKind::Extended || exists|text: Seq<char>, j: int|
        0 <= j < found_urls(text).len() && (#[trigger] found_urls(text)[j]).0 == l.url
}

/// The links of one scanned text carry the given kind and the matched
/// substrings.
proof fn lemma_xlink_url_links_upto_shape(
    ms: Seq<(Seq<char>, int)>,
    n: int,
    pos: TextPosition,
    kind: XLinkLinkKind,
)
    ensures
        xlink_url_links_upto(ms, n, pos, kind).len() == if n <= 0 { 0int } else { n },
        forall|k: int| 0 <= k < xlink_url_links_upto(ms, n, pos, kind).len()
            ==> (#[trigger] xlink_url_links_upto(ms, n, pos, kind)[k]).kind == kind,
        forall|k: int| 0 <= k < xlink_url_links_upto(ms, n, pos, kind).len()
            ==> (#[trigger] xlink_url_links_upto(ms, n, pos, kind)[k]).url == ms[k].0,
    decreases n,
{
    if n > 0 {
        lemma_xlink_url_links_upto_shape(ms, n - 1, pos, kind);
    }
}

/// Every link of an optional attribute value is justified.
proof fn lemma_opt_url_links_justified(text: Option<Seq<char>>, pos: TextPosition, kind: XLinkLinkKind)
    ensures
        forall|k: int| 0 <= k < opt_url_links(text, pos, kind).len()
            ==> xlink_link_is_justified(#[trigger] opt_url_links(text, pos, kind)[k]),
{
    match text {
        None => {},
        Some(t) => {
            let ms = found_urls(t);
            lemma_xlink_url_links_upto_shape(ms, ms.len() as int, pos, kind);
            assert forall|k: int| 0 <= k < opt_url_links(text, pos, kind).len()
                implies xlink_link_is_justified(#[trigger] opt_url_links(text, pos, kind)[k]) by {
                assert(opt_url_links(text, pos, kind)[k].url == ms[k].0);
            }
        },
    }
}

/// Concatenation keeps every link justified.
proof fn lemma_xlink_justified_concat(a: Seq<XLinkLinkV>, b: Seq<XLinkLinkV>)
    requires
        forall|k: int| 0 <= k < a.len() ==> xlink_link_is_justified(#[trigger] a[k]),
        forall|k: int| 0 <= k < b.len() ==> xlink_link_is_justified(#[trigger] b[k]),
    ensures
        forall|k: int| 0 <= k < (a + b).len() ==> xlink_link_is_justified(#[trigger] (a + b)[k]),
{
    assert forall|k: int| 0 <= k < (a + b).len() implies xlink_link_is_justified(
        #[trigger] (a + b)[k],
    ) by {
        if k < a.len() {
            assert((a + b)[k] == a[k]);
        } else {
            assert((a + b)[k] == b[k - a.len()]);
        }
    }
}

/// Every link collected while the events are walked is justified.
proof fn lemma_xlink_state_links_justified(events: Seq<MarkupEventV>, n: int)
    requires
        0 <= n <= events.len(),
    ensures
        forall|k: int| 0 <= k < xlink_state_at(events, n).links.len()
            ==> xlink_link_is_justified(#[trigger] xlink_state_at(events, n).links[k]),
    decreases n,
{
    if n > 0 {
        lemma_xlink_state_links_justified(events, n - 1);
        let s = xlink_state_at(events, n - 1);
        let ev = events[n - 1];
        if !(s.done || s.error is Some) {
            match ev.kind {
                MarkupEventKindV::StartElement { name, attributes, namespaces } => {
                    match spec_classify(name, attributes) {
                        Ok(Some(el)) => {
                            let pos = ev.position;
                            match s.mode {
                                XLinkMode::Idle => match el {
                                    XlinkElementV::Simple { href, role, arcrole, title } => {
                                        lemma_opt_url_links_justified(href, pos, XLinkLinkKind::Simple);
                                        lemma_opt_url_links_justified(arcrole, pos, XLinkLinkKind::ArcRole);
                                        lemma_opt_url_links_justified(role, pos, XLinkLinkKind::Role);
                                        lemma_xlink_justified_concat(
                                            opt_url_links(href, pos, XLinkLinkKind::Simple),
                                            opt_url_links(arcrole, pos, XLinkLinkKind::ArcRole),
                                        );
                                        lemma_xlink_justified_concat(
                                            opt_url_links(href, pos, XLinkLinkKind::Simple)
                                                + opt_url_links(arcrole, pos, XLinkLinkKind::ArcRole),
                                            opt_url_links(role, pos, XLinkLinkKind::Role),
                                        );
                                        lemma_xlink_justified_concat(
                                            s.links,
                                            simple_links(href, role, arcrole, pos),
                                        );
                                    },
                                    XlinkElementV::Extended { role, name: extended_name } => {
                                        lemma_opt_url_links_justified(role, pos, XLinkLinkKind::Role);
                                        lemma_xlink_justified_concat(
                                            s.links,
                                            opt_url_links(role, pos, XLinkLinkKind::Role),
                                        );
                                    },
                                    _ => {},
                                },
                                XLinkMode::Inside(_) => match el {
                                    XlinkElementV::Locator { href, role } => {
                                        lemma_opt_url_links_justified(role, pos, XLinkLinkKind::Role);
                                        lemma_xlink_justified_concat(
                                            seq![
                                                XLinkLinkV {
                                                    url: href,
                                                    location: pos,
                                                    kind: XLinkLinkKind::Extended,
                                                },
                                            ],
                                            opt_url_links(role, pos, XLinkLinkKind::Role),
                                        );
                                        lemma_xlink_justified_concat(
                                            s.links,
                                            locator_links(href, role, pos),
                                        );
                                    },
                                    XlinkElementV::Arc { arcrole } => {
                                        lemma_opt_url_links_justified(arcrole, pos, XLinkLinkKind::ArcRole);
                                        lemma_xlink_justified_concat(
                                            s.links,
                                            opt_url_links(arcrole, pos, XLinkLinkKind::ArcRole),
                                        );
                                    },
                                    XlinkElementV::Resource { role } => {
                                        lemma_opt_url_links_justified(role, pos, XLinkLinkKind::Role);
                                        lemma_xlink_justified_concat(
                                            s.links,
                                            opt_url_links(role, pos, XLinkLinkKind::Role),
                                        );
                                    },
                                    _ => {},
                                },
                            }
                        },
                        _ => {},
                    }
                },
                _ => {},
            }
        }
    }
}

/// A linking attribute whose value is not URL-shaped produces no link:
/// every harvested reference except a locator's verbatim `href` carries
/// one of the matches the URL matcher found in the value it was scanned
/// from.
pub proof fn lemma_xlink_no_link_without_url_shape(events: Seq<MarkupEventV>)
    ensures
        spec_xlink_scrape(events) matches Ok(links) ==> forall|k: int|
            0 <= k < links.len() ==> xlink_link_is_justified(#[trigger] links[k]),
{
    lemma_xlink_state_links_justified(events, events.len() as int);
}

/// How an event classifies: only a start element can carry a vocabulary
/// element; every other event counts as no linking element.
pub open spec fn event_classification(ev: MarkupEventV) -> Result<
    Option<XlinkElementV>,
    XLinkFormatErrorV,
> {
    match ev.kind {
        MarkupEventKindV::StartElement { name, attributes, namespaces } => spec_classify(
            name,
            attributes,
        ),
        _ => Ok(None),
    }
}

/// Whether an event carries no linking-vocabulary element.
pub open spec fn event_is_nonlinking(ev: MarkupEventV) -> bool {
    event_classification(ev) == Ok::<Option<XlinkElementV>, XLinkFormatErrorV>(None)
}

/// Along a stream of non-linking events the machine never leaves its
/// initial mode, collects nothing, and records no error.
proof fn lemma_nonlinking_state(events: Seq<MarkupEventV>, n: int)
    requires
        0 <= n <= events.len(),
        forall|i: int| 0 <= i < events.len() ==> event_is_nonlinking(#[trigger] events[i]),
    ensures
        xlink_state_at(events, n).mode is Idle,
        xlink_state_at(events, n).links == Seq::<XLinkLinkV>::empty(),
        xlink_state_at(events, n).error is None,
    decreases n,
{
    if n > 0 {
        lemma_nonlinking_state(events, n - 1);
        assert(event_is_nonlinking(events[n - 1]));
    }
}

/// A well-formed document with no linking-vocabulary element scrapes to
/// the empty list and never errors.
pub proof fn lemma_no_linking_elements_yields_nothing(events: Seq<MarkupEventV>)
    requires
        forall|i: int| 0 <= i < events.len() ==> event_is_nonlinking(#[trigger] events[i]),
    ensures
        spec_xlink_scrape(events) == Ok::<Seq<XLinkLinkV>, XLinkFormatErrorV>(Seq::empty()),
{
    lemma_nonlinking_state(events, events.len() as int);
}

/// A `locator` element met at the top level always fails the whole scrape
/// with the corresponding error; no links are returned.
pub proof fn lemma_locator_outside_extended_fails(events: Seq<MarkupEventV>, i: int)
    requires
        0 <= i < events.len(),
        xlink_state_at(events, i).mode is Idle,
        !xlink_state_at(events, i).done,
        xlink_state_at(events, i).error is None,
        event_classification(events[i]) matches Ok(el) && el matches Some(e) && e is Locator,
    ensures
        spec_xlink_scrape(events) == Err::<Seq<XLinkLinkV>, XLinkFormatErrorV>(
            XLinkFormatErrorV::LocatorOutsideOfExtendedError,
        ),
{
    assert(xlink_state_at(events, i + 1).error == Some(
        XLinkFormatErrorV::LocatorOutsideOfExtendedError,
    ));
    lemma_xlink_error_stays(events, i + 1, events.len() as int);
}

/// An `arc` element met at the top level always fails the whole scrape
/// with the corresponding error; no links are returned.
pub proof fn lemma_arc_outside_extended_fails(events: Seq<MarkupEventV>, i: int)
    requires
        0 <= i < events.len(),
        xlink_state_at(events, i).mode is Idle,
        !xlink_state_at(events, i).done,
        xlink_state_at(events, i).error is None,
        event_classification(events[i]) matches Ok(el) && el matches Some(e) && e is Arc,
    ensures
        spec_xlink_scrape(events) == Err::<Seq<XLinkLinkV>, XLinkFormatErrorV>(
            XLinkFormatErrorV::ArcOutsideOfExtendedError,
        ),
{
    assert(xlink_state_at(events, i + 1).error == Some(
        XLinkFormatErrorV::ArcOutsideOfExtendedError,
    ));
    lemma_xlink_error_stays(events, i + 1, events.len() as int);
}

/// A `resource` element met at the top level always fails the whole
/// scrape with the corresponding error; no links are returned.
pub proof fn lemma_resource_outside_extended_fails(events: Seq<MarkupEventV>, i: int)
    requires
        0 <= i < events.len(),
        xlink_state_at(events, i).mode is Idle,
        !xlink_state_at(events, i).done,
        xlink_state_at(events, i).error is None,
        event_classification(events[i]) matches Ok(el) && el matches Some(e) && e is Resource,
    ensures
        spec_xlink_scrape(events) == Err::<Seq<XLinkLinkV>, XLinkFormatErrorV>(
            XLinkFormatErrorV::ResourceOutsideOfExtendedError,
        ),
{
    assert(xlink_state_at(events, i + 1).error == Some(
        XLinkFormatErrorV::ResourceOutsideOfExtendedError,
    ));
    lemma_xlink_error_stays(events, i + 1, events.len() as int);
}

/// A `simple` element met directly inside an `extended` element always
/// fails the whole scrape with the corresponding error; no links are
/// returned.
pub proof fn lemma_simple_inside_extended_fails(events: Seq<MarkupEventV>, i: int)
    requires
        0 <= i < events.len(),
        xlink_state_at(events, i).mode is Inside,
        !xlink_state_at(events, i).done,
        xlink_state_at(events, i).error is None,
        event_classification(events[i]) matches Ok(el) && el matches Some(e) && e is Simple,
    ensures
        spec_xlink_scrape(events) == Err::<Seq<XLinkLinkV>, XLinkFormatErrorV>(
            XLinkFormatErrorV::SimpleInsideOfExtendedError,
        ),
{
    assert(xlink_state_at(events, i + 1).error == Some(
        XLinkFormatErrorV::SimpleInsideOfExtendedError,
    ));
    lemma_xlink_error_stays(events, i + 1, events.len() as int);
}

/// An `extended` element met directly inside an `extended` element always
/// fails the whole scrape with the corresponding error; no links are
/// returned.
pub proof fn lemma_extended_inside_extended_fails(events: Seq<MarkupEventV>, i: int)
    requires
        0 <= i < events.len(),
        xlink_state_at(events, i).mode is Inside,
        !xlink_state_at(events, i).done,
        xlink_state_at(events, i).error is None,
        event_classification(events[i]) matches Ok(el) && el matches Some(e) && e is Extended,
    ensures
        spec_xlink_scrape(events) == Err::<Seq<XLinkLinkV>, XLinkFormatErrorV>(
            XLinkFormatErrorV::ExtendedInsideOfExtendedError,
        ),
{
    assert(xlink_state_at(events, i + 1).error == Some(
        XLinkFormatErrorV::ExtendedInsideOfExtendedError,
    ));
    lemma_xlink_error_stays(events, i + 1, events.len() as int);
}

} // verus!
