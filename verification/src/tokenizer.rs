//! The trusted boundary to the tokenizer: the `xml` crate's pull parser.
//!
//! The parser's whole output on given bytes is deterministic, so it is
//! named: `tokenizer_outcome` stands for the events the parser produces
//! before it either ends the document or fails, together with the failure's
//! message if there is one.  Everything here either declares a type of that
//! crate or wraps one call into it; the scrapers consume only the
//! plain-valued events that [`collect_events`] hands back.

use vstd::prelude::*;
use crate::TextPosition;
use crate::events::{
    MarkupEvent, MarkupEventKind, MarkupEventV, NamespaceBinding, QualifiedName, XmlAttribute,
    events_view,
};

verus! {

/// What the tokenizer yields for given bytes: the events it produces, in
/// order, and the message of its failure when it fails instead of ending
/// the document.  When it does not fail, the last event is the
/// end-of-document sentinel.  The tokenizer parses an owned copy of the
/// bytes deterministically, so this is a function of the bytes alone.
pub uninterp spec fn tokenizer_outcome(bytes: Seq<u8>) -> (Seq<MarkupEventV>, Option<Seq<char>>);

/// The `xml` crate's pull parser, reading from an owned copy of the input
/// bytes.  Verus refuses the parser type's own `Read` bound, so the parser
/// sits opaquely in this struct and is touched only by the wrappers below.
#[verifier::external_body]
struct RawTokenizer {
    inner: xml::reader::EventReader<std::io::Cursor<Vec<u8>>>,
}

/// The pull parser together with its model: which bytes it reads and how
/// many events it has handed out.
pub struct Tokenizer {
    raw: RawTokenizer,
    bytes: Ghost<Seq<u8>>,
    consumed: Ghost<int>,
}

impl Tokenizer {
    /// The bytes the parser was built over.
    pub closed spec fn bytes(&self) -> Seq<u8> {
        self.bytes@
    }

    /// How many events it has handed out so far.
    pub closed spec fn consumed(&self) -> int {
        self.consumed@
    }
}

/// The `xml` crate's event type.
#[verifier::external_type_specification]
#[verifier::external_body]
pub struct ExXmlEvent(xml::reader::XmlEvent);

/// The `xml` crate's owned qualified name.
#[verifier::external_type_specification]
#[verifier::external_body]
pub struct ExOwnedName(xml::name::OwnedName);

/// The `xml` crate's owned attribute.
#[verifier::external_type_specification]
#[verifier::external_body]
pub struct ExOwnedAttribute(xml::attribute::OwnedAttribute);

/// The `xml` crate's namespace mapping.
#[verifier::external_type_specification]
#[verifier::external_body]
pub struct ExNamespace(xml::namespace::Namespace);

/// Relies on `xml::ParserConfig::create_reader`: makes a pull parser that
/// reads the given bytes and reports comments.
#[verifier::external_body]
fn raw_from_bytes(bytes: &[u8]) -> RawTokenizer {
    let config = xml::ParserConfig::new().ignore_comments(false);
    RawTokenizer { inner: config.create_reader(std::io::Cursor::new(bytes.to_vec())) }
}

/// A fresh parser over the bytes, with nothing consumed yet.
fn reader_from_bytes(bytes: &[u8]) -> (r: Tokenizer)
    ensures
        r.bytes() == bytes@,
        r.consumed() == 0,
{
    Tokenizer { raw: raw_from_bytes(bytes), bytes: Ghost(bytes@), consumed: Ghost(0) }
}

/// Relies on `xml::common::Position::position` for `EventReader`: reports
/// the position of the last event the reader produced.
#[verifier::external_body]
fn reader_position(r: &RawTokenizer) -> TextPosition {
    let p = xml::common::Position::position(&r.inner);
    TextPosition { row: p.row, column: p.column }
}

/// Relies on the field layout of `xml::name::OwnedName`: local name,
/// optional namespace URI, optional prefix.
#[verifier::external_body]
fn qname_value(n: &xml::name::OwnedName) -> QualifiedName {
    QualifiedName {
        local_name: n.local_name.clone(),
        namespace: n.namespace.clone(),
        prefix: n.prefix.clone(),
    }
}

/// Relies on the field layout of `xml::attribute::OwnedAttribute`: a name
/// and a raw value.
#[verifier::external_body]
fn attrs_value(attrs: &Vec<xml::attribute::OwnedAttribute>) -> Vec<XmlAttribute> {
    attrs
        .iter()
        .map(|a| XmlAttribute { name: qname_value(&a.name), value: a.value.clone() })
        .collect()
}

/// Relies on `xml::namespace::Namespace` being a map from prefixes to
/// namespace URIs; its iteration order is by prefix.
#[verifier::external_body]
fn bindings_value(ns: &xml::namespace::Namespace) -> Vec<NamespaceBinding> {
    ns.0
        .iter()
        .map(|(p, u)| NamespaceBinding { prefix: p.clone(), uri: u.clone() })
        .collect()
}

/// Relies on the variants of `xml::reader::XmlEvent`; each arm only moves
/// the variant's fields over.
#[verifier::external_body]
fn event_kind_value(ev: xml::reader::XmlEvent) -> MarkupEventKind {
    match ev {
        xml::reader::XmlEvent::StartElement { name, attributes, namespace } => MarkupEventKind::StartElement {
            name: qname_value(&name),
            attributes: attrs_value(&attributes),
            namespaces: bindings_value(&namespace),
        },
        xml::reader::XmlEvent::EndElement { name } => MarkupEventKind::EndElement { name: qname_value(&name) },
        xml::reader::XmlEvent::Characters(text) => MarkupEventKind::Characters { text },
        xml::reader::XmlEvent::CData(text) => MarkupEventKind::CData { text },
        xml::reader::XmlEvent::Comment(text) => MarkupEventKind::Comment { text },
        xml::reader::XmlEvent::EndDocument => MarkupEventKind::EndDocument,
        _ => MarkupEventKind::Other,
    }
}

/// Relies on `xml::reader::EventReader::next` and the position it reports
/// for each event: the calls walk `tokenizer_outcome(bytes)` in order; the
/// end-of-document sentinel comes last and only when the tokenizer does
/// not fail, and both the sentinel and a failure repeat on every later
/// call, as the crate documents.
#[verifier::external_body]
fn next_event(t: &mut Tokenizer) -> (r: Result<MarkupEvent, String>)
    ensures
        final(t).bytes() == old(t).bytes(),
        final(t).consumed() == old(t).consumed() + 1,
        (0 <= old(t).consumed() < tokenizer_outcome(old(t).bytes()).0.len() ==> (r matches Ok(ev)
            && ev@ == tokenizer_outcome(old(t).bytes()).0[old(t).consumed()])),
        (0 <= old(t).consumed() && (old(t).consumed() < tokenizer_outcome(
            old(t).bytes(),
        ).0.len() - 1 || (old(t).consumed() < tokenizer_outcome(old(t).bytes()).0.len()
            && tokenizer_outcome(old(t).bytes()).1 is Some)) ==> (r matches Ok(ev) && !(ev@.kind
            is EndDocument))),
        (old(t).consumed() >= tokenizer_outcome(old(t).bytes()).0.len() ==> (tokenizer_outcome(
            old(t).bytes(),
        ).1 matches Some(m) ==> (r matches Err(msg) && msg@ == m))),
        (old(t).consumed() >= tokenizer_outcome(old(t).bytes()).0.len() && tokenizer_outcome(
            old(t).bytes(),
        ).1 is None ==> (r matches Ok(ev) && tokenizer_outcome(old(t).bytes()).0.len() > 0 && ev@
            == tokenizer_outcome(old(t).bytes()).0.last() && ev@.kind is EndDocument)),
{
    match t.raw.inner.next() {
        Ok(raw_event) => {
            let kind = event_kind_value(raw_event);
            let position = reader_position(&t.raw);
            Ok(MarkupEvent { position, kind })
        },
        Err(e) => Err(e.to_string()),
    }
}

/// Runs the tokenizer over the bytes and collects its events up to and
/// including the end-of-document sentinel: exactly the events of
/// `tokenizer_outcome`, or the tokenizer's failure message with nothing
/// collected.
pub fn collect_events(bytes: &[u8]) -> (r: Result<Vec<MarkupEvent>, String>)
    ensures
        (r matches Ok(events) ==> tokenizer_outcome(bytes@).1 is None && events_view(events@)
            == tokenizer_outcome(bytes@).0),
        (r matches Err(m) ==> tokenizer_outcome(bytes@).1 matches Some(f) && m@ == f),
{
    let ghost evs = tokenizer_outcome(bytes@).0;
    let ghost fail = tokenizer_outcome(bytes@).1;
    let mut reader = reader_from_bytes(bytes);
    let mut events: Vec<MarkupEvent> = Vec::new();
    proof {
        assert(events_view(events@) =~= evs.take(0));
    }
    loop
        invariant
            reader.bytes() == bytes@,
            0 <= reader.consumed() <= evs.len(),
            events@.len() == reader.consumed(),
            events_view(events@) == evs.take(reader.consumed()),
            forall|k: int| 0 <= k < events@.len() ==> !((#[trigger] events@[k])@.kind
                is EndDocument),
        decreases evs.len() + 1 - reader.consumed(),
    {
        let ghost before = reader.consumed();
        match next_event(&mut reader) {
            Err(message) => {
                return Err(message);
            },
            Ok(ev) => {
                let is_end = matches!(ev.kind, MarkupEventKind::EndDocument);
                proof {
                    if before >= evs.len() {
                        // only the sentinel repeats here, and it was never
                        // collected before
                        assert(fail is None && evs.len() > 0 && ev@ == evs.last());
                        assert(!(events@[evs.len() - 1]@.kind is EndDocument));
                        assert(events_view(events@)[evs.len() - 1] == evs.last());
                        assert(false);
                    }
                    assert(ev@ == evs[before]);
                    lemma_events_view_push(events@, ev);
                    assert(events_view(events@).push(ev@) =~= evs.take(before + 1));
                }
                events.push(ev);
                if is_end {
                    proof {
                        assert(before == evs.len() - 1 && fail is None);
                        assert(evs.take(before + 1) =~= evs);
                    }
                    return Ok(events);
                }
            },
        }
    }
}

/// Pushing an event commutes with taking views.
proof fn lemma_events_view_push(s: Seq<MarkupEvent>, x: MarkupEvent)
    ensures
        events_view(s.push(x)) == events_view(s).push(x@),
{
    assert(events_view(s.push(x)) =~= events_view(s).push(x@));
}

} // verus!
