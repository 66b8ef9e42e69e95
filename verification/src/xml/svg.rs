//! A relabeling of the generic scrape for SVG documents: the same links,
//! with the contexts renamed to SVG terms (character data becomes `Text`,
//! CDATA becomes `Script`).

use vstd::prelude::*;
use crate::TextPosition;
use crate::events::{AttributeV, XmlAttribute, clone_attribute};
use crate::tokenizer::tokenizer_outcome;
use crate::xml::{
    XmlLink, XmlLinkKind, XmlLinkKindV, XmlLinkV, XmlScrapingError, links_view, spec_scrape,
};

verus! {

/// Why an SVG scrape failed.
#[derive(Debug)]
pub enum SvgScrapingError {
    IoError(String),
    XmlScrapingError(XmlScrapingError),
}

/// The SVG reading of a link's context.
#[derive(Debug)]
pub enum SvgLinkType {
    Attribute(XmlAttribute),
    Comment,
    Text,
    Script,
    NameSpace(String),
}

/// The mathematical value of an [`SvgLinkType`].
#[verifier::ext_equal]
pub ghost enum SvgLinkTypeV {
    Attribute(AttributeV),
    Comment,
    Text,
    Script,
    NameSpace(Seq<char>),
}

impl View for SvgLinkType {
    type V = SvgLinkTypeV;

    open spec fn view(&self) -> SvgLinkTypeV {
        match self {
            SvgLinkType::Attribute(a) => SvgLinkTypeV::Attribute(a@),
            SvgLinkType::Comment => SvgLinkTypeV::Comment,
            SvgLinkType::Text => SvgLinkTypeV::Text,
            SvgLinkType::Script => SvgLinkTypeV::Script,
            SvgLinkType::NameSpace(s) => SvgLinkTypeV::NameSpace(s@),
        }
    }
}

/// A link discovered in an SVG document.
#[derive(Debug)]
pub struct SvgLink {
    pub url: String,
    pub location: TextPosition,
    pub kind: SvgLinkType,
}

/// The mathematical value of an [`SvgLink`].
#[verifier::ext_equal]
pub ghost struct SvgLinkV {
    pub url: Seq<char>,
    pub location: TextPosition,
    pub kind: SvgLinkTypeV,
}

impl View for SvgLink {
    type V = SvgLinkV;

    open spec fn view(&self) -> SvgLinkV {
        SvgLinkV { url: self.url@, location: self.location, kind: self.kind@ }
    }
}

/// A link's place: the file it came from and the position inside it.
#[derive(Debug)]
pub struct SvgLinkLocation {
    pub file: String,
    pub position: TextPosition,
}

/// Sequence of link values.
pub open spec fn svg_links_view(s: Seq<SvgLink>) -> Seq<SvgLinkV> {
    s.map_values(|l: SvgLink| l@)
}

/// How one generic context reads in SVG terms.
pub open spec fn relabel_kind(k: XmlLinkKindV) -> SvgLinkTypeV {
    match k {
        XmlLinkKindV::Attribute(a) => SvgLinkTypeV::Attribute(a),
        XmlLinkKindV::Comment => SvgLinkTypeV::Comment,
        XmlLinkKindV::PlainText(_) => SvgLinkTypeV::Text,
        XmlLinkKindV::CData(_) => SvgLinkTypeV::Script,
        XmlLinkKindV::NameSpace(p) => SvgLinkTypeV::NameSpace(p),
    }
}

/// One relabeled link: same URL, same position, renamed context.
pub open spec fn relabel_link(l: XmlLinkV) -> SvgLinkV {
    SvgLinkV { url: l.url, location: l.location, kind: relabel_kind(l.kind) }
}

/// The first `n` links, relabeled.
pub open spec fn relabel_upto(s: Seq<XmlLinkV>, n: int) -> Seq<SvgLinkV>
    decreases n,
{
    if n <= 0 {
        Seq::empty()
    } else {
        relabel_upto(s, n - 1).push(relabel_link(s[n - 1]))
    }
}

/// A whole scrape, relabeled link by link.
pub open spec fn svg_relabel(s: Seq<XmlLinkV>) -> Seq<SvgLinkV> {
    relabel_upto(s, s.len() as int)
}

/// Pushing a link commutes with taking views.
pub proof fn lemma_svg_links_view_push(s: Seq<SvgLink>, x: SvgLink)
    ensures
        svg_links_view(s.push(x)) == svg_links_view(s).push(x@),
{
    assert(svg_links_view(s.push(x)) =~= svg_links_view(s).push(x@));
}

/// Relabels one generic link into its SVG reading.
fn relabel_xml_link(l: &XmlLink) -> (r: SvgLink)
    ensures
        r@ == relabel_link(l@),
{
    SvgLink {
        url: l.url.clone(),
        location: l.location,
        kind: match &l.kind {
            XmlLinkKind::Attribute(a) => SvgLinkType::Attribute(clone_attribute(a)),
            XmlLinkKind::Comment => SvgLinkType::Comment,
            XmlLinkKind::PlainText(_) => SvgLinkType::Text,
            XmlLinkKind::CData(_) => SvgLinkType::Script,
            XmlLinkKind::NameSpace(p) => SvgLinkType::NameSpace(p.clone()),
        },
    }
}

/// Scrapes an SVG document: the generic scrape of the same bytes, each link
/// relabeled, in the same order; a tokenizer failure is wrapped.
pub fn scrape(bytes: &[u8]) -> (r: Result<Vec<SvgLink>, SvgScrapingError>)
    ensures
        (tokenizer_outcome(bytes@).1 is None ==> (r matches Ok(links) && svg_links_view(links@)
            == svg_relabel(spec_scrape(tokenizer_outcome(bytes@).0)))),
        (tokenizer_outcome(bytes@).1 matches Some(m) ==> (r matches Err(e) && e matches
            SvgScrapingError::XmlScrapingError(inner) && inner matches
            XmlScrapingError::XmlReaderError(msg) && msg@ == m)),
{
    match crate::xml::scrape(bytes) {
        Err(e) => Err(SvgScrapingError::XmlScrapingError(e)),
        Ok(all) => {
            let mut out: Vec<SvgLink> = Vec::new();
            for i in 0..all.len()
                invariant
                    svg_links_view(out@) == relabel_upto(links_view(all@), i as int),
            {
                let relabeled = relabel_xml_link(&all[i]);
                proof {
                    lemma_svg_links_view_push(out@, relabeled);
                }
                out.push(relabeled);
            }
            proof {
                assert(svg_links_view(out@) == svg_relabel(links_view(all@)));
            }
            Ok(out)
        },
    }
}

} // verus!
