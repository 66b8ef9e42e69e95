use link_scraper::xml::{XmlLinkKind, XmlScrapingError, scrape, scrape_from_href_tags, scrape_from_events};
use link_scraper::events::{MarkupEvent, MarkupEventKind};
use link_scraper::TextPosition;

fn sample_document() -> Vec<u8> {
    let doc = "<?xml version=\"1.0\" encoding=\"utf-8\"?>\n<root xmlns:doc=\"http://www.w3.org/XML/1998/namespace\">\n  <a href=\"https://attribute.test.com\">anchor</a>\n  <!-- see https://comment.test.com for details -->\n  <p>read https://plaintext.test.com now</p>\n  <script><![CDATA[var u = \"https://cdata.test.com\";]]></script>\n</root>\n";
    doc.as_bytes().to_vec()
}

#[test]
fn scrape_hrefs_test() {
    let links = scrape_from_href_tags(&sample_document()).unwrap();
    println!("{:?}", links);
    assert!(links.iter().any(|it| it.url == "https://attribute.test.com"
        && matches!(it.kind, XmlLinkKind::Attribute(_))));
}

#[test]
fn scrape_all_test() {
    let links = scrape(&sample_document()).unwrap();
    println!("{:?}", links);
    assert!(links.iter().any(|it| it.url == "https://attribute.test.com"
        && matches!(it.kind, XmlLinkKind::Attribute(_))));
    assert!(links.iter().any(|it| it.url == "https://plaintext.test.com"
        && matches!(it.kind, XmlLinkKind::PlainText(_))));
    assert!(links.iter().any(
        |it| it.url == "https://cdata.test.com" && matches!(it.kind, XmlLinkKind::CData(_))
    ));
    assert!(links
        .iter()
        .any(|it| it.url == "http://www.w3.org/XML/1998/namespace"
            && matches!(it.kind, XmlLinkKind::NameSpace(_))));
}

#[test]
fn scrape_round_trip_sample_has_one_link_per_context() {
    let links = scrape(&sample_document()).unwrap();
    let attributes = links.iter().filter(|l| matches!(l.kind, XmlLinkKind::Attribute(_))).count();
    let comments = links.iter().filter(|l| matches!(l.kind, XmlLinkKind::Comment)).count();
    let texts = links.iter().filter(|l| matches!(l.kind, XmlLinkKind::PlainText(_))).count();
    let cdata = links.iter().filter(|l| matches!(l.kind, XmlLinkKind::CData(_))).count();
    let namespaces = links.iter().filter(|l| matches!(l.kind, XmlLinkKind::NameSpace(_))).count();
    assert_eq!(attributes, 1);
    assert_eq!(comments, 1);
    assert_eq!(texts, 1);
    assert_eq!(cdata, 1);
    assert_eq!(namespaces, 1);
    assert_eq!(links.len(), 5);
}

#[test]
fn scrape_href_filter_drops_other_attributes() {
    let doc = "<?xml version=\"1.0\"?>\n<r><a href=\"https://kept.test.com\" src=\"https://dropped.test.com\">x</a></r>\n"
    .as_bytes()
    .to_vec();
    let links = scrape_from_href_tags(&doc).unwrap();
    assert_eq!(links.len(), 1);
    assert_eq!(links[0].url, "https://kept.test.com");
}

#[test]
fn scrape_attribute_without_url_shape_emits_nothing() {
    let doc = b"<?xml version=\"1.0\"?>\n<r><a href=\"just words, no reference\">x</a></r>\n"
        .to_vec();
    let links = scrape(&doc).unwrap();
    println!("{:?}", links);
    assert!(links.is_empty());
}

#[test]
fn scrape_namespace_reported_once_at_first_declaration() {
    let doc = "<?xml version=\"1.0\"?>\n<r xmlns:a=\"https://namespace.test.com/ns\">\n  <c xmlns:a=\"https://namespace.test.com/ns\"><d xmlns:a=\"https://namespace.test.com/ns\"/></c>\n</r>\n"
    .as_bytes()
    .to_vec();
    let links = scrape(&doc).unwrap();
    let namespaces: Vec<_> = links
        .iter()
        .filter(|l| matches!(l.kind, XmlLinkKind::NameSpace(_)))
        .collect();
    assert_eq!(namespaces.len(), 1);
    assert_eq!(namespaces[0].url, "https://namespace.test.com/ns");
    // the first declaration stands on the second line, which the tokenizer
    // counts from zero
    assert_eq!(namespaces[0].location.row, 1);
}

#[test]
fn scrape_corrupt_stream_surfaces_tokenizer_error() {
    let doc = b"<root><a href=\"https://gone.test.com\">".to_vec();
    let result = scrape(&doc);
    assert!(matches!(result, Err(XmlScrapingError::XmlReaderError(_))));
}

#[test]
fn scrape_empty_input_is_a_tokenizer_error() {
    let result = scrape(&Vec::new());
    assert!(matches!(result, Err(XmlScrapingError::XmlReaderError(_))));
}

#[test]
fn scrape_from_events_of_empty_stream_is_empty() {
    let events: Vec<MarkupEvent> = Vec::new();
    let links = scrape_from_events(&events);
    assert!(links.is_empty());
}

#[test]
fn scrape_from_events_ignores_events_after_end_of_document() {
    let pos = TextPosition { row: 0, column: 0 };
    let events = vec![
        MarkupEvent { position: pos, kind: MarkupEventKind::EndDocument },
        MarkupEvent {
            position: pos,
            kind: MarkupEventKind::Characters { text: "https://late.test.com".to_string() },
        },
    ];
    let links = scrape_from_events(&events);
    assert!(links.is_empty());
}

#[test]
fn scrape_from_events_reports_characters_with_parent() {
    let pos = TextPosition { row: 3, column: 7 };
    let name = link_scraper::events::QualifiedName {
        local_name: "p".to_string(),
        namespace: None,
        prefix: None,
    };
    let events = vec![
        MarkupEvent {
            position: pos,
            kind: MarkupEventKind::StartElement {
                name,
                attributes: Vec::new(),
                namespaces: Vec::new(),
            },
        },
        MarkupEvent {
            position: pos,
            kind: MarkupEventKind::Characters { text: "go to https://inline.test.com".to_string() },
        },
    ];
    let links = scrape_from_events(&events);
    assert_eq!(links.len(), 1);
    assert_eq!(links[0].url, "https://inline.test.com");
    assert_eq!(links[0].location, pos);
    match &links[0].kind {
        XmlLinkKind::PlainText(parent) => {
            assert_eq!(
                parent.parent_tag_name.as_ref().map(|q| q.local_name.as_str()),
                Some("p")
            );
        },
        other => panic!("unexpected kind: {:?}", other),
    }
}
