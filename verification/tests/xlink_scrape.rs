use link_scraper::xml::xlink::{XLinkFormatError, XLinkLinkKind, scrape};

fn sample_xlink_document() -> Vec<u8> {
    let doc = "<?xml version=\"1.0\"?>\n<doc xmlns:xlink=\"http://www.w3.org/1999/xlink\">\n  <crossref xlink:type=\"simple\" xlink:href=\"https://simple.test.com\">note</crossref>\n  <links xlink:type=\"extended\">\n    <loc xlink:type=\"locator\" xlink:href=\"https://extended.test.com/\" xlink:role=\"https://role.test.com/\"/>\n  </links>\n</doc>\n";
    doc.as_bytes().to_vec()
}

#[test]
fn scrape_xlink_test() {
    let links = scrape(&sample_xlink_document()).unwrap();
    println!("{:?}", links);
    assert!(links
        .iter()
        .any(|it| it.url == "https://simple.test.com" && it.kind == XLinkLinkKind::Simple));
    assert!(
        links
            .iter()
            .any(|it| it.url == "https://extended.test.com/"
                && it.kind == XLinkLinkKind::Extended)
    );
    assert!(links
        .iter()
        .any(|it| it.url == "https://role.test.com/" && it.kind == XLinkLinkKind::Role));
}

#[test]
fn scrape_xlink_sample_has_exactly_three_links() {
    let links = scrape(&sample_xlink_document()).unwrap();
    assert_eq!(links.len(), 3);
}

#[test]
fn document_without_linking_vocabulary_yields_nothing() {
    let doc = "<?xml version=\"1.0\"?>\n<doc><a href=\"https://plain.test.com\">see https://text.test.com</a></doc>\n"
    .as_bytes()
    .to_vec();
    let links = scrape(&doc).unwrap();
    assert!(links.is_empty());
}

#[test]
fn simple_attribute_without_url_shape_emits_no_link() {
    let doc = "<?xml version=\"1.0\"?>\n<doc xmlns:xlink=\"http://www.w3.org/1999/xlink\">\n  <c xlink:type=\"simple\" xlink:href=\"not a reference\" xlink:role=\"also nothing\"/>\n</doc>\n"
    .as_bytes()
    .to_vec();
    let links = scrape(&doc).unwrap();
    assert!(links.is_empty());
}

#[test]
fn locator_href_is_taken_verbatim() {
    // a locator's href is not filtered through the URL matcher
    let doc = "<?xml version=\"1.0\"?>\n<doc xmlns:xlink=\"http://www.w3.org/1999/xlink\">\n  <e xlink:type=\"extended\">\n    <l xlink:type=\"locator\" xlink:href=\"plain-words-not-a-url\"/>\n  </e>\n</doc>\n"
    .as_bytes()
    .to_vec();
    let links = scrape(&doc).unwrap();
    assert_eq!(links.len(), 1);
    assert_eq!(links[0].url, "plain-words-not-a-url");
    assert_eq!(links[0].kind, XLinkLinkKind::Extended);
}

fn one_element_document(element: &str) -> Vec<u8> {
    format!(
        "<?xml version=\"1.0\"?>\n<doc xmlns:xlink=\"http://www.w3.org/1999/xlink\">\n{}\n</doc>\n",
        element
    )
    .into_bytes()
}

#[test]
fn locator_outside_extended_fails() {
    let doc = one_element_document(
        "<l xlink:type=\"locator\" xlink:href=\"https://lost.test.com\"/>",
    );
    let result = scrape(&doc);
    assert!(matches!(result, Err(XLinkFormatError::LocatorOutsideOfExtendedError)));
}

#[test]
fn arc_outside_extended_fails() {
    let doc = one_element_document("<a xlink:type=\"arc\"/>");
    let result = scrape(&doc);
    assert!(matches!(result, Err(XLinkFormatError::ArcOutsideOfExtendedError)));
}

#[test]
fn resource_outside_extended_fails() {
    let doc = one_element_document("<r xlink:type=\"resource\"/>");
    let result = scrape(&doc);
    assert!(matches!(result, Err(XLinkFormatError::ResourceOutsideOfExtendedError)));
}

#[test]
fn simple_inside_extended_fails() {
    let doc = one_element_document(
        "<e xlink:type=\"extended\"><s xlink:type=\"simple\"/></e>",
    );
    let result = scrape(&doc);
    assert!(matches!(result, Err(XLinkFormatError::SimpleInsideOfExtendedError)));
}

#[test]
fn extended_inside_extended_fails() {
    let doc = one_element_document(
        "<e xlink:type=\"extended\"><f xlink:type=\"extended\"/></e>",
    );
    let result = scrape(&doc);
    assert!(matches!(result, Err(XLinkFormatError::ExtendedInsideOfExtendedError)));
}

#[test]
fn unknown_type_names_the_offending_value() {
    let doc = one_element_document("<u xlink:type=\"banana\"/>");
    let result = scrape(&doc);
    match result {
        Err(XLinkFormatError::UnknownTypeError(value)) => assert_eq!(value, "banana"),
        other => panic!("unexpected result: {:?}", other),
    }
}

#[test]
fn locator_without_href_names_the_missing_attribute() {
    let doc = one_element_document(
        "<e xlink:type=\"extended\"><l xlink:type=\"locator\"/></e>",
    );
    let result = scrape(&doc);
    match result {
        Err(XLinkFormatError::MissingRequiredAttributeError(name)) => assert_eq!(name, "href"),
        other => panic!("unexpected result: {:?}", other),
    }
}

#[test]
fn second_extended_after_first_closed_is_accepted() {
    let doc = "<?xml version=\"1.0\"?>\n<doc xmlns:xlink=\"http://www.w3.org/1999/xlink\">\n  <e xlink:type=\"extended\"><l xlink:type=\"locator\" xlink:href=\"https://one.test.com/\"/></e>\n  <e xlink:type=\"extended\"><l xlink:type=\"locator\" xlink:href=\"https://two.test.com/\"/></e>\n</doc>\n"
    .as_bytes()
    .to_vec();
    let links = scrape(&doc).unwrap();
    assert_eq!(links.len(), 2);
    assert_eq!(links[0].url, "https://one.test.com/");
    assert_eq!(links[1].url, "https://two.test.com/");
}

#[test]
fn xlink_corrupt_stream_surfaces_tokenizer_error() {
    let doc = b"<doc xmlns:xlink=\"http://www.w3.org/1999/xlink\"><e xlink:type=".to_vec();
    let result = scrape(&doc);
    assert!(matches!(result, Err(XLinkFormatError::XmlReaderError(_))));
}
