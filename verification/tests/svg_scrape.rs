use link_scraper::xml::svg::{SvgLinkType, scrape};

fn sample_svg_document() -> Vec<u8> {
    let doc = "<?xml version=\"1.0\"?>\n<svg xmlns=\"http://www.w3.org/2000/svg\" xmlns:xlink=\"http://www.w3.org/1999/xlink\">\n  <a xlink:href=\"https://one.test.com\"><text>https://two.test.com</text></a>\n  <image xlink:href=\"https://three.test.com\"/>\n  <!-- https://four.test.com -->\n  <script><![CDATA[fetch(\"https://five.test.com\");]]></script>\n  <a href=\"https://six.test.com\">x</a>\n  <text>see https://seven.test.com and https://eight.test.com</text>\n</svg>\n";
    doc.as_bytes().to_vec()
}

#[test]
fn scrape_svg_test() {
    let links = scrape(&sample_svg_document()).unwrap();
    println!("{:?}", links);
    assert_eq!(links.len(), 10)
}

#[test]
fn svg_relabels_each_context() {
    let links = scrape(&sample_svg_document()).unwrap();
    assert!(links
        .iter()
        .any(|l| l.url == "https://one.test.com" && matches!(l.kind, SvgLinkType::Attribute(_))));
    assert!(links
        .iter()
        .any(|l| l.url == "https://two.test.com" && matches!(l.kind, SvgLinkType::Text)));
    assert!(links
        .iter()
        .any(|l| l.url == "https://four.test.com" && matches!(l.kind, SvgLinkType::Comment)));
    assert!(links
        .iter()
        .any(|l| l.url == "https://five.test.com" && matches!(l.kind, SvgLinkType::Script)));
    assert!(links
        .iter()
        .any(|l| l.url == "http://www.w3.org/2000/svg"
            && matches!(l.kind, SvgLinkType::NameSpace(_))));
}
