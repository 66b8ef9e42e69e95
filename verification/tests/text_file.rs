use link_scraper::text_file::{TextFileExtractionError, extract_links};

fn sample_text_file() -> Vec<u8> {
    let doc = "<?xml version=\"1.0\"?>\n<note>see https://example.test.com/page for details</note>\n";
    doc.as_bytes().to_vec()
}

#[test]
fn text_file_test() {
    let links = extract_links(&sample_text_file()).unwrap();
    println!("{:?}", links);
    assert_eq!(links.len(), 1)
}

#[test]
fn text_file_test_from_file() {
    let links = extract_links(&sample_text_file()).unwrap();
    println!("{:?}", links);
    assert_eq!(links.len(), 1)
}

#[test]
fn text_file_url_and_offset_are_exact() {
    let content = b"see https://offset.test.com/x here\n".to_vec();
    let links = extract_links(&content).unwrap();
    assert_eq!(links.len(), 1);
    assert_eq!(links[0].url, "https://offset.test.com/x");
    assert_eq!(links[0].location.line, 1);
    assert_eq!(links[0].location.pos, 4);
}

#[test]
fn text_file_counts_lines() {
    let content = b"nothing here\nhttps://second.test.com\n\nhttps://fourth.test.com tail".to_vec();
    let links = extract_links(&content).unwrap();
    assert_eq!(links.len(), 2);
    assert_eq!(links[0].location.line, 2);
    assert_eq!(links[0].location.pos, 0);
    assert_eq!(links[1].location.line, 4);
    assert_eq!(links[1].location.pos, 0);
}

#[test]
fn text_file_empty_input_gives_no_links() {
    let links = extract_links(&Vec::new()).unwrap();
    assert!(links.is_empty());
}

#[test]
fn text_file_invalid_utf8_is_an_error() {
    let content = vec![b'h', b'i', 0xff, 0xfe, b'\n'];
    let result = extract_links(&content);
    assert!(matches!(result, Err(TextFileExtractionError::IoError(_))));
}
