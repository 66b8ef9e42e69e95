//! The line-oriented plain-text scraper: splits a byte stream into lines
//! and runs the URL matcher over each line.

use vstd::prelude::*;
use vstd::utf8::{decode_utf8, valid_utf8};
use crate::helpers::{find_urls, found_urls};

verus! {

/// Why a plain-text extraction failed: the bytes of some line were not
/// valid UTF-8 (or, at an outer layer, the source could not be read).
#[derive(Debug)]
pub enum TextFileExtractionError {
    IoError(String),
}

/// Where a link was found: the 1-based line and the byte offset of the
/// match inside that line.
#[derive(Debug)]
pub struct TextFileLinkLocation {
    pub line: usize,
    pub pos: usize,
}

/// A link found in plain text.
#[derive(Debug)]
pub struct TextFileLink {
    pub url: String,
    pub location: TextFileLinkLocation,
}

/// The mathematical value of a [`TextFileLink`].
#[verifier::ext_equal]
pub ghost struct TextFileLinkV {
    pub url: Seq<char>,
    pub line: int,
    pub pos: int,
}

impl View for TextFileLink {
    type V = TextFileLinkV;

    open spec fn view(&self) -> TextFileLinkV {
        TextFileLinkV {
            url: self.url@,
            line: self.location.line as int,
            pos: self.location.pos as int,
        }
    }
}

/// Sequence of link values.
pub open spec fn text_links_view(s: Seq<TextFileLink>) -> Seq<TextFileLinkV> {
    s.map_values(|l: TextFileLink| l@)
}

/// The message carried when a line is not valid UTF-8.
pub open spec fn invalid_utf8_message() -> Seq<char> {
    "stream did not contain valid UTF-8"@
}

/// The index of the first newline byte at or after `from`, or the length
/// when there is none.
pub open spec fn next_newline(bytes: Seq<u8>, from: int) -> int
    decreases bytes.len() - from when 0 <= from <= bytes.len()
{
    if from >= bytes.len() {
        bytes.len() as int
    } else if bytes[from] == 10u8 {
        from
    } else {
        next_newline(bytes, from + 1)
    }
}

/// The links of the first `n` matches found in one line.
pub open spec fn line_links_upto(ms: Seq<(Seq<char>, int)>, n: int, line: int) -> Seq<TextFileLinkV>
    decreases n,
{
    if n <= 0 {
        Seq::empty()
    } else {
        line_links_upto(ms, n - 1, line).push(
            TextFileLinkV { url: ms[n - 1].0, line: line, pos: ms[n - 1].1 },
        )
    }
}

/// The links of one decoded line.
pub open spec fn line_links(text: Seq<char>, line: int) -> Seq<TextFileLinkV> {
    line_links_upto(found_urls(text), found_urls(text).len() as int, line)
}

/// The extraction from `start` on, with lines numbered from `line`: each
/// line (the bytes up to the next newline, the newline itself excluded) is
/// decoded and scanned; a line that is not valid UTF-8 fails the whole
/// extraction.
pub open spec fn spec_extract_from(bytes: Seq<u8>, start: int, line: int) -> Result<
    Seq<TextFileLinkV>,
    Seq<char>,
>
    decreases bytes.len() + 1 - start when 0 <= start <= bytes.len() + 1 via spec_extract_from_decreases
{
    if start >= bytes.len() {
        Ok(Seq::empty())
    } else {
        let end = next_newline(bytes, start);
        let segment = bytes.subrange(start, end);
        if !valid_utf8(segment) {
            Err(invalid_utf8_message())
        } else {
            match spec_extract_from(bytes, end + 1, line + 1) {
                Err(e) => Err(e),
                Ok(rest) => Ok(line_links(decode_utf8(segment), line) + rest),
            }
        }
    }
}

/// Everything the plain-text scraper yields: the links of every line in
/// order, lines numbered from 1, or the message of the first undecodable
/// line.
pub open spec fn spec_extract(bytes: Seq<u8>) -> Result<Seq<TextFileLinkV>, Seq<char>> {
    spec_extract_from(bytes, 0, 1)
}

#[via_fn]
proof fn spec_extract_from_decreases(bytes: Seq<u8>, start: int, line: int) {
    if 0 <= start < bytes.len() {
        lemma_next_newline_bounds(bytes, start);
    }
}

/// `next_newline` stays in range and none of the skipped bytes is a
/// newline.
proof fn lemma_next_newline_bounds(bytes: Seq<u8>, from: int)
    requires
        0 <= from <= bytes.len(),
    ensures
        from <= next_newline(bytes, from) <= bytes.len(),
        next_newline(bytes, from) < bytes.len() ==> bytes[next_newline(bytes, from)] == 10u8,
    decreases bytes.len() - from,
{
    if from < bytes.len() && bytes[from] != 10u8 {
        lemma_next_newline_bounds(bytes, from + 1);
    }
}

/// Pushing a link commutes with taking views.
proof fn lemma_text_links_view_push(s: Seq<TextFileLink>, x: TextFileLink)
    ensures
        text_links_view(s.push(x)) == text_links_view(s).push(x@),
{
    assert(text_links_view(s.push(x)) =~= text_links_view(s).push(x@));
}

/// Relies on `core::str::from_utf8` (and `str::to_owned` on its result):
/// it succeeds exactly on valid UTF-8 and decodes it.
#[verifier::external_body]
fn decode_line(bytes: &Vec<u8>) -> (r: Option<String>)
    ensures
        r is Some <==> valid_utf8(bytes@),
        (r matches Some(s) ==> s@ == decode_utf8(bytes@)),
{
    match core::str::from_utf8(bytes.as_slice()) {
        Ok(s) => Some(s.to_owned()),
        Err(_) => None,
    }
}

/// Extracts every URL-shaped reference from a plain-text byte stream, line
/// by line: exactly the links `spec_extract` describes, or its error when
/// some line is not valid UTF-8.
pub fn extract_links(bytes: &[u8]) -> (r: Result<Vec<TextFileLink>, TextFileExtractionError>)
    requires
        bytes@.len() < usize::MAX,
    ensures
        (r matches Ok(links) ==> spec_extract(bytes@) == Ok::<Seq<TextFileLinkV>, Seq<char>>(
            text_links_view(links@),
        )),
        (r matches Err(e) ==> e matches TextFileExtractionError::IoError(m)
            && spec_extract(bytes@) == Err::<Seq<TextFileLinkV>, Seq<char>>(m@)),
{
    let mut collector: Vec<TextFileLink> = Vec::new();
    let mut start: usize = 0;
    let mut line: usize = 1;
    while start < bytes.len()
        invariant
            0 <= start <= bytes.len() + 1,
            1 <= line <= start + 1,
            bytes@.len() < usize::MAX,
            spec_extract(bytes@) == (match spec_extract_from(bytes@, start as int, line as int) {
                Err(e) => Err::<Seq<TextFileLinkV>, Seq<char>>(e),
                Ok(rest) => Ok::<Seq<TextFileLinkV>, Seq<char>>(text_links_view(collector@) + rest),
            }),
        decreases bytes@.len() + 1 - start,
    {
        proof {
            lemma_next_newline_bounds(bytes@, start as int);
        }
        // find the end of the line
        let mut end: usize = start;
        while end < bytes.len() && bytes[end] != 10u8
            invariant
                start <= end <= bytes.len(),
                next_newline(bytes@, start as int) == next_newline(bytes@, end as int),
            decreases bytes@.len() - end,
        {
            end = end + 1;
        }
        proof {
            assert(next_newline(bytes@, start as int) == end as int);
        }
        // copy the line's bytes
        let mut segment: Vec<u8> = Vec::new();
        let mut k: usize = start;
        while k < end
            invariant
                start <= k <= end <= bytes.len(),
                segment@ == bytes@.subrange(start as int, k as int),
            decreases end - k,
        {
            let byte = bytes[k];
            segment.push(byte);
            proof {
                assert(segment@ =~= bytes@.subrange(start as int, k as int + 1));
            }
            k = k + 1;
        }
        proof {
            assert(segment@ == bytes@.subrange(start as int, end as int));
        }
        // decode and scan it
        match decode_line(&segment) {
            None => {
                return Err(TextFileExtractionError::IoError(
                    "stream did not contain valid UTF-8".to_owned(),
                ));
            },
            Some(text) => {
                let matches_list = find_urls(text.as_str());
                let ghost ms = found_urls(text@);
                let ghost before = collector@;
                proof {
                    assert(text_links_view(collector@) =~= text_links_view(before)
                        + line_links_upto(ms, 0, line as int));
                }
                for i in 0..matches_list.len()
                    invariant
                        text_links_view(collector@) == text_links_view(before) + line_links_upto(
                            ms,
                            i as int,
                            line as int,
                        ),
                {
                    let link = TextFileLink {
                        url: matches_list[i].text.clone(),
                        location: TextFileLinkLocation { line, pos: matches_list[i].start },
                    };
                    proof {
                        assert(matches_list@[i as int]@ == ms[i as int]);
                        lemma_text_links_view_push(collector@, link);
                        assert((text_links_view(before) + line_links_upto(ms, i as int, line as int))
                            .push(link@) =~= text_links_view(before) + line_links_upto(
                            ms,
                            i as int + 1,
                            line as int,
                        ));
                    }
                    collector.push(link);
                }
                proof {
                    assert(text_links_view(collector@) == text_links_view(before) + line_links(
                        text@,
                        line as int,
                    ));
                    assert(text_links_view(before) + line_links(text@, line as int) + (match
                        spec_extract_from(bytes@, end as int + 1, line as int + 1) {
                        Err(_) => Seq::<TextFileLinkV>::empty(),
                        Ok(rest) => rest,
                    }) =~= text_links_view(before) + (line_links(text@, line as int) + (match
                        spec_extract_from(bytes@, end as int + 1, line as int + 1) {
                        Err(_) => Seq::<TextFileLinkV>::empty(),
                        Ok(rest) => rest,
                    })));
                }
            },
        }
        start = end + 1;
        line = line + 1;
    }
    proof {
        assert(spec_extract_from(bytes@, start as int, line as int)
            == Ok::<Seq<TextFileLinkV>, Seq<char>>(Seq::empty()));
        assert(text_links_view(collector@) + Seq::<TextFileLinkV>::empty() =~= text_links_view(
            collector@,
        ));
    }
    Ok(collector)
}

} // verus!
