use ottobangumi::downloader::descriptor_id;
use ottobangumi::mikan::mikan_rss::{parse_feed, FeedError};
use ottobangumi::nesting::{
    is_shallow_bencode, is_shallow_markup, step_bencode, step_markup, BencodePart, BencodeScan,
    MarkupPart, MarkupScan, MAX_NESTING,
};

fn nested_lists(depth: usize) -> Vec<u8> {
    let mut bytes = vec![b'l'; depth];
    bytes.extend(vec![b'e'; depth]);
    bytes
}

#[test]
fn bencode_within_the_bound_is_shallow() {
    assert!(is_shallow_bencode(b""));
    assert!(is_shallow_bencode(b"i42e"));
    assert!(is_shallow_bencode(b"4:spam"));
    assert!(is_shallow_bencode(b"0:"));
    assert!(is_shallow_bencode(b"d3:cow3:moo4:spaml1:a1:bee"));
    assert!(is_shallow_bencode(b"d8:announce3:url4:infod6:lengthi4e4:name6:sampleee"));
    assert!(is_shallow_bencode(&nested_lists(MAX_NESTING)));
    assert!(is_shallow_bencode(&vec![b'd'; MAX_NESTING]));
}

#[test]
fn bencode_nested_too_deep_is_turned_down() {
    assert!(!is_shallow_bencode(&nested_lists(MAX_NESTING + 1)));
    assert!(!is_shallow_bencode(&vec![b'l'; 500_000]));
    assert!(!is_shallow_bencode(&vec![b'd'; MAX_NESTING + 1]));
    let mut mixed = Vec::new();
    for _ in 0..MAX_NESTING {
        mixed.extend_from_slice(b"d1:al");
    }
    assert!(!is_shallow_bencode(&mixed));
}

#[test]
fn bencode_texts_and_numbers_hide_what_they_hold() {
    let mut text = b"70:".to_vec();
    text.extend(vec![b'l'; 70]);
    assert!(is_shallow_bencode(&text));
    let mut number = b"i".to_vec();
    number.extend(vec![b'l'; 70]);
    number.push(b'e');
    assert!(is_shallow_bencode(&number));
    let mut short = b"3:".to_vec();
    short.extend(vec![b'l'; 70]);
    assert!(!is_shallow_bencode(&short));
    assert!(is_shallow_bencode(b"99999999999999999999999999:abc"));
}

#[test]
fn bencode_the_scan_does_not_know_is_turned_down() {
    assert!(!is_shallow_bencode(b"e"));
    assert!(!is_shallow_bencode(b"lee"));
    assert!(!is_shallow_bencode(b"x"));
    assert!(!is_shallow_bencode(b"+3:abc"));
    assert!(!is_shallow_bencode(b"3x:abc"));
    assert!(!is_shallow_bencode(b" i1e"));
}

#[test]
fn bencode_steps() {
    let start = BencodeScan { part: BencodePart::Item, depth: 0, left: 0 };
    assert_eq!(step_bencode(start, b'l'), Some(BencodeScan { depth: 1, ..start }));
    assert_eq!(step_bencode(start, b'7'), Some(BencodeScan { part: BencodePart::Length, left: 7, ..start }));
    let length = BencodeScan { part: BencodePart::Length, depth: 2, left: 7 };
    assert_eq!(step_bencode(length, b'3'), Some(BencodeScan { left: 73, ..length }));
    assert_eq!(step_bencode(length, b':'), Some(BencodeScan { part: BencodePart::Text, ..length }));
    let huge = BencodeScan { left: u64::MAX / 10 + 1, ..length };
    assert_eq!(step_bencode(huge, b'0'), Some(BencodeScan { left: u64::MAX, ..length }));
    let text = BencodeScan { part: BencodePart::Text, depth: 2, left: 2 };
    assert_eq!(step_bencode(text, b'e'), Some(BencodeScan { left: 1, ..text }));
    let last = BencodeScan { left: 1, ..text };
    assert_eq!(step_bencode(last, b'e'), Some(BencodeScan { part: BencodePart::Item, depth: 2, left: 0 }));
}

#[test]
fn deep_descriptor_has_no_id() {
    assert_eq!(descriptor_id(&vec![b'l'; 500_000]), None);
    assert_eq!(descriptor_id(&nested_lists(MAX_NESTING + 1)), None);
    assert_eq!(descriptor_id(&nested_lists(MAX_NESTING)), None);
}

fn nested_elements(depth: usize) -> String {
    let mut text = String::new();
    for _ in 0..depth {
        text.push_str("<x:a>");
    }
    for _ in 0..depth {
        text.push_str("</x:a>");
    }
    text
}

#[test]
fn markup_within_the_bound_is_shallow() {
    assert!(is_shallow_markup(b""));
    assert!(is_shallow_markup(b"plain text & more"));
    assert!(is_shallow_markup(b"<?xml version=\"1.0\"?><rss><channel><title>t</title></channel></rss>"));
    assert!(is_shallow_markup(nested_elements(MAX_NESTING).as_bytes()));
    assert!(is_shallow_markup(b"<a/><a/><a/>"));
    assert!(is_shallow_markup(b"<a"));
    assert!(is_shallow_markup(b"<>"));
}

#[test]
fn markup_nested_too_deep_is_turned_down() {
    assert!(!is_shallow_markup(nested_elements(MAX_NESTING + 1).as_bytes()));
    assert!(!is_shallow_markup("<a>".repeat(200_000).as_bytes()));
    let mut closed_in_tag = "<a>".repeat(MAX_NESTING);
    closed_in_tag.push_str("<b/>");
    assert!(!is_shallow_markup(closed_in_tag.as_bytes()));
    let mut room_left = "<a>".repeat(MAX_NESTING - 1);
    room_left.push_str("<b/><b/><b/>");
    assert!(is_shallow_markup(room_left.as_bytes()));
}

#[test]
fn markup_that_is_no_element_opens_nothing() {
    let many = "<a>".repeat(200);
    assert!(is_shallow_markup(format!("<!--{}--><b></b>", many).as_bytes()));
    assert!(is_shallow_markup(format!("<![CDATA[{}]]><b></b>", many).as_bytes()));
    assert!(is_shallow_markup(format!("<?pi {}?><b></b>", many).as_bytes()));
    assert!(is_shallow_markup(format!("<b t=\"{}\" u='{}'></b>", many, many).as_bytes()));
    assert!(is_shallow_markup(format!("<b></b t=\"{}\">", many).as_bytes()));
    assert!(is_shallow_markup(format!("<!--->{}-->", many).as_bytes()));
    assert!(!is_shallow_markup(format!("<!---->{}", many).as_bytes()));
    assert!(!is_shallow_markup(format!("<![]]>{}", many).as_bytes()));
    assert!(!is_shallow_markup(format!("<?>{}", many).as_bytes()));
    assert!(!is_shallow_markup(format!("<b t=\"\">{}", many).as_bytes()));
}

#[test]
fn markup_the_scan_does_not_know_is_turned_down() {
    assert!(!is_shallow_markup(b"<!DOCTYPE rss><rss></rss>"));
    assert!(!is_shallow_markup(b"<!x>"));
    assert!(!is_shallow_markup(b"</a>"));
    assert!(!is_shallow_markup(b"<a></a></a>"));
}

#[test]
fn markup_steps() {
    let text = MarkupScan { part: MarkupPart::Text, depth: 1, quote: 0, at: 0, run: 0 };
    assert_eq!(step_markup(text, b'x'), Some(text));
    assert_eq!(step_markup(text, b'<'), Some(MarkupScan { part: MarkupPart::Open, ..text }));
    let open = MarkupScan { part: MarkupPart::Open, ..text };
    assert_eq!(step_markup(open, b'a'), Some(MarkupScan { part: MarkupPart::Tag, ..text }));
    assert_eq!(step_markup(open, b'/'), Some(MarkupScan { part: MarkupPart::Closing, ..text }));
    let tag = MarkupScan { part: MarkupPart::Tag, ..text };
    assert_eq!(step_markup(tag, b'>'), Some(MarkupScan { depth: 2, ..text }));
    assert_eq!(step_markup(tag, b'/'), Some(MarkupScan { run: 1, ..tag }));
    assert_eq!(step_markup(MarkupScan { run: 1, ..tag }, b'>'), Some(text));
    assert_eq!(step_markup(tag, b'"'), Some(MarkupScan { quote: b'"', ..tag }));
    assert_eq!(step_markup(MarkupScan { quote: b'"', ..tag }, b'>'), Some(MarkupScan { quote: b'"', ..tag }));
    let closing = MarkupScan { part: MarkupPart::Closing, ..text };
    assert_eq!(step_markup(closing, b'>'), Some(MarkupScan { depth: 0, ..text }));
}

fn feed_with(inner: &str) -> String {
    format!(
        "<?xml version=\"1.0\" encoding=\"utf-8\"?>\n<!-- a <comment> -->\n\
         <rss version=\"2.0\" xmlns:x=\"urn:x\"><channel><title><![CDATA[<T>]]></title>\
         <link>l</link><description>d</description>\
         <item><title>first</title>{}<enclosure url=\"u/h.torrent\" length=\"1\" type=\"t\"/></item>\
         </channel></rss>",
        inner
    )
}

#[test]
fn feed_with_comment_literal_section_and_extension_reads() {
    let feed = parse_feed(feed_with("<x:a b='>'><x:c/></x:a>").as_bytes()).unwrap();
    assert_eq!(feed.title, "<T>");
    assert_eq!(feed.items.len(), 1);
    assert_eq!(feed.items[0].title, "first");
    assert_eq!(feed.items[0].torrent_hash, "h");
}

#[test]
fn feed_nested_up_to_the_bound_reads() {
    let feed = parse_feed(feed_with(&nested_elements(MAX_NESTING - 3)).as_bytes()).unwrap();
    assert_eq!(feed.items.len(), 1);
    assert_eq!(feed.items[0].torrent_hash, "h");
}

#[test]
fn feed_nested_too_deep_is_unreadable() {
    assert_eq!(
        parse_feed(feed_with(&nested_elements(MAX_NESTING - 2)).as_bytes()).unwrap_err(),
        FeedError::Unreadable
    );
    assert_eq!(
        parse_feed(feed_with(&"<x:a>".repeat(200_000)).as_bytes()).unwrap_err(),
        FeedError::Unreadable
    );
}

#[test]
fn feed_with_document_type_is_unreadable() {
    let body = "<!DOCTYPE rss><rss version=\"2.0\"><channel><title>t</title></channel></rss>";
    assert_eq!(parse_feed(body.as_bytes()).unwrap_err(), FeedError::Unreadable);
}
