use wikiparse::filter::{Filter, FilterError, State};
use wikiparse::idset::IdSet;
use wikiparse::run::run;

fn lines(xs: &[&str]) -> Vec<Vec<u8>> {
    xs.iter().map(|s| s.as_bytes().to_vec()).collect()
}

fn dump_two_pages() -> Vec<Vec<u8>> {
    lines(&[
        "<mediawiki>",
        "<siteinfo>",
        "X",
        "</siteinfo>",
        "<page>",
        "  <title>A</title>",
        "  <ns>0</ns>",
        "  <id>5</id>",
        "  <revision>r</revision>",
        "</page>",
        "<page>",
        "  <title>B</title>",
        "  <ns>0</ns>",
        "  <id>9</id>",
        "  <revision>s</revision>",
        "</page>",
        "</mediawiki>",
    ])
}

#[test]
fn selects_single_matching_page() {
    let mut ids = IdSet::new();
    ids.insert(9);
    let input = dump_two_pages();
    let r = run(&input, &ids).unwrap();
    assert_eq!(r.total, 2);
    assert_eq!(r.hits, 1);
    assert!(r.done);
    let expected = lines(&[
        "<mediawiki>",
        "<siteinfo>",
        "X",
        "</siteinfo>",
        "<page>",
        "  <title>B</title>",
        "  <ns>0</ns>",
        "  <id>9</id>",
        "  <revision>s</revision>",
        "</page>",
        "</mediawiki>",
    ]);
    assert_eq!(r.out, expected);
}

#[test]
fn empty_set_keeps_wrapper_only() {
    let ids = IdSet::new();
    let input = dump_two_pages();
    let r = run(&input, &ids).unwrap();
    assert_eq!(r.total, 2);
    assert_eq!(r.hits, 0);
    let expected = lines(&["<mediawiki>", "<siteinfo>", "X", "</siteinfo>", "</mediawiki>"]);
    assert_eq!(r.out, expected);
}

#[test]
fn both_pages_selected() {
    let mut ids = IdSet::new();
    ids.insert(5);
    ids.insert(9);
    let input = dump_two_pages();
    let r = run(&input, &ids).unwrap();
    assert_eq!(r.total, 2);
    assert_eq!(r.hits, 2);
    assert_eq!(r.out, input);
}

#[test]
fn missing_closing_wrapper_is_fatal() {
    let mut ids = IdSet::new();
    ids.insert(9);
    let mut input = dump_two_pages();
    input.pop();
    let e = run(&input, &ids).unwrap_err();
    assert_eq!(e.line, input.len());
    assert_eq!(e.err, FilterError::Eof { state: State::Wiki });
}

#[test]
fn empty_input_is_accepted_and_emits_nothing() {
    let ids = IdSet::new();
    let input: Vec<Vec<u8>> = Vec::new();
    let r = run(&input, &ids).unwrap();
    assert_eq!(r.total, 0);
    assert_eq!(r.hits, 0);
    assert!(!r.done);
    assert!(r.out.is_empty());
}

#[test]
fn escaped_body_text_passes_through_verbatim() {
    let mut ids = IdSet::new();
    ids.insert(7);
    let input = lines(&[
        "<mediawiki>",
        "<page>",
        "  <title>T</title>",
        "  <ns>0</ns>",
        "  <id>7</id>",
        "  <text>some &lt;page&gt; literal</text>",
        "  <text>nested <page> looking line</text>",
        "  plain body line",
        "</page>",
        "</mediawiki>",
    ]);
    let r = run(&input, &ids).unwrap();
    assert_eq!(r.hits, 1);
    assert_eq!(r.out, input);
    // the body span between <id> and </page> is byte-identical
    assert_eq!(&r.out[5..8], &input[5..8]);
}

#[test]
fn content_line_outside_document_is_fatal() {
    let ids = IdSet::new();
    let input = lines(&["stray text"]);
    let e = run(&input, &ids).unwrap_err();
    assert_eq!(e.line, 0);
    assert_eq!(e.err, FilterError::Line { state: State::Null });
}

#[test]
fn unexpected_tag_is_fatal_with_state_and_name() {
    let ids = IdSet::new();
    let input = lines(&["<mediawiki>", "<revision>"]);
    let e = run(&input, &ids).unwrap_err();
    assert_eq!(e.line, 1);
    assert_eq!(
        e.err,
        FilterError::Tag { state: State::Wiki, name: b"revision".to_vec() },
    );
}

#[test]
fn malformed_tag_line_is_fatal() {
    let ids = IdSet::new();
    let input = lines(&["<mediawiki>", "<siteinfo>", "</siteinfo>", "a < b"]);
    let e = run(&input, &ids).unwrap_err();
    assert_eq!(e.line, 3);
    assert_eq!(e.err, FilterError::TagLine);
}

#[test]
fn id_line_without_inline_close_is_fatal() {
    let ids = IdSet::new();
    let input = lines(&["<mediawiki>", "<page>", "  <id>", "5", "  </id>"]);
    let e = run(&input, &ids).unwrap_err();
    assert_eq!(e.line, 2);
    assert_eq!(e.err, FilterError::IdLine);
}

#[test]
fn unparseable_id_text_is_fatal_even_in_unselected_page() {
    let ids = IdSet::new();
    let input = lines(&["<mediawiki>", "<page>", "  <id>12x</id>", "</page>", "</mediawiki>"]);
    let e = run(&input, &ids).unwrap_err();
    assert_eq!(e.line, 2);
    assert_eq!(e.err, FilterError::IdNumber { text: b"12x".to_vec() });
}

#[test]
fn title_line_without_inline_close_is_fatal() {
    let ids = IdSet::new();
    let input = lines(&["<mediawiki>", "<page>", "  <title>A"]);
    let e = run(&input, &ids).unwrap_err();
    assert_eq!(e.line, 2);
    assert_eq!(e.err, FilterError::TitleLine);
}

#[test]
fn trailing_lines_after_wrapper_close_are_ignored() {
    let ids = IdSet::new();
    let input = lines(&["<mediawiki>", "</mediawiki>", "anything goes here"]);
    let r = run(&input, &ids).unwrap();
    assert!(r.done);
    assert_eq!(r.out, lines(&["<mediawiki>", "</mediawiki>"]));
}

#[test]
fn buffered_lines_stay_bounded_by_one_page() {
    // the peak buffer depends on one page's opening lines, not on
    // how many pages stream past
    for n in [5usize, 50] {
        let mut input = lines(&["<mediawiki>"]);
        for i in 0..n {
            input.push(b"<page>".to_vec());
            input.push(b"  <title>T</title>".to_vec());
            input.push(b"  <ns>0</ns>".to_vec());
            input.push(format!("  <id>{}</id>", i).into_bytes());
            input.push(b"  body".to_vec());
            input.push(b"</page>".to_vec());
        }
        input.push(b"</mediawiki>".to_vec());

        let ids = IdSet::new();
        let mut f = Filter::new();
        let mut out: Vec<Vec<u8>> = Vec::new();
        let mut peak: usize = 0;
        for line in &input {
            let so = f.step(line, &ids, &mut out).unwrap();
            peak = peak.max(f.buffered());
            if so.done {
                break;
            }
        }
        assert_eq!(f.total(), n as u64);
        assert_eq!(peak, 3);
    }
}

#[test]
fn progress_is_reported_every_thousand_pages() {
    let mut input = lines(&["<mediawiki>"]);
    for i in 0..1000u64 {
        input.push(b"<page>".to_vec());
        input.push(b"  <title>T</title>".to_vec());
        input.push(b"  <ns>0</ns>".to_vec());
        input.push(format!("  <id>{}</id>", i).into_bytes());
        input.push(b"</page>".to_vec());
    }
    input.push(b"</mediawiki>".to_vec());

    let mut ids = IdSet::new();
    ids.insert(999);
    let mut f = Filter::new();
    let mut out: Vec<Vec<u8>> = Vec::new();
    let mut reports = Vec::new();
    let mut hits_seen = 0u64;
    for line in &input {
        let so = f.step(line, &ids, &mut out).unwrap();
        if so.hit {
            hits_seen += 1;
            assert_eq!(f.title(), &b"T".to_vec());
        }
        if let Some(p) = so.progress {
            reports.push((p.total, p.hits, p.id));
        }
        if so.done {
            break;
        }
    }
    assert_eq!(reports, vec![(1000, 0, 999)]);
    assert_eq!(hits_seen, 1);
    assert_eq!(f.hits(), 1);
}
