use wikiparse::idset::IdSet;
use wikiparse::loader::load_id_list;
use wikiparse::numbers::parse_u64;
use wikiparse::tags::{classify, extract_inner, LineClass, TagKind};

fn lines(xs: &[&str]) -> Vec<Vec<u8>> {
    xs.iter().map(|s| s.as_bytes().to_vec()).collect()
}

#[test]
fn classifies_plain_content() {
    let r = classify(&b"just some text".to_vec()).unwrap();
    assert!(matches!(r, LineClass::Content));
    let r = classify(&b"escaped &lt;page&gt; text".to_vec()).unwrap();
    assert!(matches!(r, LineClass::Content));
}

#[test]
fn classifies_structural_tags() {
    let cases: &[(&str, TagKind, &str)] = &[
        ("<mediawiki>", TagKind::Mediawiki, "mediawiki"),
        ("<mediawiki xmlns=\"x\">", TagKind::Mediawiki, "mediawiki"),
        ("</mediawiki>", TagKind::MediawikiClose, "/mediawiki"),
        ("  <siteinfo>", TagKind::Siteinfo, "siteinfo"),
        ("  </siteinfo>", TagKind::SiteinfoClose, "/siteinfo"),
        ("  <page>", TagKind::Page, "page"),
        ("  </page>", TagKind::PageClose, "/page"),
        ("    <title>A</title>", TagKind::Title, "title"),
        ("    <ns>0</ns>", TagKind::Ns, "ns"),
        ("    <id>5</id>", TagKind::Id, "id"),
        ("    <revision>", TagKind::Other, "revision"),
    ];
    for (line, kind, name) in cases {
        match classify(&line.as_bytes().to_vec()).unwrap() {
            LineClass::Tagged(k, n) => {
                assert_eq!(k, *kind, "line {:?}", line);
                assert_eq!(n, name.as_bytes().to_vec(), "line {:?}", line);
            },
            c => panic!("line {:?} classified as {:?}", line, c),
        }
    }
}

#[test]
fn malformed_tag_lines_are_rejected() {
    assert!(classify(&b"a < b".to_vec()).is_err());
    assert!(classify(&b"<unterminated".to_vec()).is_err());
    assert!(classify(&b"<".to_vec()).is_err());
}

#[test]
fn leftmost_tag_wins() {
    match classify(&b"x<y z<w>".to_vec()).unwrap() {
        LineClass::Tagged(k, n) => {
            assert_eq!(k, TagKind::Other);
            assert_eq!(n, b"y".to_vec());
        },
        c => panic!("classified as {:?}", c),
    }
}

#[test]
fn extracts_inner_text_spans() {
    let line = b"  <id>123</id>".to_vec();
    let (s, e) = extract_inner(&line, &b"id".to_vec()).unwrap();
    assert_eq!(&line[s..e], b"123");

    let line = b"  <title>Foo bar</title>".to_vec();
    let (s, e) = extract_inner(&line, &b"title".to_vec()).unwrap();
    assert_eq!(&line[s..e], b"Foo bar");

    let line = b"  <title>unclosed".to_vec();
    assert!(extract_inner(&line, &b"title".to_vec()).is_none());

    let line = b"  <id>5</id> <id>6</id>".to_vec();
    let (s, e) = extract_inner(&line, &b"id".to_vec()).unwrap();
    assert_eq!(&line[s..e], b"5");
}

#[test]
fn parses_unsigned_identifiers() {
    assert_eq!(parse_u64(&b"0".to_vec()), Some(0));
    assert_eq!(parse_u64(&b"2336430".to_vec()), Some(2336430));
    assert_eq!(parse_u64(&b"+17".to_vec()), Some(17));
    assert_eq!(parse_u64(&b"18446744073709551615".to_vec()), Some(u64::MAX));
    assert_eq!(parse_u64(&b"18446744073709551616".to_vec()), None);
    assert_eq!(parse_u64(&b"".to_vec()), None);
    assert_eq!(parse_u64(&b"+".to_vec()), None);
    assert_eq!(parse_u64(&b"12x".to_vec()), None);
    assert_eq!(parse_u64(&b" 5".to_vec()), None);
    assert_eq!(parse_u64(&b"-5".to_vec()), None);
}

#[test]
fn id_set_membership_and_size() {
    let mut ids = IdSet::new();
    assert_eq!(ids.len(), 0);
    assert!(!ids.contains(5));
    ids.insert(5);
    ids.insert(9);
    ids.insert(9);
    assert_eq!(ids.len(), 2);
    assert!(ids.contains(5));
    assert!(ids.contains(9));
    assert!(!ids.contains(7));
}

#[test]
fn loads_id_list_with_header_and_duplicates() {
    let input = lines(&["id", "5", "9", "9"]);
    let ids = load_id_list(&input).unwrap();
    assert_eq!(ids.len(), 2);
    assert!(ids.contains(5));
    assert!(ids.contains(9));
}

#[test]
fn loader_takes_first_field_and_skips_empty_lines() {
    let input = lines(&["id,name", "5,alpha", "", "9,beta,gamma"]);
    let ids = load_id_list(&input).unwrap();
    assert_eq!(ids.len(), 2);
    assert!(ids.contains(5));
    assert!(ids.contains(9));
}

#[test]
fn loader_rejects_unparseable_first_field() {
    let input = lines(&["id", "5", "abc,7"]);
    let e = load_id_list(&input).unwrap_err();
    assert_eq!(e.line, 2);
    assert_eq!(e.text, b"abc".to_vec());
}

#[test]
fn loader_of_empty_input_yields_empty_set() {
    let input: Vec<Vec<u8>> = Vec::new();
    let ids = load_id_list(&input).unwrap();
    assert_eq!(ids.len(), 0);
}
