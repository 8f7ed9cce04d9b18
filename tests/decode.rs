use uspto::decode::marker_role;
use uspto::grants::{deser_header, HeaderScan};
use uspto::{
    consume_start, element_name, tokenize, DeserError, ErrorKind, EventKind, PatentGrant, PatentGrants,
};

const HEAD: &str = "<?xml version=\"1.0\" encoding=\"UTF-8\"?>\n<!DOCTYPE us-patent-grant SYSTEM \"us-patent-grant-v45.dtd\">\n";

fn record(body: &str) -> String {
    format!("{}<us-patent-grant lang=\"EN\">\n{}\n</us-patent-grant>\n", HEAD, body)
}

fn decode_all(input: &str) -> Vec<Result<PatentGrant, DeserError>> {
    let mut grants = PatentGrants::from_reader(input.as_bytes());
    let mut out = Vec::new();
    while let Some(r) = grants.next() {
        let stop = r.is_err();
        out.push(r);
        if stop {
            break;
        }
    }
    out
}

fn one(input: &str) -> PatentGrant {
    let mut rs = decode_all(input);
    assert_eq!(rs.len(), 1);
    rs.remove(0).expect("record decodes")
}

fn first_error(input: &str) -> DeserError {
    let mut grants = PatentGrants::from_reader(input.as_bytes());
    loop {
        match grants.next() {
            Some(Ok(_)) => continue,
            Some(Err(e)) => return e,
            None => panic!("no error"),
        }
    }
}

const BIBLIO: &str = "<us-bibliographic-data-grant>\
<publication-reference><document-id><country>US</country><doc-number>1234567</doc-number><kind>B2</kind><date>20200101</date></document-id></publication-reference>\
<application-reference appl-type=\"design\"><document-id><country>US</country><doc-number>29000001</doc-number><date>20180505</date></document-id></application-reference>\
<us-application-series-code>29</us-application-series-code>\
<classification-locarno><edition>12</edition><main-classification>0401</main-classification></classification-locarno>\
<classification-national><country>US</country><main-classification>D 2/700</main-classification></classification-national>\
<invention-title id=\"t\">Widget</invention-title>\
</us-bibliographic-data-grant>";

const CLAIMS: &str = "<us-claim-statement>What is claimed is:</us-claim-statement>\
<claims id=\"claims\">\
<claim id=\"CLM-00001\" num=\"00001\"><claim-text>1. A widget.</claim-text></claim>\
<claim id=\"CLM-00002\" num=\"00002\"><claim-text>2. A widget comprising:<claim-text>a part &amp; a whole.</claim-text></claim-text></claim>\
</claims>";

const SUMMARY: &str = "<description id=\"description\">\
<?BRFSUM description=\"Brief Summary\" end=\"lead\"?>Summary text here.<?BRFSUM description=\"Brief Summary\" end=\"tail\"?>\
</description>";

#[test]
fn single_record_fields() {
    let g = one(&record(&format!("{}{}{}", BIBLIO, SUMMARY, CLAIMS)));
    let b = &g.us_bibliographic_data_grant;
    assert_eq!(b.publication_reference.country, "US");
    assert_eq!(b.publication_reference.doc_number, "1234567");
    assert_eq!(b.publication_reference.date, "20200101");
    assert_eq!(b.publication_reference.kind, Some("B2".to_string()));
    assert_eq!(b.application_reference.doc_number, "29000001");
    assert_eq!(b.application_reference.kind, None);
    assert_eq!(b.us_application_series_code, "29");
    assert_eq!(b.classification_locarno.edition, "12");
    assert_eq!(b.classification_locarno.main_classification, "0401");
    assert_eq!(b.classification_national.country, "US");
    assert_eq!(b.classification_national.main_classification, "D 2/700");
    assert_eq!(b.classification_national.additional_info, "");
    assert_eq!(b.classification_national.further_classification, None);
    assert_eq!(g.us_claim_statement, Some("What is claimed is:".to_string()));
    assert_eq!(
        g.claims,
        vec!["1. A widget.".to_string(), "2. A widget comprising:a part & a whole.".to_string()]
    );
    assert_eq!(g.description(&"BRFSUM".to_string()), Some("Summary text here.".to_string()));
    assert_eq!(g.descriptions.len(), 1);
}

#[test]
fn document_id_with_and_without_kind() {
    let with = "<us-bibliographic-data-grant><publication-reference><document-id><country>US</country><doc-number>1234567</doc-number><date>20200101</date><kind>B2</kind></document-id></publication-reference></us-bibliographic-data-grant>";
    let g = one(&record(with));
    let d = &g.us_bibliographic_data_grant.publication_reference;
    assert_eq!(d.country, "US");
    assert_eq!(d.doc_number, "1234567");
    assert_eq!(d.date, "20200101");
    assert_eq!(d.kind, Some("B2".to_string()));

    let without = "<us-bibliographic-data-grant><publication-reference><document-id><country>US</country><doc-number>1234567</doc-number><date>20200101</date></document-id></publication-reference></us-bibliographic-data-grant>";
    let g = one(&record(without));
    let d = &g.us_bibliographic_data_grant.publication_reference;
    assert_eq!(d.country, "US");
    assert_eq!(d.doc_number, "1234567");
    assert_eq!(d.date, "20200101");
    assert_eq!(d.kind, None);
}

#[test]
fn records_come_in_order_then_end() {
    let a = record("<claims><claim><claim-text>first</claim-text></claim></claims>");
    let b = record("<claims><claim><claim-text>second</claim-text></claim></claims>");
    let c = record("<claims><claim><claim-text>third</claim-text></claim></claims>");
    let input = format!("{}{}{}", a, b, c);
    let mut grants = PatentGrants::from_reader(input.as_bytes());
    for want in ["first", "second", "third"] {
        let g = grants.next().expect("a record").expect("no error");
        assert_eq!(g.claims, vec![want.to_string()]);
    }
    assert!(grants.next().is_none());
    assert!(grants.next().is_none());
}

#[test]
fn empty_input_ends_at_once() {
    let mut grants = PatentGrants::from_reader(b"");
    assert!(grants.next().is_none());
    let mut grants = PatentGrants::from_reader(b"  \n ");
    assert!(grants.next().is_none());
}

#[test]
fn nested_markers_stay_in_text_block() {
    let body = "<?DETDESC description=\"Detailed Description\" end=\"lead\"?>\
before<?in-line-formulae description=\"In-line Formulae\" end=\"lead\"?>middle<?other note?>after\
<?DETDESC description=\"Detailed Description\" end=\"tail\"?>";
    let g = one(&record(body));
    let text = g.description(&"DETDESC".to_string()).expect("block kept");
    assert_eq!(
        text,
        "beforein-line-formulae description=\"In-line Formulae\" end=\"lead\"middleother noteafter"
    );
}

#[test]
fn tail_marker_ends_text_block_by_role() {
    let body = "<?BRFSUM description=\"Brief Summary\" end=\"lead\"?>one<?RELAPP description=\"Other\" end=\"tail\"?>two";
    let g = one(&record(body));
    assert_eq!(g.description(&"BRFSUM".to_string()), Some("one".to_string()));
}

#[test]
fn later_block_with_same_name_overwrites() {
    let body = "<?BRFSUM end=\"lead\"?>old<?BRFSUM end=\"tail\"?><?BRFSUM end=\"lead\"?>new<?BRFSUM end=\"tail\"?>";
    let g = one(&record(body));
    assert_eq!(g.description(&"BRFSUM".to_string()), Some("new".to_string()));
    assert_eq!(g.description(&"DETDESC".to_string()), None);
    assert_eq!(g.descriptions, vec![("BRFSUM".to_string(), "new".to_string())]);
}

#[test]
fn other_instructions_are_ignored() {
    let body = "<?page-break here?><us-claim-statement>Claimed:</us-claim-statement>";
    let g = one(&record(body));
    assert!(g.descriptions.is_empty());
    assert_eq!(g.us_claim_statement, Some("Claimed:".to_string()));
}

#[test]
fn claims_stop_at_non_claim_sibling() {
    let body = "<claims><claim><claim-text>one</claim-text></claim><claim><claim-text>two</claim-text></claim>\
<us-claim-statement>after</us-claim-statement><claim><claim-text>three</claim-text></claim></claims>";
    let g = one(&record(body));
    assert_eq!(g.claims, vec!["one".to_string(), "two".to_string()]);
    assert_eq!(g.us_claim_statement, Some("after".to_string()));
}

#[test]
fn claim_without_text_stops_claims() {
    let body = "<claims><claim><claim-text>one</claim-text></claim><claim><figure>x</figure></claim></claims>";
    let g = one(&record(body));
    assert_eq!(g.claims, vec!["one".to_string()]);
}

#[test]
fn missing_doctype_is_header_error() {
    let input = "<?xml version=\"1.0\"?>\n<us-patent-grant></us-patent-grant>";
    let e = first_error(input);
    assert_eq!(e.kind, ErrorKind::MissingDocType);
    let e = first_error("<?xml version=\"1.0\"?>");
    assert_eq!(e.kind, ErrorKind::MissingDocType);
}

#[test]
fn missing_declaration_is_header_error() {
    let e = first_error("<us-patent-grant></us-patent-grant>");
    assert_eq!(e.kind, ErrorKind::MissingDecl);
}

#[test]
fn unrecognized_element_in_classification() {
    let body = "<us-bibliographic-data-grant><classification-locarno><edition>12</edition><bogus>1</bogus></classification-locarno></us-bibliographic-data-grant>";
    let e = first_error(&record(body));
    assert_eq!(e.kind, ErrorKind::UnrecognizedElement);
    assert_eq!(e.element, b"bogus".to_vec());
    assert_eq!(e.container, b"classification-locarno".to_vec());

    let body = "<us-bibliographic-data-grant><publication-reference><document-id><country>US</country><extra>1</extra></document-id></publication-reference></us-bibliographic-data-grant>";
    let e = first_error(&record(body));
    assert_eq!(e.kind, ErrorKind::UnrecognizedElement);
    assert_eq!(e.element, b"extra".to_vec());
    assert_eq!(e.container, b"document-id".to_vec());
}

#[test]
fn reference_without_document_id() {
    let body = "<us-bibliographic-data-grant><publication-reference><country>US</country></publication-reference></us-bibliographic-data-grant>";
    let e = first_error(&record(body));
    assert_eq!(e.kind, ErrorKind::UnexpectedElement);
    assert_eq!(e.element, b"country".to_vec());
    assert_eq!(e.container, b"document-id".to_vec());

    let body = "<us-bibliographic-data-grant><publication-reference>US</publication-reference></us-bibliographic-data-grant>";
    let e = first_error(&record(body));
    assert_eq!(e.kind, ErrorKind::NotStartElement);
}

#[test]
fn unknown_sections_are_passed_over() {
    let body = "<drawings><figure id=\"f1\"><img/></figure></drawings>\
<us-bibliographic-data-grant><unknown-part><x>1</x></unknown-part><us-application-series-code>07</us-application-series-code></us-bibliographic-data-grant>";
    let g = one(&record(body));
    assert_eq!(g.us_bibliographic_data_grant.us_application_series_code, "07");
}

#[test]
fn truncated_record_is_an_error() {
    let input = format!("{}<us-patent-grant><claims><claim><claim-text>x</claim-text></claim>", HEAD);
    let e = first_error(&input);
    assert_eq!(e.kind, ErrorKind::UnterminatedRecord);
}

#[test]
fn unterminated_text_block_is_an_error() {
    let input = format!("{}<us-patent-grant><?BRFSUM end=\"lead\"?>text", HEAD);
    let e = first_error(&input);
    assert_eq!(e.kind, ErrorKind::UnterminatedTextBlock);
}

#[test]
fn lexical_error_is_reported() {
    let input = format!("{}<us-patent-grant><a></b></us-patent-grant>", HEAD);
    let e = first_error(&input);
    assert_eq!(e.kind, ErrorKind::Lexical);
    assert!(!e.detail.is_empty());
}

#[test]
fn bad_entity_in_text_is_an_error() {
    let e = first_error(&record("<us-claim-statement>a &bogus; b</us-claim-statement>"));
    assert_eq!(e.kind, ErrorKind::UndecodableText);
}

#[test]
fn entities_are_unescaped_in_fields() {
    let body = "<us-bibliographic-data-grant><classification-national><country>US</country><additional-info>&lt;none&gt;</additional-info><main-classification>D2</main-classification><further-classification>D3</further-classification></classification-national></us-bibliographic-data-grant>";
    let g = one(&record(body));
    let n = &g.us_bibliographic_data_grant.classification_national;
    assert_eq!(n.additional_info, "<none>");
    assert_eq!(n.further_classification, Some("D3".to_string()));
}

#[test]
fn element_name_stops_at_whitespace() {
    assert_eq!(element_name(&b"claim id=\"1\"".to_vec()), b"claim".to_vec());
    assert_eq!(element_name(&b"claims".to_vec()), b"claims".to_vec());
    assert_eq!(element_name(&Vec::new()), Vec::<u8>::new());
}

#[test]
fn tokenize_reads_events_to_the_end() {
    let evs = tokenize(b"<?xml version=\"1.0\"?><a k=\"v\">x &amp; y</a>");
    let kinds: Vec<EventKind> = evs.iter().map(|e| e.kind).collect();
    assert_eq!(
        kinds,
        vec![EventKind::Decl, EventKind::Start, EventKind::Text, EventKind::End, EventKind::Eof]
    );
    assert_eq!(evs[1].name, b"a".to_vec());
    assert_eq!(evs[2].raw, b"x &amp; y".to_vec());
}

fn event(kind: EventKind, name: &[u8], raw: &[u8]) -> uspto::XmlEvent {
    uspto::XmlEvent { kind, name: name.to_vec(), raw: raw.to_vec() }
}

#[test]
fn consume_start_checks_the_element() {
    let want = b"document-id";
    assert_eq!(consume_start(&event(EventKind::Start, b"document-id", b"document-id"), want), Ok(()));
    let e = consume_start(&event(EventKind::Start, b"country", b"country"), want).unwrap_err();
    assert_eq!(e.kind, ErrorKind::UnexpectedElement);
    assert_eq!(e.element, b"country".to_vec());
    assert_eq!(e.container, b"document-id".to_vec());
    let e = consume_start(&event(EventKind::Text, b"US", b"US"), want).unwrap_err();
    assert_eq!(e.kind, ErrorKind::NotStartElement);
    assert_eq!(e.container, b"document-id".to_vec());
    let e = consume_start(&event(EventKind::Fault, b"", b"bad"), want).unwrap_err();
    assert_eq!(e.kind, ErrorKind::Lexical);
    assert_eq!(e.detail, b"bad".to_vec());
}

#[test]
fn header_scan_outcomes() {
    let evs = tokenize(HEAD.as_bytes());
    assert!(matches!(deser_header(&evs, 0), HeaderScan::Good(2)));
    assert!(matches!(deser_header(&evs, 2), HeaderScan::NoMore));
    let evs = tokenize(b"<a/>");
    match deser_header(&evs, 0) {
        HeaderScan::Bad(e, 1) => assert_eq!(e.kind, ErrorKind::MissingDecl),
        _ => panic!("expected a missing declaration"),
    }
}

#[test]
fn stream_from_given_events() {
    let evs = vec![
        event(EventKind::Decl, b"", b""),
        event(EventKind::DocType, b"", b""),
        event(EventKind::Start, b"us-patent-grant", b"us-patent-grant"),
        event(EventKind::Start, b"claims", b"claims"),
        event(EventKind::Start, b"claim", b"claim"),
        event(EventKind::Start, b"claim-text", b"claim-text"),
        event(EventKind::Text, b"", b"a &lt; b"),
        event(EventKind::End, b"claim-text", b"claim-text"),
        event(EventKind::End, b"claim", b"claim"),
        event(EventKind::End, b"claims", b"claims"),
        event(EventKind::End, b"us-patent-grant", b"us-patent-grant"),
        event(EventKind::Eof, b"", b""),
    ];
    let mut grants = PatentGrants::from_events(evs);
    let g = grants.next().expect("a record").expect("no error");
    assert_eq!(g.claims, vec!["a < b".to_string()]);
    assert!(grants.next().is_none());
}

#[test]
fn invalid_utf8_text_block_is_an_error() {
    let mut input = format!("{}<us-patent-grant><?BRFSUM end=\"lead\"?>", HEAD).into_bytes();
    input.extend_from_slice(&[0xff, 0xfe]);
    input.extend_from_slice(b"<?BRFSUM end=\"tail\"?></us-patent-grant>");
    let mut grants = PatentGrants::from_reader(&input);
    let e = grants.next().expect("a result").unwrap_err();
    assert_eq!(e.kind, ErrorKind::InvalidUtf8);
}

#[test]
fn instruction_without_words_is_ignored() {
    let g = one(&record("<? ?><us-claim-statement>Claimed:</us-claim-statement>"));
    assert_eq!(g.us_claim_statement, Some("Claimed:".to_string()));
    assert!(g.descriptions.is_empty());
    let g = one(&record("<? ?>"));
    assert_eq!(g, PatentGrant::default());
}

#[test]
fn instruction_without_words_is_block_content() {
    let g = one(&record("<?BRFSUM end=\"lead\"?>a<? ?>b<?BRFSUM end=\"tail\"?>"));
    assert_eq!(g.description(&"BRFSUM".to_string()), Some("a b".to_string()));
}

#[test]
fn empty_field_is_present_but_empty() {
    let body = "<us-bibliographic-data-grant><publication-reference><document-id><country>US</country><kind/><doc-number>7</doc-number><!-- note --><date>20200101</date></document-id></publication-reference></us-bibliographic-data-grant>";
    let g = one(&record(body));
    let d = &g.us_bibliographic_data_grant.publication_reference;
    assert_eq!(d.kind, Some(String::new()));
    assert_eq!(d.doc_number, "7");
    assert_eq!(d.date, "20200101");
    let body = "<us-bibliographic-data-grant><classification-locarno><edition>12</edition><odd/></classification-locarno></us-bibliographic-data-grant>";
    let e = first_error(&record(body));
    assert_eq!(e.kind, ErrorKind::UnrecognizedElement);
    assert_eq!(e.element, b"odd".to_vec());
}

#[test]
fn comment_between_claims_is_ignored() {
    let body = "<claims><claim><claim-text>one</claim-text></claim><!-- x --><claim><!-- y --><claim-text>two</claim-text></claim></claims>";
    let g = one(&record(body));
    assert_eq!(g.claims, vec!["one".to_string(), "two".to_string()]);
}

#[test]
fn marker_role_reads_the_last_word() {
    let words = vec!["BRFSUM".to_string(), "description=\"Brief".to_string(), "end=\"lead\"".to_string()];
    assert!(marker_role(&words, "end=\"lead\""));
    assert!(!marker_role(&words, "end=\"tail\""));
    assert!(!marker_role(&Vec::new(), "end=\"lead\""));
}

#[test]
fn events_follow_the_input() {
    let evs = tokenize(b"<?xml version=\"1.0\"?><!DOCTYPE x><?BRFSUM end=\"lead\"?><b/>");
    let kinds: Vec<EventKind> = evs.iter().map(|e| e.kind).collect();
    assert_eq!(
        kinds,
        vec![EventKind::Decl, EventKind::DocType, EventKind::Pi, EventKind::Empty, EventKind::Eof]
    );
    assert_eq!(evs[2].raw, b"BRFSUM end=\"lead\"".to_vec());
    assert_eq!(evs[3].name, b"b".to_vec());
}
