use pickup_calendar::calendar::{Category, ParseError};
use pickup_calendar::date::Date;
use pickup_calendar::fetch::{FetchError, RX_BUFFER_SIZE};
use pickup_calendar::pipeline::{ingest_document, IngestError};

#[test]
fn a_fetched_document_becomes_events() {
    let body = "BEGIN:VEVENT\n\
                DTSTART;TZID=Europe/Berlin;VALUE=DATE:20240115\n\
                SUMMARY:Abfuhr gelbe Wertstofftonne/-sack\n\
                END:VEVENT\n"
        .as_bytes()
        .to_vec();
    let events = ingest_document(&body).unwrap();
    assert_eq!(events.len(), 1);
    assert_eq!(events[0].date, Date { year: 2024, month: 1, day: 15 });
    assert_eq!(events[0].category, Category::RecyclablePackaging);
}

#[test]
fn oversized_body_fails_on_the_fetch_side() {
    let body = vec![b'a'; RX_BUFFER_SIZE + 1];
    assert_eq!(ingest_document(&body), Err(IngestError::Fetch(FetchError::Oversize)));
}

#[test]
fn non_utf8_body_fails_on_the_fetch_side() {
    let body = vec![0xc3, 0x28];
    assert_eq!(ingest_document(&body), Err(IngestError::Fetch(FetchError::InvalidUtf8)));
}

#[test]
fn malformed_document_fails_on_the_parse_side() {
    let body = "DTSTART;TZID=Europe/Berlin;VALUE=DATE:2024\nEND:VEVENT\n".as_bytes().to_vec();
    assert_eq!(
        ingest_document(&body),
        Err(IngestError::Parse(ParseError::MalformedStartDate))
    );
}

#[test]
fn empty_body_yields_no_events() {
    let body: Vec<u8> = Vec::new();
    assert_eq!(ingest_document(&body).unwrap().len(), 0);
}
