use pickup_calendar::fetch::{
    accept_body, calendar_url, decode_body, BodyBuffer, FetchError, RX_BUFFER_SIZE,
    TX_BUFFER_SIZE,
};

#[test]
fn buffer_sizes_match_the_transport_configuration() {
    assert_eq!(RX_BUFFER_SIZE, 32000);
    assert_eq!(TX_BUFFER_SIZE, 4096);
}

#[test]
fn endpoint_is_the_fixed_household_calendar() {
    assert_eq!(
        calendar_url(),
        "https://backend.stadtreinigung.hamburg/kalender/abholtermine.ics?hnIds=44353"
    );
}

#[test]
fn body_exactly_at_the_buffer_limit_succeeds() {
    let body = vec![b'a'; RX_BUFFER_SIZE];
    let text = accept_body(&body).unwrap();
    assert_eq!(text.len(), RX_BUFFER_SIZE);
}

#[test]
fn body_one_byte_over_the_limit_fails_with_oversize() {
    let body = vec![b'a'; RX_BUFFER_SIZE + 1];
    assert_eq!(accept_body(&body), Err(FetchError::Oversize));
}

#[test]
fn non_utf8_body_fails_with_invalid_utf8() {
    let body = vec![0xff, 0xfe, 0x41];
    assert_eq!(accept_body(&body), Err(FetchError::InvalidUtf8));
}

#[test]
fn utf8_body_decodes_to_its_text() {
    let body = "SUMMARY:Abfuhr grüne Biotonne\n".as_bytes().to_vec();
    assert_eq!(accept_body(&body).unwrap(), "SUMMARY:Abfuhr grüne Biotonne\n");
    assert_eq!(decode_body(&body).unwrap(), "SUMMARY:Abfuhr grüne Biotonne\n");
}

#[test]
fn buffer_accumulates_chunks_up_to_its_capacity() {
    let mut buf = BodyBuffer::new();
    assert_eq!(buf.as_bytes().len(), 0);
    let chunk = vec![b'x'; 16000];
    assert_eq!(buf.extend(&chunk), Ok(()));
    assert_eq!(buf.extend(&chunk), Ok(()));
    assert_eq!(buf.as_bytes().len(), RX_BUFFER_SIZE);
}

#[test]
fn buffer_refuses_the_chunk_that_would_overflow() {
    let mut buf = BodyBuffer::new();
    let chunk = vec![b'x'; RX_BUFFER_SIZE - 1];
    assert_eq!(buf.extend(&chunk), Ok(()));
    assert_eq!(buf.extend(&[b'y', b'z']), Err(FetchError::Oversize));
    // A refused chunk leaves the buffer as it was.
    assert_eq!(buf.as_bytes().len(), RX_BUFFER_SIZE - 1);
    assert_eq!(buf.extend(&[b'y']), Ok(()));
    assert_eq!(buf.as_bytes().len(), RX_BUFFER_SIZE);
    assert_eq!(buf.extend(&[b'y']), Err(FetchError::Oversize));
}
