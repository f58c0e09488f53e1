use liveview::relay::{
    build_auth_record, client_id_from_query, cut_at_marker, prepare_relay_handshake,
    rewrite_relay_scheme, tail_segment,
};
use liveview::LiveError;

#[test]
fn scheme_rewrite() {
    assert_eq!(
        rewrite_relay_scheme(b"immis://host/path"),
        b"https://host/path".to_vec()
    );
    assert_eq!(
        rewrite_relay_scheme(b"https://host/path"),
        b"https://host/path".to_vec()
    );
    assert_eq!(rewrite_relay_scheme(b"short"), b"short".to_vec());
}

#[test]
fn last_path_segment() {
    assert_eq!(tail_segment(b"/path/id123__abc"), b"id123__abc".to_vec());
    assert_eq!(tail_segment(b"plain"), b"plain".to_vec());
    assert_eq!(tail_segment(b"/ends/with/"), b"".to_vec());
    assert_eq!(tail_segment(b""), b"".to_vec());
}

#[test]
fn marker_cut() {
    assert_eq!(cut_at_marker(b"id123__abc"), b"id123".to_vec());
    assert_eq!(cut_at_marker(b"id123"), b"id123".to_vec());
    assert_eq!(cut_at_marker(b"__abc"), b"".to_vec());
    assert_eq!(cut_at_marker(b"a__b__c"), b"a".to_vec());
}

#[test]
fn client_id_lookup() {
    let pairs = vec![
        (b"other".to_vec(), b"9".to_vec()),
        (b"client_id".to_vec(), b"7".to_vec()),
        (b"client_id".to_vec(), b"8".to_vec()),
    ];
    assert_eq!(client_id_from_query(&pairs), 7);
    let unparseable = vec![(b"client_id".to_vec(), b"x7".to_vec())];
    assert_eq!(client_id_from_query(&unparseable), 0);
    let absent: Vec<(Vec<u8>, Vec<u8>)> = Vec::new();
    assert_eq!(client_id_from_query(&absent), 0);
}

#[test]
fn auth_record_layout() {
    let record = build_auth_record(b"serial9876543210XX", 7, b"id123");
    assert_eq!(record.len(), 122);
    assert_eq!(&record[0..4], &[0, 0, 0, 0x28]); // magic
    assert_eq!(&record[4..8], &[0, 0, 0, 16]); // serial length
    assert_eq!(&record[8..24], b"serial9876543210"); // truncated to 16
    assert_eq!(&record[24..28], &[0, 0, 0, 7]); // client id
    assert_eq!(&record[28..30], &[0x01, 0x08]); // static marker
    assert_eq!(&record[30..34], &[0, 0, 0, 64]); // auth-token length
    assert!(record[34..98].iter().all(|b| *b == 0)); // zero token
    assert_eq!(&record[98..102], &[0, 0, 0, 16]); // connection-id length
    assert_eq!(&record[102..107], b"id123");
    assert!(record[107..118].iter().all(|b| *b == 0)); // zero padded
    assert_eq!(&record[118..122], &[0, 0, 0, 1]); // trailer
}

#[test]
fn negotiated_address_to_auth_record() {
    // A negotiated relay address flows through the real URL split
    // into the record: the connection-id field is the path part
    // before the double underscore, zero-padded to 16 bytes, and
    // the client-id field is the query parameter.
    let target = prepare_relay_handshake(
        b"immis://host/path/id123__abc?client_id=7",
        b"",
    )
    .expect("a well-formed relay address must prepare");
    assert_eq!(target.host, b"host".to_vec());
    assert_eq!(target.port, 443);
    assert_eq!(target.connection_id, b"id123".to_vec());
    assert_eq!(target.client_id, 7);
    let mut conn_field = b"id123".to_vec();
    conn_field.resize(16, 0);
    assert_eq!(&target.auth_record[102..118], conn_field.as_slice());
    assert_eq!(&target.auth_record[24..28], &[0, 0, 0, 7]);
    assert_eq!(target.auth_record.len(), 122);
}

#[test]
fn explicit_port_and_defaults() {
    let target =
        prepare_relay_handshake(b"immis://relay.example:8443/s/abc__1", b"serial").unwrap();
    assert_eq!(target.port, 8443);
    assert_eq!(target.connection_id, b"abc".to_vec());
    assert_eq!(target.client_id, 0); // no client_id parameter
}

#[test]
fn malformed_address_fails_handshake() {
    assert_eq!(
        prepare_relay_handshake(b"not a url at all", b"s").unwrap_err(),
        LiveError::HandshakeFailed
    );
    assert_eq!(
        prepare_relay_handshake(b"data:text/plain,x", b"s").unwrap_err(),
        LiveError::HandshakeFailed
    );
}
