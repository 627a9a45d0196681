use mrn::Action;
use mrn::LogError;
use mrn::TransformList;
use mrn::TransformListItem;
use mrn::encode_record;
use mrn::parse_record;

fn item(src: &str, dest: &str, action: Action) -> TransformListItem {
    TransformListItem { src: src.to_string(), dest: dest.to_string(), action }
}

#[test]
fn encode_matches_record_shape() {
    let line = encode_record(&item("IMG_042.jpg", "photo-042.jpg", Action::Move));
    assert_eq!(line, "{\"src\":\"IMG_042.jpg\",\"dest\":\"photo-042.jpg\",\"action\":\"move\"}");
}

#[test]
fn parse_reads_a_record_back() {
    let it = parse_record("{\"src\":\"a.txt\",\"dest\":\"b.txt\",\"action\":\"copy\"}").unwrap();
    assert_eq!(it.src, "a.txt");
    assert_eq!(it.dest, "b.txt");
    assert!(matches!(it.action, Action::Copy));
}

#[test]
fn round_trip_with_escaped_characters() {
    let original = item("we\"ird\\name\n.txt", "tab\there.txt", Action::Copy);
    let line = encode_record(&original);
    let back = parse_record(line.as_str()).unwrap();
    assert_eq!(back.src, original.src);
    assert_eq!(back.dest, original.dest);
    assert!(matches!(back.action, Action::Copy));
}

#[test]
fn malformed_lines_are_rejected() {
    assert!(parse_record("").is_none());
    assert!(parse_record("not json at all").is_none());
    assert!(parse_record("{\"src\":\"a\",\"dest\":\"b\"}").is_none());
    assert!(parse_record("{\"src\":\"a\",\"dest\":\"b\",\"action\":\"link\"}").is_none());
    assert!(parse_record("{\"src\":\"a\",\"dest\":\"b\",\"action\":\"move\"} ").is_none());
    assert!(parse_record("{\"src\":\"bad\\escape\",\"dest\":\"b\",\"action\":\"move\"}").is_none());
}

#[test]
fn undo_list_reverses_each_record_in_order() {
    let lines = vec![
        encode_record(&item("a", "b", Action::Move)),
        encode_record(&item("c", "d", Action::Copy)),
    ];
    let undo = TransformList::from_undo(&lines).unwrap();
    assert_eq!(undo.0.len(), 2);
    assert_eq!(undo.0[0].src, "b");
    assert_eq!(undo.0[0].dest, "a");
    assert!(matches!(undo.0[0].action, Action::Move));
    assert_eq!(undo.0[1].src, "d");
    assert_eq!(undo.0[1].dest, "c");
    assert!(matches!(undo.0[1].action, Action::Move));
}

#[test]
fn undo_against_corrupt_log_fails_cleanly() {
    let lines = vec![
        encode_record(&item("a", "b", Action::Move)),
        "corrupt".to_string(),
    ];
    assert_eq!(TransformList::from_undo(&lines).err(), Some(LogError::BadRecord));
}
