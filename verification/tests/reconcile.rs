use ddns::dns::Action;
use ddns::dns::Error;
use ddns::dns::RecordContent;
use ddns::dns::ZoneRecord;
use ddns::dns::decide;
use ddns::ipv4::Ipv4;

fn record(id: &str, name: &str, content: RecordContent) -> ZoneRecord {
    ZoneRecord { id: id.to_string(), name: name.to_string(), content }
}

#[test]
fn zero_matches_creates() {
    let name = "host.example.com".to_string();
    let target = Ipv4::new(203, 0, 113, 5);
    let decision = decide(&name, &vec![], target);
    assert_eq!(decision, Ok(Action::Create { name: name.clone(), addr: target }));
}

#[test]
fn current_record_is_noop() {
    let name = "host.example.com".to_string();
    let target = Ipv4::new(203, 0, 113, 5);
    let records = vec![record("r1", "host.example.com", RecordContent::A(target))];
    let decision = decide(&name, &records, target);
    assert_eq!(decision, Ok(Action::Noop));
}

#[test]
fn stale_record_is_updated() {
    let name = "host.example.com".to_string();
    let target = Ipv4::new(203, 0, 113, 5);
    let records = vec![
        record("r1", "host.example.com", RecordContent::A(Ipv4::new(203, 0, 113, 4))),
    ];
    let decision = decide(&name, &records, target);
    assert_eq!(
        decision,
        Ok(Action::Update {
            id: "r1".to_string(),
            name: "host.example.com".to_string(),
            addr: target,
        })
    );
}

#[test]
fn two_records_are_ambiguous() {
    let name = "host.example.com".to_string();
    let target = Ipv4::new(203, 0, 113, 5);
    let records = vec![
        record("r1", "host.example.com", RecordContent::A(target)),
        record("r2", "host.example.com", RecordContent::A(target)),
    ];
    let decision = decide(&name, &records, target);
    assert_eq!(decision, Err(Error::WrongRecordCount(2)));
}

#[test]
fn many_records_report_their_count() {
    let name = "host.example.com".to_string();
    let target = Ipv4::new(203, 0, 113, 5);
    let records = vec![
        record("r1", "host.example.com", RecordContent::A(target)),
        record("r2", "host.example.com", RecordContent::A(target)),
        record("r3", "host.example.com", RecordContent::A(target)),
    ];
    let decision = decide(&name, &records, target);
    assert_eq!(decision, Err(Error::WrongRecordCount(3)));
}

#[test]
fn foreign_record_type_is_refused() {
    let name = "host.example.com".to_string();
    let target = Ipv4::new(203, 0, 113, 5);
    let records = vec![record("r1", "host.example.com", RecordContent::Other("TXT".to_string()))];
    let decision = decide(&name, &records, target);
    assert_eq!(
        decision,
        Err(Error::UnexpectedRecordType(RecordContent::Other("TXT".to_string())))
    );
}

#[test]
fn second_pass_after_create_is_noop() {
    let name = "host.example.com".to_string();
    let target = Ipv4::new(203, 0, 113, 5);
    let first = decide(&name, &vec![], target);
    let created = match first {
        Ok(Action::Create { name: n, addr }) => record("assigned", &n, RecordContent::A(addr)),
        other => panic!("expected a create decision, got {other:?}"),
    };
    let second = decide(&name, &vec![created], target);
    assert_eq!(second, Ok(Action::Noop));
}

#[test]
fn second_pass_after_update_is_noop() {
    let name = "host.example.com".to_string();
    let target = Ipv4::new(203, 0, 113, 5);
    let records = vec![
        record("r1", "host.example.com", RecordContent::A(Ipv4::new(203, 0, 113, 4))),
    ];
    let first = decide(&name, &records, target);
    let updated = match first {
        Ok(Action::Update { id, name: n, addr }) => record(&id, &n, RecordContent::A(addr)),
        other => panic!("expected an update decision, got {other:?}"),
    };
    let second = decide(&name, &vec![updated], target);
    assert_eq!(second, Ok(Action::Noop));
}
