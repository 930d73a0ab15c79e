use ddns::args::Args;
use ddns::args::ArgsError;

#[test]
fn missing_url() {
    let parsed = Args::new(
        "token".to_string(),
        "record".to_string(),
        "zoneId".to_string(),
        vec![],
    )
    .unwrap();

    assert_eq!(parsed.token, "token");
    assert_eq!(parsed.record, "record");
    assert_eq!(parsed.zone_id, "zoneId");
    assert_eq!(parsed.providers, Vec::<String>::new());
}

#[test]
fn empty_provider() {
    let parsed = Args::new(
        "token".to_string(),
        "record".to_string(),
        "zoneId".to_string(),
        Vec::new(),
    )
    .unwrap();

    assert_eq!(parsed.token, "token");
    assert_eq!(parsed.record, "record");
    assert_eq!(parsed.zone_id, "zoneId");
    assert_eq!(parsed.providers, Vec::<String>::new());
}

#[test]
fn full() {
    let parsed = Args::new(
        "token".to_string(),
        "record".to_string(),
        "zoneId".to_string(),
        vec!["https://localhost".to_string(), "http:127.0.0.1".to_string()],
    )
    .unwrap();

    assert_eq!(parsed.token, "token");
    assert_eq!(parsed.record, "record");
    assert_eq!(parsed.zone_id, "zoneId");
    assert_eq!(
        parsed.providers,
        vec![
            url::Url::parse("https://localhost").unwrap().as_str().to_string(),
            url::Url::parse("http:127.0.0.1").unwrap().as_str().to_string(),
        ]
    );
}

#[test]
fn empty_string() {
    let refused = Args::new(
        String::new(),
        "record".to_string(),
        "zoneId".to_string(),
        vec![],
    )
    .unwrap_err();
    assert_eq!(refused, ArgsError::EmptyToken);
}

#[test]
fn empty_record_refused() {
    let refused = Args::new(
        "token".to_string(),
        String::new(),
        "zoneId".to_string(),
        vec![],
    )
    .unwrap_err();
    assert_eq!(refused, ArgsError::EmptyRecord);
}

#[test]
fn empty_zone_refused() {
    let refused = Args::new(
        "token".to_string(),
        "record".to_string(),
        String::new(),
        vec![],
    )
    .unwrap_err();
    assert_eq!(refused, ArgsError::EmptyZoneId);
}

#[test]
fn bad_url() {
    let refused = Args::new(
        "token".to_string(),
        "record".to_string(),
        "zoneId".to_string(),
        vec![String::new()],
    )
    .unwrap_err();
    assert_eq!(
        refused,
        ArgsError::InvalidProviderUrl(url::ParseError::RelativeUrlWithoutBase)
    );
}
