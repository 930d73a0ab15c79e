use ddns::discovery::Discovery;
use ddns::discovery::Provider;
use ddns::discovery::default_providers;
use ddns::ipv4::Ipv4;

#[test]
fn defaults_are_normalized_forms() {
    let defaults = default_providers();
    assert_eq!(defaults.len(), 2);
    assert_eq!(defaults[0], "https://api.ipify.org/");
    assert_eq!(defaults[1], "https://ipinfo.io/ip");
    // The built-in strings agree with what the url crate makes of the
    // documented endpoints.
    assert_eq!(defaults[0], url::Url::parse("https://api.ipify.org").unwrap().as_str());
    assert_eq!(defaults[1], url::Url::parse("https://ipinfo.io/ip").unwrap().as_str());
}

#[test]
fn builtin_providers_normalize() {
    let defaults = default_providers();
    assert_eq!(Provider::Ipfy.url().unwrap(), defaults[0]);
    assert_eq!(Provider::IpInfo.url().unwrap(), defaults[1]);
}

#[test]
fn custom_provider_normalizes() {
    let url = Provider::Custom("https://example.net".to_string()).url().unwrap();
    assert_eq!(url, "https://example.net/");
}

#[test]
fn bad_custom_provider_is_refused() {
    assert!(Provider::Custom("not a url".to_string()).url().is_err());
    assert!(Provider::Custom(String::new()).url().is_err());
}

#[test]
fn empty_caller_list_uses_defaults() {
    let mut d = Discovery::new(vec![]);
    let first = d.next_to_fetch().expect("a first candidate");
    assert_eq!(first, "https://api.ipify.org/");
    d.record_failure();
    let second = d.next_to_fetch().expect("a second candidate");
    assert_eq!(second, "https://ipinfo.io/ip");
    d.record_failure();
    assert_eq!(d.next_to_fetch(), None);
    assert_eq!(d.result(), None);
}

#[test]
fn repeated_urls_are_fetched_once() {
    // The same URL three times across the caller list and the defaults:
    // it is attempted exactly once.
    let mut d = Discovery::new(vec![
        "https://api.ipify.org/".to_string(),
        "https://api.ipify.org/".to_string(),
    ]);
    let mut fetched: Vec<String> = Vec::new();
    while let Some(url) = d.next_to_fetch() {
        fetched.push(url);
        d.record_failure();
    }
    assert_eq!(fetched, vec!["https://api.ipify.org/".to_string(), "https://ipinfo.io/ip".to_string()]);
}

#[test]
fn caller_providers_come_first() {
    let mut d = Discovery::new(vec!["https://a.example/".to_string()]);
    let mut fetched: Vec<String> = Vec::new();
    while let Some(url) = d.next_to_fetch() {
        fetched.push(url);
        d.record_failure();
    }
    assert_eq!(
        fetched,
        vec![
            "https://a.example/".to_string(),
            "https://api.ipify.org/".to_string(),
            "https://ipinfo.io/ip".to_string(),
        ]
    );
}

#[test]
fn first_failure_falls_back_to_second() {
    let mut d = Discovery::new(vec![
        "https://a.example/".to_string(),
        "https://b.example/".to_string(),
    ]);
    let ip = Ipv4::new(203, 0, 113, 7);
    assert_eq!(d.next_to_fetch().unwrap(), "https://a.example/");
    d.record_failure();
    assert_eq!(d.next_to_fetch().unwrap(), "https://b.example/");
    d.record_success(ip);
    // First success wins: no later candidate is consulted.
    assert_eq!(d.next_to_fetch(), None);
    assert_eq!(d.result(), Some(ip));
}

#[test]
fn exhaustion_is_absence() {
    let mut d = Discovery::new(vec!["https://a.example/".to_string()]);
    while let Some(_url) = d.next_to_fetch() {
        d.record_failure();
    }
    assert_eq!(d.result(), None);
}
