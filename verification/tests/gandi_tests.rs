use netlink_ddns::addr::Ipv4Address;
use netlink_ddns::gandi::{make_record_update, record_to_ipv4, Record, RecordError};

fn a_record(values: Vec<&str>) -> Record {
    Record {
        rrset_name: "test".to_string(),
        rrset_type: "A".to_string(),
        rrset_values: values.into_iter().map(|s| s.to_string()).collect(),
        rrset_href: "https://api.test/v5/livedns/domains/example.com/records/test/A".to_string(),
        rrset_ttl: Some(10800),
    }
}

#[test]
fn test_record_with_single_value_parses() {
    let rec = a_record(vec!["192.168.42.1"]);
    assert_eq!(
        record_to_ipv4(&rec),
        Ok(Some(Ipv4Address::new(192, 168, 42, 1)))
    );
}

#[test]
fn test_record_without_values_is_none() {
    let rec = a_record(vec![]);
    assert_eq!(record_to_ipv4(&rec), Ok(None));
}

#[test]
fn test_record_with_two_values_is_rejected() {
    let rec = a_record(vec!["10.0.0.1", "10.0.0.2"]);
    assert_eq!(record_to_ipv4(&rec), Err(RecordError::TooManyValues));
}

#[test]
fn test_record_with_malformed_value_is_rejected() {
    let rec = a_record(vec!["www.example.org"]);
    assert_eq!(record_to_ipv4(&rec), Err(RecordError::InvalidAddress));
}

#[test]
fn test_record_update_carries_one_dotted_value() {
    let update = make_record_update(&Ipv4Address::new(10, 0, 0, 5));
    assert_eq!(update.rrset_values, vec!["10.0.0.5".to_string()]);
    assert_eq!(update.rrset_ttl, Some(300));
}
