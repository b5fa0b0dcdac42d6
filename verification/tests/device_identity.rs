use orange_platform::device_identity::{find_mac, host_identifier_from};

#[test]
fn parses_colon_and_hyphen_mac_addresses() {
    assert_eq!(
        find_mac("ether aa:bb:cc:dd:ee:ff"),
        Some("AA:BB:CC:DD:EE:FF".into())
    );
    assert_eq!(
        find_mac("\"aa-bb-cc-dd-ee-ff\",\"adapter\""),
        Some("AA:BB:CC:DD:EE:FF".into())
    );
}

#[test]
fn rejects_invalid_or_multicast_addresses() {
    assert_eq!(find_mac("00:00:00:00:00:00"), None);
    assert_eq!(find_mac("01:bb:cc:dd:ee:ff"), None);
    assert_eq!(find_mac("aa:bb:cc:dd:ee"), None);
}

#[test]
fn mixed_separators_are_not_an_address() {
    assert_eq!(find_mac("aa:bb-cc:dd:ee:ff"), None);
}

#[test]
fn the_first_valid_address_wins_after_skipped_ones() {
    assert_eq!(
        find_mac("01:00:5e:00:00:01 00:00:00:00:00:00 02:1a:2B:3c:4D:5e 10:20:30:40:50:60"),
        Some("02:1A:2B:3C:4D:5E".into())
    );
}

#[test]
fn host_identifier_keeps_only_name_characters() {
    assert_eq!(
        host_identifier_from("  my host_01.local\n"),
        Some("host:myhost_01.local".into())
    );
    assert_eq!(host_identifier_from("  \n"), None);
    assert_eq!(host_identifier_from("***"), None);
}
