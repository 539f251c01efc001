use quiclime::blocklist::{Blocklist, BlocklistStatus, IpAddr};
use std::collections::HashMap;

#[test]
fn ipv4_clients_are_mapped() {
    assert_eq!(IpAddr::V4(0).to_ipv6(), 0xffff_0000_0000);
    assert_eq!(IpAddr::V4(0xcb00_7109).to_ipv6(), 0xffff_cb00_7109);
    assert_eq!(IpAddr::V4(u32::MAX).to_ipv6(), 0xffff_ffff_ffff);
    assert_eq!(IpAddr::V6(0x2001_0db8 << 96).to_ipv6(), 0x2001_0db8 << 96);
}

#[test]
fn an_empty_list_restricts_nobody() {
    assert_eq!(Blocklist::new().status(IpAddr::V4(0x7f00_0001)), None);
}

#[test]
fn the_list_fetched_last_is_in_force() {
    let client = IpAddr::V4(0xcb00_7109);
    let mut blocklist = Blocklist::new();
    assert!(!blocklist.refresh(None));
    assert_eq!(blocklist.status(client), None);

    let mut entries = HashMap::new();
    entries.insert(client.to_ipv6(), BlocklistStatus::Blocked);
    entries.insert(9, BlocklistStatus::ShadowBanned);
    entries.insert(10, BlocklistStatus::PingMasked);
    assert!(blocklist.refresh(Some(entries)));
    assert_eq!(blocklist.status(client), Some(BlocklistStatus::Blocked));
    assert_eq!(
        blocklist.status(IpAddr::V6(client.to_ipv6())),
        Some(BlocklistStatus::Blocked)
    );
    assert_eq!(blocklist.status(IpAddr::V6(9)), Some(BlocklistStatus::ShadowBanned));
    assert_eq!(blocklist.status(IpAddr::V4(9)), None);

    assert!(!blocklist.refresh(None));
    assert_eq!(blocklist.status(IpAddr::V6(10)), Some(BlocklistStatus::PingMasked));

    assert!(blocklist.refresh(Some(HashMap::new())));
    assert_eq!(blocklist.status(client), None);
}
