//! Prefixes, ordered collections, timers and the message filter.

use routing::closeness::closest_names;
use routing::id::{ConnectionInfo, PeerAddr, PublicId};
use routing::messages::{Authority, MessageContent, RoutingMessage};
use routing::ordered_map::{KeyOrder, OrderedKey, OrderedMap, OrderedSet};
use routing::peer_map::PeerMap;
use routing::prefix::Prefix;
use routing::routing_message_filter::{FilteringResult, RoutingMessageFilter};
use routing::text::decimal_text;
use routing::timer::Timer;
use routing::value::Value;
use routing::xor_name::XorName;

fn prefix(text: &str) -> Prefix {
    Prefix::from_str(text).unwrap_or_else(|c| panic!("not a bit: {}", c))
}

#[test]
fn prefix_of_text() {
    assert_eq!(prefix("0110").to_bits(), vec![false, true, true, false]);
    assert_eq!(prefix("0110").bit_count(), 4);
    assert!(prefix("01").bit(1));
    assert!(prefix("").is_empty());
    assert!(matches!(Prefix::from_str("01x1y"), Err('x')));
    assert!(prefix("0110").same(&Prefix::new(4, &XorName([0x6f; 32]))));
}

#[test]
fn prefix_relations() {
    assert!(prefix("01").is_compatible(&prefix("0110")));
    assert!(prefix("0110").is_compatible(&prefix("01")));
    assert!(!prefix("010").is_compatible(&prefix("0110")));
    assert!(prefix("0110").is_extension_of(&prefix("01")));
    assert!(!prefix("01").is_extension_of(&prefix("0110")));
    assert!(!prefix("01").is_extension_of(&prefix("01")));
    assert!(prefix("0110").sibling().same(&prefix("0111")));
    assert!(prefix("").sibling().same(&prefix("")));
    assert!(prefix("0110").popped().same(&prefix("011")));
    assert!(prefix("").popped().same(&prefix("")));
    assert!(prefix("0110").matches(&XorName([0x6f; 32])));
    assert!(!prefix("0111").matches(&XorName([0x6f; 32])));
    assert!(prefix("").matches(&XorName([0; 32])));
    assert!(matches!(prefix("0").compare(&prefix("01")), KeyOrder::Before));
    assert!(matches!(prefix("1").compare(&prefix("01")), KeyOrder::After));
    assert!(matches!(prefix("01").compare(&prefix("01")), KeyOrder::Same));
}

#[test]
fn ordered_map_keeps_its_order() {
    let mut map: OrderedMap<Prefix, u64> = OrderedMap::new();
    assert!(map.is_empty());
    for (i, text) in ["1", "01", "", "0", "011"].iter().enumerate() {
        map.insert(prefix(text), i as u64);
    }
    map.insert(prefix("01"), 9);
    assert_eq!(map.len(), 5);
    let values: Vec<u64> = (0..map.len()).map(|i| *map.entry_at(i).1).collect();
    assert_eq!(values, vec![2, 3, 9, 4, 0]);
    assert_eq!(map.remove(&prefix("0")), Some(3));
    assert_eq!(map.remove(&prefix("0")), None);
    assert_eq!(map.get(&prefix("011")), Some(&4));
    assert_eq!(map.get(&prefix("0")), None);
    assert!(map.contains_key(&prefix("")));
    assert!(map.same(&map.duplicate()));
}

#[test]
fn ordered_set_has_members_once() {
    let mut set: OrderedSet<Prefix> = OrderedSet::new();
    set.insert(prefix("1"));
    set.insert(prefix("0"));
    set.insert(prefix("1"));
    assert_eq!(set.len(), 2);
    assert!(set.member_at(0).same(&prefix("0")));
    assert!(set.contains(&prefix("1")));
    assert!(set.remove(&prefix("1")));
    assert!(!set.remove(&prefix("1")));
    assert_eq!(set.len(), 1);
}

#[test]
fn closest_names_come_first() {
    let names: Vec<XorName> = [1u8, 7, 4, 7, 2].iter().map(|b| XorName([*b; 32])).collect();
    let closest: Vec<u8> =
        closest_names(&names, &XorName([6; 32]), 3).iter().map(|name| name.0[0]).collect();
    assert_eq!(closest, vec![7, 4, 2]);
    assert_eq!(closest_names(&names, &XorName([6; 32]), 9).len(), 4);
    assert_eq!(XorName([6; 32]).distance(&XorName([5; 32])), XorName([3; 32]));
}

#[test]
fn timeouts() {
    let mut timer = Timer::new(10);
    assert_eq!(timer.schedule(5), 0);
    assert_eq!(timer.schedule(2), 1);
    assert_eq!(timer.schedule(u64::max_value()), 2);
    timer.set_time(12);
    assert_eq!(timer.get_timed_out_tokens(), vec![1u64]);
    timer.set_time(15);
    assert_eq!(timer.get_timed_out_tokens(), vec![0u64]);
    timer.set_time(u64::max_value());
    assert_eq!(timer.get_timed_out_tokens(), vec![2u64]);
    assert!(timer.get_timed_out_tokens().is_empty());
    assert_eq!(timer.schedule(0), 3);
}

#[test]
fn message_filter() {
    let msg = |byte: u8| RoutingMessage {
        src: Authority::Section(XorName([byte; 32])),
        dst: Authority::PrefixSection(prefix("01")),
        content: MessageContent::Other(vec![byte]),
    };
    let mut filter = RoutingMessageFilter::new();
    assert_eq!(filter.filter_incoming(&msg(1)), FilteringResult::NewMessage);
    assert_eq!(filter.filter_incoming(&msg(2)), FilteringResult::NewMessage);
    assert_eq!(filter.filter_incoming(&msg(1)), FilteringResult::KnownMessage);
    assert!(!filter.filter_incoming(&msg(2)).is_new());
}

#[test]
fn peers_are_forgotten() {
    let info = |port: u16| ConnectionInfo {
        peer_addr: PeerAddr { is_v6: false, ip_high: 0, ip_low: 0, port },
        peer_cert_der: vec![],
    };
    let mut peers = PeerMap::new();
    peers.insert(PublicId::new(XorName([2; 32])), info(2));
    peers.insert(PublicId::new(XorName([1; 32])), info(1));
    peers.insert(PublicId::new(XorName([2; 32])), info(3));
    assert_eq!(peers.remove_all(), vec![info(1), info(3)]);
    assert!(peers.remove_all().is_empty());
}

#[test]
fn decimal_numbers() {
    assert_eq!(decimal_text(0), "0");
    assert_eq!(decimal_text(9), "9");
    assert_eq!(decimal_text(10), "10");
    assert_eq!(decimal_text(1234567890), "1234567890");
    assert_eq!(decimal_text(u64::max_value()), "18446744073709551615");
}
