use insights::steam_id::{
    from_steamid3, from_steamid3_checked, steam3_account_id, steam3_convertible, steam3_id,
    steam3_id_text, steamid64_from_parts,
};

#[test]
fn steamid3_to_64() {
    assert_eq!(from_steamid3("[U:1:22202]"), Some(76561197960287930));
    assert_eq!(from_steamid3("M:1:5"), Some((1i64 << 56) | (2 << 52) | (1 << 32) | 5));
    assert_eq!(from_steamid3("[G:1:5]"), None);
    assert_eq!(from_steamid3_checked("no id here"), None);
    assert_eq!(from_steamid3_checked("U:1:99999999999999999999"), None);
    assert_eq!(from_steamid3_checked("U:1:22202"), Some(Some(76561197960287930)));
}

#[test]
fn parts_to_64() {
    assert_eq!(steamid64_from_parts("U", "1", "22202"), Some(76561197960287930));
    assert_eq!(steamid64_from_parts("X", "1", "22202"), None);
}

#[test]
fn steam3_through_steamid_ng() {
    assert!(steam3_convertible("[U:1:22202]"));
    assert_eq!(steam3_id("[U:1:22202]"), Some(76561197960287930));
    assert_eq!(steam3_account_id("[U:1:22202]"), Some(22202));
    assert_eq!(steam3_id_text("[U:1:22202]"), Some("76561197960287930".to_string()));
    assert_eq!(steam3_id("U:1:22202"), None);
    assert!(steam3_convertible("not an id"));
    assert!(!steam3_convertible("[U:1:9999999999]"));
    assert!(steam3_convertible("[U:1:4294967295]"));
    assert!(!steam3_convertible("[U:1:1:99999999999999999999]"));
    assert!(steam3_convertible("[U:1:1:18446744073709551615]"));
}

#[test]
fn steam3_letters_and_instances() {
    assert_eq!(steam3_id("[G:1:5]"), Some(85568392920039429));
    assert_eq!(steam3_id("[T:1:7]"), Some(108086391056891911));
    assert_eq!(steam3_id("[c:1:7]"), Some(110338190870577159));
    assert_eq!(steam3_id("[U:1:5:2]"), Some(76561202255233029));
    assert_eq!(steam3_id("[A:1:5:1234]"), Some(90074852995629061));
    assert_eq!(steam3_id("[L:0:9]"), Some(37154696925806601));
    assert_eq!(steam3_id("[g:1:3:4]"), Some(103582791429521411));
    assert_eq!(steam3_id("[I:1:4]"), Some(72057594037927940));
    assert_eq!(steam3_id("[X:1:4]"), None);
}
