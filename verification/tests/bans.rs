use lineage_stats::asn::{is_gzip, is_stale, needs_download, routed_asn, FileAge};
use lineage_stats::database::BannedItem;
use lineage_stats::router::internal::{check_ban_list, BanListError};
use lineage_stats::tasks::Banned;

fn ban(version: Option<&str>, model: Option<&str>) -> BannedItem {
    BannedItem {
        version: version.map(|s| s.to_string()),
        model: model.map(|s| s.to_string()),
        note: None,
        affected_installations: None,
    }
}

#[test]
fn ban_list_from_rows() {
    let rows = vec![ban(Some("v1"), None), ban(None, Some("m1")), ban(Some("v1"), Some("m2")), ban(None, None)];
    let b = Banned::from_rows(&rows);
    assert_eq!(b.versions, vec!["v1".to_string()]);
    assert_eq!(b.models, vec!["m1".to_string(), "m2".to_string()]);
    assert!(b.contains_version(&"v1".to_string()));
    assert!(!b.contains_version(&"m1".to_string()));
    assert!(b.contains_model(&"m2".to_string()));
    assert!(!b.contains_model(&"v1".to_string()));
}

#[test]
fn ban_list_inserts_once() {
    let mut b = Banned::new();
    b.insert_version("x".to_string());
    b.insert_version("x".to_string());
    b.insert_model("y".to_string());
    assert_eq!(b.versions.len(), 1);
    assert_eq!(b.models.len(), 1);
}

#[test]
fn ban_list_input_checks() {
    assert_eq!(check_ban_list(&vec![]), Err(BanListError::Empty));
    assert_eq!(check_ban_list(&vec!["a".to_string(), "".to_string()]), Err(BanListError::EmptyEntry));
    assert_eq!(check_ban_list(&vec!["a".to_string()]), Ok(()));
    assert_eq!(BanListError::Empty.message(), "vector cannot be empty");
    assert_eq!(BanListError::EmptyEntry.message(), "vector contains empty string");
}

#[test]
fn asn_decisions() {
    assert_eq!(routed_asn(0), None);
    assert_eq!(routed_asn(15169), Some(15169));
    assert_eq!(routed_asn(u32::MAX), Some(4294967295));
    assert!(is_stale(FileAge::Unknown));
    assert!(!is_stale(FileAge::Ahead));
    assert!(!is_stale(FileAge::Elapsed { secs: 86400, nanos: 0 }));
    assert!(is_stale(FileAge::Elapsed { secs: 86400, nanos: 1 }));
    assert!(is_stale(FileAge::Elapsed { secs: 90000, nanos: 0 }));
    assert!(needs_download(true, true));
    assert!(needs_download(false, false));
    assert!(!needs_download(false, true));
    assert!(is_gzip(&[0x1f, 0x8b, 0x08]));
    assert!(!is_gzip(&[0x1f]));
    assert!(!is_gzip(b"<html>"));
}
