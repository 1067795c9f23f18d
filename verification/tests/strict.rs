use lineage_stats::database::{BannedItem, NewStat};
use lineage_stats::models::{items_from_bans, Banned as BanRow};
use lineage_stats::router::api::StatInput;
use lineage_stats::strict::{check_strict_submission, strict_record, RejectReason, StrictVerdict};
use lineage_stats::tasks::Banned;

fn input(name: &str, version: &str, country: &str) -> StatInput {
    StatInput {
        device_id: "device".to_string(),
        name: name.to_string(),
        version: version.to_string(),
        country: country.to_string(),
        carrier: None,
        carrier_id: None,
    }
}

fn stored(v: StrictVerdict) -> NewStat {
    match v {
        StrictVerdict::Store(s) => s,
        _ => panic!("not stored"),
    }
}

fn rejected(v: StrictVerdict) -> RejectReason {
    match v {
        StrictVerdict::Reject(r) => r,
        _ => panic!("not rejected"),
    }
}

#[test]
fn strict_stores_valid_submissions() {
    let b = Banned::new();
    let s = stored(check_strict_submission(input("panther", "22.1-20250101-NIGHTLY-panther", "us"), &b));
    assert_eq!(s.version, "22.1");
    assert!(s.official);
    assert_eq!(s.country, "US");
    assert_eq!(s.device_id, "device");
    let s = stored(check_strict_submission(input("panther", "123.45-20250101-UNOFFICIAL-panther", "Unknown"), &b));
    assert_eq!(s.version, "123.45");
    assert!(!s.official);
    assert_eq!(s.country, "Unknown");
    let s = stored(check_strict_submission(input("panther", "22.1-unofficial-panther", "fr"), &b));
    assert!(!s.official);
    let s = stored(check_strict_submission(input("panther", "22.1-Unofficial-panther", "fr"), &b));
    assert!(s.official);
}

#[test]
fn strict_rejects_invalid_submissions() {
    let b = Banned::new();
    assert_eq!(rejected(check_strict_submission(input("panther", "22.1-cheetah", "US"), &b)), RejectReason::ModelMismatch);
    assert_eq!(rejected(check_strict_submission(input("panther", "22.1-panther", "USA"), &b)), RejectReason::BadCountry);
    assert_eq!(rejected(check_strict_submission(input("panther", "v22.1-panther", "US"), &b)), RejectReason::BadVersion);
    assert_eq!(rejected(check_strict_submission(input("panther", "22-panther", "US"), &b)), RejectReason::BadVersion);
    assert_eq!(RejectReason::ModelMismatch.message(), "version string must end with -model");
    assert_eq!(RejectReason::BadCountry.message(), "country must be a two letter iso code");
    assert_eq!(RejectReason::BadVersion.message(), "version must start with version code (ie, 22.1)");
}

#[test]
fn strict_ignores_banned_submissions() {
    let rows: Vec<BannedItem> = vec![BanRow { model: "cheetah".to_string(), version: "21.0-x-cheetah".to_string(), note: None }.to_item()];
    let b = Banned::from_rows(&rows);
    assert!(matches!(check_strict_submission(input("cheetah", "22.1-cheetah", "US"), &b), StrictVerdict::Ignore));
    assert!(matches!(check_strict_submission(input("panther", "21.0-x-cheetah", "US"), &b), StrictVerdict::Ignore));
}

#[test]
fn strict_record_uses_the_given_results() {
    assert_eq!(rejected(strict_record(input("a", "b", "c"), None, true, "X".to_string())), RejectReason::BadVersion);
    let s = stored(strict_record(input("a", "b", "c"), Some("9.9".to_string()), false, "X".to_string()));
    assert_eq!(s.version, "9.9");
    assert_eq!(s.country, "X");
    assert!(!s.official);
}

#[test]
fn ban_rows_map_to_list_items() {
    let bans = vec![
        BanRow { model: "m1".to_string(), version: "v1".to_string(), note: Some("n".to_string()) },
        BanRow { model: "m2".to_string(), version: "v2".to_string(), note: None },
    ];
    let items = items_from_bans(&bans);
    assert_eq!(items.len(), 2);
    assert_eq!(items[0].version.as_deref(), Some("v1"));
    assert_eq!(items[0].model.as_deref(), Some("m1"));
    assert_eq!(items[0].note.as_deref(), Some("n"));
    assert_eq!(items[1].note, None);
    assert_eq!(items[1].affected_installations, None);
}
