use lineage_stats::database::{BannedItem, NewStat};
use lineage_stats::router::api::{
    check_submission, is_dalvik, normalize_country, record_submission, screen_submission, to_uppercase,
    IgnoreReason, StatInput, Submission,
};
use lineage_stats::tasks::Banned;

const DEVICE: &str = "0123456789ABCDEF0123456789ABCDEF0123456789ABCDEF0123456789ABCDEF";
const UA: Option<&str> = Some("Dalvik/2.1.0 (Linux; U; Android 14; Pixel 7 Build/AP2A)");

fn input(device: &str, name: &str, version: &str, country: &str) -> StatInput {
    StatInput {
        device_id: device.to_string(),
        name: name.to_string(),
        version: version.to_string(),
        country: country.to_string(),
        carrier: Some("T-Mobile".to_string()),
        carrier_id: Some("1".to_string()),
    }
}

fn record(s: Submission) -> NewStat {
    match s {
        Submission::Record(r) => r,
        Submission::Ignore(reason) => panic!("ignored: {:?}", reason),
    }
}

fn reason(s: Submission) -> IgnoreReason {
    match s {
        Submission::Ignore(r) => r,
        Submission::Record(_) => panic!("recorded"),
    }
}

#[test]
fn nightly_submission_is_recorded_as_official() {
    let banned = Banned::new();
    let r = record(check_submission(input(DEVICE, "panther", "22.1-20250101-NIGHTLY-panther", "us"), UA, &banned));
    assert_eq!(r.device_id, DEVICE);
    assert_eq!(r.model, "panther");
    assert_eq!(r.version, "22.1");
    assert_eq!(r.version_raw, "22.1-20250101-NIGHTLY-panther");
    assert_eq!(r.country, "US");
    assert!(r.official);
    assert_eq!(r.carrier.as_deref(), Some("T-Mobile"));
    assert_eq!(r.carrier_id.as_deref(), Some("1"));
}

#[test]
fn unofficial_build_is_recorded_as_unofficial() {
    let banned = Banned::new();
    let r = record(check_submission(input(DEVICE, "panther", "22.1-20250101-UNOFFICIAL-panther", "DE"), UA, &banned));
    assert!(!r.official);
    assert_eq!(r.version, "22.1");
    assert_eq!(r.country, "DE");
}

#[test]
fn unknown_country_is_kept_as_is() {
    let banned = Banned::new();
    let r = record(check_submission(input(DEVICE, "panther", "21.0-20240101-NIGHTLY-panther", "Unknown"), UA, &banned));
    assert_eq!(r.country, "Unknown");
    assert_eq!(r.version, "21.0");
}

#[test]
fn x86_64_need_not_end_the_version() {
    let banned = Banned::new();
    let r = record(check_submission(input(DEVICE, "x86_64", "22.1-20250101-NIGHTLY-sdk_phone64", "fr"), UA, &banned));
    assert_eq!(r.model, "x86_64");
    assert_eq!(r.country, "FR");
}

#[test]
fn missing_or_other_user_agent_is_ignored() {
    let banned = Banned::new();
    let i = || input(DEVICE, "panther", "22.1-20250101-NIGHTLY-panther", "US");
    assert_eq!(reason(check_submission(i(), None, &banned)), IgnoreReason::NotDalvik);
    assert_eq!(reason(check_submission(i(), Some("curl/8.0"), &banned)), IgnoreReason::NotDalvik);
    assert_eq!(reason(check_submission(i(), Some("dalvik/2.1.0"), &banned)), IgnoreReason::NotDalvik);
    assert!(is_dalvik(Some("Dalvik/")));
    assert!(!is_dalvik(Some("Dalvik")));
}

#[test]
fn banned_version_or_model_is_ignored() {
    let rows = vec![
        BannedItem { version: Some("22.1-20250101-NIGHTLY-panther".to_string()), model: None, note: None, affected_installations: Some(3) },
        BannedItem { version: None, model: Some("cheetah".to_string()), note: Some("spam".to_string()), affected_installations: None },
    ];
    let banned = Banned::from_rows(&rows);
    assert_eq!(
        reason(check_submission(input(DEVICE, "panther", "22.1-20250101-NIGHTLY-panther", "US"), UA, &banned)),
        IgnoreReason::Banned
    );
    assert_eq!(
        reason(check_submission(input(DEVICE, "cheetah", "22.1-20250101-NIGHTLY-cheetah", "US"), UA, &banned)),
        IgnoreReason::Banned
    );
    let r = record(check_submission(input(DEVICE, "panther", "22.1-20250202-NIGHTLY-panther", "US"), UA, &banned));
    assert_eq!(r.version, "22.1");
}

#[test]
fn bad_device_ids_are_ignored() {
    let banned = Banned::new();
    let lower = DEVICE.to_lowercase();
    let short = &DEVICE[..63];
    let long = format!("{}0", DEVICE);
    for d in [lower.as_str(), short, long.as_str(), "", "G123456789ABCDEF0123456789ABCDEF0123456789ABCDEF0123456789ABCDEF"] {
        assert_eq!(
            reason(check_submission(input(d, "panther", "22.1-20250101-NIGHTLY-panther", "US"), UA, &banned)),
            IgnoreReason::BadDeviceId
        );
    }
}

#[test]
fn version_must_end_with_model() {
    let banned = Banned::new();
    assert_eq!(
        reason(check_submission(input(DEVICE, "panther", "22.1-20250101-NIGHTLY-cheetah", "US"), UA, &banned)),
        IgnoreReason::ModelMismatch
    );
}

#[test]
fn country_must_be_two_bytes_or_unknown() {
    let banned = Banned::new();
    for c in ["USA", "U", "", "unknown", "é1"] {
        assert_eq!(
            reason(check_submission(input(DEVICE, "panther", "22.1-20250101-NIGHTLY-panther", c), UA, &banned)),
            IgnoreReason::BadCountry
        );
    }
    // One two-byte character is two bytes long.
    let r = record(check_submission(input(DEVICE, "panther", "22.1-20250101-NIGHTLY-panther", "é"), UA, &banned));
    assert_eq!(r.country, "É");
}

#[test]
fn version_must_start_with_version_code() {
    let banned = Banned::new();
    for v in ["2.1-20250101-NIGHTLY-panther", "22.10-20250101-NIGHTLY-panther", "v22.1-panther", "22.1panther"] {
        assert_eq!(
            reason(check_submission(input(DEVICE, "panther", v, "US"), UA, &banned)),
            IgnoreReason::BadVersion
        );
    }
    let r = record(check_submission(input(DEVICE, "panther", "22.1-panther", "US"), UA, &banned));
    assert!(!r.official);
}

#[test]
fn regex_digits_are_unicode_digits() {
    // `\d` of the regex crate matches any Unicode decimal digit.
    let banned = Banned::new();
    let r = record(check_submission(input(DEVICE, "panther", "٢٢.١-panther", "US"), UA, &banned));
    assert_eq!(r.version, "٢٢.١");
}

#[test]
fn screening_reports_the_first_failed_check() {
    let banned = Banned::new();
    let i = input("bad", "panther", "22.1-x-cheetah", "USA");
    assert_eq!(screen_submission(&i, None, &banned), Some(IgnoreReason::NotDalvik));
    assert_eq!(screen_submission(&i, UA, &banned), Some(IgnoreReason::BadDeviceId));
    let ok = input(DEVICE, "panther", "garbage-panther", "US");
    assert_eq!(screen_submission(&ok, UA, &banned), None);
}

#[test]
fn record_submission_uses_the_given_results() {
    let i = input(DEVICE, "panther", "anything", "US");
    match record_submission(i, None, true, "XX".to_string()) {
        Submission::Ignore(r) => assert_eq!(r, IgnoreReason::BadVersion),
        Submission::Record(_) => panic!("recorded"),
    }
    let i = input(DEVICE, "panther", "anything", "US");
    let r = record(record_submission(i, Some("99.9".to_string()), true, "XX".to_string()));
    assert_eq!(r.version, "99.9");
    assert_eq!(r.country, "XX");
    assert!(r.official);
    assert_eq!(r.version_raw, "anything");
}

#[test]
fn country_normalisation() {
    assert_eq!(normalize_country("Unknown".to_string()), "Unknown");
    assert_eq!(normalize_country("de".to_string()), "DE");
    assert_eq!(normalize_country("unknown".to_string()), "UNKNOWN");
    assert_eq!(to_uppercase("straße"), "STRASSE");
}
