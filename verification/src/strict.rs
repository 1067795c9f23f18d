//! Checking of submissions that answers an invalid one with an error
//! message (and stores the rest), for the JSON API whose version code is
//! any dotted number and whose official flag is the absence of an
//! unofficial marker.

use vstd::prelude::*;

use crate::database::{opt_chars, NewStat, NewStatView};
use crate::router::api::{ascii_upper, normalize_country, stored_country, StatInput};
use crate::router::patterns::{
    ascii_dotted_prefix, marked_unofficial, regex_find, regex_is_match, regex_leftmost, regex_matches,
    DOTTED_VERSION_PATTERN, UNOFFICIAL_PATTERN,
};
use crate::tasks::{Banned, BannedView};
use crate::text::{byte_len, is_suffix, str_ends_with, string_is, utf8};

verus! {

/// Why a submission is refused with an error.
#[derive(Clone, Copy, Debug, PartialEq, Eq, Structural)]
pub enum RejectReason {
    /// The version string does not end with the model name.
    ModelMismatch,
    /// The country is neither a two-byte code nor `Unknown`.
    BadCountry,
    /// The version string does not start with a dotted version number.
    BadVersion,
}

impl RejectReason {
    /// The message that the refusal is answered with.
    pub fn message(self) -> (m: &'static str)
        ensures
            m@ == match self {
                RejectReason::ModelMismatch => "version string must end with -model"@,
                RejectReason::BadCountry => "country must be a two letter iso code"@,
                RejectReason::BadVersion => "version must start with version code (ie, 22.1)"@,
            },
    {
        match self {
            RejectReason::ModelMismatch => "version string must end with -model",
            RejectReason::BadCountry => "country must be a two letter iso code",
            RejectReason::BadVersion => "version must start with version code (ie, 22.1)",
        }
    }
}

/// The decision on a submission.
pub enum StrictVerdict {
    /// Banned: answered as if stored, but not stored.
    Ignore,
    /// Refused with an error.
    Reject(RejectReason),
    /// Stored.
    Store(NewStat),
}

/// What a decision holds.
pub enum StrictVerdictView {
    Ignore,
    Reject(RejectReason),
    Store(NewStatView),
}

impl View for StrictVerdict {
    type V = StrictVerdictView;

    open spec fn view(&self) -> StrictVerdictView {
        match self {
            StrictVerdict::Ignore => StrictVerdictView::Ignore,
            StrictVerdict::Reject(r) => StrictVerdictView::Reject(*r),
            StrictVerdict::Store(s) => StrictVerdictView::Store(s@),
        }
    }
}

/// The decision on a submission: banned ones are ignored, invalid ones
/// refused, the rest stored with their dotted version number, official
/// unless marked unofficial, and the country normalised.
pub open spec fn strict_outcome(input: StatInput, banned: BannedView) -> StrictVerdictView {
    if banned.versions.contains(input.version@) || banned.models.contains(input.name@) {
        StrictVerdictView::Ignore
    } else if input.name@ != "x86_64"@ && !is_suffix(utf8(input.name@), utf8(input.version@)) {
        StrictVerdictView::Reject(RejectReason::ModelMismatch)
    } else if utf8(input.country@).len() != 2 && input.country@ != "Unknown"@ {
        StrictVerdictView::Reject(RejectReason::BadCountry)
    } else {
        match regex_leftmost(DOTTED_VERSION_PATTERN@, input.version@) {
            None => StrictVerdictView::Reject(RejectReason::BadVersion),
            Some(code) => StrictVerdictView::Store(NewStatView {
                device_id: input.device_id@,
                carrier: opt_chars(input.carrier),
                carrier_id: opt_chars(input.carrier_id),
                country: stored_country(input.country@),
                model: input.name@,
                official: !regex_matches(UNOFFICIAL_PATTERN@, input.version@),
                version: code,
                version_raw: input.version@,
            }),
        }
    }
}

/// The decision on a submission that passed the checks before its version
/// is read, given its dotted version number (if it has one), whether it is
/// an official build and its stored country.
pub fn strict_record(input: StatInput, version: Option<String>, official: bool, country: String) -> (r: StrictVerdict)
    ensures
        r@ == match version {
            None => StrictVerdictView::Reject(RejectReason::BadVersion),
            Some(v) => StrictVerdictView::Store(NewStatView {
                device_id: input.device_id@,
                carrier: opt_chars(input.carrier),
                carrier_id: opt_chars(input.carrier_id),
                country: country@,
                model: input.name@,
                official: official,
                version: v@,
                version_raw: input.version@,
            }),
        },
{
    match version {
        None => StrictVerdict::Reject(RejectReason::BadVersion),
        Some(v) => StrictVerdict::Store(NewStat {
            device_id: input.device_id,
            carrier: input.carrier,
            carrier_id: input.carrier_id,
            country: country,
            model: input.name,
            official: official,
            version: v,
            version_raw: input.version,
        }),
    }
}

/// Decides on a submission. A stored version code is a prefix of the
/// version string that holds a dot; a version string that starts with ASCII
/// digits, a dot and a digit is never refused for its version; a stored
/// record is official exactly when its version string holds no
/// `-UNOFFICIAL` or `-unofficial`; an ASCII country other than `Unknown` is
/// stored in ASCII upper case.
pub fn check_strict_submission(input: StatInput, banned: &Banned) -> (r: StrictVerdict)
    ensures
        r@ == strict_outcome(input, banned@),
        r matches StrictVerdict::Store(stat) ==> {
            &&& stat.version@.len() >= 3
            &&& stat.version@ == input.version@.take(stat.version@.len() as int)
            &&& stat.version@.contains('.')
        },
        ascii_dotted_prefix(input.version@) ==> !(r@ matches StrictVerdictView::Reject(RejectReason::BadVersion)),
        r matches StrictVerdict::Store(stat) ==> stat.official == !marked_unofficial(input.version@),
        r matches StrictVerdict::Store(stat) ==> (input.country@ != "Unknown"@ && vstd::utf8::is_ascii_chars(input.country@)
            ==> stat.country@ == input.country@.map_values(|c: char| ascii_upper(c))),
{
    if banned.contains_version(&input.version) || banned.contains_model(&input.name) {
        return StrictVerdict::Ignore;
    }
    if !string_is(&input.name, "x86_64") && !str_ends_with(input.version.as_str(), input.name.as_str()) {
        return StrictVerdict::Reject(RejectReason::ModelMismatch);
    }
    if byte_len(input.country.as_str()) != 2 && !string_is(&input.country, "Unknown") {
        return StrictVerdict::Reject(RejectReason::BadCountry);
    }
    let version = regex_find(DOTTED_VERSION_PATTERN, input.version.as_str());
    if version.is_none() {
        return StrictVerdict::Reject(RejectReason::BadVersion);
    }
    let official = !regex_is_match(UNOFFICIAL_PATTERN, input.version.as_str());
    let country = normalize_country(input.country.clone());
    strict_record(input, version, official, country)
}

} // verus!

verus! {

/// The strict check ignores a submission exactly when its version or its
/// model is banned; a submission that is not banned, whose version string
/// ends with its model (or whose model is `x86_64`), whose country is two
/// bytes long or `Unknown` and whose version string starts with a dotted
/// number is stored, and it is refused otherwise.
pub proof fn lemma_strict_decision(input: StatInput, banned: BannedView)
    ensures
        (strict_outcome(input, banned) is Ignore) <==> (banned.versions.contains(input.version@) || banned.models.contains(
            input.name@,
        )),
        (strict_outcome(input, banned) is Store) <==> ({
            &&& !banned.versions.contains(input.version@)
            &&& !banned.models.contains(input.name@)
            &&& (input.name@ == "x86_64"@ || is_suffix(utf8(input.name@), utf8(input.version@)))
            &&& (utf8(input.country@).len() == 2 || input.country@ == "Unknown"@)
            &&& regex_leftmost(DOTTED_VERSION_PATTERN@, input.version@) is Some
        }),
{
}

/// A stored record keeps every submitted field in its own place: device id,
/// model, raw version, carrier and carrier id as submitted; its version is
/// the dotted number found, it is official unless marked unofficial, and
/// its country is as given when `Unknown`, upper-cased otherwise.
pub proof fn lemma_strict_store_keeps_fields(input: StatInput, banned: BannedView)
    ensures
        strict_outcome(input, banned) matches StrictVerdictView::Store(stat) ==> {
            &&& stat.device_id == input.device_id@
            &&& stat.model == input.name@
            &&& stat.version_raw == input.version@
            &&& stat.carrier == match input.carrier {
                Some(c) => Some(c@),
                None => None,
            }
            &&& stat.carrier_id == match input.carrier_id {
                Some(c) => Some(c@),
                None => None,
            }
            &&& Some(stat.version) == regex_leftmost(DOTTED_VERSION_PATTERN@, input.version@)
            &&& stat.official == !regex_matches(UNOFFICIAL_PATTERN@, input.version@)
            &&& stat.country == if input.country@ == "Unknown"@ {
                input.country@
            } else {
                crate::router::api::uppercase_of(input.country@)
            }
        },
{
}

} // verus!
