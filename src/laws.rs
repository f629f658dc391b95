//! Properties that relate signing, encoding and validation.
use vstd::prelude::*;

use crate::date::ymd_before;
use crate::license::{in_window, License, LicenseError, SignedLicense, validation_outcome};
use crate::meta::lemma_sorted_entries_unique;
use crate::primitives::parsed_date_of;

verus! {

/// A license with an id, carried with the signature it has under `secret`,
/// validates under that secret on every day of its window.
pub proof fn lemma_signed_license_validates(l: License, signature: String, secret: Seq<char>, today: (int, int, int))
    requires
        l.id is Some,
        signature@ == l.spec_signature(secret),
        in_window(l, today),
    ensures
        validation_outcome(SignedLicense { license: l, signature }, secret, today) == Ok::<(), LicenseError>(()),
{
}

/// Where both dates read and today lies in the window, a license whose
/// carried signature differs from the one it has under `secret` (because a
/// field was changed after signing, or it was signed under another secret)
/// is rejected as wrongly signed.
pub proof fn lemma_mismatched_signature_rejected(sl: SignedLicense, secret: Seq<char>, today: (int, int, int))
    requires
        sl.license.id is Some,
        in_window(sl.license, today),
        sl.signature@ != sl.license.spec_signature(secret),
    ensures
        validation_outcome(sl, secret, today) == Err::<(), LicenseError>(LicenseError::InvalidSignature),
{
}

/// A license that starts and ends today is valid today, when correctly signed.
pub proof fn lemma_single_day_window_valid(sl: SignedLicense, secret: Seq<char>, today: (int, int, int))
    requires
        sl.license.id is Some,
        sl.signature@ == sl.license.spec_signature(secret),
        parsed_date_of(sl.license.valid_from@) == Some(today),
        parsed_date_of(sl.license.valid_until@) == Some(today),
    ensures
        validation_outcome(sl, secret, today) == Ok::<(), LicenseError>(()),
{
}

/// A license that starts after today, or ended before today, has expired,
/// whatever its signature.
pub proof fn lemma_outside_window_expired(sl: SignedLicense, secret: Seq<char>, today: (int, int, int))
    requires
        parsed_date_of(sl.license.valid_from@) is Some,
        parsed_date_of(sl.license.valid_until@) is Some,
        ymd_before(today, parsed_date_of(sl.license.valid_from@)->0)
            || ymd_before(parsed_date_of(sl.license.valid_until@)->0, today),
    ensures
        validation_outcome(sl, secret, today) == Err::<(), LicenseError>(LicenseError::Expired),
{
}

/// Validating the same license twice, with the same secret on the same day,
/// gives the same result: validation reads nothing that it changes.
pub proof fn lemma_validation_repeatable(
    sl: SignedLicense,
    secret: Seq<char>,
    today: (int, int, int),
    first: Result<(), LicenseError>,
    second: Result<(), LicenseError>,
)
    requires
        first == validation_outcome(sl, secret, today),
        second == validation_outcome(sl, secret, today),
    ensures
        first == second,
{
}

/// Licenses that agree on id and dates, and whose metadata hold the same
/// keys and values, have the same signing input and the same token under
/// every secret, in whatever order the metadata were inserted.
pub proof fn lemma_signing_ignores_insertion_order(a: License, b: License, secret: Seq<char>)
    requires
        a.id is Some,
        b.id is Some,
        a.id->0@ == b.id->0@,
        a.valid_from@ == b.valid_from@,
        a.valid_until@ == b.valid_until@,
        a.meta.wf(),
        b.meta.wf(),
        a.meta.as_map() == b.meta.as_map(),
    ensures
        a.spec_signing_input() == b.spec_signing_input(),
        a.spec_token(secret) == b.spec_token(secret),
{
    lemma_sorted_entries_unique(a.meta@, b.meta@);
}

} // verus!
