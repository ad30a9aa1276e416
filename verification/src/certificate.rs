//! When the certificate of a service expires.

use crate::time::{whole_days_fit, whole_seconds_fit, Timestamp, FIRST_SECOND, LAST_SECOND};
use vstd::prelude::*;

verus! {

/// The second, counted from the start of 1970, after which a certificate is
/// no longer valid, as `x509_parser` reads it; nothing where the bytes are no
/// certificate.
pub uninterp spec fn x509_not_after(der: Seq<u8>) -> Option<i64>;

/// Calls `x509_parser::parse_x509_certificate`, `X509Certificate::validity`
/// and `ASN1Time::timestamp`; the result is that of the name `x509_not_after`.
#[verifier::external_body]
fn not_after(der: &Vec<u8>) -> (second: Option<i64>)
    ensures
        second == x509_not_after(der@),
{
    let (_, certificate) = x509_parser::parse_x509_certificate(der).ok()?;
    Some(certificate.validity().not_after.timestamp())
}

/// When a certificate expires, and how many whole days are left until then.
pub open spec fn expiry_of(
    second: Option<i64>,
    now: Timestamp,
    expiry: (Option<Timestamp>, Option<i64>),
) -> bool {
    if second is Some && crate::time::is_time(second->0 as int, 0) {
        &&& expiry.0 is Some
        &&& expiry.0->0.spec_seconds() == second->0
        &&& expiry.0->0.spec_nanos() == 0
        &&& expiry.1 is Some
        &&& expiry.1->0 == expiry.0->0.days_after(now)
    } else {
        expiry == (None::<Timestamp>, None::<i64>)
    }
}

/// When a certificate that is valid until `second` expires, and how many whole
/// days are left until then.
pub fn expiry(second: Option<i64>, now: Timestamp) -> (result: (Option<Timestamp>, Option<i64>))
    ensures
        expiry_of(second, now, result),
{
    if let Some(seconds) = second {
        if let Some(expires) = Timestamp::new(seconds, 0) {
            return (Some(expires), Some(expires.days_since(&now)));
        }
    }
    (None, None)
}

/// When the first of the certificates that a server presented expires, and how
/// many whole days are left until then. Without a certificate that can be
/// read, nothing is known.
pub fn check_certificate_expiry(certificates: &Vec<Vec<u8>>, now: Timestamp) -> (result: (
    Option<Timestamp>,
    Option<i64>,
))
    ensures
        expiry_of(
            if certificates@.len() > 0 {
                x509_not_after(certificates@[0]@)
            } else {
                None
            },
            now,
            result,
        ),
{
    if certificates.len() > 0 {
        expiry(not_after(&certificates[0]), now)
    } else {
        (None, None)
    }
}

/// The days left of a certificate are the whole days from now to the second
/// after which it is no longer valid: none for one that expires within a day,
/// and fewer than zero where more than a day has passed since. Where that
/// second is not known, nothing is known of either.
pub proof fn days_left_end_with_the_certificate(
    second: Option<i64>,
    now: Timestamp,
    expiry: (Option<Timestamp>, Option<i64>),
)
    requires
        expiry_of(second, now, expiry),
        now.spec_nanos() < 1_000_000_000,
    ensures
        second is None ==> expiry.0 is None && expiry.1 is None,
        expiry.0 is Some <==> expiry.1 is Some,
        second is Some && FIRST_SECOND <= second->0 <= LAST_SECOND ==> expiry.0 is Some,
        expiry.0 is Some ==> second is Some && expiry.0->0.spec_seconds() == second->0
            && expiry.0->0.spec_nanos() == 0,
        expiry.1 is Some ==> {
            let nanos = (second->0 - now.spec_seconds()) * 1_000_000_000 - now.spec_nanos();
            &&& nanos >= 0 ==> expiry.1->0 * 86_400_000_000_000 <= nanos < (expiry.1->0 + 1)
                * 86_400_000_000_000
            &&& nanos <= 0 ==> (expiry.1->0 - 1) * 86_400_000_000_000 < nanos <= expiry.1->0
                * 86_400_000_000_000
        },
{
    if expiry.0 is Some {
        whole_seconds_fit(expiry.0->0, now);
        whole_seconds_fit(now, expiry.0->0);
        whole_days_fit(expiry.0->0, now);
    }
}

} // verus!
