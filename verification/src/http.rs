//! HTTP status decisions shared by the syncs.
use vstd::prelude::*;

verus! {

/// A status in the success class, 200 to 299.
pub open spec fn spec_status_is_success(status: u16) -> bool {
    200 <= status <= 299
}

/// The status of a request whose credentials were refused.
pub open spec fn spec_unauthorized() -> u16 {
    401
}

/// Whether a response status reports success.
pub fn status_is_success(status: u16) -> (r: bool)
    ensures
        r == spec_status_is_success(status),
{
    200 <= status && status <= 299
}

/// The page a stream goes on with: a request that was sent, answered with a
/// success status and whose body decoded into a page gives that page; a
/// failed request, any other status or an undecodable body gives nothing,
/// which ends the stream.
pub open spec fn spec_usable_page<P>(answer: Option<(u16, Option<P>)>) -> Option<P> {
    match answer {
        Some((status, Some(page))) => if spec_status_is_success(status) {
            Some(page)
        } else {
            None
        },
        _ => None,
    }
}

/// Decides whether a fetched answer yields a page: `answer` is nothing when
/// the request failed, else the status and the body decoded, if it decoded.
pub fn usable_page<P>(answer: Option<(u16, Option<P>)>) -> (r: Option<P>)
    ensures
        r == spec_usable_page(answer),
{
    match answer {
        Some((status, Some(page))) => if status_is_success(status) {
            Some(page)
        } else {
            None
        },
        _ => None,
    }
}

/// Success is exactly the statuses 200 to 299; a page is used exactly when
/// the request was answered with such a status and its body decoded.
pub proof fn lemma_usable_page_needs_success<P>(status: u16, page: P)
    ensures
        spec_status_is_success(status) <==> 200 <= status && status < 300,
        spec_usable_page(Some((status, Some(page)))) == (if 200 <= status && status < 300 {
            Some(page)
        } else {
            None
        }),
        spec_usable_page(Some((status, None::<P>))) is None,
        spec_usable_page(None::<(u16, Option<P>)>) is None,
{
}

} // verus!
