use vstd::prelude::*;

verus! {

/// `reqwest::Client`, the HTTP client that the chains and the price feed
/// share. Nothing inside it is visible to the proofs.
#[verifier::external_type_specification]
#[verifier::external_body]
pub struct ExClient(reqwest::Client);

/// `reqwest::Error`, what a failed build of a client returns.
#[verifier::external_type_specification]
#[verifier::external_body]
pub struct ExClientError(reqwest::Error);

/// Calls `reqwest::Client::builder()` and `build()` on what it returns, the
/// form of `reqwest::Client::new()` that hands a failure back in place of a
/// panic. The build reads the machine's proxy settings and may fail, so
/// nothing is claimed of the outcome.
#[verifier::external_body]
pub(crate) fn build_client() -> (built: Result<reqwest::Client, reqwest::Error>) {
    reqwest::Client::builder().build()
}

/// Calls `clone` on a `reqwest::Client`. The type is one `Arc` around the
/// client's inner state and its `Clone` is derived, so the clone points to
/// the very same client and connection pool: the contract says that the
/// handle equals the client that was cloned.
#[verifier::external_body]
pub(crate) fn share_client(client: &reqwest::Client) -> (handle: reqwest::Client)
    ensures
        handle == *client,
{
    client.clone()
}

} // verus!
