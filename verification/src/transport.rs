//! The unverified edge of the library: one HTTP round trip per call,
//! behind thin wrappers. Everything before and after these calls — the
//! URL, the header value, the body, the reading of the reply — is built
//! and checked by verified code.

use vstd::prelude::*;

verus! {

#[verifier::external_type_specification]
#[verifier::external_body]
pub struct ExReqwestError(reqwest::Error);

/// Relies on reqwest's blocking client: builds a client, issues a GET to
/// `url` carrying `auth` as the `Authorization` header, and hands back the
/// reply's status code beside its body text. Nothing is promised of the
/// reply: it comes from the network.
#[verifier::external_body]
pub(crate) fn http_get(url: &str, auth: &str) -> Result<(u16, String), reqwest::Error> {
    let client = reqwest::blocking::Client::builder().build()?;
    let res = client.get(url).header("Authorization", auth).send()?;
    let status = res.status().as_u16();
    let body = res.text()?;
    Ok((status, body))
}

/// Relies on reqwest's blocking client: as [`http_get`], but issues a POST
/// whose payload is `body`, declared as JSON.
#[verifier::external_body]
pub(crate) fn http_post_json(url: &str, auth: &str, body: &str) -> Result<
    (u16, String),
    reqwest::Error,
> {
    let client = reqwest::blocking::Client::builder().build()?;
    let res = client
        .post(url)
        .header("Authorization", auth)
        .header("Content-Type", "application/json")
        .body(body.to_owned())
        .send()?;
    let status = res.status().as_u16();
    let body = res.text()?;
    Ok((status, body))
}

/// Relies on the `Display` of reqwest's `Error`: the fault described as
/// text.
#[verifier::external_body]
pub(crate) fn transport_error_text(e: &reqwest::Error) -> String {
    format!("{}", e)
}

} // verus!
