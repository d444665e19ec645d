//! Request and response types of the online operations against a running
//! licensing service, and the decisions those operations make: which URL a
//! call goes to, and whether the server's reply is accepted. Sending the
//! requests and decoding JSON is left to the caller's HTTP client.

use vstd::prelude::*;
use vstd::string::StringExecFns;
use crate::error::{Error, Result};
use crate::key::{strings_contain, strings_view};

verus! {

/// What `url::Url::parse` gives for a text: the serialization of the URL it
/// parses (`Url::as_str`), or the text (`to_string`) of its error.
pub uninterp spec fn url_parse_text(input: Seq<char>) -> std::result::Result<Seq<char>, Seq<char>>;

/// What `url::Url::join` gives for `input` against the URL that `base`
/// parses to: the serialization of the joined URL, or the text of the error
/// of the parse or of the join.
pub uninterp spec fn url_join_text(base: Seq<char>, input: Seq<char>) -> std::result::Result<
    Seq<char>,
    Seq<char>,
>;

/// Calls `url::Url::parse`; its outcome is named by [`url_parse_text`].
#[verifier::external_body]
fn url_parse(input: &str) -> (r: std::result::Result<String, String>)
    ensures
        match r {
            Ok(u) => url_parse_text(input@) == Ok::<Seq<char>, Seq<char>>(u@),
            Err(m) => url_parse_text(input@) == Err::<Seq<char>, Seq<char>>(m@),
        },
{
    match url::Url::parse(input) {
        Ok(u) => Ok(u.as_str().to_owned()),
        Err(e) => Err(e.to_string()),
    }
}

/// Calls `url::Url::parse` on `base` and `url::Url::join` on the result;
/// the outcome is named by [`url_join_text`].
#[verifier::external_body]
fn url_join(base: &str, input: &str) -> (r: std::result::Result<String, String>)
    ensures
        match r {
            Ok(u) => url_join_text(base@, input@) == Ok::<Seq<char>, Seq<char>>(u@),
            Err(m) => url_join_text(base@, input@) == Err::<Seq<char>, Seq<char>>(m@),
        },
{
    match url::Url::parse(base) {
        Ok(b) => match b.join(input) {
            Ok(u) => Ok(u.as_str().to_owned()),
            Err(e) => Err(e.to_string()),
        },
        Err(e) => Err(e.to_string()),
    }
}

/// Parses the base URL of a service; a URL that does not parse is a
/// [`Error::BadUrl`] with the parser's message.
pub fn parse_base_url(base_url: &str) -> (r: Result<String>)
    ensures
        match url_parse_text(base_url@) {
            Ok(u) => r matches Ok(s) && s@ == u,
            Err(m) => r matches Err(Error::BadUrl(s)) && s@ == m,
        },
{
    match url_parse(base_url) {
        Ok(u) => Ok(u),
        Err(m) => Err(Error::BadUrl(m)),
    }
}

/// The URL of an endpoint `path` of the service at `base`.
pub fn endpoint_url(base: &str, path: &str) -> (r: Result<String>)
    ensures
        match url_join_text(base@, path@) {
            Ok(u) => r matches Ok(s) && s@ == u,
            Err(m) => r matches Err(Error::BadUrl(s)) && s@ == m,
        },
{
    match url_join(base, path) {
        Ok(u) => Ok(u),
        Err(m) => Err(Error::BadUrl(m)),
    }
}

/// The path polled for a purchase: `/v1/purchase/<invoice_id>`.
pub fn purchase_poll_path(invoice_id: &str) -> (r: String)
    ensures
        r@ == "/v1/purchase/"@ + invoice_id@,
{
    let mut p = String::from_str("/v1/purchase/");
    p.append(invoice_id);
    p
}

/// Which HTTP statuses an endpoint accepts as success.
#[derive(Debug, Clone, Copy, PartialEq, Eq)]
pub enum StatusRule {
    /// Only `200 OK`.
    ExactlyOk,
    /// Any `2xx` status.
    AnySuccess,
}

/// True if `status` is a success under `rule`.
pub open spec fn spec_status_accepted(status: u16, rule: StatusRule) -> bool {
    match rule {
        StatusRule::ExactlyOk => status == 200,
        StatusRule::AnySuccess => 200 <= status <= 299,
    }
}

/// Decides on a server reply: an accepted status hands the body on for
/// decoding, any other is a [`Error::Server`] carrying status and body.
pub fn check_reply(status: u16, body: String, rule: StatusRule) -> (r: Result<String>)
    ensures
        spec_status_accepted(status, rule) ==> (r matches Ok(b) && b@ == body@),
        !spec_status_accepted(status, rule) ==> (r matches Err(Error::Server { status: s, body: b })
            && s == status && b@ == body@),
        rule is AnySuccess ==> (r is Ok <==> 200 <= status <= 299),
        rule is ExactlyOk ==> (r is Ok <==> status == 200),
{
    let accepted = match rule {
        StatusRule::ExactlyOk => status == 200,
        StatusRule::AnySuccess => 200 <= status && status <= 299,
    };
    if accepted {
        Ok(body)
    } else {
        Err(Error::Server { status, body })
    }
}

/// Full request body for a validation call.
#[derive(Debug, Clone)]
pub struct ValidateRequest<'a> {
    /// The full `LIC1-...` key string.
    pub key: &'a str,
    /// Optional product slug the caller expects the key to cover.
    pub product_slug: Option<&'a str>,
    /// Optional raw fingerprint; sending it enables seat binding.
    pub fingerprint: Option<&'a str>,
    /// Optional client-supplied hostname.
    pub hostname: Option<&'a str>,
    /// Optional client-supplied platform descriptor.
    pub platform: Option<&'a str>,
}

/// Options of a purchase.
#[derive(Debug, Clone)]
pub struct StartPurchaseOptions<'a> {
    /// Slug of the policy (tier) to buy; the product's default when `None`.
    pub policy_slug: Option<&'a str>,
    /// Buyer's e-mail address.
    pub buyer_email: Option<&'a str>,
    /// Where the checkout sends the buyer afterwards.
    pub redirect_url: Option<&'a str>,
}

impl<'a> Default for StartPurchaseOptions<'a> {
    fn default() -> (r: Self)
        ensures
            r.policy_slug is None,
            r.buyer_email is None,
            r.redirect_url is None,
    {
        StartPurchaseOptions { policy_slug: None, buyer_email: None, redirect_url: None }
    }
}

/// Response from the validation endpoint.
#[derive(Debug, Clone)]
pub struct ValidateResponse {
    /// Whether the key is currently valid.
    pub ok: bool,
    /// Machine-readable reason on failure.
    pub reason: Option<String>,
    /// License id on success.
    pub license_id: Option<String>,
    /// Product id on success.
    pub product_id: Option<String>,
    /// Product slug on success.
    pub product_slug: Option<String>,
    /// Issue timestamp (RFC 3339) on success.
    pub issued_at: Option<String>,
    /// Expiry timestamp (RFC 3339) if the license has one.
    pub expires_at: Option<String>,
    /// End of the grace window (RFC 3339) while in grace.
    pub grace_until: Option<String>,
    /// True while past `expires_at` but inside the grace window.
    pub in_grace_period: Option<bool>,
    /// True if this license is flagged as a trial.
    pub is_trial: Option<bool>,
    /// Entitlement slugs granted by the license.
    pub entitlements: Vec<String>,
    /// License status string (`active`, `suspended`, `revoked`).
    pub status: Option<String>,
    /// The id of the machine row this call activated or matched.
    pub machine_id: Option<String>,
    /// The license's seat cap; `0` is unlimited.
    pub max_machines: Option<i64>,
}

impl Default for ValidateResponse {
    fn default() -> (r: Self)
        ensures
            !r.ok,
            r.reason is None,
            r.license_id is None,
            r.product_id is None,
            r.product_slug is None,
            r.issued_at is None,
            r.expires_at is None,
            r.grace_until is None,
            r.in_grace_period is None,
            r.is_trial is None,
            r.entitlements@.len() == 0,
            r.status is None,
            r.machine_id is None,
            r.max_machines is None,
    {
        ValidateResponse {
            ok: false,
            reason: None,
            license_id: None,
            product_id: None,
            product_slug: None,
            issued_at: None,
            expires_at: None,
            grace_until: None,
            in_grace_period: None,
            is_trial: None,
            entitlements: Vec::new(),
            status: None,
            machine_id: None,
            max_machines: None,
        }
    }
}

impl ValidateResponse {
    /// True if the license grants the given entitlement slug.
    pub fn has_entitlement(&self, slug: &str) -> (r: bool)
        ensures
            r == strings_view(self.entitlements@).contains(slug@),
    {
        strings_contain(&self.entitlements, slug)
    }
}

/// Response from the machine endpoints.
#[derive(Debug, Clone)]
pub struct MachineResponse {
    /// Whether the call succeeded.
    pub ok: bool,
    /// Machine-readable reason on failure.
    pub reason: Option<String>,
    /// The machine id, when present.
    pub machine_id: Option<String>,
    /// Current count of active machines for this license.
    pub active_count: Option<i64>,
    /// Seat cap for this license.
    pub max_machines: Option<i64>,
}

impl Default for MachineResponse {
    fn default() -> (r: Self)
        ensures
            !r.ok,
            r.reason is None,
            r.machine_id is None,
            r.active_count is None,
            r.max_machines is None,
    {
        MachineResponse {
            ok: false,
            reason: None,
            machine_id: None,
            active_count: None,
            max_machines: None,
        }
    }
}

/// Response when starting a purchase.
#[derive(Debug, Clone)]
pub struct PurchaseSession {
    /// The service's invoice id, to poll with.
    pub invoice_id: String,
    /// BTCPay's invoice id (opaque).
    pub btcpay_invoice_id: String,
    /// URL to open in the buyer's browser.
    pub checkout_url: String,
    /// Amount in satoshis.
    pub amount_sats: i64,
    /// Where the service recommends polling.
    pub poll_url: String,
}

/// Response from polling a purchase.
#[derive(Debug, Clone)]
pub struct PollResponse {
    /// The invoice id.
    pub invoice_id: String,
    /// `pending | settled | expired | invalid`.
    pub status: String,
    /// Product id (UUID string).
    pub product_id: String,
    /// Price in satoshis.
    pub amount_sats: i64,
    /// Populated once the license has been issued.
    pub license_key: Option<String>,
    /// Populated with the license row's id once issued.
    pub license_id: Option<String>,
}

} // verus!
