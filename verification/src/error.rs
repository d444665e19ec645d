//! Error type of the library.

use vstd::prelude::*;
use vstd::string::StringExecFns;
use crate::text::{hex_digit, hex_digit_str};

verus! {

/// Errors returned by the licensing client.
#[derive(Debug)]
pub enum Error {
    /// The key string didn't match the expected `LIC1-<payload>-<sig>` shape.
    BadFormat(&'static str),
    /// Base32 decoding of the payload or signature failed.
    BadEncoding(&'static str),
    /// The payload didn't contain the expected number of bytes.
    BadPayloadLength {
        /// expected length
        expected: usize,
        /// observed length
        got: usize,
    },
    /// Unknown key format version.
    UnsupportedVersion(u8),
    /// The signature failed to verify against the public key.
    BadSignature,
    /// The key's `expires_at` is in the past.
    Expired,
    /// Reading or parsing the supplied public key failed.
    BadPublicKey(String),
    /// An HTTP call failed; the text describes the transport error.
    Http(String),
    /// The server returned an error response.
    Server {
        /// HTTP status
        status: u16,
        /// response body as text
        body: String,
    },
    /// A URL couldn't be parsed.
    BadUrl(String),
    /// Generic catch-all.
    Other(String),
}

/// A `Result` alias for this crate.
pub type Result<T> = std::result::Result<T, Error>;

/// The decimal digits of `n`, most significant first.
pub open spec fn decimal_digits(n: nat) -> Seq<char>
    decreases n,
{
    if n < 10 {
        seq![hex_digit(n as int)]
    } else {
        decimal_digits(n / 10) + seq![hex_digit((n % 10) as int)]
    }
}

/// The message of an error, as its `Display` form words it.
pub open spec fn spec_message(e: Error) -> Seq<char> {
    match e {
        Error::BadFormat(m) => "bad key format: "@ + m@,
        Error::BadEncoding(m) => "bad encoding: "@ + m@,
        Error::BadPayloadLength { expected, got } => "bad payload length: expected "@
            + decimal_digits(expected as nat) + ", got "@ + decimal_digits(got as nat),
        Error::UnsupportedVersion(v) => "unsupported key version "@ + decimal_digits(v as nat),
        Error::BadSignature => "signature verification failed"@,
        Error::Expired => "license expired"@,
        Error::BadPublicKey(m) => "bad public key PEM: "@ + m@,
        Error::Http(m) => "HTTP error: "@ + m@,
        Error::Server { status, body } => "server error ("@ + decimal_digits(status as nat)
            + "): "@ + body@,
        Error::BadUrl(m) => "bad URL: "@ + m@,
        Error::Other(m) => m@,
    }
}

/// Appends the decimal digits of `n`.
fn push_decimal(out: &mut String, n: u64)
    ensures
        final(out)@ == old(out)@ + decimal_digits(n as nat),
    decreases n,
{
    if n >= 10 {
        push_decimal(out, n / 10);
    }
    out.append(hex_digit_str((n % 10) as u8));
    assert(out@ =~= old(out)@ + decimal_digits(n as nat));
}

impl Error {
    /// The error's message, as its `Display` form words it.
    pub fn message(&self) -> (r: String)
        ensures
            r@ == spec_message(*self),
    {
        match self {
            Error::BadFormat(m) => {
                let mut s = String::from_str("bad key format: ");
                s.append(m);
                s
            },
            Error::BadEncoding(m) => {
                let mut s = String::from_str("bad encoding: ");
                s.append(m);
                s
            },
            Error::BadPayloadLength { expected, got } => {
                let mut s = String::from_str("bad payload length: expected ");
                push_decimal(&mut s, *expected as u64);
                s.append(", got ");
                push_decimal(&mut s, *got as u64);
                s
            },
            Error::UnsupportedVersion(v) => {
                let mut s = String::from_str("unsupported key version ");
                push_decimal(&mut s, *v as u64);
                s
            },
            Error::BadSignature => String::from_str("signature verification failed"),
            Error::Expired => String::from_str("license expired"),
            Error::BadPublicKey(m) => {
                let mut s = String::from_str("bad public key PEM: ");
                s.append(m.as_str());
                s
            },
            Error::Http(m) => {
                let mut s = String::from_str("HTTP error: ");
                s.append(m.as_str());
                s
            },
            Error::Server { status, body } => {
                let mut s = String::from_str("server error (");
                push_decimal(&mut s, *status as u64);
                s.append("): ");
                s.append(body.as_str());
                s
            },
            Error::BadUrl(m) => {
                let mut s = String::from_str("bad URL: ");
                s.append(m.as_str());
                s
            },
            Error::Other(m) => String::from_str(m.as_str()),
        }
    }
}

} // verus!
