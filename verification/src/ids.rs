//! Session identifiers.
//!
//! Every session carries an opaque identifier that is the sole cross-component
//! correlation key.  Identifiers are drawn from the `uuid` crate; the library
//! holds them as their 128-bit value so that equality is plain field equality.

use vstd::prelude::*;

verus! {

/// An opaque session identifier, immutable for the session's lifetime.
#[derive(Clone, Copy, PartialEq, Eq, Structural, Debug)]
pub struct SessionId {
    pub raw: u128,
}

/// The hyphenated text form of an identifier, as the `uuid` crate renders it.
/// Used as a session's initial title.
pub uninterp spec fn uuid_display(raw: u128) -> Seq<char>;

/// Relies on `uuid::Uuid::new_v4`: draws a fresh random identifier.
/// Nothing can be promised of a random value.
#[verifier::external_body]
pub fn fresh_session_id() -> SessionId {
    SessionId { raw: uuid::Uuid::new_v4().as_u128() }
}

/// Relies on `uuid::fmt::Hyphenated` via `Uuid::to_string`: the text form is a
/// function of the 128-bit value alone, and is documented to be 36 characters
/// (32 hex digits and 4 hyphens).
#[verifier::external_body]
pub fn session_id_text(id: SessionId) -> (r: String)
    ensures
        r@ == uuid_display(id.raw),
        r@.len() == 36,
{
    uuid::Uuid::from_u128(id.raw).to_string()
}

} // verus!
