//! The TLS client session: which protocol versions it may negotiate, and
//! the connector that enforces certificate and host name verification.

use crate::args::text_view;
use crate::client::RequestError;
use crate::text::{same_chars, to_chars, trim, trimmed};
use native_tls::{TlsConnector, TlsConnectorBuilder};
use vstd::prelude::*;
use vstd::string::StringExecFns;

verus! {

/// A protocol version that can be asked for as the minimum.
#[derive(Clone, Copy, Debug, PartialEq, Eq, Structural)]
pub enum TlsVersion {
    Tls10,
    Tls11,
    Tls12,
}

/// The minimum that the text `version` asks for: `1.0`, `1.1` and `1.2`,
/// white space around them aside, ask for that version; `1.3` and every
/// other text ask for none.
pub open spec fn spec_get_tls_protocol_version(version: Seq<char>) -> Option<TlsVersion> {
    let v = trim(version);
    if v == "1.0"@ {
        Some(TlsVersion::Tls10)
    } else if v == "1.1"@ {
        Some(TlsVersion::Tls11)
    } else if v == "1.2"@ {
        Some(TlsVersion::Tls12)
    } else {
        None
    }
}

/// The minimum protocol version that `version` asks for.
pub fn get_tls_protocol_version(version: &str) -> (r: Option<TlsVersion>)
    ensures
        r == spec_get_tls_protocol_version(version@),
{
    let chars = to_chars(version);
    let v = trimmed(chars.as_slice());
    let v10 = to_chars("1.0");
    let v11 = to_chars("1.1");
    let v12 = to_chars("1.2");
    if same_chars(v, v10.as_slice()) {
        Some(TlsVersion::Tls10)
    } else if same_chars(v, v11.as_slice()) {
        Some(TlsVersion::Tls11)
    } else if same_chars(v, v12.as_slice()) {
        Some(TlsVersion::Tls12)
    } else {
        None
    }
}

/// The minimum protocol version where the request asks for none: TLS 1.2.
pub fn get_default_tls_protocol() -> (r: Option<TlsVersion>)
    ensures
        r == Some(TlsVersion::Tls12),
{
    Some(TlsVersion::Tls12)
}

/// Whether the text `version` names TLS 1.3, white space around it aside.
pub open spec fn names_tls13(version: Seq<char>) -> bool {
    trim(version) == "1.3"@
}

/// The minimum protocol version to set for a session, if one is to be set:
/// the version that the request asks for; none where the request names TLS
/// 1.3, so that the minimum of the TLS stack applies; and TLS 1.2 where the
/// request names no version, or none that is known.
pub open spec fn spec_minimum_tls_version(tls_version: Option<Seq<char>>) -> Option<TlsVersion> {
    match tls_version {
        Some(v) => match spec_get_tls_protocol_version(v) {
            Some(floor) => Some(floor),
            None => if names_tls13(v) {
                None
            } else {
                Some(TlsVersion::Tls12)
            },
        },
        None => Some(TlsVersion::Tls12),
    }
}

/// The minimum protocol version to set for a session, if one is to be set.
pub fn minimum_tls_version(tls_version: &Option<String>) -> (r: Option<TlsVersion>)
    ensures
        r == spec_minimum_tls_version(text_view(*tls_version)),
{
    match tls_version {
        Some(v) => match get_tls_protocol_version(v.as_str()) {
            Some(floor) => Some(floor),
            None => {
                let chars = to_chars(v.as_str());
                let v13 = to_chars("1.3");
                if same_chars(trimmed(chars.as_slice()), v13.as_slice()) {
                    None
                } else {
                    get_default_tls_protocol()
                }
            },
        },
        None => get_default_tls_protocol(),
    }
}

#[verifier::external_type_specification]
#[verifier::external_body]
pub struct ExTlsConnectorBuilder(native_tls::TlsConnectorBuilder);

#[verifier::external_type_specification]
#[verifier::external_body]
pub struct ExTlsConnector(native_tls::TlsConnector);

#[verifier::external_type_specification]
#[verifier::external_body]
pub struct ExTlsError(native_tls::Error);

/// The minimum protocol version that a builder holds, where it is one of
/// [`TlsVersion`].
pub uninterp spec fn builder_floor(builder: TlsConnectorBuilder) -> Option<TlsVersion>;

/// Whether a builder is set to accept invalid certificates.
pub uninterp spec fn builder_accepts_invalid_certs(builder: TlsConnectorBuilder) -> bool;

/// Whether a builder is set to accept a certificate for another host name.
pub uninterp spec fn builder_accepts_invalid_hostnames(builder: TlsConnectorBuilder) -> bool;

/// The minimum protocol version that a connector was built with, where it
/// is one of [`TlsVersion`].
pub uninterp spec fn connector_floor(connector: TlsConnector) -> Option<TlsVersion>;

/// Whether a connector accepts invalid certificates.
pub uninterp spec fn connector_accepts_invalid_certs(connector: TlsConnector) -> bool;

/// Whether a connector accepts a certificate for another host name.
pub uninterp spec fn connector_accepts_invalid_hostnames(connector: TlsConnector) -> bool;

/// `TlsConnector::builder` returns a builder with TLS 1.2 as the minimum
/// protocol version and with certificate and host name verification on.
pub assume_specification[ native_tls::TlsConnector::builder ]() -> (builder: TlsConnectorBuilder)
    ensures
        builder_floor(builder) == Some(TlsVersion::Tls12),
        !builder_accepts_invalid_certs(builder),
        !builder_accepts_invalid_hostnames(builder),
;

/// `TlsConnectorBuilder::min_protocol_version` stores the minimum protocol
/// version in the builder and touches no other setting.
#[verifier::external_body]
fn set_min_protocol_version(builder: &mut TlsConnectorBuilder, floor: TlsVersion)
    ensures
        builder_floor(*final(builder)) == Some(floor),
        builder_accepts_invalid_certs(*final(builder)) == builder_accepts_invalid_certs(
            *old(builder),
        ),
        builder_accepts_invalid_hostnames(*final(builder)) == builder_accepts_invalid_hostnames(
            *old(builder),
        ),
{
    builder.min_protocol_version(
        Some(
            match floor {
                TlsVersion::Tls10 => native_tls::Protocol::Tlsv10,
                TlsVersion::Tls11 => native_tls::Protocol::Tlsv11,
                TlsVersion::Tls12 => native_tls::Protocol::Tlsv12,
            },
        ),
    );
}

/// `TlsConnectorBuilder::danger_accept_invalid_certs` stores whether
/// invalid certificates are accepted and touches no other setting.
#[verifier::external_body]
fn set_accept_invalid_certs(builder: &mut TlsConnectorBuilder, accept: bool)
    ensures
        builder_accepts_invalid_certs(*final(builder)) == accept,
        builder_floor(*final(builder)) == builder_floor(*old(builder)),
        builder_accepts_invalid_hostnames(*final(builder)) == builder_accepts_invalid_hostnames(
            *old(builder),
        ),
{
    builder.danger_accept_invalid_certs(accept);
}

/// `TlsConnectorBuilder::danger_accept_invalid_hostnames` stores whether
/// certificates for another host name are accepted and touches no other
/// setting.
#[verifier::external_body]
fn set_accept_invalid_hostnames(builder: &mut TlsConnectorBuilder, accept: bool)
    ensures
        builder_accepts_invalid_hostnames(*final(builder)) == accept,
        builder_floor(*final(builder)) == builder_floor(*old(builder)),
        builder_accepts_invalid_certs(*final(builder)) == builder_accepts_invalid_certs(
            *old(builder),
        ),
{
    builder.danger_accept_invalid_hostnames(accept);
}

/// `TlsConnectorBuilder::build` makes a connector, or fails; a connector
/// that it makes is built with the minimum protocol version of the builder,
/// and accepts invalid certificates and other host names exactly where the
/// builder is set to.
#[verifier::external_body]
fn build_connector(builder: &TlsConnectorBuilder) -> (r: Result<TlsConnector, native_tls::Error>)
    ensures
        r matches Ok(connector) ==> connector_floor(connector) == builder_floor(*builder)
            && connector_accepts_invalid_certs(connector) == builder_accepts_invalid_certs(
            *builder,
        ) && connector_accepts_invalid_hostnames(connector) == builder_accepts_invalid_hostnames(
            *builder,
        ),
{
    builder.build()
}

/// The text that `native_tls::Error` displays.
#[verifier::external_body]
fn tls_error_text(error: &native_tls::Error) -> (r: String) {
    format!("{}", error)
}

/// The minimum protocol version of a builder on which none was set: that
/// of a new builder.
pub open spec fn stack_default_floor() -> Option<TlsVersion> {
    Some(TlsVersion::Tls12)
}

/// The minimum protocol version that is in effect where `chosen` is what
/// was chosen to be set.
pub open spec fn floor_in_effect(chosen: Option<TlsVersion>) -> Option<TlsVersion> {
    match chosen {
        Some(floor) => Some(floor),
        None => stack_default_floor(),
    }
}

/// The builder of a session's connector. The minimum protocol version of
/// the session is set on it where there is one to set, and else the minimum
/// of a new builder is left in place; certificate and host name
/// verification are on.
pub fn configure_connector(tls_version: &Option<String>) -> (builder: TlsConnectorBuilder)
    ensures
        builder_floor(builder) == floor_in_effect(
            spec_minimum_tls_version(text_view(*tls_version)),
        ),
        !builder_accepts_invalid_certs(builder),
        !builder_accepts_invalid_hostnames(builder),
{
    let mut builder = TlsConnector::builder();
    match minimum_tls_version(tls_version) {
        Some(floor) => {
            set_min_protocol_version(&mut builder, floor);
        },
        None => {},
    }
    set_accept_invalid_certs(&mut builder, false);
    set_accept_invalid_hostnames(&mut builder, false);
    builder
}

/// The connector of a session. One that is returned is built with the
/// minimum protocol version of the session and verifies certificates and
/// host names; a failure is a TLS error whose message begins with
/// `TLS error: `.
pub fn tls_connector(tls_version: &Option<String>) -> (r: Result<TlsConnector, RequestError>)
    ensures
        match r {
            Ok(connector) => connector_floor(connector) == floor_in_effect(
                spec_minimum_tls_version(text_view(*tls_version)),
            ) && !connector_accepts_invalid_certs(connector)
                && !connector_accepts_invalid_hostnames(connector),
            Err(RequestError::TlsError(message)) => "TLS error: "@.is_prefix_of(message@),
            Err(_) => false,
        },
{
    let builder = configure_connector(tls_version);
    match build_connector(&builder) {
        Ok(connector) => Ok(connector),
        Err(error) => {
            let mut message = String::from_str("TLS error: ");
            let ghost prefix = message@;
            let text = tls_error_text(&error);
            message.append(text.as_str());
            assert(message@.subrange(0, prefix.len() as int) =~= prefix);
            Err(RequestError::TlsError(message))
        },
    }
}

} // verus!
