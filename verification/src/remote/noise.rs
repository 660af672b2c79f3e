//! Registration for the encrypted relay. Once it is chosen, failures stay on
//! this path: there is no way back to the cleartext relay.
use vstd::prelude::*;
use vstd::utf8::encode_utf8;
use super::registry::is_auth_status;
use super::registry::is_success_status;
use crate::error::config_error;
use crate::error::protocol_error;
use crate::error::ExecServerError;
use crate::noise_channel::NoiseChannelError;
use crate::outside::web::status_display;
use crate::outside::web::status_text;
use crate::text::chars::all_alphanumeric_or;
use crate::text::chars::ascii_alphanumeric;
use crate::text::chars::chars_of;
use crate::text::chars::law_trimming_cuts_the_class_and_no_more;
use crate::text::chars::push_text;
use crate::text::chars::same_chars;
use crate::text::chars::string_of;
use crate::text::chars::trim;
use crate::text::chars::trim_chars;
use crate::text::chars::whitespace;
use crate::text::chars::TrimClass;

verus! {

/// How long a request to the registry may take, in seconds.
pub const ENVIRONMENT_REGISTRY_REQUEST_TIMEOUT_SECS: u64 = 10;

/// The longest executor registration id, in bytes.
pub const MAX_EXECUTOR_REGISTRATION_ID_LEN: usize = 256;

/// The longest environment id, in bytes.
pub const MAX_REMOTE_ENVIRONMENT_ID_LEN: usize = 256;

/// The security profile that is asked for and expected.
pub const NOISE_RELAY_SECURITY_PROFILE: &'static str = "noise_hybrid_ik_v1";

/// How long connecting to the rendezvous may take, in seconds.
pub const REMOTE_RENDEZVOUS_CONNECT_TIMEOUT_SECS: u64 = 10;

/// Whether an environment id is one component of a request path.
pub open spec fn is_path_component(id: Seq<char>) -> bool {
    forall|i: int|
        0 <= i < id.len() ==> ascii_alphanumeric(#[trigger] id[i]) || id[i] == '-' || id[i] == '_'
}

/// Why an environment id cannot be used.
pub open spec fn environment_id_refusal(id: Seq<char>) -> Option<Seq<char>> {
    if encode_utf8(id).len() > MAX_REMOTE_ENVIRONMENT_ID_LEN {
        Some("environment id cannot be longer than 256 characters"@)
    } else if !is_path_component(id) {
        Some("environment id must contain only ASCII letters, numbers, '-' or '_'"@)
    } else {
        None
    }
}

/// Checks that an environment id is one short component of a request path, so
/// that it cannot lead an authenticated request to another address.
pub fn validate_environment_id(environment_id: &str) -> (r: Result<(), ExecServerError>)
    ensures
        match environment_id_refusal(environment_id@) {
            Some(message) => r matches Err(e) && e.is_config(message),
            None => r is Ok,
        },
{
    if environment_id.as_bytes().len() > MAX_REMOTE_ENVIRONMENT_ID_LEN {
        return Err(config_error("environment id cannot be longer than 256 characters"));
    }
    let chars = chars_of(environment_id);
    let extra = ['-', '_'];
    proof {
        assert forall|c: char| #[trigger] extra@.contains(c) == (c == '-' || c == '_') by {
            assert(extra@[0] == '-' && extra@[1] == '_');
        }
    }
    if !all_alphanumeric_or(&chars, &extra) {
        return Err(
            config_error("environment id must contain only ASCII letters, numbers, '-' or '_'"),
        );
    }
    Ok(())
}

/// Whether an executor registration id is unambiguous.
pub open spec fn is_registration_id(id: Seq<char>) -> bool {
    id.len() > 0 && trim(id) == id && encode_utf8(id).len() <= MAX_EXECUTOR_REGISTRATION_ID_LEN
}

/// Checks that an executor registration id is unambiguous.
pub fn validate_executor_registration_id(executor_registration_id: &str) -> (r: Result<
    (),
    ExecServerError,
>)
    ensures
        if is_registration_id(executor_registration_id@) {
            r is Ok
        } else {
            r matches Err(e) && e.is_protocol(
                "environment registry returned an invalid executor registration id"@,
            )
        },
{
    let chars = chars_of(executor_registration_id);
    if chars.len() == 0 || !same_chars(trim_chars(&chars), &chars)
        || executor_registration_id.as_bytes().len() > MAX_EXECUTOR_REGISTRATION_ID_LEN {
        return Err(
            protocol_error("environment registry returned an invalid executor registration id"),
        );
    }
    Ok(())
}

/// The error for want of an identity.
pub fn identity_error(error: &NoiseChannelError) -> (r: ExecServerError)
    ensures
        r.is_protocol("failed to generate Noise relay identity: "@ + error.text()),
{
    let mut message = chars_of("failed to generate Noise relay identity: ");
    push_text(&mut message, error.to_text().as_str());
    ExecServerError::Protocol(string_of(&message))
}

/// The error that the status of a harness-key validation reports. The answer's
/// contents are left out of it, since they might repeat the authorization.
pub fn validation_status_error(status: u16) -> (r: Option<ExecServerError>)
    requires
        100 <= status <= 999,
    ensures
        r is None == is_success_status(status),
        !is_success_status(status) && is_auth_status(status) ==> r->0.is_auth(
            "environment registry harness key validation authentication failed ("@
                + status_display(status) + ")"@,
        ),
        !is_success_status(status) && !is_auth_status(status) ==> (r matches Some(
            ExecServerError::EnvironmentRegistryHttp { status: s, code, message },
        ) && s == status && code is None && message@
            == "environment registry harness key validation failed"@),
{
    if 200 <= status && status < 300 {
        return None;
    }
    if status == 401 || status == 403 {
        let mut message = chars_of(
            "environment registry harness key validation authentication failed (",
        );
        push_text(&mut message, status_text(status).as_str());
        push_text(&mut message, ")");
        return Some(ExecServerError::EnvironmentRegistryAuth(string_of(&message)));
    }
    Some(
        ExecServerError::EnvironmentRegistryHttp {
            status,
            code: None,
            message: "environment registry harness key validation failed".to_owned(),
        },
    )
}

/// The decision of the registry on a harness key: only an explicit consent counts.
pub fn validation_decision(valid: bool) -> (r: Result<(), ExecServerError>)
    ensures
        valid == r is Ok,
        !valid ==> r->Err_0.is_protocol("environment registry rejected Noise relay harness key"@),
{
    if valid {
        Ok(())
    } else {
        Err(protocol_error("environment registry rejected Noise relay harness key"))
    }
}

/// The outcome of a harness-key validation, from the status of the registry's
/// answer and whether the answer consents. A key is accepted only where the
/// registry answered with success and consented.
pub fn validation_outcome(status: u16, valid: bool) -> (r: Result<(), ExecServerError>)
    requires
        100 <= status <= 999,
    ensures
        r is Ok <==> is_success_status(status) && valid,
        is_success_status(status) && !valid ==> r->Err_0.is_protocol(
            "environment registry rejected Noise relay harness key"@,
        ),
        !is_success_status(status) && is_auth_status(status) ==> r->Err_0.is_auth(
            "environment registry harness key validation authentication failed ("@
                + status_display(status) + ")"@,
        ),
        !is_success_status(status) && !is_auth_status(status) ==> (r matches Err(
            ExecServerError::EnvironmentRegistryHttp { status: s, code, message },
        ) && s == status && code is None && message@
            == "environment registry harness key validation failed"@),
{
    match validation_status_error(status) {
        Some(error) => Err(error),
        None => validation_decision(valid),
    }
}

/// A usable environment id holds no separator of a path or an address, so that
/// the path of a request for it is the one that was meant.
pub proof fn law_environment_id_cannot_leave_its_path(id: Seq<char>)
    requires
        environment_id_refusal(id) is None,
    ensures
        !id.contains('/'),
        !id.contains('\\'),
        !id.contains('?'),
        !id.contains('#'),
        !id.contains('%'),
        !id.contains('.'),
{
    assert forall|i: int| 0 <= i < id.len() implies (#[trigger] id[i]) != '/' && id[i] != '\\'
        && id[i] != '?' && id[i] != '#' && id[i] != '%' && id[i] != '.' by {
        assert(ascii_alphanumeric(id[i]) || id[i] == '-' || id[i] == '_');
    }
}

/// An environment id is usable exactly where it is made of ASCII letters, digits,
/// dashes and underscores, at most 256 bytes of them; a longer one is refused for
/// its length first.
pub proof fn law_usable_environment_ids(id: Seq<char>)
    ensures
        environment_id_refusal(id) is None <==> encode_utf8(id).len() <= 256 && forall|i: int|
            0 <= i < id.len() ==> 'a' <= #[trigger] id[i] <= 'z' || 'A' <= id[i] <= 'Z' || '0'
                <= id[i] <= '9' || id[i] == '-' || id[i] == '_',
        encode_utf8(id).len() > 256 ==> environment_id_refusal(id) == Some(
            "environment id cannot be longer than 256 characters"@,
        ),
        encode_utf8(id).len() <= 256 && environment_id_refusal(id) is Some
            ==> environment_id_refusal(id) == Some(
            "environment id must contain only ASCII letters, numbers, '-' or '_'"@,
        ),
{
}

/// A registration id is unambiguous where it is not empty, has no white space at
/// either end, and is at most 256 bytes long.
pub proof fn law_unambiguous_registration_ids(id: Seq<char>)
    ensures
        is_registration_id(id) ==> id.len() > 0 && !whitespace(id[0]) && !whitespace(id.last())
            && encode_utf8(id).len() <= 256,
        id.len() > 0 && !whitespace(id[0]) && !whitespace(id.last()) && encode_utf8(id).len() <= 256
            ==> is_registration_id(id),
{
    law_trimming_cuts_the_class_and_no_more(TrimClass::Whitespace, id);
}

} // verus!
