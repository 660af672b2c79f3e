//! The first message of a relay stream, read on the executor side.
use vstd::prelude::*;
use crate::error::protocol_error;
use crate::error::ExecServerError;
use crate::noise_channel::fits_prologue;
use crate::noise_channel::noise_channel_prologue;
use crate::noise_channel::prologue;
use crate::noise_channel::NoiseChannelIdentity;
use crate::noise_channel::PendingResponderHandshake;
use crate::noise_channel::MAX_MESSAGE_LEN;
use crate::outside::noise::opened_message;
use crate::outside::noise::HandshakeModel;

verus! {

/// What comes out of a request, if anything: its payload and the handshake that
/// waits for the answer.
pub open spec fn request_outcome(
    fresh: HandshakeModel,
    route_fits: bool,
    request: Option<Seq<u8>>,
) -> Option<(Seq<u8>, HandshakeModel)> {
    match request {
        Some(bytes) if route_fits && bytes.len() <= MAX_MESSAGE_LEN => opened_message(fresh, bytes),
        _ => None,
    }
}

/// Reads the handshake request of a stream, where its frame had a readable
/// payload. The authorization that it carries is handed out beside the pending
/// handshake. Nothing comes out where the route is too long for a prologue,
/// where the request is too large, or where it does not authenticate under the
/// executor's identity and the prologue of exactly this route.
pub fn read_handshake_request(
    environment_id: &str,
    executor_registration_id: &str,
    stream_id: &str,
    identity: &NoiseChannelIdentity,
    request: Option<Vec<u8>>,
) -> (r: Option<(Vec<u8>, PendingResponderHandshake)>)
    ensures
        match request_outcome(
            identity.fresh(
                false,
                prologue(environment_id@, executor_registration_id@, stream_id@),
                None,
            ),
            fits_prologue(environment_id@) && fits_prologue(executor_registration_id@)
                && fits_prologue(stream_id@),
            match request {
                Some(bytes) => Some(bytes@),
                None => None,
            },
        ) {
            Some((payload, next)) => r matches Some((authorization, pending)) && authorization@
                == payload && pending.wf() && pending.model() == next && pending.payload()
                == Seq::<u8>::empty(),
            None => r is None,
        },
{
    let route = match noise_channel_prologue(environment_id, executor_registration_id, stream_id) {
        Ok(route) => route,
        Err(_) => {
            return None;
        },
    };
    let request = match request {
        Some(request) => request,
        None => {
            return None;
        },
    };
    match PendingResponderHandshake::read_request(identity, &route, &request) {
        Ok(mut pending) => {
            let authorization = pending.take_payload();
            Some((authorization, pending))
        },
        Err(_) => None,
    }
}

/// The outcome of a harness-key validation that did not finish in time.
pub fn validation_timed_out() -> (r: ExecServerError)
    ensures
        r.is_protocol("timed out validating Noise relay harness key"@),
{
    protocol_error("timed out validating Noise relay harness key")
}

/// A request is opened exactly where its frame had one, the route fits into a
/// prologue, and it is no longer than a message of the channel; what comes out is
/// what the handshake opens it to.
pub proof fn law_request_is_opened_under_its_route(
    fresh: HandshakeModel,
    route_fits: bool,
    request: Seq<u8>,
)
    ensures
        request_outcome(fresh, route_fits, None) is None,
        !route_fits || request.len() > 65535 ==> request_outcome(
            fresh,
            route_fits,
            Some(request),
        ) is None,
        route_fits && request.len() <= 65535 ==> request_outcome(fresh, route_fits, Some(request))
            == opened_message(fresh, request),
{
}

} // verus!
