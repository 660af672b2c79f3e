//! The executor side of the encrypted relay: stream admission, harness-key
//! validation and the ordering of ciphertext records.
use vstd::prelude::*;
use crate::error::protocol_error;
use crate::error::ExecServerError;

pub mod environment;
pub mod handshake;
pub mod history;
pub mod ordered_ciphertext;

verus! {

/// Takes the next relay sequence number. The numbers never wrap: each is the
/// explicit ordering key of an implicit nonce.
pub fn take_next_sequence(next_seq: &mut u32) -> (r: Result<u32, ExecServerError>)
    ensures
        match r {
            Ok(seq) => *old(next_seq) < u32::MAX && seq == *old(next_seq) && *final(next_seq) == seq
                + 1,
            Err(e) => *old(next_seq) == u32::MAX && *final(next_seq) == *old(next_seq)
                && e.is_protocol("Noise relay sequence number exhausted"@),
        },
{
    let seq = *next_seq;
    match seq.checked_add(1) {
        Some(next) => {
            *next_seq = next;
            Ok(seq)
        },
        None => Err(protocol_error("Noise relay sequence number exhausted")),
    }
}

} // verus!
