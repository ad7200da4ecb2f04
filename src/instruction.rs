use vstd::bytes::{spec_u64_from_le_bytes, u64_from_le_bytes};
use vstd::prelude::*;
use vstd::slice::slice_subrange;
use vstd::utf8::{decode_utf8, valid_utf8};

use crate::bytes::text_from_utf8;
use crate::error::EventError;

verus! {

/// An instruction to the event program.
pub enum EventInstruction {
    /// Creates an event in an empty slot.
    ///
    /// Slots expected, in order: the creator (signer), the event slot
    /// (writable), the mint of the receipt token, the rent oracle, the token
    /// program.
    CreateEvent {
        /// The number of tickets that can ever be issued for the event.
        max_tickets: u64,
        name: String,
    },
    /// Issues one ticket of an event to the signer of the invocation.
    ///
    /// Slots expected, in order: the purchaser (signer), the event slot
    /// (writable), the purchaser's receipt account, the mint, the rent oracle,
    /// the token program, the system program.
    PurchaseTicket,
}

/// The mathematical value of an [`EventInstruction`].
pub ghost enum InstructionView {
    CreateEvent { max_tickets: u64, name: Seq<char> },
    PurchaseTicket,
}

impl View for EventInstruction {
    type V = InstructionView;

    open spec fn view(&self) -> InstructionView {
        match self {
            EventInstruction::CreateEvent { max_tickets, name } => InstructionView::CreateEvent {
                max_tickets: *max_tickets,
                name: name@,
            },
            EventInstruction::PurchaseTicket => InstructionView::PurchaseTicket,
        }
    }
}

/// Size in bytes of the payload of `CreateEvent`: a 32-byte name, then the
/// ticket cap as a little-endian u64.
pub const CREATE_PAYLOAD_LEN: usize = 40;

/// What decoding an instruction buffer gives: a tag byte, then its payload.
/// Bytes after the payload are ignored.
pub open spec fn decode_instruction(s: Seq<u8>) -> Result<InstructionView, EventError> {
    if s.len() == 0 {
        Err(EventError::Truncated)
    } else if s[0] == 0 {
        let rest = s.subrange(1, s.len() as int);
        if rest.len() < CREATE_PAYLOAD_LEN {
            Err(EventError::Truncated)
        } else if !valid_utf8(rest.subrange(0, 32)) {
            Err(EventError::InvalidName)
        } else {
            Ok(
                InstructionView::CreateEvent {
                    max_tickets: spec_u64_from_le_bytes(rest.subrange(32, 40)),
                    name: decode_utf8(rest.subrange(0, 32)),
                },
            )
        }
    } else if s[0] == 1 {
        Ok(InstructionView::PurchaseTicket)
    } else {
        Err(EventError::UnknownTag)
    }
}

impl EventInstruction {
    /// Decodes an instruction buffer.
    pub fn unpack(input: &[u8]) -> (r: Result<EventInstruction, EventError>)
        ensures
            match r {
                Ok(i) => decode_instruction(input@) == Ok::<InstructionView, EventError>(i@),
                Err(e) => decode_instruction(input@) == Err::<InstructionView, EventError>(e),
            },
            input@.len() == 0 ==> r == Err::<EventInstruction, EventError>(EventError::Truncated),
            input@.len() > 0 && input@[0] == 0 && input@.len() - 1 < CREATE_PAYLOAD_LEN ==> r
                == Err::<EventInstruction, EventError>(EventError::Truncated),
    {
        if input.len() == 0 {
            return Err(EventError::Truncated);
        }
        let tag = input[0];
        let rest = slice_subrange(input, 1, input.len());
        if tag == 0 {
            if rest.len() < CREATE_PAYLOAD_LEN {
                return Err(EventError::Truncated);
            }
            let name = match Self::unpack_name(rest) {
                Ok(n) => n,
                Err(e) => return Err(e),
            };
            let max_tickets = match Self::unpack_max_tickets(rest) {
                Ok(m) => m,
                Err(e) => return Err(e),
            };
            Ok(EventInstruction::CreateEvent { max_tickets, name })
        } else if tag == 1 {
            Ok(EventInstruction::PurchaseTicket)
        } else {
            Err(EventError::UnknownTag)
        }
    }

    /// Reads the 32-byte UTF-8 name at the start of a `CreateEvent` payload.
    fn unpack_name(input: &[u8]) -> (r: Result<String, EventError>)
        ensures
            input@.len() < 32 ==> (r matches Err(e) && e == EventError::Truncated),
            input@.len() >= 32 ==> match r {
                Ok(s) => valid_utf8(input@.subrange(0, 32)) && s@ == decode_utf8(
                    input@.subrange(0, 32),
                ),
                Err(e) => !valid_utf8(input@.subrange(0, 32)) && e == EventError::InvalidName,
            },
    {
        if input.len() < 32 {
            return Err(EventError::Truncated);
        }
        match text_from_utf8(slice_subrange(input, 0, 32)) {
            Some(s) => Ok(s),
            None => Err(EventError::InvalidName),
        }
    }

    /// Reads the little-endian ticket cap that follows the name.
    fn unpack_max_tickets(input: &[u8]) -> (r: Result<u64, EventError>)
        ensures
            input@.len() >= CREATE_PAYLOAD_LEN ==> r == Ok::<u64, EventError>(
                spec_u64_from_le_bytes(input@.subrange(32, 40)),
            ),
            input@.len() < CREATE_PAYLOAD_LEN ==> r == Err::<u64, EventError>(
                EventError::Truncated,
            ),
    {
        if input.len() < CREATE_PAYLOAD_LEN {
            return Err(EventError::Truncated);
        }
        Ok(u64_from_le_bytes(slice_subrange(input, 32, 40)))
    }
}

} // verus!
