use vstd::prelude::*;
use vstd::utf8::encode_utf8;

use crate::error::EventError;
use crate::instruction::{decode_instruction, EventInstruction, InstructionView};
use crate::state::{decode_record, encode_record, lemma_decoded_valid, Event, EventView, EVENT_LEN};

verus! {

broadcast use vstd::utf8::group_utf8_lib;

/// The record that `CreateEvent` writes.
pub open spec fn created_event(
    creator: Seq<u8>,
    max_tickets: u64,
    name: Seq<char>,
    mint: Seq<u8>,
) -> EventView {
    EventView {
        is_initialized: true,
        initializer_pubkey: creator,
        tickets_issued: 0,
        max_tickets,
        name,
        mint_account: mint,
    }
}

/// The slot contents after `CreateEvent`, or why it is rejected.
pub open spec fn create_event_result(
    creator: Seq<u8>,
    is_signer: bool,
    rent_exempt: bool,
    slot: Seq<u8>,
    max_tickets: u64,
    name: Seq<char>,
    mint: Seq<u8>,
) -> Result<Seq<u8>, EventError> {
    if !is_signer {
        Err(EventError::MissingSignature)
    } else if !rent_exempt {
        Err(EventError::NotExempt)
    } else {
        match decode_record(slot) {
            Err(e) => Err(e),
            Ok(current) => if current.is_initialized {
                Err(EventError::AlreadyInitialized)
            } else {
                Ok(encode_record(created_event(creator, max_tickets, name, mint)))
            },
        }
    }
}

/// The record that a `PurchaseTicket` will store once the receipt exists, or
/// why it is rejected.
pub open spec fn purchase_result(is_signer: bool, rent_exempt: bool, slot: Seq<u8>) -> Result<
    EventView,
    EventError,
> {
    if !is_signer {
        Err(EventError::MissingSignature)
    } else if !rent_exempt {
        Err(EventError::NotExempt)
    } else {
        match decode_record(slot) {
            Err(e) => Err(e),
            Ok(current) => if !current.is_initialized {
                Err(EventError::Uninitialized)
            } else if current.tickets_issued >= current.max_tickets {
                Err(EventError::OutOfTickets)
            } else {
                Ok(EventView { tickets_issued: (current.tickets_issued + 1) as u64, ..current })
            },
        }
    }
}

/// A purchase that was accepted and waits on the purchaser's receipt account.
pub struct PendingPurchase {
    /// Who signed the purchase and owns the receipt.
    pub purchaser: [u8; 32],
    /// The token that the receipt holds.
    pub mint: [u8; 32],
    /// The record to store once the receipt exists.
    pub record: Event,
}

impl PendingPurchase {
    pub open spec fn wf(&self) -> bool {
        self.record@.fits()
    }
}

/// What the caller has left to do after [`Processor::process`].
pub enum Action {
    /// The invocation is complete.
    Done,
    /// Create or find the receipt account of the purchaser for the mint, then
    /// call [`Processor::finish_purchase`].
    IssueReceipt(PendingPurchase),
}

/// Applies instructions to event slots.
pub struct Processor;

impl Processor {
    /// Decodes one instruction and applies it. A `CreateEvent` is written to
    /// `slot` here; a `PurchaseTicket` leaves `slot` as it is and hands back
    /// the pending purchase. `mint` is the receipt token given to a new event.
    pub fn process(
        caller: [u8; 32],
        is_signer: bool,
        rent_exempt: bool,
        mint: [u8; 32],
        slot: &mut [u8],
        instruction_data: &[u8],
    ) -> (r: Result<Action, EventError>)
        ensures
            match decode_instruction(instruction_data@) {
                Err(e) => r == Err::<Action, EventError>(e) && final(slot)@ == old(slot)@,
                Ok(InstructionView::CreateEvent { max_tickets, name }) => match create_event_result(
                    caller@,
                    is_signer,
                    rent_exempt,
                    old(slot)@,
                    max_tickets,
                    name,
                    mint@,
                ) {
                    Ok(bytes) => r matches Ok(Action::Done) && final(slot)@ == bytes,
                    Err(e) => r == Err::<Action, EventError>(e) && final(slot)@ == old(slot)@,
                },
                Ok(InstructionView::PurchaseTicket) => final(slot)@ == old(slot)@ && match purchase_result(
                    is_signer,
                    rent_exempt,
                    old(slot)@,
                ) {
                    Ok(e) => r matches Ok(Action::IssueReceipt(p)) && p.record@ == e
                        && p.purchaser@ == caller@ && p.mint@ == e.mint_account && p.wf(),
                    Err(e) => r == Err::<Action, EventError>(e),
                },
            },
    {
        let instruction = match EventInstruction::unpack(instruction_data) {
            Ok(i) => i,
            Err(e) => return Err(e),
        };
        match instruction {
            EventInstruction::CreateEvent { max_tickets, name } => {
                match Self::process_create_event(
                    caller,
                    is_signer,
                    rent_exempt,
                    slot,
                    max_tickets,
                    name,
                    mint,
                ) {
                    Ok(()) => Ok(Action::Done),
                    Err(e) => Err(e),
                }
            },
            EventInstruction::PurchaseTicket => {
                match Self::process_purchase_ticket(caller, is_signer, rent_exempt, slot) {
                    Ok(p) => Ok(Action::IssueReceipt(p)),
                    Err(e) => Err(e),
                }
            },
        }
    }

    /// Creates an event in `slot`: checks the signature, the rent exemption
    /// and that the slot holds no event yet, then writes the new record.
    /// On any error `slot` is left as it was.
    pub fn process_create_event(
        creator: [u8; 32],
        is_signer: bool,
        rent_exempt: bool,
        slot: &mut [u8],
        max_tickets: u64,
        name: String,
        mint: [u8; 32],
    ) -> (r: Result<(), EventError>)
        requires
            encode_utf8(name@).len() <= 32,
        ensures
            match create_event_result(
                creator@,
                is_signer,
                rent_exempt,
                old(slot)@,
                max_tickets,
                name@,
                mint@,
            ) {
                Ok(bytes) => r is Ok && final(slot)@ == bytes,
                Err(e) => r == Err::<(), EventError>(e) && final(slot)@ == old(slot)@,
            },
    {
        if !is_signer {
            return Err(EventError::MissingSignature);
        }
        if !rent_exempt {
            return Err(EventError::NotExempt);
        }
        let current = match Event::unpack_from_slice(slot) {
            Ok(e) => e,
            Err(e) => return Err(e),
        };
        if current.is_initialized() {
            return Err(EventError::AlreadyInitialized);
        }
        let event = Event {
            is_initialized: true,
            initializer_pubkey: creator,
            tickets_issued: 0,
            max_tickets,
            name,
            mint_account: mint,
        };
        event.pack_into_slice(slot);
        Ok(())
    }

    /// Checks a ticket purchase against `slot`: the signature, the rent
    /// exemption, that the event exists and that a ticket is left. Returns
    /// the record with one more ticket issued; nothing is written yet.
    pub fn process_purchase_ticket(
        purchaser: [u8; 32],
        is_signer: bool,
        rent_exempt: bool,
        slot: &[u8],
    ) -> (r: Result<PendingPurchase, EventError>)
        ensures
            match purchase_result(is_signer, rent_exempt, slot@) {
                Ok(e) => r matches Ok(p) && p.record@ == e && p.purchaser@ == purchaser@
                    && p.mint@ == e.mint_account && p.wf(),
                Err(e) => r matches Err(x) && x == e,
            },
    {
        if !is_signer {
            return Err(EventError::MissingSignature);
        }
        if !rent_exempt {
            return Err(EventError::NotExempt);
        }
        let mut event = match Event::unpack_from_slice(slot) {
            Ok(e) => e,
            Err(e) => return Err(e),
        };
        proof {
            lemma_decoded_valid(slot@);
        }
        if !event.is_initialized() {
            return Err(EventError::Uninitialized);
        }
        if event.tickets_issued >= event.max_tickets {
            return Err(EventError::OutOfTickets);
        }
        event.tickets_issued = event.tickets_issued + 1;
        let mint = event.mint_account;
        Ok(PendingPurchase { purchaser, mint, record: event })
    }

    /// Completes a purchase: stores the updated record only when the receipt
    /// account was created; otherwise `slot` keeps its bytes.
    pub fn finish_purchase(pending: &PendingPurchase, receipt_created: bool, slot: &mut [u8])
        requires
            pending.wf(),
            old(slot)@.len() == EVENT_LEN,
        ensures
            final(slot)@ == if receipt_created {
                encode_record(pending.record@)
            } else {
                old(slot)@
            },
    {
        if receipt_created {
            pending.record.pack_into_slice(slot);
        }
    }
}

} // verus!
