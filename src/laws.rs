use vstd::prelude::*;
use vstd::utf8::encode_utf8;

use crate::error::EventError;
use crate::processor::{create_event_result, purchase_result};
use crate::state::{
    decode_record, encode_record, lemma_decoded_valid, lemma_encode_then_decode, lemma_round_trip,
    EventView,
};

verus! {

/// The slot holds a readable record.
pub open spec fn readable(slot: Seq<u8>) -> bool {
    decode_record(slot) is Ok
}

/// The record that a readable slot holds.
pub open spec fn record_of(slot: Seq<u8>) -> EventView {
    decode_record(slot)->Ok_0
}

/// The slot after `n` purchases by a signer on a rent-exempt slot, each
/// accepted and each followed by its receipt; or the first rejection.
pub open spec fn after_purchases(slot: Seq<u8>, n: nat) -> Result<Seq<u8>, EventError>
    decreases n,
{
    if n == 0 {
        Ok(slot)
    } else {
        match after_purchases(slot, (n - 1) as nat) {
            Err(e) => Err(e),
            Ok(s) => match purchase_result(true, true, s) {
                Ok(e) => Ok(encode_record(e)),
                Err(e) => Err(e),
            },
        }
    }
}

/// Creating an event in an empty slot, with any ticket cap, stores an
/// initialized record that has issued no ticket and keeps the creator, the
/// cap and the mint.
pub proof fn lemma_create_fresh(
    creator: Seq<u8>,
    slot: Seq<u8>,
    max_tickets: u64,
    name: Seq<char>,
    mint: Seq<u8>,
)
    requires
        creator.len() == 32,
        mint.len() == 32,
        encode_utf8(name).len() <= 32,
        readable(slot),
        !record_of(slot).is_initialized,
    ensures
        create_event_result(creator, true, true, slot, max_tickets, name, mint) is Ok,
        readable(create_event_result(creator, true, true, slot, max_tickets, name, mint)->Ok_0),
        ({
            let e = record_of(
                create_event_result(creator, true, true, slot, max_tickets, name, mint)->Ok_0,
            );
            &&& e.is_initialized
            &&& e.tickets_issued == 0
            &&& e.max_tickets == max_tickets
            &&& e.initializer_pubkey == creator
            &&& e.mint_account == mint
        }),
{
    lemma_encode_then_decode(
        EventView {
            is_initialized: true,
            initializer_pubkey: creator,
            tickets_issued: 0,
            max_tickets,
            name,
            mint_account: mint,
        },
    );
}

/// Creating an event in a slot that already holds one is refused.
pub proof fn lemma_create_on_initialized(
    creator: Seq<u8>,
    slot: Seq<u8>,
    max_tickets: u64,
    name: Seq<char>,
    mint: Seq<u8>,
)
    requires
        readable(slot),
        record_of(slot).is_initialized,
    ensures
        create_event_result(creator, true, true, slot, max_tickets, name, mint) == Err::<
            Seq<u8>,
            EventError,
        >(EventError::AlreadyInitialized),
{
}

/// Buying a ticket of a slot that holds no event is refused.
pub proof fn lemma_purchase_uninitialized(slot: Seq<u8>)
    requires
        readable(slot),
        !record_of(slot).is_initialized,
    ensures
        purchase_result(true, true, slot) == Err::<EventView, EventError>(
            EventError::Uninitialized,
        ),
{
}

/// A purchase never takes an event past its cap: an accepted one adds exactly
/// one ticket and stays within the cap, and one on a sold-out event is
/// refused with `OutOfTickets`.
pub proof fn lemma_purchase_within_cap(slot: Seq<u8>)
    requires
        readable(slot),
        record_of(slot).tickets_issued <= record_of(slot).max_tickets,
    ensures
        purchase_result(true, true, slot) matches Ok(e) ==> e.tickets_issued
            == record_of(slot).tickets_issued + 1 && e.tickets_issued <= e.max_tickets,
        record_of(slot).is_initialized && record_of(slot).tickets_issued
            == record_of(slot).max_tickets ==> purchase_result(true, true, slot) == Err::<
            EventView,
            EventError,
        >(EventError::OutOfTickets),
{
}

/// On an event with `t` of `m` tickets issued, each of the next `m - t`
/// purchases is accepted and adds one ticket, leaving the rest of the record
/// as it was.
pub proof fn lemma_purchases_up_to_cap(slot: Seq<u8>, k: nat)
    requires
        readable(slot),
        record_of(slot).is_initialized,
        record_of(slot).tickets_issued + k <= record_of(slot).max_tickets,
    ensures
        after_purchases(slot, k) is Ok,
        decode_record(after_purchases(slot, k)->Ok_0) == Ok::<EventView, EventError>(
            EventView {
                tickets_issued: (record_of(slot).tickets_issued + k) as u64,
                ..record_of(slot)
            },
        ),
    decreases k,
{
    if k > 0 {
        lemma_purchases_up_to_cap(slot, (k - 1) as nat);
        lemma_decoded_valid(slot);
        let cur = record_of(slot);
        lemma_round_trip(EventView { tickets_issued: (cur.tickets_issued + k) as u64, ..cur });
    }
}

/// On an event with `t` of `m` tickets issued, the `m - t`th purchase from
/// now brings the count to `m`, and the one after it is refused with
/// `OutOfTickets`.
pub proof fn lemma_sold_out(slot: Seq<u8>)
    requires
        readable(slot),
        record_of(slot).is_initialized,
        record_of(slot).tickets_issued <= record_of(slot).max_tickets,
    ensures
        ({
            let n = (record_of(slot).max_tickets - record_of(slot).tickets_issued) as nat;
            &&& after_purchases(slot, n) is Ok
            &&& readable(after_purchases(slot, n)->Ok_0)
            &&& record_of(after_purchases(slot, n)->Ok_0).tickets_issued == record_of(
                slot,
            ).max_tickets
            &&& purchase_result(true, true, after_purchases(slot, n)->Ok_0) == Err::<
                EventView,
                EventError,
            >(EventError::OutOfTickets)
            &&& after_purchases(slot, n + 1) == Err::<Seq<u8>, EventError>(
                EventError::OutOfTickets,
            )
        }),
{
    let n = (record_of(slot).max_tickets - record_of(slot).tickets_issued) as nat;
    lemma_purchases_up_to_cap(slot, n);
}

} // verus!
