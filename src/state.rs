use vstd::bytes::{
    lemma_auto_spec_u64_to_from_le_bytes, spec_u64_from_le_bytes, spec_u64_to_le_bytes,
    u64_from_le_bytes, u64_to_le_bytes,
};
use vstd::prelude::*;
use vstd::slice::slice_subrange;
use vstd::utf8::{decode_utf8, encode_utf8, pop_first_scalar, valid_utf8};

use crate::bytes::{append_bytes, append_zeros, copy_into, read_key, text_from_utf8};
use crate::error::EventError;

verus! {

broadcast use vstd::utf8::group_utf8_lib;

/// Size in bytes of a stored event record.
pub const EVENT_LEN: usize = 113;

/// Size in bytes of the name field of a record.
pub const NAME_LEN: usize = 32;

/// The sale state of one event, as stored in its slot.
pub struct Event {
    pub is_initialized: bool,
    pub initializer_pubkey: [u8; 32],
    pub tickets_issued: u64,
    pub max_tickets: u64,
    pub name: String,
    pub mint_account: [u8; 32],
}

/// The mathematical value of an [`Event`].
pub ghost struct EventView {
    pub is_initialized: bool,
    pub initializer_pubkey: Seq<u8>,
    pub tickets_issued: u64,
    pub max_tickets: u64,
    pub name: Seq<char>,
    pub mint_account: Seq<u8>,
}

impl View for Event {
    type V = EventView;

    open spec fn view(&self) -> EventView {
        EventView {
            is_initialized: self.is_initialized,
            initializer_pubkey: self.initializer_pubkey@,
            tickets_issued: self.tickets_issued,
            max_tickets: self.max_tickets,
            name: self.name@,
            mint_account: self.mint_account@,
        }
    }
}

impl EventView {
    /// The record can be written: both identities are 32 bytes and the name
    /// takes at most 32 bytes in UTF-8.
    pub open spec fn fits(self) -> bool {
        &&& self.initializer_pubkey.len() == 32
        &&& self.mint_account.len() == 32
        &&& encode_utf8(self.name).len() <= NAME_LEN
    }

    /// The record is exactly what reading its own encoding gives back: it fits,
    /// and its name fills the whole name field.
    pub open spec fn valid(self) -> bool {
        &&& self.fits()
        &&& encode_utf8(self.name).len() == NAME_LEN
    }
}

/// The name field: the name's UTF-8 bytes followed by zero bytes up to 32.
pub open spec fn name_field(name: Seq<char>) -> Seq<u8> {
    encode_utf8(name) + Seq::new((NAME_LEN - encode_utf8(name).len()) as nat, |i: int| 0u8)
}

/// The stored form of a record: flag, initializer, tickets issued, ticket cap
/// (both little-endian), name field, mint.
pub open spec fn encode_record(e: EventView) -> Seq<u8> {
    seq![if e.is_initialized { 1u8 } else { 0u8 }] + e.initializer_pubkey
        + spec_u64_to_le_bytes(e.tickets_issued) + spec_u64_to_le_bytes(e.max_tickets)
        + name_field(e.name) + e.mint_account
}

/// What reading a stored record gives.
pub open spec fn decode_record(s: Seq<u8>) -> Result<EventView, EventError> {
    if s.len() != EVENT_LEN {
        Err(EventError::InvalidLength)
    } else if s[0] != 0 && s[0] != 1 {
        Err(EventError::InvalidFlag)
    } else if !valid_utf8(s.subrange(49, 81)) {
        Err(EventError::InvalidName)
    } else {
        Ok(
            EventView {
                is_initialized: s[0] == 1,
                initializer_pubkey: s.subrange(1, 33),
                tickets_issued: spec_u64_from_le_bytes(s.subrange(33, 41)),
                max_tickets: spec_u64_from_le_bytes(s.subrange(41, 49)),
                name: decode_utf8(s.subrange(49, 81)),
                mint_account: s.subrange(81, 113),
            },
        )
    }
}

/// A run of zero bytes is valid UTF-8.
proof fn lemma_zeros_valid_utf8(n: nat)
    ensures
        valid_utf8(Seq::new(n, |i: int| 0u8)),
    decreases n,
{
    if n > 0 {
        let z = Seq::new(n, |i: int| 0u8);
        lemma_zeros_valid_utf8((n - 1) as nat);
        assert(pop_first_scalar(z) =~= Seq::new((n - 1) as nat, |i: int| 0u8));
    }
}

/// Reading back the stored form of a record that fits gives the record, but
/// for its name, which comes back with the zero padding of the name field.
pub proof fn lemma_encode_then_decode(e: EventView)
    requires
        e.fits(),
    ensures
        decode_record(encode_record(e)) == Ok::<EventView, EventError>(
            EventView { name: decode_utf8(name_field(e.name)), ..e },
        ),
{
    lemma_auto_spec_u64_to_from_le_bytes();
    let s = encode_record(e);
    lemma_zeros_valid_utf8((NAME_LEN - encode_utf8(e.name).len()) as nat);
    assert(s.subrange(1, 33) =~= e.initializer_pubkey);
    assert(s.subrange(33, 41) =~= spec_u64_to_le_bytes(e.tickets_issued));
    assert(s.subrange(41, 49) =~= spec_u64_to_le_bytes(e.max_tickets));
    assert(s.subrange(49, 81) =~= name_field(e.name));
    assert(s.subrange(81, 113) =~= e.mint_account);
}

/// Reading back the stored form of a valid record gives that same record.
pub proof fn lemma_round_trip(e: EventView)
    requires
        e.valid(),
    ensures
        decode_record(encode_record(e)) == Ok::<EventView, EventError>(e),
{
    lemma_auto_spec_u64_to_from_le_bytes();
    let s = encode_record(e);
    let name = encode_utf8(e.name);
    assert(name_field(e.name) =~= name);
    assert(s.subrange(1, 33) =~= e.initializer_pubkey);
    assert(s.subrange(33, 41) =~= spec_u64_to_le_bytes(e.tickets_issued));
    assert(s.subrange(41, 49) =~= spec_u64_to_le_bytes(e.max_tickets));
    assert(s.subrange(49, 81) =~= name);
    assert(s.subrange(81, 113) =~= e.mint_account);
}

/// Writing back a record read from a slot reproduces the slot byte for byte.
pub proof fn lemma_reencode(s: Seq<u8>)
    requires
        decode_record(s) is Ok,
    ensures
        encode_record(decode_record(s)->Ok_0) == s,
{
    lemma_auto_spec_u64_to_from_le_bytes();
    let e = decode_record(s)->Ok_0;
    assert(encode_utf8(e.name) == s.subrange(49, 81));
    assert(name_field(e.name) =~= s.subrange(49, 81));
    assert(spec_u64_to_le_bytes(spec_u64_from_le_bytes(s.subrange(33, 41))) == s.subrange(33, 41));
    assert(spec_u64_to_le_bytes(spec_u64_from_le_bytes(s.subrange(41, 49))) == s.subrange(41, 49));
    assert(encode_record(e) =~= s);
}

/// A record read from a slot can be written back as it is.
pub proof fn lemma_decoded_valid(s: Seq<u8>)
    requires
        decode_record(s) is Ok,
    ensures
        (decode_record(s)->Ok_0).valid(),
{
    let e = decode_record(s)->Ok_0;
    assert(encode_utf8(e.name) == s.subrange(49, 81));
}

impl Event {
    pub fn is_initialized(&self) -> (r: bool)
        ensures
            r == self.is_initialized,
    {
        self.is_initialized
    }

    /// Reads a record from a slot of exactly 113 bytes.
    pub fn unpack_from_slice(src: &[u8]) -> (r: Result<Event, EventError>)
        ensures
            match r {
                Ok(e) => decode_record(src@) == Ok::<EventView, EventError>(e@),
                Err(err) => decode_record(src@) == Err::<EventView, EventError>(err),
            },
    {
        if src.len() != EVENT_LEN {
            return Err(EventError::InvalidLength);
        }
        let flag = src[0];
        if flag != 0 && flag != 1 {
            return Err(EventError::InvalidFlag);
        }
        let name = match text_from_utf8(slice_subrange(src, 49, 81)) {
            Some(s) => s,
            None => return Err(EventError::InvalidName),
        };
        let e = Event {
            is_initialized: flag == 1,
            initializer_pubkey: read_key(src, 1),
            tickets_issued: u64_from_le_bytes(slice_subrange(src, 33, 41)),
            max_tickets: u64_from_le_bytes(slice_subrange(src, 41, 49)),
            name,
            mint_account: read_key(src, 81),
        };
        assert(decode_record(src@) == Ok::<EventView, EventError>(e@));
        Ok(e)
    }

    /// The 113 stored bytes of this record.
    pub fn to_bytes(&self) -> (r: Vec<u8>)
        requires
            self@.fits(),
        ensures
            r@ == encode_record(self@),
            r@.len() == EVENT_LEN,
    {
        let mut out: Vec<u8> = Vec::new();
        out.push(if self.is_initialized { 1u8 } else { 0u8 });
        append_bytes(&mut out, self.initializer_pubkey.as_slice());
        let t = u64_to_le_bytes(self.tickets_issued);
        append_bytes(&mut out, t.as_slice());
        let m = u64_to_le_bytes(self.max_tickets);
        append_bytes(&mut out, m.as_slice());
        let name_bytes = self.name.as_str().as_bytes();
        append_bytes(&mut out, name_bytes);
        append_zeros(&mut out, NAME_LEN - name_bytes.len());
        append_bytes(&mut out, self.mint_account.as_slice());
        proof {
            lemma_auto_spec_u64_to_from_le_bytes();
        }
        assert(out@ =~= encode_record(self@));
        out
    }

    /// Writes this record over a slot of exactly 113 bytes.
    pub fn pack_into_slice(&self, dst: &mut [u8])
        requires
            old(dst)@.len() == EVENT_LEN,
            self@.fits(),
        ensures
            final(dst)@ == encode_record(self@),
    {
        let bytes = self.to_bytes();
        copy_into(dst, bytes.as_slice());
    }
}

} // verus!
