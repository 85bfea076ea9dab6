//! Storage slots: `[8-byte discriminator][4-byte little-endian payload
//! length][payload][zero padding up to the slot's capacity]`. The stored
//! length makes decoding exact whatever bytes the payload ends with. Account
//! data without that length (discriminator, payload, zero padding) is read by
//! dropping trailing zero bytes instead, which fails on a payload that itself
//! ends in zero bytes.
use crate::error::DecodeError;
use crate::wire::{le4, push_le4, read_le4, Wire};
use vstd::prelude::*;

verus! {

/// Bytes before the payload: the discriminator and the payload length.
pub const SLOT_HEADER_LEN: usize = 12;

pub const DISCRIMINATOR_LEN: usize = 8;

/// The record kinds, each with its own discriminator.
#[derive(Clone, Copy, Debug, PartialEq, Eq, Structural)]
pub enum RecordKind {
    Registry,
    Group,
    Proposal,
    UserAccount,
}

pub open spec fn kind_tag(kind: RecordKind) -> Seq<u8> {
    match kind {
        RecordKind::Registry => seq![182u8, 39, 16, 182, 109, 194, 206, 16],
        RecordKind::Group => seq![209u8, 249, 208, 63, 182, 89, 186, 254],
        RecordKind::Proposal => seq![26u8, 94, 189, 187, 116, 136, 53, 33],
        RecordKind::UserAccount => seq![211u8, 33, 136, 16, 186, 110, 242, 127],
    }
}

pub fn discriminator(kind: RecordKind) -> (r: Vec<u8>)
    ensures
        r@ == kind_tag(kind),
{
    let r = match kind {
        RecordKind::Registry => vec![182u8, 39, 16, 182, 109, 194, 206, 16],
        RecordKind::Group => vec![209u8, 249, 208, 63, 182, 89, 186, 254],
        RecordKind::Proposal => vec![26u8, 94, 189, 187, 116, 136, 53, 33],
        RecordKind::UserAccount => vec![211u8, 33, 136, 16, 186, 110, 242, 127],
    };
    assert(r@ =~= kind_tag(kind));
    r
}

pub open spec fn zero_bytes(n: nat) -> Seq<u8> {
    Seq::new(n, |i: int| 0u8)
}

/// The slot of capacity `capacity` that holds `m` under `tag`.
pub open spec fn slot_image<R: Wire>(tag: Seq<u8>, m: R::Model, capacity: nat) -> Seq<u8> {
    tag + le4(R::wire(m).len() as u32) + R::wire(m) + zero_bytes(
        (capacity - SLOT_HEADER_LEN - R::wire(m).len()) as nat,
    )
}

/// `m` fits in a slot of capacity `capacity`.
pub open spec fn fits_slot<R: Wire>(m: R::Model, capacity: nat) -> bool {
    &&& R::fits(m)
    &&& R::wire(m).len() <= u32::MAX
    &&& SLOT_HEADER_LEN + R::wire(m).len() <= capacity
}

/// The slot `bytes` holds `m` under `tag`, whatever its padding holds.
pub open spec fn slot_holds<R: Wire>(bytes: Seq<u8>, tag: Seq<u8>, m: R::Model) -> bool {
    let p = R::wire(m);
    &&& R::fits(m)
    &&& p.len() <= u32::MAX
    &&& SLOT_HEADER_LEN + p.len() <= bytes.len()
    &&& bytes.take(8) == tag
    &&& bytes.subrange(8, 12) == le4(p.len() as u32)
    &&& bytes.subrange(12, 12 + p.len() as int) == p
}

/// A slot of `capacity` bytes holding `record` under `tag`, or `None` when
/// the record does not fit.
pub fn encode_slot<R: Wire>(tag: &Vec<u8>, record: &R, capacity: usize) -> (r: Option<Vec<u8>>)
    requires
        tag@.len() == DISCRIMINATOR_LEN,
    ensures
        r is Some <==> fits_slot::<R>(record.model(), capacity as nat),
        r matches Some(b) ==> b@ == slot_image::<R>(tag@, record.model(), capacity as nat),
{
    if !record.fits_check() {
        return None;
    }
    let mut payload: Vec<u8> = Vec::new();
    record.write_to(&mut payload);
    assert(payload@ =~= R::wire(record.model()));
    if payload.len() > 0xffff_ffff || payload.len() > capacity || capacity - payload.len() < SLOT_HEADER_LEN {
        return None;
    }
    let mut out: Vec<u8> = Vec::new();
    let mut i: usize = 0;
    while i < tag.len()
        invariant
            i <= tag@.len(),
            out@ =~= tag@.take(i as int),
        decreases tag@.len() - i,
    {
        out.push(tag[i]);
        i += 1;
        assert(out@ =~= tag@.take(i as int));
    }
    assert(tag@.take(tag@.len() as int) =~= tag@);
    let n = payload.len();
    push_le4(&mut out, n as u32);
    out.append(&mut payload);
    let pad = capacity - SLOT_HEADER_LEN - n;
    let ghost filled = out@;
    let mut j: usize = 0;
    while j < pad
        invariant
            j <= pad,
            out@ =~= filled + zero_bytes(j as nat),
        decreases pad - j,
    {
        out.push(0u8);
        j += 1;
        assert(out@ =~= filled + zero_bytes(j as nat));
    }
    Some(out)
}

/// Reads the record of a slot under `tag`. It succeeds exactly when the
/// slot holds a record under `tag`, and returns that record.
pub fn decode_slot<R: Wire>(bytes: &[u8], tag: &Vec<u8>) -> (r: Result<R, DecodeError>)
    requires
        tag@.len() == DISCRIMINATOR_LEN,
    ensures
        r matches Ok(v) ==> slot_holds::<R>(bytes@, tag@, v.model()),
        forall|m: R::Model| #[trigger]
            slot_holds::<R>(bytes@, tag@, m) ==> (r matches Ok(v) && v.model() == m),
        (r == Err::<R, DecodeError>(DecodeError::KindMismatch)) <==> (bytes@.len() >= 8
            && bytes@.take(8) != tag@),
{
    if bytes.len() < DISCRIMINATOR_LEN {
        return Err(DecodeError::Truncated);
    }
    let mut i: usize = 0;
    while i < DISCRIMINATOR_LEN
        invariant
            i <= 8,
            bytes@.len() >= 8,
            tag@.len() == 8,
            forall|j: int| 0 <= j < i ==> bytes@[j] == tag@[j],
        decreases 8 - i,
    {
        if bytes[i] != tag[i] {
            assert(bytes@.take(8)[i as int] != tag@[i as int]);
            return Err(DecodeError::KindMismatch);
        }
        i += 1;
    }
    assert(bytes@.take(8) =~= tag@);
    let len = match read_le4(bytes, 8) {
        Some(x) => x,
        None => return Err(DecodeError::Truncated),
    };
    assert(bytes@.subrange(8, 12) == le4(len));
    proof {
        crate::wire::lemma_le4(bytes@.subrange(8, 12));
    }
    let n = len as usize;
    if bytes.len() - SLOT_HEADER_LEN < n {
        return Err(DecodeError::Truncated);
    }
    let payload = vstd::slice::slice_subrange(bytes, SLOT_HEADER_LEN, SLOT_HEADER_LEN + n);
    proof {
        assert forall|m: R::Model| #[trigger] slot_holds::<R>(bytes@, tag@, m) implies R::wire(m).len()
            == n && crate::wire::prefix_at(R::wire(m), payload@, 0) by {
            assert(R::wire(m).len() as u32 == len);
            assert(payload@.subrange(0, n as int) =~= payload@);
        }
    }
    match R::read_from(payload, 0) {
        Some((v, end)) => {
            if end != n {
                return Err(DecodeError::TrailingGarbage);
            }
            assert(payload@.subrange(0, n as int) =~= payload@);
            Ok(v)
        },
        None => Err(DecodeError::Truncated),
    }
}


/// Round trip: a slot written for a record that fits holds that record, so
/// reading it back gives the record again, whatever the payload ends with.
pub proof fn lemma_slot_round_trip<R: Wire>(tag: Seq<u8>, m: R::Model, capacity: nat)
    requires
        tag.len() == DISCRIMINATOR_LEN,
        fits_slot::<R>(m, capacity),
    ensures
        slot_image::<R>(tag, m, capacity).len() == capacity,
        slot_holds::<R>(slot_image::<R>(tag, m, capacity), tag, m),
{
    let b = slot_image::<R>(tag, m, capacity);
    let p = R::wire(m);
    let l = le4(p.len() as u32);
    assert(b.take(8) =~= tag);
    assert(b.subrange(8, 12) =~= l);
    assert(b.subrange(12, 12 + p.len() as int) =~= p);
}

/// A slot holds at most one record under a tag.
pub proof fn lemma_slot_unique<R: Wire>(bytes: Seq<u8>, tag: Seq<u8>, m1: R::Model, m2: R::Model)
    requires
        slot_holds::<R>(bytes, tag, m1),
        slot_holds::<R>(bytes, tag, m2),
    ensures
        m1 == m2,
{
    R::lemma_wire_unique(m1, m2, bytes, 12);
}

/// The length of `s` without its trailing zero bytes.
pub open spec fn trim_len(s: Seq<u8>) -> nat
    decreases s.len(),
{
    if s.len() == 0 {
        0
    } else if s.last() != 0 {
        s.len()
    } else {
        trim_len(s.drop_last())
    }
}

/// How much of zero-padded account data is taken as the payload: up to
/// the last non-zero byte, or all of it when every byte is zero.
pub open spec fn live_len(s: Seq<u8>) -> nat {
    if trim_len(s) == 0 {
        s.len()
    } else {
        trim_len(s)
    }
}

proof fn lemma_trim_len_bound(s: Seq<u8>)
    ensures
        trim_len(s) <= s.len(),
    decreases s.len(),
{
    if s.len() > 0 && s.last() == 0 {
        lemma_trim_len_bound(s.drop_last());
    }
}

/// The payload length of zero-padded data, found by scanning back from the
/// end for the last non-zero byte.
pub fn live_length(data: &[u8]) -> (r: usize)
    ensures
        r == live_len(data@),
{
    let mut k: usize = data.len();
    assert(data@.take(k as int) =~= data@);
    while k > 0 && data[k - 1] == 0
        invariant
            k <= data@.len(),
            trim_len(data@.take(k as int)) == trim_len(data@),
        decreases k,
    {
        assert(data@.take(k as int).drop_last() =~= data@.take(k - 1));
        k -= 1;
    }
    proof {
        if k > 0 {
            assert(data@.take(k as int).last() == data@[k - 1]);
        }
    }
    if k == 0 {
        data.len()
    } else {
        k
    }
}

/// Reads account data written without a payload length: the discriminator,
/// which is not checked, then the payload, then zero padding, which is
/// dropped with every trailing zero byte. It succeeds exactly when what
/// remains is the binary form of a record, and returns that record; a record
/// whose binary form ends in a zero byte is therefore not read back.
pub fn decode_account_data<R: Wire>(data: &[u8]) -> (r: Result<R, DecodeError>)
    ensures
        r matches Ok(v) ==> data@.len() >= 8 && R::fits(v.model()) && R::wire(v.model())
            == data@.skip(8).take(live_len(data@.skip(8)) as int),
        forall|m: R::Model|
            data@.len() >= 8 && R::fits(m) && #[trigger] R::wire(m) == data@.skip(8).take(
                live_len(data@.skip(8)) as int,
            ) ==> (r matches Ok(v) && v.model() == m),
{
    if data.len() < DISCRIMINATOR_LEN {
        return Err(DecodeError::Truncated);
    }
    let body = vstd::slice::slice_subrange(data, DISCRIMINATOR_LEN, data.len());
    assert(body@ =~= data@.skip(8));
    let n = live_length(body);
    proof {
        lemma_trim_len_bound(body@);
    }
    let live = vstd::slice::slice_subrange(body, 0, n);
    assert(live@ =~= body@.take(n as int));
    proof {
        assert forall|m: R::Model| R::fits(m) && #[trigger] R::wire(m) == live@ implies crate::wire::prefix_at(
            R::wire(m),
            live@,
            0,
        ) by {
            assert(live@.subrange(0, live@.len() as int) =~= live@);
        }
    }
    match R::read_from(live, 0) {
        Some((v, end)) => {
            if end != n {
                return Err(DecodeError::TrailingGarbage);
            }
            assert(live@.subrange(0, n as int) =~= live@);
            Ok(v)
        },
        None => Err(DecodeError::Truncated),
    }
}

proof fn lemma_trim_zero_pad(s: Seq<u8>, k: nat)
    ensures
        trim_len(s + zero_bytes(k)) == trim_len(s),
    decreases k,
{
    if k == 0 {
        assert(s + zero_bytes(0) =~= s);
    } else {
        assert((s + zero_bytes(k)).drop_last() =~= s + zero_bytes((k - 1) as nat));
        lemma_trim_zero_pad(s, (k - 1) as nat);
    }
}

proof fn lemma_trim_positive(s: Seq<u8>, i: int)
    requires
        0 <= i < s.len(),
        s[i] != 0,
    ensures
        0 < trim_len(s),
    decreases s.len(),
{
    if s.last() == 0 {
        assert(i < s.len() - 1);
        assert(s.drop_last()[i] == s[i]);
        lemma_trim_positive(s.drop_last(), i);
    }
}

/// The limit of reading account data without a stored length: when a
/// record's binary form ends in a zero byte (and holds some non-zero byte),
/// its account data reads as no record at all, whatever the padding, since
/// the trailing zero is dropped with the padding and what is left is a
/// strict prefix of that form.
pub proof fn lemma_padding_drops_trailing_zero<R: Wire>(tag: Seq<u8>, m: R::Model, pad: nat, i: int)
    requires
        tag.len() == DISCRIMINATOR_LEN,
        R::fits(m),
        0 <= i < R::wire(m).len(),
        R::wire(m)[i] != 0,
        R::wire(m).last() == 0,
    ensures
        ({
            let data = tag + R::wire(m) + zero_bytes(pad);
            forall|other: R::Model|
                R::fits(other) ==> #[trigger] R::wire(other) != data.skip(8).take(
                    live_len(data.skip(8)) as int,
                )
        }),
{
    let s = R::wire(m);
    let data = tag + s + zero_bytes(pad);
    assert(data.skip(8) =~= s + zero_bytes(pad));
    lemma_trim_zero_pad(s, pad);
    lemma_trim_positive(s, i);
    lemma_trim_len_bound(s.drop_last());
    assert(trim_len(s) == trim_len(s.drop_last()));
    let live = data.skip(8).take(live_len(data.skip(8)) as int);
    assert(live.len() < s.len());
    assert(live =~= s.take(live.len() as int));
    assert forall|other: R::Model| R::fits(other) implies #[trigger] R::wire(other) != live by {
        if R::wire(other) == live {
            assert(s.subrange(0, live.len() as int) =~= live);
            assert(s.subrange(0, s.len() as int) =~= s);
            R::lemma_wire_unique(other, m, s, 0);
        }
    }
}

} // verus!
