//! The binary field format: fixed-width little-endian integers, 32-byte
//! addresses, a one-byte tag before an optional value, and a 4-byte
//! little-endian count before the elements of a list (a text is a list of
//! bytes). Nothing delimits fields, so a reader consumes exactly what each
//! field declares.
use crate::address::Address;
use vstd::prelude::*;

verus! {

/// `e` stands in `buf` from position `pos` on.
pub open spec fn prefix_at(e: Seq<u8>, buf: Seq<u8>, pos: int) -> bool {
    &&& 0 <= pos
    &&& pos + e.len() <= buf.len()
    &&& buf.subrange(pos, pos + e.len()) == e
}

pub proof fn lemma_prefix_concat(a: Seq<u8>, b: Seq<u8>, buf: Seq<u8>, pos: int)
    ensures
        prefix_at(a + b, buf, pos) <==> (prefix_at(a, buf, pos) && prefix_at(b, buf, pos + a.len())),
{
    if prefix_at(a + b, buf, pos) {
        assert(buf.subrange(pos, pos + a.len()) =~= (a + b).subrange(0, a.len() as int));
        assert(buf.subrange(pos + a.len(), pos + a.len() + b.len()) =~= (a + b).subrange(
            a.len() as int,
            (a.len() + b.len()) as int,
        ));
        assert((a + b).subrange(0, a.len() as int) =~= a);
        assert((a + b).subrange(a.len() as int, (a.len() + b.len()) as int) =~= b);
    }
    if prefix_at(a, buf, pos) && prefix_at(b, buf, pos + a.len()) {
        assert(buf.subrange(pos, pos + (a + b).len()) =~= a + b);
    }
}

/// The four little-endian bytes of `x`.
pub open spec fn le4(x: u32) -> Seq<u8> {
    seq![
        (x & 0xff) as u8,
        ((x >> 8u32) & 0xff) as u8,
        ((x >> 16u32) & 0xff) as u8,
        ((x >> 24u32) & 0xff) as u8,
    ]
}

/// The eight little-endian bytes of `x`.
pub open spec fn le8(x: u64) -> Seq<u8> {
    seq![
        (x & 0xff) as u8,
        ((x >> 8u64) & 0xff) as u8,
        ((x >> 16u64) & 0xff) as u8,
        ((x >> 24u64) & 0xff) as u8,
        ((x >> 32u64) & 0xff) as u8,
        ((x >> 40u64) & 0xff) as u8,
        ((x >> 48u64) & 0xff) as u8,
        ((x >> 56u64) & 0xff) as u8,
    ]
}

pub open spec fn from_le4(b: Seq<u8>) -> u32 {
    (b[0] as u32) | ((b[1] as u32) << 8u32) | ((b[2] as u32) << 16u32) | ((b[3] as u32) << 24u32)
}

pub open spec fn from_le8(b: Seq<u8>) -> u64 {
    (b[0] as u64) | ((b[1] as u64) << 8u64) | ((b[2] as u64) << 16u64) | ((b[3] as u64) << 24u64)
        | ((b[4] as u64) << 32u64) | ((b[5] as u64) << 40u64) | ((b[6] as u64) << 48u64) | ((
    b[7] as u64) << 56u64)
}

pub proof fn lemma_le4(b: Seq<u8>)
    requires
        b.len() == 4,
    ensures
        le4(from_le4(b)) == b,
        forall|y: u32| le4(y) == b ==> y == from_le4(b),
{
    let (b0, b1, b2, b3) = (b[0], b[1], b[2], b[3]);
    let x = from_le4(b);
    assert(((x & 0xff) as u8 == b0 && ((x >> 8u32) & 0xff) as u8 == b1 && ((x >> 16u32) & 0xff) as u8
        == b2 && ((x >> 24u32) & 0xff) as u8 == b3)) by (bit_vector)
        requires
            x == (b0 as u32) | ((b1 as u32) << 8u32) | ((b2 as u32) << 16u32) | ((b3 as u32) << 24u32),
    ;
    assert(le4(x) =~= b);
    assert forall|y: u32| le4(y) == b implies y == x by {
        assert(le4(y)[0] == b0 && le4(y)[1] == b1 && le4(y)[2] == b2 && le4(y)[3] == b3);
        assert(y == x) by (bit_vector)
            requires
                x == (b0 as u32) | ((b1 as u32) << 8u32) | ((b2 as u32) << 16u32) | ((b3 as u32)
                    << 24u32),
                (y & 0xff) as u8 == b0,
                ((y >> 8u32) & 0xff) as u8 == b1,
                ((y >> 16u32) & 0xff) as u8 == b2,
                ((y >> 24u32) & 0xff) as u8 == b3,
        ;
    }
}

pub proof fn lemma_le8(b: Seq<u8>)
    requires
        b.len() == 8,
    ensures
        le8(from_le8(b)) == b,
        forall|y: u64| le8(y) == b ==> y == from_le8(b),
{
    let (b0, b1, b2, b3, b4, b5, b6, b7) = (b[0], b[1], b[2], b[3], b[4], b[5], b[6], b[7]);
    let x = from_le8(b);
    assert(((x & 0xff) as u8 == b0 && ((x >> 8u64) & 0xff) as u8 == b1 && ((x >> 16u64) & 0xff) as u8
        == b2 && ((x >> 24u64) & 0xff) as u8 == b3 && ((x >> 32u64) & 0xff) as u8 == b4 && ((x
        >> 40u64) & 0xff) as u8 == b5 && ((x >> 48u64) & 0xff) as u8 == b6 && ((x >> 56u64)
        & 0xff) as u8 == b7)) by (bit_vector)
        requires
            x == (b0 as u64) | ((b1 as u64) << 8u64) | ((b2 as u64) << 16u64) | ((b3 as u64) << 24u64)
                | ((b4 as u64) << 32u64) | ((b5 as u64) << 40u64) | ((b6 as u64) << 48u64) | ((
            b7 as u64) << 56u64),
    ;
    assert(le8(x) =~= b);
    assert forall|y: u64| le8(y) == b implies y == x by {
        assert(le8(y)[0] == b0 && le8(y)[1] == b1 && le8(y)[2] == b2 && le8(y)[3] == b3);
        assert(le8(y)[4] == b4 && le8(y)[5] == b5 && le8(y)[6] == b6 && le8(y)[7] == b7);
        assert(y == x) by (bit_vector)
            requires
                x == (b0 as u64) | ((b1 as u64) << 8u64) | ((b2 as u64) << 16u64) | ((b3 as u64)
                    << 24u64) | ((b4 as u64) << 32u64) | ((b5 as u64) << 40u64) | ((b6 as u64)
                    << 48u64) | ((b7 as u64) << 56u64),
                (y & 0xff) as u8 == b0,
                ((y >> 8u64) & 0xff) as u8 == b1,
                ((y >> 16u64) & 0xff) as u8 == b2,
                ((y >> 24u64) & 0xff) as u8 == b3,
                ((y >> 32u64) & 0xff) as u8 == b4,
                ((y >> 40u64) & 0xff) as u8 == b5,
                ((y >> 48u64) & 0xff) as u8 == b6,
                ((y >> 56u64) & 0xff) as u8 == b7,
        ;
    }
}

pub fn push_le4(out: &mut Vec<u8>, x: u32)
    ensures
        final(out)@ == old(out)@ + le4(x),
{
    out.push((x & 0xff) as u8);
    out.push(((x >> 8u32) & 0xff) as u8);
    out.push(((x >> 16u32) & 0xff) as u8);
    out.push(((x >> 24u32) & 0xff) as u8);
    assert(out@ =~= old(out)@ + le4(x));
}

pub fn push_le8(out: &mut Vec<u8>, x: u64)
    ensures
        final(out)@ == old(out)@ + le8(x),
{
    out.push((x & 0xff) as u8);
    out.push(((x >> 8u64) & 0xff) as u8);
    out.push(((x >> 16u64) & 0xff) as u8);
    out.push(((x >> 24u64) & 0xff) as u8);
    out.push(((x >> 32u64) & 0xff) as u8);
    out.push(((x >> 40u64) & 0xff) as u8);
    out.push(((x >> 48u64) & 0xff) as u8);
    out.push(((x >> 56u64) & 0xff) as u8);
    assert(out@ =~= old(out)@ + le8(x));
}

/// Reads four little-endian bytes at `pos`.
pub fn read_le4(buf: &[u8], pos: usize) -> (r: Option<u32>)
    ensures
        match r {
            Some(x) => prefix_at(le4(x), buf@, pos as int) && pos + 4 <= buf.len(),
            None => buf@.len() < pos + 4,
        },
        forall|y: u32| prefix_at(le4(y), buf@, pos as int) ==> r == Some(y),
{
    if pos > buf.len() || buf.len() - pos < 4 {
        return None;
    }
    let x: u32 = (buf[pos] as u32) | ((buf[pos + 1] as u32) << 8u32) | ((buf[pos + 2] as u32)
        << 16u32) | ((buf[pos + 3] as u32) << 24u32);
    proof {
        let b = buf@.subrange(pos as int, pos + 4);
        lemma_le4(b);
        assert(x == from_le4(b));
    }
    Some(x)
}

/// Reads eight little-endian bytes at `pos`.
pub fn read_le8(buf: &[u8], pos: usize) -> (r: Option<u64>)
    ensures
        match r {
            Some(x) => prefix_at(le8(x), buf@, pos as int) && pos + 8 <= buf.len(),
            None => buf@.len() < pos + 8,
        },
        forall|y: u64| prefix_at(le8(y), buf@, pos as int) ==> r == Some(y),
{
    if pos > buf.len() || buf.len() - pos < 8 {
        return None;
    }
    let x: u64 = (buf[pos] as u64) | ((buf[pos + 1] as u64) << 8u64) | ((buf[pos + 2] as u64)
        << 16u64) | ((buf[pos + 3] as u64) << 24u64) | ((buf[pos + 4] as u64) << 32u64) | ((buf[pos
        + 5] as u64) << 40u64) | ((buf[pos + 6] as u64) << 48u64) | ((buf[pos + 7] as u64)
        << 56u64);
    proof {
        let b = buf@.subrange(pos as int, pos + 8);
        lemma_le8(b);
        assert(x == from_le8(b));
    }
    Some(x)
}


/// A value with a binary form: `model` is what it means, `fits` says that the
/// model can be written (every count fits in four bytes), and `wire` is the
/// written form.
pub trait Wire: Sized {
    type Model;

    spec fn model(&self) -> Self::Model;

    spec fn fits(m: Self::Model) -> bool;

    spec fn wire(m: Self::Model) -> Seq<u8>;

    /// No two values have binary forms that both start at one position of
    /// one buffer: the form is prefix-free, so reading is unique.
    proof fn lemma_wire_unique(m1: Self::Model, m2: Self::Model, buf: Seq<u8>, pos: int)
        requires
            Self::fits(m1),
            Self::fits(m2),
            prefix_at(Self::wire(m1), buf, pos),
            prefix_at(Self::wire(m2), buf, pos),
        ensures
            m1 == m2,
    ;

    /// Whether `self` can be written.
    fn fits_check(&self) -> (r: bool)
        ensures
            r == Self::fits(self.model()),
    ;

    /// Appends the binary form of `self` to `out`.
    fn write_to(&self, out: &mut Vec<u8>)
        requires
            Self::fits(self.model()),
        ensures
            final(out)@ == old(out)@ + Self::wire(self.model()),
    ;

    /// Reads a value at `pos`; it returns the value and the position after it.
    /// It succeeds exactly when the bytes from `pos` on begin with the binary
    /// form of some value, and that value is then the one returned.
    fn read_from(buf: &[u8], pos: usize) -> (r: Option<(Self, usize)>)
        ensures
            match r {
                Some((v, end)) => {
                    &&& Self::fits(v.model())
                    &&& prefix_at(Self::wire(v.model()), buf@, pos as int)
                    &&& end == pos + Self::wire(v.model()).len()
                },
                None => true,
            },
            forall|w: Self::Model|
                Self::fits(w) && prefix_at(#[trigger] Self::wire(w), buf@, pos as int) ==> match r {
                    Some((v, _)) => v.model() == w,
                    None => false,
                },
    ;
}

impl Wire for u8 {
    type Model = u8;

    open spec fn model(&self) -> u8 {
        *self
    }

    open spec fn fits(m: u8) -> bool {
        true
    }

    open spec fn wire(m: u8) -> Seq<u8> {
        seq![m]
    }

    proof fn lemma_wire_unique(m1: u8, m2: u8, buf: Seq<u8>, pos: int) {
        assert(buf.subrange(pos, pos + 1)[0] == m1);
        assert(buf.subrange(pos, pos + 1)[0] == m2);
    }

    fn fits_check(&self) -> (r: bool) {
        true
    }

    fn write_to(&self, out: &mut Vec<u8>) {
        out.push(*self);
        assert(out@ =~= old(out)@ + seq![*self]);
    }

    fn read_from(buf: &[u8], pos: usize) -> (r: Option<(u8, usize)>) {
        if pos >= buf.len() {
            return None;
        }
        let b = buf[pos];
        assert(buf@.subrange(pos as int, pos + 1) =~= seq![b]);
        assert forall|w: u8| prefix_at(#[trigger] Self::wire(w), buf@, pos as int) implies w == b by {
            assert(buf@.subrange(pos as int, pos + 1)[0] == w);
        }
        Some((b, pos + 1))
    }
}

impl Wire for u64 {
    type Model = u64;

    open spec fn model(&self) -> u64 {
        *self
    }

    open spec fn fits(m: u64) -> bool {
        true
    }

    open spec fn wire(m: u64) -> Seq<u8> {
        le8(m)
    }

    proof fn lemma_wire_unique(m1: u64, m2: u64, buf: Seq<u8>, pos: int) {
        assert(le8(m1).len() == 8);
        lemma_le8(buf.subrange(pos, pos + 8));
    }

    fn fits_check(&self) -> (r: bool) {
        true
    }

    fn write_to(&self, out: &mut Vec<u8>) {
        push_le8(out, *self);
    }

    fn read_from(buf: &[u8], pos: usize) -> (r: Option<(u64, usize)>) {
        match read_le8(buf, pos) {
            Some(x) => {
                assert(le8(x).len() == 8);
                Some((x, pos + 8))
            },
            None => None,
        }
    }
}

impl Wire for i64 {
    type Model = i64;

    open spec fn model(&self) -> i64 {
        *self
    }

    open spec fn fits(m: i64) -> bool {
        true
    }

    open spec fn wire(m: i64) -> Seq<u8> {
        le8(#[verifier::truncate] (m as u64))
    }

    proof fn lemma_wire_unique(m1: i64, m2: i64, buf: Seq<u8>, pos: int) {
        let u1 = #[verifier::truncate] (m1 as u64);
        let u2 = #[verifier::truncate] (m2 as u64);
        assert(le8(u1).len() == 8);
        lemma_le8(buf.subrange(pos, pos + 8));
        assert(u1 == u2);
        assert(m1 == m2) by (bit_vector)
            requires
                u1 == m1 as u64,
                u2 == m2 as u64,
                u1 == u2,
        ;
    }

    fn fits_check(&self) -> (r: bool) {
        true
    }

    fn write_to(&self, out: &mut Vec<u8>) {
        push_le8(out, #[verifier::truncate] (*self as u64));
    }

    fn read_from(buf: &[u8], pos: usize) -> (r: Option<(i64, usize)>) {
        match read_le8(buf, pos) {
            Some(x) => {
                assert(le8(x).len() == 8);
                let v = #[verifier::truncate] (x as i64);
                assert((v as u64) == x) by (bit_vector)
                    requires
                        v == x as i64,
                ;
                assert forall|w: i64| prefix_at(#[trigger] Self::wire(w), buf@, pos as int) implies w
                    == v by {
                    let u = #[verifier::truncate] (w as u64);
                    assert(u == x);
                    assert(w == v) by (bit_vector)
                        requires
                            u == w as u64,
                            v == x as i64,
                            u == x,
                    ;
                }
                Some((v, pos + 8))
            },
            None => None,
        }
    }
}

impl Wire for Address {
    type Model = Seq<u8>;

    open spec fn model(&self) -> Seq<u8> {
        self@
    }

    open spec fn fits(m: Seq<u8>) -> bool {
        m.len() == 32
    }

    open spec fn wire(m: Seq<u8>) -> Seq<u8> {
        m
    }

    proof fn lemma_wire_unique(m1: Seq<u8>, m2: Seq<u8>, buf: Seq<u8>, pos: int) {
    }

    fn fits_check(&self) -> (r: bool) {
        true
    }

    fn write_to(&self, out: &mut Vec<u8>) {
        let ghost start = out@;
        let mut i: usize = 0;
        while i < 32
            invariant
                i <= 32,
                self.bytes@.len() == 32,
                out@ =~= start + self.bytes@.take(i as int),
            decreases 32 - i,
        {
            out.push(self.bytes[i]);
            i += 1;
            assert(out@ =~= start + self.bytes@.take(i as int));
        }
        assert(self.bytes@.take(32) =~= self.bytes@);
    }

    fn read_from(buf: &[u8], pos: usize) -> (r: Option<(Address, usize)>) {
        if pos > buf.len() || buf.len() - pos < 32 {
            return None;
        }
        let mut bytes = [0u8; 32];
        let mut i: usize = 0;
        while i < 32
            invariant
                i <= 32,
                pos + 32 <= buf@.len(),
                bytes@.len() == 32,
                forall|j: int| 0 <= j < i ==> bytes@[j] == buf@[pos + j],
            decreases 32 - i,
        {
            bytes[i] = buf[pos + i];
            i += 1;
        }
        let a = Address { bytes };
        assert(a@ =~= buf@.subrange(pos as int, pos + 32));
        Some((a, pos + 32))
    }
}

impl<T: Wire> Wire for Option<T> {
    type Model = Option<T::Model>;

    open spec fn model(&self) -> Option<T::Model> {
        match self {
            Some(v) => Some(v.model()),
            None => None,
        }
    }

    open spec fn fits(m: Option<T::Model>) -> bool {
        match m {
            Some(v) => T::fits(v),
            None => true,
        }
    }

    open spec fn wire(m: Option<T::Model>) -> Seq<u8> {
        match m {
            Some(v) => seq![1u8] + T::wire(v),
            None => seq![0u8],
        }
    }

    proof fn lemma_wire_unique(m1: Option<T::Model>, m2: Option<T::Model>, buf: Seq<u8>, pos: int) {
        assert(buf.subrange(pos, pos + 1)[0] == Self::wire(m1)[0]);
        assert(buf.subrange(pos, pos + 1)[0] == Self::wire(m2)[0]);
        if let (Some(x1), Some(x2)) = (m1, m2) {
            lemma_prefix_concat(seq![1u8], T::wire(x1), buf, pos);
            lemma_prefix_concat(seq![1u8], T::wire(x2), buf, pos);
            T::lemma_wire_unique(x1, x2, buf, pos + 1);
        }
    }

    fn fits_check(&self) -> (r: bool) {
        match self {
            Some(v) => v.fits_check(),
            None => true,
        }
    }

    fn write_to(&self, out: &mut Vec<u8>) {
        match self {
            Some(v) => {
                out.push(1u8);
                v.write_to(out);
                assert(out@ =~= old(out)@ + (seq![1u8] + T::wire(v.model())));
            },
            None => {
                out.push(0u8);
                assert(out@ =~= old(out)@ + seq![0u8]);
            },
        }
    }

    fn read_from(buf: &[u8], pos: usize) -> (r: Option<(Option<T>, usize)>) {
        if pos >= buf.len() {
            return None;
        }
        let tag = buf[pos];
        proof {
            assert forall|w: Option<T::Model>|
                Self::fits(w) && prefix_at(#[trigger] Self::wire(w), buf@, pos as int) implies (match w {
                Some(x) => tag == 1 && prefix_at(T::wire(x), buf@, pos + 1),
                None => tag == 0,
            }) by {
                match w {
                    Some(x) => {
                        lemma_prefix_concat(seq![1u8], T::wire(x), buf@, pos as int);
                        assert(buf@.subrange(pos as int, pos + 1)[0] == tag);
                    },
                    None => {
                        assert(buf@.subrange(pos as int, pos + 1)[0] == tag);
                    },
                }
            }
        }
        if tag == 0 {
            assert(buf@.subrange(pos as int, pos + 1) =~= seq![0u8]);
            Some((None, pos + 1))
        } else if tag == 1 {
            match T::read_from(buf, pos + 1) {
                Some((v, end)) => {
                    assert(buf@.subrange(pos as int, pos + 1) =~= seq![1u8]);
                    proof {
                        lemma_prefix_concat(seq![1u8], T::wire(v.model()), buf@, pos as int);
                    }
                    Some((Some(v), end))
                },
                None => None,
            }
        } else {
            None
        }
    }
}

impl<A: Wire, B: Wire> Wire for (A, B) {
    type Model = (A::Model, B::Model);

    open spec fn model(&self) -> (A::Model, B::Model) {
        (self.0.model(), self.1.model())
    }

    open spec fn fits(m: (A::Model, B::Model)) -> bool {
        A::fits(m.0) && B::fits(m.1)
    }

    open spec fn wire(m: (A::Model, B::Model)) -> Seq<u8> {
        A::wire(m.0) + B::wire(m.1)
    }

    proof fn lemma_wire_unique(m1: (A::Model, B::Model), m2: (A::Model, B::Model), buf: Seq<u8>, pos: int) {
        lemma_prefix_concat(A::wire(m1.0), B::wire(m1.1), buf, pos);
        lemma_prefix_concat(A::wire(m2.0), B::wire(m2.1), buf, pos);
        A::lemma_wire_unique(m1.0, m2.0, buf, pos);
        B::lemma_wire_unique(m1.1, m2.1, buf, pos + A::wire(m1.0).len());
    }

    fn fits_check(&self) -> (r: bool) {
        self.0.fits_check() && self.1.fits_check()
    }

    fn write_to(&self, out: &mut Vec<u8>) {
        self.0.write_to(out);
        self.1.write_to(out);
        assert(out@ =~= old(out)@ + (A::wire(self.0.model()) + B::wire(self.1.model())));
    }

    fn read_from(buf: &[u8], pos: usize) -> (r: Option<((A, B), usize)>) {
        proof {
            assert forall|w: (A::Model, B::Model)|
                Self::fits(w) && prefix_at(#[trigger] Self::wire(w), buf@, pos as int) implies prefix_at(
                A::wire(w.0),
                buf@,
                pos as int,
            ) && prefix_at(B::wire(w.1), buf@, pos + A::wire(w.0).len()) by {
                lemma_prefix_concat(A::wire(w.0), B::wire(w.1), buf@, pos as int);
            }
        }
        let (a, mid) = match A::read_from(buf, pos) {
            Some(found) => found,
            None => return None,
        };
        let (b, end) = match B::read_from(buf, mid) {
            Some(found) => found,
            None => return None,
        };
        proof {
            lemma_prefix_concat(A::wire(a.model()), B::wire(b.model()), buf@, pos as int);
        }
        Some(((a, b), end))
    }
}


/// The elements of a list, written one after the other.
pub open spec fn items_wire<T: Wire>(s: Seq<T::Model>) -> Seq<u8>
    decreases s.len(),
{
    if s.len() == 0 {
        Seq::empty()
    } else {
        items_wire::<T>(s.drop_last()) + T::wire(s.last())
    }
}

pub open spec fn models<T: Wire>(s: Seq<T>) -> Seq<T::Model> {
    s.map_values(|x: T| x.model())
}

pub proof fn lemma_items_take<T: Wire>(w: Seq<T::Model>, k: int, buf: Seq<u8>, p: int)
    requires
        0 <= k <= w.len(),
        prefix_at(items_wire::<T>(w), buf, p),
    ensures
        prefix_at(items_wire::<T>(w.take(k)), buf, p),
    decreases w.len(),
{
    if k == w.len() {
        assert(w.take(k) =~= w);
    } else {
        lemma_prefix_concat(items_wire::<T>(w.drop_last()), T::wire(w.last()), buf, p);
        lemma_items_take::<T>(w.drop_last(), k, buf, p);
        assert(w.drop_last().take(k) =~= w.take(k));
    }
}

proof fn lemma_items_step<T: Wire>(w: Seq<T::Model>, i: int)
    requires
        0 <= i < w.len(),
    ensures
        items_wire::<T>(w.take(i + 1)) == items_wire::<T>(w.take(i)) + T::wire(w[i]),
{
    assert(w.take(i + 1).drop_last() =~= w.take(i));
}

proof fn lemma_items_unique<T: Wire>(w1: Seq<T::Model>, w2: Seq<T::Model>, buf: Seq<u8>, p: int)
    requires
        w1.len() == w2.len(),
        forall|i: int| 0 <= i < w1.len() ==> T::fits(#[trigger] w1[i]),
        forall|i: int| 0 <= i < w2.len() ==> T::fits(#[trigger] w2[i]),
        prefix_at(items_wire::<T>(w1), buf, p),
        prefix_at(items_wire::<T>(w2), buf, p),
    ensures
        w1 == w2,
    decreases w1.len(),
{
    if w1.len() > 0 {
        let (d1, d2) = (w1.drop_last(), w2.drop_last());
        lemma_prefix_concat(items_wire::<T>(d1), T::wire(w1.last()), buf, p);
        lemma_prefix_concat(items_wire::<T>(d2), T::wire(w2.last()), buf, p);
        assert forall|i: int| 0 <= i < d1.len() implies T::fits(#[trigger] d1[i]) by {
            assert(d1[i] == w1[i]);
        }
        assert forall|i: int| 0 <= i < d2.len() implies T::fits(#[trigger] d2[i]) by {
            assert(d2[i] == w2[i]);
        }
        lemma_items_unique::<T>(d1, d2, buf, p);
        assert(T::fits(w1[w1.len() - 1]) && T::fits(w2[w2.len() - 1]));
        T::lemma_wire_unique(w1.last(), w2.last(), buf, p + items_wire::<T>(d1).len());
        assert forall|i: int| 0 <= i < w1.len() implies w1[i] == w2[i] by {
            if i < w1.len() - 1 {
                assert(w1[i] == d1[i] && w2[i] == d2[i]);
            }
        }
        assert(w1 =~= w2);
    }
}

impl<T: Wire> Wire for Vec<T> {
    type Model = Seq<T::Model>;

    open spec fn model(&self) -> Seq<T::Model> {
        models(self@)
    }

    open spec fn fits(m: Seq<T::Model>) -> bool {
        &&& m.len() <= u32::MAX
        &&& forall|i: int| 0 <= i < m.len() ==> T::fits(#[trigger] m[i])
    }

    open spec fn wire(m: Seq<T::Model>) -> Seq<u8> {
        le4(m.len() as u32) + items_wire::<T>(m)
    }

    proof fn lemma_wire_unique(m1: Seq<T::Model>, m2: Seq<T::Model>, buf: Seq<u8>, pos: int) {
        lemma_prefix_concat(le4(m1.len() as u32), items_wire::<T>(m1), buf, pos);
        lemma_prefix_concat(le4(m2.len() as u32), items_wire::<T>(m2), buf, pos);
        lemma_le4(buf.subrange(pos, pos + 4));
        assert(m1.len() == m2.len());
        lemma_items_unique::<T>(m1, m2, buf, pos + 4);
    }

    fn fits_check(&self) -> (r: bool) {
        if self.len() > 0xffff_ffff {
            return false;
        }
        let mut i: usize = 0;
        while i < self.len()
            invariant
                i <= self@.len(),
                forall|j: int| 0 <= j < i ==> T::fits(#[trigger] models(self@)[j]),
            decreases self@.len() - i,
        {
            if !self[i].fits_check() {
                assert(!T::fits(models(self@)[i as int]));
                return false;
            }
            i += 1;
        }
        true
    }

    fn write_to(&self, out: &mut Vec<u8>) {
        let ghost start = out@;
        let ghost m = self.model();
        push_le4(out, self.len() as u32);
        let mut i: usize = 0;
        while i < self.len()
            invariant
                i <= self@.len(),
                m == models(self@),
                Self::fits(m),
                out@ == start + le4(self@.len() as u32) + items_wire::<T>(m.take(i as int)),
            decreases self@.len() - i,
        {
            assert(T::fits(m[i as int]));
            self[i].write_to(out);
            proof {
                lemma_items_step::<T>(m, i as int);
                assert(out@ =~= start + le4(self@.len() as u32) + items_wire::<T>(m.take(i + 1)));
            }
            i += 1;
        }
        assert(m.take(self@.len() as int) =~= m);
        assert(out@ =~= start + (le4(m.len() as u32) + items_wire::<T>(m)));
    }

    fn read_from(buf: &[u8], pos: usize) -> (r: Option<(Vec<T>, usize)>) {
        let count = match read_le4(buf, pos) {
            Some(c) => c,
            None => return None,
        };
        assert(le4(count).len() == 4);
        let start = pos + 4;
        proof {
            assert forall|w: Seq<T::Model>|
                Self::fits(w) && prefix_at(#[trigger] Self::wire(w), buf@, pos as int) implies w.len()
                == count && prefix_at(items_wire::<T>(w), buf@, start as int) by {
                lemma_prefix_concat(le4(w.len() as u32), items_wire::<T>(w), buf@, pos as int);
                lemma_le4(buf@.subrange(pos as int, pos + 4));
            }
        }
        let mut items: Vec<T> = Vec::new();
        let mut cur = start;
        let mut i: u32 = 0;
        assert(models(items@).len() == 0);
        assert(items_wire::<T>(models(items@)) =~= Seq::<u8>::empty());
        assert(buf@.subrange(start as int, start as int) =~= Seq::<u8>::empty());
        while i < count
            invariant
                start == pos + 4,
                prefix_at(le4(count), buf@, pos as int),
                items@.len() == i,
                i <= count,
                prefix_at(items_wire::<T>(models(items@)), buf@, start as int),
                cur == start + items_wire::<T>(models(items@)).len(),
                forall|j: int| 0 <= j < i ==> T::fits(#[trigger] models(items@)[j]),
                forall|w: Seq<T::Model>|
                    Self::fits(w) && prefix_at(#[trigger] Self::wire(w), buf@, pos as int) ==> w.len()
                        == count && prefix_at(items_wire::<T>(w), buf@, start as int),
                forall|w: Seq<T::Model>|
                    w.len() == count && Self::fits(w) && prefix_at(
                        #[trigger] items_wire::<T>(w),
                        buf@,
                        start as int,
                    ) ==> models(items@) == w.take(i as int),
            decreases count - i,
        {
            proof {
                assert forall|w: Seq<T::Model>|
                    w.len() == count && Self::fits(w) && prefix_at(
                        #[trigger] items_wire::<T>(w),
                        buf@,
                        start as int,
                    ) implies prefix_at(T::wire(w[i as int]), buf@, cur as int) && items_wire::<T>(
                    w.take(i + 1),
                ) == items_wire::<T>(models(items@)) + T::wire(w[i as int]) by {
                    lemma_items_take::<T>(w, i + 1, buf@, start as int);
                    lemma_items_step::<T>(w, i as int);
                    lemma_prefix_concat(
                        items_wire::<T>(w.take(i as int)),
                        T::wire(w[i as int]),
                        buf@,
                        start as int,
                    );
                }
            }
            let (v, end) = match T::read_from(buf, cur) {
                Some(found) => found,
                None => {
                    proof {
                        assert forall|w: Seq<T::Model>|
                            Self::fits(w) && prefix_at(#[trigger] Self::wire(w), buf@, pos as int)
                                implies false by {
                            assert(T::fits(w[i as int]));
                        }
                    }
                    return None;
                },
            };
            let ghost before = items@;
            items.push(v);
            proof {
                assert(models(items@) =~= models(before).push(v.model()));
                assert(models(items@).drop_last() =~= models(before));
                lemma_prefix_concat(items_wire::<T>(models(before)), T::wire(v.model()), buf@, start as int);
                assert forall|w: Seq<T::Model>|
                    w.len() == count && Self::fits(w) && prefix_at(
                        #[trigger] items_wire::<T>(w),
                        buf@,
                        start as int,
                    ) implies models(items@) == w.take(i + 1) by {
                    assert(T::fits(w[i as int]));
                    assert(w[i as int] == v.model());
                    assert(w.take(i + 1) =~= w.take(i as int).push(w[i as int]));
                }
            }
            cur = end;
            i += 1;
        }
        proof {
            lemma_prefix_concat(le4(count), items_wire::<T>(models(items@)), buf@, pos as int);
            assert(models(items@).len() as u32 == count);
            assert forall|w: Seq<T::Model>|
                Self::fits(w) && prefix_at(#[trigger] Self::wire(w), buf@, pos as int) implies models(
                items@,
            ) == w by {
                assert(w.take(count as int) =~= w);
            }
        }
        Some((items, cur))
    }
}

/// A list of bytes is read as its view.
pub broadcast proof fn lemma_bytes_model(v: Vec<u8>)
    ensures
        #[trigger] v.model() == v@,
{
    assert(models(v@) =~= v@);
}

} // verus!
