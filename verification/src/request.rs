//! Typed carriers for a single I/O transaction.
//!
//! A port request is sized 1, 2 or 4 bytes and carries its width in its tag;
//! a memory request is a byte buffer of arbitrary length.  The 32-bit
//! conversions (`as_u32`, `copy_from_u32`) interpret the buffer big-endian,
//! so that successive byte-wide reads of a register observed through them
//! round-trip.

use vstd::prelude::*;

use crate::error::Error;
use crate::numfmt::{push_dec_u64, spec_dec_digits};

verus! {

use vstd::string::StringExecFns;

/// Big-endian interpretation of a byte sequence, high-order byte first.
pub open spec fn spec_be_interp(s: Seq<u8>) -> nat
    decreases s.len(),
{
    if s.len() == 0 {
        0
    } else {
        spec_be_interp(s.drop_last()) * 256 + (s.last() as nat)
    }
}

/// The big-endian byte decomposition of a 32-bit value.
pub open spec fn spec_be_bytes4(v: u32) -> Seq<u8> {
    seq![(v >> 24) as u8, (v >> 16) as u8, (v >> 8) as u8, v as u8]
}

/// The low `n` bytes of `v` in big-endian order: what a width-`n` port read
/// observes of a 32-bit register value.
pub open spec fn spec_be_suffix(v: u32, n: nat) -> Seq<u8>
    recommends
        n <= 4,
{
    spec_be_bytes4(v).skip(4 - n)
}

/// The value of the low `8 * n` bits of a 32-bit value.
pub open spec fn spec_low_bits(v: u32, n: nat) -> u32 {
    if n == 1 {
        v & 0xff
    } else if n == 2 {
        v & 0xffff
    } else {
        v
    }
}

pub proof fn lemma_be_interp1(b0: u8)
    ensures
        spec_be_interp(seq![b0]) == b0,
{
    assert(seq![b0].drop_last() =~= Seq::<u8>::empty());
    assert(spec_be_interp(Seq::<u8>::empty()) == 0);
    assert(spec_be_interp(seq![b0]) == spec_be_interp(seq![b0].drop_last()) * 256 + (
    seq![b0].last() as nat));
}

pub proof fn lemma_be_interp2(b0: u8, b1: u8)
    ensures
        spec_be_interp(seq![b0, b1]) == b0 * 256 + b1,
{
    assert(seq![b0, b1].drop_last() =~= seq![b0]);
    lemma_be_interp1(b0);
}

pub proof fn lemma_be_interp4(b0: u8, b1: u8, b2: u8, b3: u8)
    ensures
        spec_be_interp(seq![b0, b1, b2, b3]) == ((b0 * 256 + b1) * 256 + b2) * 256 + b3,
{
    assert(seq![b0, b1, b2, b3].drop_last() =~= seq![b0, b1, b2]);
    assert(seq![b0, b1, b2].drop_last() =~= seq![b0, b1]);
    lemma_be_interp2(b0, b1);
    assert(spec_be_interp(seq![b0, b1, b2]) == spec_be_interp(seq![b0, b1]) * 256 + (
    seq![b0, b1, b2].last() as nat));
    assert(spec_be_interp(seq![b0, b1, b2, b3]) == spec_be_interp(seq![b0, b1, b2]) * 256 + (
    seq![b0, b1, b2, b3].last() as nat));
}

pub proof fn lemma_be_interp_bound(s: Seq<u8>)
    requires
        s.len() <= 4,
    ensures
        s.len() <= 1 ==> spec_be_interp(s) < 0x100,
        s.len() <= 2 ==> spec_be_interp(s) < 0x10000,
        s.len() <= 3 ==> spec_be_interp(s) < 0x1000000,
        spec_be_interp(s) < 0x100000000,
    decreases s.len(),
{
    if s.len() > 0 {
        lemma_be_interp_bound(s.drop_last());
    }
}

/// The round-trip law of the big-endian pair: emitting the interpretation
/// of a legal port buffer at the buffer's own width reproduces the bytes,
/// so a value written through `copy_from_u32` and read back through
/// `as_u32` is preserved.
pub proof fn lemma_be_suffix_of_interp(s: Seq<u8>)
    requires
        s.len() == 1 || s.len() == 2 || s.len() == 4,
    ensures
        spec_be_suffix((spec_be_interp(s) as u32), s.len()) == s,
{
    lemma_be_interp_bound(s);
    if s.len() == 1 {
        let b0 = s[0];
        assert(s =~= seq![b0]);
        lemma_be_interp1(b0);
        let v = (b0 as u32);
        assert((v as u8) == b0) by (bit_vector)
            requires
                v == (b0 as u32),
        ;
        assert(spec_be_suffix(v, 1) =~= seq![v as u8]);
    } else if s.len() == 2 {
        let b0 = s[0];
        let b1 = s[1];
        assert(s =~= seq![b0, b1]);
        lemma_be_interp2(b0, b1);
        let v = ((b0 as u32) * 256 + (b1 as u32)) as u32;
        assert(((v >> 8) as u8) == b0 && (v as u8) == b1) by (bit_vector)
            requires
                v == ((b0 as u32) * 256 + (b1 as u32)) as u32,
        ;
        assert(spec_be_suffix(v, 2) =~= seq![(v >> 8) as u8, v as u8]);
    } else {
        let b0 = s[0];
        let b1 = s[1];
        let b2 = s[2];
        let b3 = s[3];
        assert(s =~= seq![b0, b1, b2, b3]);
        lemma_be_interp4(b0, b1, b2, b3);
        let v = ((((b0 as u32) * 256 + (b1 as u32)) * 256 + (b2 as u32)) * 256 + (b3 as u32))
            as u32;
        assert(((v >> 24) as u8) == b0 && ((v >> 16) as u8) == b1 && ((v >> 8) as u8) == b2 && (
        v as u8) == b3) by (bit_vector)
            requires
                v == ((((b0 as u32) * 256 + (b1 as u32)) * 256 + (b2 as u32)) * 256 + (b3 as u32))
                    as u32,
        ;
        assert(spec_be_suffix(v, 4) =~= seq![(v >> 24) as u8, (v >> 16) as u8, (v >> 8) as u8, v as u8]);
    }
}

/// An immutable buffer carrying the value a guest wrote to a port, sized
/// 1, 2 or 4 bytes.
#[derive(Debug)]
pub enum PortWriteRequest {
    OneByte([u8; 1]),
    TwoBytes([u8; 2]),
    FourBytes([u8; 4]),
}

impl View for PortWriteRequest {
    type V = Seq<u8>;

    open spec fn view(&self) -> Seq<u8> {
        match self {
            PortWriteRequest::OneByte(a) => a@,
            PortWriteRequest::TwoBytes(a) => a@,
            PortWriteRequest::FourBytes(a) => a@,
        }
    }
}

impl PortWriteRequest {
    /// Builds a request from a byte slice; succeeds exactly when the slice is
    /// 1, 2 or 4 bytes long.
    pub fn try_from(buff: &[u8]) -> (r: Result<PortWriteRequest, Error>)
        ensures
            r is Ok <==> (buff@.len() == 1 || buff@.len() == 2 || buff@.len() == 4),
            r is Ok ==> r->Ok_0@ == buff@,
            r is Err ==> r->Err_0 is InvalidValue && r->Err_0->InvalidValue_0@
                == spec_invalid_length_message(buff@.len()),
    {
        if buff.len() == 1 {
            let a = [buff[0]];
            assert(a@ =~= buff@);
            Ok(PortWriteRequest::OneByte(a))
        } else if buff.len() == 2 {
            let a = [buff[0], buff[1]];
            assert(a@ =~= buff@);
            Ok(PortWriteRequest::TwoBytes(a))
        } else if buff.len() == 4 {
            let a = [buff[0], buff[1], buff[2], buff[3]];
            assert(a@ =~= buff@);
            Ok(PortWriteRequest::FourBytes(a))
        } else {
            Err(Error::InvalidValue(invalid_length_message(buff.len())))
        }
    }

    /// The bytes the guest wrote, high-order first.
    pub fn as_slice(&self) -> (r: &[u8])
        ensures
            r@ == self@,
    {
        match self {
            PortWriteRequest::OneByte(a) => a.as_slice(),
            PortWriteRequest::TwoBytes(a) => a.as_slice(),
            PortWriteRequest::FourBytes(a) => a.as_slice(),
        }
    }

    /// Widens the buffer to 32 bits by big-endian interpretation, high-order
    /// zero-padded for the narrow variants.
    pub fn as_u32(&self) -> (r: u32)
        ensures
            r as nat == spec_be_interp(self@),
    {
        match self {
            PortWriteRequest::OneByte(a) => {
                let r = a[0] as u32;
                proof {
                    lemma_be_interp1(a@[0]);
                    assert(a@ =~= seq![a@[0]]);
                }
                r
            },
            PortWriteRequest::TwoBytes(a) => {
                let (b0, b1) = (a[0], a[1]);
                let r = ((b0 as u32) << 8) | (b1 as u32);
                proof {
                    assert(((b0 as u32) << 8) | (b1 as u32) == (b0 as u32) * 256 + (b1 as u32))
                        by (bit_vector);
                    lemma_be_interp2(b0, b1);
                    assert(a@ =~= seq![b0, b1]);
                }
                r
            },
            PortWriteRequest::FourBytes(a) => {
                let (b0, b1, b2, b3) = (a[0], a[1], a[2], a[3]);
                let r = ((b0 as u32) << 24) | ((b1 as u32) << 16) | ((b2 as u32) << 8) | (
                b3 as u32);
                proof {
                    assert(((b0 as u32) << 24) | ((b1 as u32) << 16) | ((b2 as u32) << 8) | (
                    b3 as u32) == (((b0 as u32) * 256 + (b1 as u32)) * 256 + (b2 as u32)) * 256 + (
                    b3 as u32)) by (bit_vector);
                    lemma_be_interp4(b0, b1, b2, b3);
                    assert(a@ =~= seq![b0, b1, b2, b3]);
                }
                r
            },
        }
    }

    /// Narrows to `u8`; succeeds exactly when the request is one byte wide.
    pub fn try_into_u8(&self) -> (r: Result<u8, Error>)
        ensures
            r is Ok <==> self is OneByte,
            r is Ok ==> r->Ok_0 == self@[0],
            r is Err ==> r->Err_0 is InvalidValue && r->Err_0->InvalidValue_0@
                == spec_narrowing_message(),
    {
        match self {
            PortWriteRequest::OneByte(a) => Ok(a[0]),
            _ => Err(Error::InvalidValue(narrowing_message())),
        }
    }

    /// Narrows to `u16` (big-endian); succeeds exactly when the request is
    /// two bytes wide.
    pub fn try_into_u16(&self) -> (r: Result<u16, Error>)
        ensures
            r is Ok <==> self is TwoBytes,
            r is Ok ==> r->Ok_0 as nat == spec_be_interp(self@),
            r is Err ==> r->Err_0 is InvalidValue && r->Err_0->InvalidValue_0@
                == spec_narrowing_message(),
    {
        match self {
            PortWriteRequest::TwoBytes(a) => {
                let (b0, b1) = (a[0], a[1]);
                let r = ((b0 as u16) << 8) | (b1 as u16);
                proof {
                    assert(((b0 as u16) << 8) | (b1 as u16) == (b0 as u16) * 256 + (b1 as u16))
                        by (bit_vector);
                    lemma_be_interp2(b0, b1);
                    assert(a@ =~= seq![b0, b1]);
                }
                Ok(r)
            },
            _ => Err(Error::InvalidValue(narrowing_message())),
        }
    }

    /// Narrows to `u32` (big-endian); succeeds exactly when the request is
    /// four bytes wide.
    pub fn try_into_u32(&self) -> (r: Result<u32, Error>)
        ensures
            r is Ok <==> self is FourBytes,
            r is Ok ==> r->Ok_0 as nat == spec_be_interp(self@),
            r is Err ==> r->Err_0 is InvalidValue && r->Err_0->InvalidValue_0@
                == spec_narrowing_message(),
    {
        match self {
            PortWriteRequest::FourBytes(_) => Ok(self.as_u32()),
            _ => Err(Error::InvalidValue(narrowing_message())),
        }
    }
}

/// A buffer a device fills with the value the guest will observe on a port
/// read, sized 1, 2 or 4 bytes.  The exit handler copies the bytes back into
/// the guest-visible register on return.
#[derive(Debug)]
pub enum PortReadRequest {
    OneByte([u8; 1]),
    TwoBytes([u8; 2]),
    FourBytes([u8; 4]),
}

impl View for PortReadRequest {
    type V = Seq<u8>;

    open spec fn view(&self) -> Seq<u8> {
        match self {
            PortReadRequest::OneByte(a) => a@,
            PortReadRequest::TwoBytes(a) => a@,
            PortReadRequest::FourBytes(a) => a@,
        }
    }
}

impl PortReadRequest {
    /// Builds a request from a byte slice; succeeds exactly when the slice is
    /// 1, 2 or 4 bytes long.
    pub fn try_from(buff: &[u8]) -> (r: Result<PortReadRequest, Error>)
        ensures
            r is Ok <==> (buff@.len() == 1 || buff@.len() == 2 || buff@.len() == 4),
            r is Ok ==> r->Ok_0@ == buff@,
            r is Err ==> r->Err_0 is InvalidValue && r->Err_0->InvalidValue_0@
                == spec_invalid_length_message(buff@.len()),
    {
        if buff.len() == 1 {
            let a = [buff[0]];
            assert(a@ =~= buff@);
            Ok(PortReadRequest::OneByte(a))
        } else if buff.len() == 2 {
            let a = [buff[0], buff[1]];
            assert(a@ =~= buff@);
            Ok(PortReadRequest::TwoBytes(a))
        } else if buff.len() == 4 {
            let a = [buff[0], buff[1], buff[2], buff[3]];
            assert(a@ =~= buff@);
            Ok(PortReadRequest::FourBytes(a))
        } else {
            Err(Error::InvalidValue(invalid_length_message(buff.len())))
        }
    }

    /// The access width in bytes.
    pub fn len(&self) -> (r: usize)
        ensures
            r == self@.len(),
    {
        match self {
            PortReadRequest::OneByte(_) => 1,
            PortReadRequest::TwoBytes(_) => 2,
            PortReadRequest::FourBytes(_) => 4,
        }
    }

    /// The bytes currently held by the buffer, high-order first.
    pub fn as_slice(&self) -> (r: &[u8])
        ensures
            r@ == self@,
    {
        match self {
            PortReadRequest::OneByte(a) => a.as_slice(),
            PortReadRequest::TwoBytes(a) => a.as_slice(),
            PortReadRequest::FourBytes(a) => a.as_slice(),
        }
    }

    /// Mutable access to the bytes held by the buffer; writes through the
    /// returned slice are writes to the request.
    pub fn as_mut_slice(&mut self) -> (r: &mut [u8])
        ensures
            r@ == old(self)@,
            final(self)@ == final(r)@,
            (*final(self)) is OneByte <==> (*old(self)) is OneByte,
            (*final(self)) is TwoBytes <==> (*old(self)) is TwoBytes,
            (*final(self)) is FourBytes <==> (*old(self)) is FourBytes,
    {
        match self {
            PortReadRequest::OneByte(a) => vstd::array::ref_mut_array_unsizing_coercion(a),
            PortReadRequest::TwoBytes(a) => vstd::array::ref_mut_array_unsizing_coercion(a),
            PortReadRequest::FourBytes(a) => vstd::array::ref_mut_array_unsizing_coercion(a),
        }
    }

    /// Writes the low `len` bytes of `val` into the buffer in big-endian
    /// order: the sole width-aware reply primitive used by devices.  After
    /// the call the buffer holds exactly the low `8 * len` bits of `val`
    /// under big-endian interpretation.
    pub fn copy_from_u32(&mut self, val: u32)
        ensures
            final(self)@ == spec_be_suffix(val, old(self)@.len()),
            spec_be_interp(final(self)@) == spec_low_bits(val, old(self)@.len()),
            final(self)@.len() == old(self)@.len(),
    {
        match self {
            PortReadRequest::OneByte(a) => {
                *a = [val as u8];
                proof {
                    assert(spec_be_suffix(val, 1) =~= seq![val as u8]);
                    lemma_be_interp1(val as u8);
                    assert(a@ =~= seq![val as u8]);
                    assert(((val as u8) as u32) == val & 0xff) by (bit_vector);
                }
            },
            PortReadRequest::TwoBytes(a) => {
                *a = [(val >> 8) as u8, val as u8];
                proof {
                    assert(spec_be_suffix(val, 2) =~= seq![(val >> 8) as u8, val as u8]);
                    lemma_be_interp2((val >> 8) as u8, val as u8);
                    assert(a@ =~= seq![(val >> 8) as u8, val as u8]);
                    assert((((val >> 8) as u8) as u32) * 256 + ((val as u8) as u32) == val & 0xffff)
                        by (bit_vector);
                }
            },
            PortReadRequest::FourBytes(a) => {
                *a = [(val >> 24) as u8, (val >> 16) as u8, (val >> 8) as u8, val as u8];
                proof {
                    assert(spec_be_suffix(val, 4) =~= spec_be_bytes4(val));
                    lemma_be_interp4((val >> 24) as u8, (val >> 16) as u8, (val >> 8) as u8,
                        val as u8);
                    assert(a@ =~= seq![(val >> 24) as u8, (val >> 16) as u8, (val >> 8) as u8, val as u8]);
                    assert(((((val >> 24) as u8) as u32 * 256 + ((val >> 16) as u8) as u32) * 256 + ((
                    val >> 8) as u8) as u32) * 256 + ((val as u8) as u32) == val) by (bit_vector);
                }
            },
        }
    }
}

/// An immutable byte buffer carrying the value of a guest store to a
/// memory-mapped region; its length is not restricted at construction.
#[derive(Debug)]
pub struct MemWriteRequest<'a> {
    data: &'a [u8],
}

impl<'a> View for MemWriteRequest<'a> {
    type V = Seq<u8>;

    closed spec fn view(&self) -> Seq<u8> {
        self.data@
    }
}

impl<'a> MemWriteRequest<'a> {
    /// Wraps a byte slice.
    pub fn new(data: &'a [u8]) -> (r: Self)
        ensures
            r@ == data@,
    {
        MemWriteRequest { data }
    }

    /// The bytes the guest wrote.
    pub fn as_slice(&self) -> (r: &'a [u8])
        ensures
            r@ == self@,
    {
        self.data
    }

    /// Narrows to `u8`; succeeds exactly when the buffer is one byte long.
    pub fn try_into_u8(&self) -> (r: Result<u8, Error>)
        ensures
            r is Ok <==> self@.len() == 1,
            r is Ok ==> r->Ok_0 == self@[0],
            r is Err ==> r->Err_0 is InvalidValue && r->Err_0->InvalidValue_0@
                == spec_narrowing_message(),
    {
        if self.data.len() == 1 {
            Ok(self.data[0])
        } else {
            Err(Error::InvalidValue(narrowing_message()))
        }
    }
}

/// A byte buffer a device fills on a read from a memory-mapped region; its
/// length is not restricted at construction.
#[derive(Debug)]
pub struct MemReadRequest<'a> {
    data: &'a [u8],
}

impl<'a> View for MemReadRequest<'a> {
    type V = Seq<u8>;

    closed spec fn view(&self) -> Seq<u8> {
        self.data@
    }
}

impl<'a> MemReadRequest<'a> {
    /// Wraps a byte slice.
    pub fn new(data: &'a [u8]) -> (r: Self)
        ensures
            r@ == data@,
    {
        MemReadRequest { data }
    }

    /// The bytes currently held by the buffer.
    pub fn as_slice(&self) -> (r: &[u8])
        ensures
            r@ == self@,
    {
        self.data
    }
}

/// Message for a buffer whose length is not a legal port-access width.
pub open spec fn spec_invalid_length_message(len: nat) -> Seq<char> {
    "Invalid slice length: "@ + spec_dec_digits(len)
}

fn invalid_length_message(len: usize) -> (r: String)
    ensures
        r@ == spec_invalid_length_message(len as nat),
{
    let mut s = String::from_str("Invalid slice length: ");
    push_dec_u64(&mut s, len as u64);
    s
}

/// Message for a narrowing conversion whose width does not match.
pub open spec fn spec_narrowing_message() -> Seq<char> {
    "Value cannot be converted: width mismatch"@
}

fn narrowing_message() -> (r: String)
    ensures
        r@ == spec_narrowing_message(),
{
    String::from_str("Value cannot be converted: width mismatch")
}

} // verus!
