//! Protocol errors: the error taxonomy, the code of each error, and the
//! serialisation of an error into its 32-byte wire record.

use vstd::prelude::*;
use crate::codec::{u16_le_bytes, u32_le_bytes, zero_bytes};

verus! {

/// A custom (extension-defined) error.
#[derive(Debug)]
pub struct CustomError {
    /// The error code.
    pub code: u8,
    /// Optional data.
    pub data0: u32,
    /// Optional data.
    pub data1: [u8; 21],
}

/// Enumeration of protocol errors.
///
/// The payload, where present, is the offending identifier or value; it is
/// echoed in the error record's first data word.
#[derive(Debug)]
pub enum Error {
    /// The major opcode names no known request.
    Request,
    /// Bad value.
    Value(u32),
    /// Bad window id.
    Window(u32),
    /// Bad pixmap id.
    Pixmap(u32),
    /// Bad atom id.
    Atom(u32),
    /// Bad cursor id.
    Cursor(u32),
    /// Bad font id.
    Font(u32),
    /// Parameters do not match.
    Match,
    /// Bad drawable id.
    Drawable(u32),
    /// Access denied.
    Access,
    /// Allocation failed.
    Alloc,
    /// Bad colormap id.
    Colormap(u32),
    /// Bad graphics context id.
    GContext(u32),
    /// Id out of the client's range or already used.
    IDChoice(u32),
    /// No such named object.
    Name,
    /// Bad request length.
    Length,
    /// Server is deficient.
    Implementation,
    /// Custom error, defined by an extension.
    Custom(CustomError),
}

impl Error {
    /// The protocol code of the error.
    pub open spec fn spec_code(&self) -> u8 {
        match self {
            Self::Request => 1,
            Self::Value(_) => 2,
            Self::Window(_) => 3,
            Self::Pixmap(_) => 4,
            Self::Atom(_) => 5,
            Self::Cursor(_) => 6,
            Self::Font(_) => 7,
            Self::Match => 8,
            Self::Drawable(_) => 9,
            Self::Access => 10,
            Self::Alloc => 11,
            Self::Colormap(_) => 12,
            Self::GContext(_) => 13,
            Self::IDChoice(_) => 14,
            Self::Name => 15,
            Self::Length => 16,
            Self::Implementation => 17,
            Self::Custom(e) => e.code,
        }
    }

    /// The first data word carried in the error record.
    pub open spec fn spec_data0(&self) -> u32 {
        match self {
            Self::Value(v) => *v,
            Self::Window(v) => *v,
            Self::Pixmap(v) => *v,
            Self::Atom(v) => *v,
            Self::Cursor(v) => *v,
            Self::Font(v) => *v,
            Self::Drawable(v) => *v,
            Self::Colormap(v) => *v,
            Self::GContext(v) => *v,
            Self::IDChoice(v) => *v,
            Self::Custom(e) => e.data0,
            _ => 0,
        }
    }

    /// The trailing 21 data bytes of the error record.
    pub open spec fn spec_data1(&self) -> Seq<u8> {
        match self {
            Self::Custom(e) => e.data1@,
            _ => zero_bytes(21),
        }
    }

    /// Returns the code associated with the error.
    pub fn get_code(&self) -> (code: u8)
        ensures
            code == self.spec_code(),
    {
        match self {
            Self::Request => 1,
            Self::Value(_) => 2,
            Self::Window(_) => 3,
            Self::Pixmap(_) => 4,
            Self::Atom(_) => 5,
            Self::Cursor(_) => 6,
            Self::Font(_) => 7,
            Self::Match => 8,
            Self::Drawable(_) => 9,
            Self::Access => 10,
            Self::Alloc => 11,
            Self::Colormap(_) => 12,
            Self::GContext(_) => 13,
            Self::IDChoice(_) => 14,
            Self::Name => 15,
            Self::Length => 16,
            Self::Implementation => 17,
            Self::Custom(e) => e.code,
        }
    }

    /// Converts the error to the protocol's wire format: exactly 32 bytes.
    ///
    /// Arguments:
    /// - `seq_nbr` is the sequence number of the request.
    /// - `minor` is the minor opcode of the request.
    /// - `major` is the major opcode of the request.
    pub fn to_protocol(&self, seq_nbr: u16, minor: u16, major: u8) -> (r: Vec<u8>)
        ensures
            r@ == error_record(*self, seq_nbr, minor, major),
            r@.len() == 32,
    {
        let mut out: Vec<u8> = Vec::new();
        out.push(0);
        out.push(self.get_code());
        crate::codec::write_u16_le(&mut out, seq_nbr);
        crate::codec::write_u32_le(&mut out, self.data0());
        crate::codec::write_u16_le(&mut out, minor);
        out.push(major);
        match self {
            Self::Custom(e) => {
                let mut i: usize = 0;
                while i < 21
                    invariant
                        i <= 21,
                        out@ == error_record(*self, seq_nbr, minor, major).take(11 + i),
                        self matches Self::Custom(c) && c.data1 == e.data1,
                    decreases 21 - i,
                {
                    out.push(e.data1[i]);
                    assert(out@ =~= error_record(*self, seq_nbr, minor, major).take(11 + i + 1));
                    i = i + 1;
                }
            }
            _ => {
                crate::codec::write_zeros(&mut out, 21);
            }
        }
        assert(out@ =~= error_record(*self, seq_nbr, minor, major));
        out
    }

    /// The first data word, as executable code.
    fn data0(&self) -> (r: u32)
        ensures
            r == self.spec_data0(),
    {
        match self {
            Self::Value(v) => *v,
            Self::Window(v) => *v,
            Self::Pixmap(v) => *v,
            Self::Atom(v) => *v,
            Self::Cursor(v) => *v,
            Self::Font(v) => *v,
            Self::Drawable(v) => *v,
            Self::Colormap(v) => *v,
            Self::GContext(v) => *v,
            Self::IDChoice(v) => *v,
            Self::Custom(e) => e.data0,
            _ => 0,
        }
    }
}

/// The 32-byte wire record of an error: type byte 0, the error code, the
/// sequence number, one data word, the minor and major opcode of the failed
/// request, and 21 trailing data bytes.
pub open spec fn error_record(e: Error, seq_nbr: u16, minor: u16, major: u8) -> Seq<u8> {
    seq![0u8, e.spec_code()] + u16_le_bytes(seq_nbr as int) + u32_le_bytes(e.spec_data0() as int)
        + u16_le_bytes(minor as int) + seq![major] + e.spec_data1()
}

/// An error record is exactly 32 bytes long: a multiple of 4, and at least 32.
pub proof fn lemma_error_record_len(e: Error, seq_nbr: u16, minor: u16, major: u8)
    ensures
        error_record(e, seq_nbr, minor, major).len() == 32,
{
}

} // verus!
