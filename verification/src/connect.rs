//! The connection handshake: parsing the client's opening record and
//! serialising the server's success or failure answer, including the
//! advertised pixmap format and one record per screen.

use vstd::prelude::*;
use vstd::string::StringSliceAdditionalSpecFns;
use crate::codec::{spec_pad, u16_le_at, u16_le_bytes, u32_le_bytes, zero_bytes};
use crate::ctx::Screen;

verus! {

/// Most Significant Byte first.
pub const MSB_FIRST: u8 = 0x42;

/// Least Significant Byte first.
pub const LSB_FIRST: u8 = 0x6c;

/// Connect response: Failed
pub const FAILED: u8 = 0;

/// Connect response: Success
pub const SUCCESS: u8 = 1;

/// Connect response: Authentication required
pub const AUTHENTICATE: u8 = 2;

/// The vendor's name.
pub const VENDOR_NAME: &'static str = "visto";

/// The release number.
pub const RELEASE_NUMBER: u32 = 0;

/// Sent by the client at the beginning of the connection.
pub struct ClientConnect {
    /// Value specifying the byte order for the client.
    pub byte_order: u8,
    /// Major version of the protocol.
    pub protocol_major_version: u16,
    /// Minor version of the protocol.
    pub protocol_minor_version: u16,
    /// The length of the authorization protocol name.
    pub authorization_protocol_name_length: u16,
    /// The length of the authorization protocol data.
    pub authorization_protocol_data_length: u16,
}

impl ClientConnect {
    /// The total number of bytes the record occupies, its padded
    /// authorization fields included.
    pub open spec fn spec_total_len(&self) -> int {
        12 + self.authorization_protocol_name_length + spec_pad(
            self.authorization_protocol_name_length as int,
        ) + self.authorization_protocol_data_length + spec_pad(
            self.authorization_protocol_data_length as int,
        )
    }

    /// Reads the fixed 12-byte head of the record.
    pub fn read(b: &[u8]) -> (r: Self)
        requires
            b@.len() >= 12,
        ensures
            r.byte_order == b@[0],
            r.protocol_major_version == u16_le_at(b@, 2),
            r.protocol_minor_version == u16_le_at(b@, 4),
            r.authorization_protocol_name_length == u16_le_at(b@, 6),
            r.authorization_protocol_data_length == u16_le_at(b@, 8),
    {
        ClientConnect {
            byte_order: b[0],
            protocol_major_version: crate::codec::read_u16_le(b, 2),
            protocol_minor_version: crate::codec::read_u16_le(b, 4),
            authorization_protocol_name_length: crate::codec::read_u16_le(b, 6),
            authorization_protocol_data_length: crate::codec::read_u16_le(b, 8),
        }
    }

    /// The total number of bytes the record occupies.
    pub fn total_len(&self) -> (r: usize)
        ensures
            r == self.spec_total_len(),
    {
        let n = self.authorization_protocol_name_length as usize;
        let d = self.authorization_protocol_data_length as usize;
        12 + n + crate::codec::pad(n) + d + crate::codec::pad(d)
    }
}

/// The decimal digits of `n`.
pub open spec fn dec_bytes(n: int) -> Seq<u8>
    decreases n,
{
    if n < 10 {
        seq![(48 + n) as u8]
    } else {
        dec_bytes(n / 10) + seq![(48 + n % 10) as u8]
    }
}

/// Appends the decimal digits of `n`.
pub fn push_dec(out: &mut Vec<u8>, n: u16)
    ensures
        final(out)@ == old(out)@ + dec_bytes(n as int),
    decreases n,
{
    if n >= 10 {
        push_dec(out, n / 10);
    }
    out.push(48 + (n % 10) as u8);
    proof {
        if n < 10 {
            assert(out@ =~= old(out)@ + dec_bytes(n as int));
        } else {
            assert(out@ =~= old(out)@ + (dec_bytes(n as int / 10) + seq![
                (48 + n as int % 10) as u8,
            ]));
        }
    }
}

/// The wire record refusing a connection: the failure code, the lengths, the
/// protocol version, and the reason text padded to a 4-byte boundary.
pub open spec fn connect_failed_bytes(reason: Seq<u8>) -> Seq<u8> {
    seq![FAILED, reason.len() as u8] + u16_le_bytes(crate::protocol::MAJOR_VERSION as int)
        + u16_le_bytes(crate::protocol::MINOR_VERSION as int) + u16_le_bytes(
        (reason.len() + spec_pad(reason.len() as int)) / 4,
    ) + reason + zero_bytes(spec_pad(reason.len() as int))
}

/// Serialises a refused connection with the given reason.
pub fn write_connect_failed_bytes(out: &mut Vec<u8>, reason: &[u8])
    requires
        reason@.len() <= 255,
    ensures
        final(out)@ == old(out)@ + connect_failed_bytes(reason@),
        (final(out)@.len() - old(out)@.len()) % 4 == 0,
{
    out.push(FAILED);
    out.push(reason.len() as u8);
    crate::codec::write_u16_le(out, crate::protocol::MAJOR_VERSION);
    crate::codec::write_u16_le(out, crate::protocol::MINOR_VERSION);
    let pad = crate::codec::pad(reason.len());
    crate::codec::write_u16_le(out, ((reason.len() + pad) / 4) as u16);
    crate::codec::write_bytes(out, reason);
    crate::codec::write_zeros(out, pad);
    proof {
        assert(out@ =~= old(out)@ + connect_failed_bytes(reason@));
    }
}

/// The 72-byte wire description of one screen: the screen record, one depth
/// record, and one visual record.
pub open spec fn protocol_screen_bytes(s: Screen) -> Seq<u8> {
    u32_le_bytes(s.root_win_id as int)  // root
     + u32_le_bytes(0)  // default colormap
     + u32_le_bytes(0xffffff)  // white pixel
     + u32_le_bytes(0)  // black pixel
     + u32_le_bytes(0)  // current input masks
     + u16_le_bytes(s.width as int) + u16_le_bytes(s.height as int) + u16_le_bytes(
        s.mm_width as int,
    ) + u16_le_bytes(s.mm_height as int) + u16_le_bytes(1)  // min installed maps
     + u16_le_bytes(1)  // max installed maps
     + u32_le_bytes(0)  // root visual
     + seq![0u8]  // backing stores
     + seq![0u8]  // save unders
     + seq![24u8]  // root depth
     + seq![1u8]  // allowed depths
     + seq![24u8, 0u8] + u16_le_bytes(1) + zero_bytes(4)  // the depth record
     + u32_le_bytes(0) + seq![5u8, 24u8] + u16_le_bytes(256) + u32_le_bytes(0xff0000)
        + u32_le_bytes(0x00ff00) + u32_le_bytes(0x0000ff) + zero_bytes(4)  // the visual record
}

impl Screen {
    /// Returns the protocol representation of the screen: its screen record
    /// followed by exactly one depth and one visual.
    pub fn to_protocol_screen(&self) -> (r: Vec<u8>)
        ensures
            r@ == protocol_screen_bytes(*self),
            r@.len() == 72,
    {
        let mut out: Vec<u8> = Vec::new();
        crate::codec::write_u32_le(&mut out, self.root_win_id);
        crate::codec::write_u32_le(&mut out, 0);
        crate::codec::write_u32_le(&mut out, 0xffffff);
        crate::codec::write_u32_le(&mut out, 0);
        crate::codec::write_u32_le(&mut out, 0);
        crate::codec::write_u16_le(&mut out, self.width);
        crate::codec::write_u16_le(&mut out, self.height);
        crate::codec::write_u16_le(&mut out, self.mm_width);
        crate::codec::write_u16_le(&mut out, self.mm_height);
        crate::codec::write_u16_le(&mut out, 1);
        crate::codec::write_u16_le(&mut out, 1);
        crate::codec::write_u32_le(&mut out, 0);
        out.push(0);
        out.push(0);
        out.push(24);
        out.push(1);
        out.push(24);
        out.push(0);
        crate::codec::write_u16_le(&mut out, 1);
        crate::codec::write_zeros(&mut out, 4);
        crate::codec::write_u32_le(&mut out, 0);
        out.push(5);
        out.push(24);
        crate::codec::write_u16_le(&mut out, 256);
        crate::codec::write_u32_le(&mut out, 0xff0000);
        crate::codec::write_u32_le(&mut out, 0x00ff00);
        crate::codec::write_u32_le(&mut out, 0x0000ff);
        crate::codec::write_zeros(&mut out, 4);
        proof {
            assert(out@ =~= protocol_screen_bytes(*self));
        }
        out
    }
}

/// The wire records of a list of screens, one after the other.
pub open spec fn screens_bytes(screens: Seq<Screen>) -> Seq<u8>
    decreases screens.len(),
{
    if screens.len() == 0 {
        Seq::empty()
    } else {
        protocol_screen_bytes(screens[0]) + screens_bytes(screens.skip(1))
    }
}

/// The length of the wire records of a list of screens.
pub proof fn lemma_screens_bytes_len(screens: Seq<Screen>)
    ensures
        screens_bytes(screens).len() == 72 * screens.len(),
    decreases screens.len(),
{
    if screens.len() > 0 {
        lemma_screens_bytes_len(screens.skip(1));
    }
}

/// The vendor name is a short ASCII word; its UTF-8 bytes are one per
/// character.
pub proof fn lemma_vendor_len()
    ensures
        VENDOR_NAME.spec_bytes().len() == 5,
{
    reveal_strlit("visto");
    assert(vstd::utf8::is_ascii_chars(VENDOR_NAME@));
    vstd::utf8::is_ascii_chars_encode_utf8(VENDOR_NAME@);
}

/// The fixed head of the acceptance record, after the vendor length is
/// known: everything up to the vendor string.
/// The maximum request length the handshake advertises, in 4-byte units:
/// the server's maximum, saturated to what the record's 16-bit field can
/// carry. A client that enables big requests learns the full value from
/// that extension's reply.
pub open spec fn advertised_units(max_request_len: int) -> int {
    if max_request_len / 4 > 0xffff {
        0xffff
    } else {
        max_request_len / 4
    }
}

pub open spec fn connect_success_head(
    additional_units: int,
    vendor_len: int,
    screens_count: int,
    max_units: int,
) -> Seq<u8> {
    seq![SUCCESS, 0u8] + u16_le_bytes(crate::protocol::MAJOR_VERSION as int) + u16_le_bytes(
        crate::protocol::MINOR_VERSION as int,
    ) + u16_le_bytes(additional_units) + u32_le_bytes(RELEASE_NUMBER as int) + u32_le_bytes(
        0xfffffff,
    )  // resource id base
     + u32_le_bytes(0xfffffff)  // resource id mask
     + u32_le_bytes(0)  // motion buffer size
     + u16_le_bytes(vendor_len) + u16_le_bytes(max_units)  // max request length, in 4-byte units
     + seq![screens_count as u8]  // number of screens
     + seq![1u8]  // number of pixmap formats
     + seq![1u8]  // image byte order: MSB first
     + seq![0u8]  // bitmap format bit order: LSB first
     + seq![32u8]  // bitmap format scanline unit
     + seq![8u8]  // bitmap format scanline pad
     + seq![8u8]  // min keycode
     + seq![255u8]  // max keycode
     + zero_bytes(4)
}

/// The whole acceptance record: the head, the vendor string padded, the one
/// advertised pixmap format, and one record per screen.
pub open spec fn connect_success_bytes(screens: Seq<Screen>, max_request_len: int) -> Seq<u8> {
    let vendor = VENDOR_NAME.spec_bytes();
    let vp = vendor.len() + spec_pad(vendor.len() as int);
    let additional = 32 + vp + 8 + 72 * screens.len();
    connect_success_head(
        additional as int / 4,
        vendor.len() as int,
        screens.len() as int,
        advertised_units(max_request_len),
    ) + vendor + zero_bytes(spec_pad(vendor.len() as int)) + seq![
        24u8,
        24u8,
        8u8,
        0u8,
        0u8,
        0u8,
        0u8,
        0u8,
    ]  // the pixmap format record
     + screens_bytes(screens)
}

/// Serialises the acceptance record, announcing the vendor, the advertised
/// pixmap format and every screen.
/// Serialises every screen's wire record, in order.
fn write_screens(out: &mut Vec<u8>, screens: &Vec<Screen>)
    ensures
        final(out)@ == old(out)@ + screens_bytes(screens@),
{
    proof {
        lemma_screens_bytes_len(screens@);
        assert(out@ =~= old(out)@ + screens_bytes(screens@).take(0));
    }
    let mut i: usize = 0;
    while i < screens.len()
        invariant
            i <= screens@.len(),
            out@ == old(out)@ + screens_bytes(screens@).take(72 * i as int),
            screens_bytes(screens@).len() == 72 * screens@.len(),
        decreases screens@.len() - i,
    {
        let sb = screens[i].to_protocol_screen();
        crate::codec::write_bytes(out, sb.as_slice());
        proof {
            lemma_screens_bytes_index(screens@, i as int);
            assert(out@ =~= old(out)@ + screens_bytes(screens@).take(72 * (i + 1) as int));
        }
        i = i + 1;
    }
    proof {
        assert(screens_bytes(screens@).take(72 * screens@.len() as int) =~= screens_bytes(
            screens@,
        ));
    }
}

/// Serialises the acceptance record, announcing the vendor, the advertised
/// pixmap format and every screen.
#[verifier::rlimit(100)]
#[verifier::spinoff_prover]
pub fn write_connect_success_bytes(out: &mut Vec<u8>, screens: &Vec<Screen>, max_request_len: usize)
    requires
        screens@.len() <= 255,
    ensures
        final(out)@ == old(out)@ + connect_success_bytes(screens@, max_request_len as int),
{
    proof {
        lemma_vendor_len();
    }
    let max_units: u16 = if max_request_len / 4 > 0xffff {
        0xffff
    } else {
        (max_request_len / 4) as u16
    };
    let vendor: Vec<u8> = crate::atoms::bytes_to_vec(VENDOR_NAME.as_bytes());
    let vlen = vendor.len();
    let vpad = crate::codec::pad(vlen);
    let additional: usize = 32 + vlen + vpad + 8 + 72 * screens.len();
    out.push(SUCCESS);
    out.push(0);
    crate::codec::write_u16_le(out, crate::protocol::MAJOR_VERSION);
    crate::codec::write_u16_le(out, crate::protocol::MINOR_VERSION);
    crate::codec::write_u16_le(out, (additional / 4) as u16);
    crate::codec::write_u32_le(out, RELEASE_NUMBER);
    crate::codec::write_u32_le(out, 0xfffffff);
    crate::codec::write_u32_le(out, 0xfffffff);
    crate::codec::write_u32_le(out, 0);
    crate::codec::write_u16_le(out, vlen as u16);
    crate::codec::write_u16_le(out, max_units);
    out.push(screens.len() as u8);
    out.push(1);
    out.push(1);
    out.push(0);
    out.push(32);
    out.push(8);
    out.push(8);
    out.push(255);
    crate::codec::write_zeros(out, 4);
    proof {
        assert(out@ =~= old(out)@ + connect_success_head(
            (32 + (vlen + vpad) + 8 + 72 * screens@.len()) as int / 4,
            vlen as int,
            screens@.len() as int,
            advertised_units(max_request_len as int),
        ));
    }
    crate::codec::write_bytes(out, vendor.as_slice());
    crate::codec::write_zeros(out, vpad);
    out.push(24);
    out.push(24);
    out.push(8);
    crate::codec::write_zeros(out, 5);
    let ghost prefix = out@;
    write_screens(out, screens);
    proof {
        assert(out@ =~= old(out)@ + connect_success_bytes(screens@, max_request_len as int));
    }
}

/// Within the concatenated screen records, the record of screen `i` spans
/// bytes `72 * i` to `72 * (i + 1)`.
pub proof fn lemma_screens_bytes_index(screens: Seq<Screen>, i: int)
    requires
        0 <= i < screens.len(),
    ensures
        screens_bytes(screens).take(72 * (i + 1)) == screens_bytes(screens).take(72 * i)
            + protocol_screen_bytes(screens[i]),
    decreases i,
{
    lemma_screens_bytes_len(screens);
    if i == 0 {
        lemma_screens_bytes_len(screens.skip(1));
        assert(screens_bytes(screens) == protocol_screen_bytes(screens[0]) + screens_bytes(
            screens.skip(1),
        ));
        assert(screens_bytes(screens).take(0) =~= Seq::<u8>::empty());
        assert(screens_bytes(screens).take(72) =~= Seq::<u8>::empty() + protocol_screen_bytes(
            screens[0],
        ));
    } else {
        let tail = screens.skip(1);
        lemma_screens_bytes_index(tail, i - 1);
        lemma_screens_bytes_len(tail);
        assert(screens_bytes(screens) == protocol_screen_bytes(screens[0]) + screens_bytes(tail));
        assert(tail[i - 1] == screens[i]);
        assert(screens_bytes(screens).take(72 * (i + 1)) =~= protocol_screen_bytes(screens[0])
            + screens_bytes(tail).take(72 * i));
        assert(screens_bytes(screens).take(72 * i) =~= protocol_screen_bytes(screens[0])
            + screens_bytes(tail).take(72 * (i - 1)));
        assert(screens_bytes(screens).take(72 * i) + protocol_screen_bytes(screens[i])
            =~= protocol_screen_bytes(screens[0]) + (screens_bytes(tail).take(72 * (i - 1))
            + protocol_screen_bytes(tail[i - 1])));
    }
}

} // verus!
