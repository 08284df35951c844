//! Shared protocol types: the request header, geometry records, the
//! enumerations carried in requests and replies, and the handshake records
//! (formats, depths, visuals, screens).

use vstd::prelude::*;
use crate::codec::u16_le_at;

verus! {

/// Major version of the protocol.
pub const MAJOR_VERSION: u16 = 11;

/// Minor version of the protocol.
pub const MINOR_VERSION: u16 = 0;

/// Reply type: Error
pub const REPLY_TYPE_ERROR: u8 = 0;

/// Reply type: Normal reply
pub const REPLY_TYPE_REPLY: u8 = 1;

/// The header of a request: the first four bytes of every request under
/// standard framing.
pub struct XRequest {
    /// The major opcode of the request.
    pub major_opcode: u8,
    /// A byte to be used as an optional additional data.
    pub optional: u8,
    /// The total length of the request, including the header, in units of 4 bytes.
    pub length: u16,
}

impl XRequest {
    /// Reads a request header from the first four bytes of `b`.
    pub fn read(b: &[u8]) -> (r: Self)
        requires
            b@.len() >= 4,
        ensures
            r.major_opcode == b@[0],
            r.optional == b@[1],
            r.length == u16_le_at(b@, 2),
    {
        XRequest {
            major_opcode: b[0],
            optional: b[1],
            length: crate::codec::read_u16_le(b, 2),
        }
    }
}

/// A 2D point.
#[derive(Clone, Copy, PartialEq, Eq, Structural)]
pub struct Point {
    /// X position.
    pub x: i16,
    /// Y position.
    pub y: i16,
}

/// A rectangle, relative to the parent drawable.
#[derive(Clone, Copy, PartialEq, Eq, Structural)]
pub struct Rectangle {
    /// X position.
    pub x: i16,
    /// Y position.
    pub y: i16,
    /// The width of the rectangle.
    pub width: u16,
    /// The height of the rectangle.
    pub height: u16,
}

/// An arc.
#[derive(Clone, Copy, PartialEq, Eq, Structural)]
pub struct Arc {
    /// X position.
    pub x: i16,
    /// Y position.
    pub y: i16,
    /// The width of the arc.
    pub width: u16,
    /// The height of the arc.
    pub height: u16,
    /// Start angle, in 64ths of a degree.
    pub angle1: i16,
    /// Extent angle, in 64ths of a degree.
    pub angle2: i16,
}

/// Enumeration of host families.
#[derive(Clone, Copy, PartialEq, Eq, Structural)]
pub enum HostFamily {
    Internet,
    InternetV6,
    ServerInterpreted,
    DECnet,
    Chaos,
}

/// An host.
pub struct Host {
    /// The host family.
    pub family: HostFamily,
    /// The address of the host.
    pub address: Vec<u8>,
}

/// Bit gravity of a window's contents.
#[derive(Clone, Copy, PartialEq, Eq, Structural)]
pub enum BitGravity {
    Forget,
    NorthWest,
    North,
    NorthEast,
    West,
    Center,
    East,
    SouthWest,
    South,
    SouthEast,
    Static,
}

impl BitGravity {
    /// The gravity with the given wire value, if valid.
    pub open spec fn try_from_spec(v: u8) -> Option<Self> {
        match v {
            0 => Some(Self::Forget),
            1 => Some(Self::NorthWest),
            2 => Some(Self::North),
            3 => Some(Self::NorthEast),
            4 => Some(Self::West),
            5 => Some(Self::Center),
            6 => Some(Self::East),
            7 => Some(Self::SouthWest),
            8 => Some(Self::South),
            9 => Some(Self::SouthEast),
            10 => Some(Self::Static),
            _ => None,
        }
    }

    /// The wire value of each gravity.
    pub open spec fn spec_code(self) -> u8 {
        match self {
            Self::Forget => 0,
            Self::NorthWest => 1,
            Self::North => 2,
            Self::NorthEast => 3,
            Self::West => 4,
            Self::Center => 5,
            Self::East => 6,
            Self::SouthWest => 7,
            Self::South => 8,
            Self::SouthEast => 9,
            Self::Static => 10,
        }
    }

    /// The wire value of the gravity.
    pub fn code(self) -> (r: u8)
        ensures
            r == self.spec_code(),
    {
        match self {
            Self::Forget => 0,
            Self::NorthWest => 1,
            Self::North => 2,
            Self::NorthEast => 3,
            Self::West => 4,
            Self::Center => 5,
            Self::East => 6,
            Self::SouthWest => 7,
            Self::South => 8,
            Self::SouthEast => 9,
            Self::Static => 10,
        }
    }

    /// The gravity with the given wire value, or `None` on an invalid value.
    pub fn try_from(v: u8) -> (r: Option<Self>)
        ensures
            r == Self::try_from_spec(v),
            match r {
                Some(g) => g.spec_code() == v,
                None => v > 10,
            },
    {
        match v {
            0 => Some(Self::Forget),
            1 => Some(Self::NorthWest),
            2 => Some(Self::North),
            3 => Some(Self::NorthEast),
            4 => Some(Self::West),
            5 => Some(Self::Center),
            6 => Some(Self::East),
            7 => Some(Self::SouthWest),
            8 => Some(Self::South),
            9 => Some(Self::SouthEast),
            10 => Some(Self::Static),
            _ => None,
        }
    }
}

/// Window gravity: how a window moves when its parent is resized.
#[derive(Clone, Copy, PartialEq, Eq, Structural)]
pub enum WinGravity {
    Unmap,
    NorthWest,
    North,
    NorthEast,
    West,
    Center,
    East,
    SouthWest,
    South,
    SouthEast,
    Static,
}

impl WinGravity {
    /// The gravity with the given wire value, if valid.
    pub open spec fn try_from_spec(v: u8) -> Option<Self> {
        match v {
            0 => Some(Self::Unmap),
            1 => Some(Self::NorthWest),
            2 => Some(Self::North),
            3 => Some(Self::NorthEast),
            4 => Some(Self::West),
            5 => Some(Self::Center),
            6 => Some(Self::East),
            7 => Some(Self::SouthWest),
            8 => Some(Self::South),
            9 => Some(Self::SouthEast),
            10 => Some(Self::Static),
            _ => None,
        }
    }

    /// The wire value of each gravity.
    pub open spec fn spec_code(self) -> u8 {
        match self {
            Self::Unmap => 0,
            Self::NorthWest => 1,
            Self::North => 2,
            Self::NorthEast => 3,
            Self::West => 4,
            Self::Center => 5,
            Self::East => 6,
            Self::SouthWest => 7,
            Self::South => 8,
            Self::SouthEast => 9,
            Self::Static => 10,
        }
    }

    /// The wire value of the gravity.
    pub fn code(self) -> (r: u8)
        ensures
            r == self.spec_code(),
    {
        match self {
            Self::Unmap => 0,
            Self::NorthWest => 1,
            Self::North => 2,
            Self::NorthEast => 3,
            Self::West => 4,
            Self::Center => 5,
            Self::East => 6,
            Self::SouthWest => 7,
            Self::South => 8,
            Self::SouthEast => 9,
            Self::Static => 10,
        }
    }

    /// The gravity with the given wire value, or `None` on an invalid value.
    pub fn try_from(v: u8) -> (r: Option<Self>)
        ensures
            r == Self::try_from_spec(v),
            match r {
                Some(g) => g.spec_code() == v,
                None => v > 10,
            },
    {
        match v {
            0 => Some(Self::Unmap),
            1 => Some(Self::NorthWest),
            2 => Some(Self::North),
            3 => Some(Self::NorthEast),
            4 => Some(Self::West),
            5 => Some(Self::Center),
            6 => Some(Self::East),
            7 => Some(Self::SouthWest),
            8 => Some(Self::South),
            9 => Some(Self::SouthEast),
            10 => Some(Self::Static),
            _ => None,
        }
    }
}

/// The class of a window.
#[derive(Clone, Copy, PartialEq, Eq, Structural)]
pub enum Class {
    /// Take the class of the parent window.
    CopyFromParent,
    /// The window both receives input and is rendered.
    InputOutput,
    /// The window only receives input.
    InputOnly,
}

impl Class {
    /// The class with the given wire value, if valid.
    pub open spec fn try_from_spec(v: u16) -> Option<Self> {
        match v {
            0 => Some(Self::CopyFromParent),
            1 => Some(Self::InputOutput),
            2 => Some(Self::InputOnly),
            _ => None,
        }
    }

    /// The wire value of each class.
    pub open spec fn spec_code(self) -> u8 {
        match self {
            Self::CopyFromParent => 0,
            Self::InputOutput => 1,
            Self::InputOnly => 2,
        }
    }

    /// The wire value of the class.
    pub fn code(self) -> (r: u8)
        ensures
            r == self.spec_code(),
    {
        match self {
            Self::CopyFromParent => 0,
            Self::InputOutput => 1,
            Self::InputOnly => 2,
        }
    }

    /// The class with the given wire value, or `None` on an invalid value.
    pub fn try_from(v: u16) -> (r: Option<Self>)
        ensures
            r == Self::try_from_spec(v),
            match r {
                Some(c) => c.spec_code() == v,
                None => v > 2,
            },
    {
        match v {
            0 => Some(Self::CopyFromParent),
            1 => Some(Self::InputOutput),
            2 => Some(Self::InputOnly),
            _ => None,
        }
    }
}

/// The map state of a window.
#[derive(Clone, Copy, PartialEq, Eq, Structural)]
pub enum MapState {
    Unmapped,
    Unviewable,
    Viewable,
}

impl MapState {
    /// The wire value of each state.
    pub open spec fn spec_code(self) -> u8 {
        match self {
            Self::Unmapped => 0,
            Self::Unviewable => 1,
            Self::Viewable => 2,
        }
    }

    /// The wire value of the state.
    pub fn code(self) -> (r: u8)
        ensures
            r == self.spec_code(),
    {
        match self {
            Self::Unmapped => 0,
            Self::Unviewable => 1,
            Self::Viewable => 2,
        }
    }
}

/// The backing-store mode of a window.
#[derive(Clone, Copy, PartialEq, Eq, Structural)]
pub enum BackingStore {
    NotUseful,
    WhenMapped,
    Always,
}

impl BackingStore {
    /// The mode with the given wire value, if valid.
    pub open spec fn try_from_spec(v: u8) -> Option<Self> {
        match v {
            0 => Some(Self::NotUseful),
            1 => Some(Self::WhenMapped),
            2 => Some(Self::Always),
            _ => None,
        }
    }

    /// The wire value of each mode.
    pub open spec fn spec_code(self) -> u8 {
        match self {
            Self::NotUseful => 0,
            Self::WhenMapped => 1,
            Self::Always => 2,
        }
    }

    /// The wire value of the mode.
    pub fn code(self) -> (r: u8)
        ensures
            r == self.spec_code(),
    {
        match self {
            Self::NotUseful => 0,
            Self::WhenMapped => 1,
            Self::Always => 2,
        }
    }

    /// The mode with the given wire value, or `None` on an invalid value.
    pub fn try_from(v: u8) -> (r: Option<Self>)
        ensures
            r == Self::try_from_spec(v),
            match r {
                Some(m) => m.spec_code() == v,
                None => v > 2,
            },
    {
        match v {
            0 => Some(Self::NotUseful),
            1 => Some(Self::WhenMapped),
            2 => Some(Self::Always),
            _ => None,
        }
    }
}

/// Enumeration of visual classes.
#[derive(Clone, Copy, PartialEq, Eq, Structural)]
pub enum VisualClass {
    /// A degenerate case of GrayScale where values are predefined and read-only.
    StaticGray,
    /// A degenerate case of PseudoColor where red, green and blue are equal,
    /// producing shades of gray.
    GrayScale,
    /// A degenerate case of PseudoColor where red, green and blue are
    /// predefined and read-only.
    StaticColor,
    /// Red, green and blue values that can be changed dynamically.
    PseudoColor,
    /// A degenerate case of DirectColor where red, green and blue values are
    /// predefined and read-only.
    TrueColor,
    /// Dynamic red, green and blue values producing colors.
    DirectColor,
}

impl VisualClass {
    /// The wire value of each class.
    pub open spec fn spec_code(self) -> u8 {
        match self {
            Self::StaticGray => 0,
            Self::GrayScale => 1,
            Self::StaticColor => 2,
            Self::PseudoColor => 3,
            Self::TrueColor => 4,
            Self::DirectColor => 5,
        }
    }

    /// The wire value of the class.
    pub fn code(self) -> (r: u8)
        ensures
            r == self.spec_code(),
    {
        match self {
            Self::StaticGray => 0,
            Self::GrayScale => 1,
            Self::StaticColor => 2,
            Self::PseudoColor => 3,
            Self::TrueColor => 4,
            Self::DirectColor => 5,
        }
    }
}

/// A pixmap format advertised on the handshake. Its wire record is 8 bytes.
#[derive(Clone, Copy, PartialEq, Eq, Structural)]
pub struct Format {
    /// The depth in bits.
    pub depth: u8,
    /// Bits per pixel as stored.
    pub bits_per_pixel: u8,
    /// Scanline padding in bits.
    pub scanline_pad: u8,
}

impl Format {
    /// Appends the 8-byte wire record of the format.
    pub fn encode(&self, out: &mut Vec<u8>)
        ensures
            final(out)@ == old(out)@ + seq![
                self.depth,
                self.bits_per_pixel,
                self.scanline_pad,
                0u8,
                0u8,
                0u8,
                0u8,
                0u8,
            ],
    {
        out.push(self.depth);
        out.push(self.bits_per_pixel);
        out.push(self.scanline_pad);
        crate::codec::write_zeros(out, 5);
        assert(out@ =~= old(out)@ + seq![
            self.depth,
            self.bits_per_pixel,
            self.scanline_pad,
            0u8,
            0u8,
            0u8,
            0u8,
            0u8,
        ]);
    }
}

/// A depth advertised inside a screen record. Its wire record is 8 bytes and
/// is followed by its visuals.
#[derive(Clone, Copy, PartialEq, Eq, Structural)]
pub struct Depth {
    /// The depth in bits.
    pub depth: u8,
    /// Number of visuals that follow the record.
    pub visuals_len: u16,
}

impl Depth {
    /// Appends the 8-byte wire record of the depth.
    pub fn encode(&self, out: &mut Vec<u8>)
        ensures
            final(out)@ == old(out)@ + seq![self.depth, 0u8]
                + crate::codec::u16_le_bytes(self.visuals_len as int) + seq![0u8, 0u8, 0u8, 0u8],
    {
        out.push(self.depth);
        out.push(0);
        crate::codec::write_u16_le(out, self.visuals_len);
        crate::codec::write_zeros(out, 4);
        assert(out@ =~= old(out)@ + seq![self.depth, 0u8]
            + crate::codec::u16_le_bytes(self.visuals_len as int) + seq![0u8, 0u8, 0u8, 0u8]);
    }
}

/// A visual advertised inside a depth record. Its wire record is 24 bytes.
#[derive(Clone, Copy, PartialEq, Eq, Structural)]
pub struct Visual {
    /// The visual's ID.
    pub visual_id: u32,
    /// The visual class.
    pub class: VisualClass,
    /// The number of bits per RGB value.
    pub bits_per_rgb_value: u8,
    /// The number of colormap entries.
    pub colormap_entries: u16,
    /// The mask of bits on which the red component is encoded.
    pub red_mask: u32,
    /// The mask of bits on which the green component is encoded.
    pub green_mask: u32,
    /// The mask of bits on which the blue component is encoded.
    pub blue_mask: u32,
}

impl Visual {
    /// Appends the 24-byte wire record of the visual.
    pub fn encode(&self, out: &mut Vec<u8>)
        ensures
            final(out)@ == old(out)@ + crate::codec::u32_le_bytes(self.visual_id as int)
                + seq![self.class.spec_code(), self.bits_per_rgb_value]
                + crate::codec::u16_le_bytes(self.colormap_entries as int)
                + crate::codec::u32_le_bytes(self.red_mask as int)
                + crate::codec::u32_le_bytes(self.green_mask as int)
                + crate::codec::u32_le_bytes(self.blue_mask as int) + seq![0u8, 0u8, 0u8, 0u8],
            final(out)@.len() == old(out)@.len() + 24,
    {
        crate::codec::write_u32_le(out, self.visual_id);
        out.push(self.class.code());
        out.push(self.bits_per_rgb_value);
        crate::codec::write_u16_le(out, self.colormap_entries);
        crate::codec::write_u32_le(out, self.red_mask);
        crate::codec::write_u32_le(out, self.green_mask);
        crate::codec::write_u32_le(out, self.blue_mask);
        crate::codec::write_zeros(out, 4);
        assert(out@ =~= old(out)@ + crate::codec::u32_le_bytes(self.visual_id as int)
            + seq![self.class.spec_code(), self.bits_per_rgb_value]
            + crate::codec::u16_le_bytes(self.colormap_entries as int)
            + crate::codec::u32_le_bytes(self.red_mask as int)
            + crate::codec::u32_le_bytes(self.green_mask as int)
            + crate::codec::u32_le_bytes(self.blue_mask as int) + seq![0u8, 0u8, 0u8, 0u8]);
    }
}


/// Enumeration of events a window can select.
#[derive(Clone, Copy, PartialEq, Eq, Structural)]
pub enum Event {
    KeyPress,
    KeyRelease,
    OwnerGrabButton,
    ButtonPress,
    ButtonRelease,
    EnterWindow,
    LeaveWindow,
    PointerMotion,
    PointerMotionHint,
    Button1Motion,
    Button2Motion,
    Button3Motion,
    Button4Motion,
    Button5Motion,
    ButtonMotion,
    Exposure,
    VisibilityChange,
    StructureNotify,
    ResizeRedirect,
    SubstructureNotify,
    SubstructureRedirect,
    FocusChange,
    PropertyChange,
    ColormapChange,
    KeymapState,
}

impl Event {
    /// The bit each event occupies in an event mask.
    pub open spec fn spec_mask_bit(self) -> u32 {
        match self {
            Self::KeyPress => 0x00000001,
            Self::KeyRelease => 0x00000002,
            Self::ButtonPress => 0x00000004,
            Self::ButtonRelease => 0x00000008,
            Self::EnterWindow => 0x00000010,
            Self::LeaveWindow => 0x00000020,
            Self::PointerMotion => 0x00000040,
            Self::PointerMotionHint => 0x00000080,
            Self::Button1Motion => 0x00000100,
            Self::Button2Motion => 0x00000200,
            Self::Button3Motion => 0x00000400,
            Self::Button4Motion => 0x00000800,
            Self::Button5Motion => 0x00001000,
            Self::ButtonMotion => 0x00002000,
            Self::KeymapState => 0x00004000,
            Self::Exposure => 0x00008000,
            Self::VisibilityChange => 0x00010000,
            Self::StructureNotify => 0x00020000,
            Self::ResizeRedirect => 0x00040000,
            Self::SubstructureNotify => 0x00080000,
            Self::SubstructureRedirect => 0x00100000,
            Self::FocusChange => 0x00200000,
            Self::PropertyChange => 0x00400000,
            Self::ColormapChange => 0x00800000,
            Self::OwnerGrabButton => 0x01000000,
        }
    }

    /// The bit each event occupies in an event mask.
    pub fn mask_bit(self) -> (r: u32)
        ensures
            r == self.spec_mask_bit(),
    {
        match self {
            Self::KeyPress => 0x00000001,
            Self::KeyRelease => 0x00000002,
            Self::ButtonPress => 0x00000004,
            Self::ButtonRelease => 0x00000008,
            Self::EnterWindow => 0x00000010,
            Self::LeaveWindow => 0x00000020,
            Self::PointerMotion => 0x00000040,
            Self::PointerMotionHint => 0x00000080,
            Self::Button1Motion => 0x00000100,
            Self::Button2Motion => 0x00000200,
            Self::Button3Motion => 0x00000400,
            Self::Button4Motion => 0x00000800,
            Self::Button5Motion => 0x00001000,
            Self::ButtonMotion => 0x00002000,
            Self::KeymapState => 0x00004000,
            Self::Exposure => 0x00008000,
            Self::VisibilityChange => 0x00010000,
            Self::StructureNotify => 0x00020000,
            Self::ResizeRedirect => 0x00040000,
            Self::SubstructureNotify => 0x00080000,
            Self::SubstructureRedirect => 0x00100000,
            Self::FocusChange => 0x00200000,
            Self::PropertyChange => 0x00400000,
            Self::ColormapChange => 0x00800000,
            Self::OwnerGrabButton => 0x01000000,
        }
    }
}

/// Enumeration of pointer events.
#[derive(Clone, Copy, PartialEq, Eq, Structural)]
pub enum PointerEvent {
    ButtonPress,
    ButtonRelease,
    EnterWindow,
    LeaveWindow,
    PointerMotion,
    PointerMotionHint,
    Button1Motion,
    Button2Motion,
    Button3Motion,
    Button4Motion,
    Button5Motion,
    ButtonMotion,
    KeymapState,
}

/// Enumeration of device events.
#[derive(Clone, Copy, PartialEq, Eq, Structural)]
pub enum DeviceEvent {
    KeyPress,
    KeyRelease,
    ButtonPress,
    ButtonRelease,
    PointerMotion,
    Button1Motion,
    Button2Motion,
    Button3Motion,
    Button4Motion,
    Button5Motion,
    ButtonMotion,
}

/// Enumeration of key masks.
#[derive(Clone, Copy, PartialEq, Eq, Structural)]
pub enum KeyMask {
    Shift,
    Lock,
    Control,
    Mod1,
    Mod2,
    Mod3,
    Mod4,
    Mod5,
}

/// Enumeration of button masks.
#[derive(Clone, Copy, PartialEq, Eq, Structural)]
pub enum ButMask {
    Button1,
    Button2,
    Button3,
    Button4,
    Button5,
}

} // verus!
