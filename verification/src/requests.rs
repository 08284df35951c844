//! Request decoding: one decoder per opcode, each turning the body bytes of
//! a framed request into a request value, yielding "need more bytes" on a
//! truncated body and a protocol error on an illegal one.

use vstd::prelude::*;
use crate::codec::{spec_pad, u16_le_at, u32_le_at};
use crate::error::Error;
use crate::gc::GC;
use crate::window::AttrValue;
use crate::protocol::{BackingStore, BitGravity, WinGravity};

verus! {

/// Request opcode: CreateWindow
pub const CREATE_WINDOW: u8 = 1;

/// Request opcode: ChangeWindowAttributes
pub const CHANGE_WINDOW_ATTRIBUTES: u8 = 2;

/// Request opcode: GetWindowAttributes
pub const GET_WINDOW_ATTRIBUTES: u8 = 3;

/// Request opcode: DestroyWindow
pub const DESTROY_WINDOW: u8 = 4;

/// Request opcode: GetGeometry
pub const GET_GEOMETRY: u8 = 14;

/// Request opcode: InternAtom
pub const INTERN_ATOM: u8 = 16;

/// Request opcode: GetAtomName
pub const GET_ATOM_NAME: u8 = 17;

/// Request opcode: ChangeProperty
pub const CHANGE_PROPERTY: u8 = 18;

/// Request opcode: DeleteProperty
pub const DELETE_PROPERTY: u8 = 19;

/// Request opcode: GetProperty
pub const GET_PROPERTY: u8 = 20;

/// Request opcode: GetSelectionOwner
pub const GET_SELECTION_OWNER: u8 = 23;

/// Request opcode: GrabServer
pub const GRAB_SERVER: u8 = 36;

/// Request opcode: UngrabServer
pub const UNGRAB_SERVER: u8 = 37;

/// Request opcode: QueryPointer
pub const QUERY_POINTER: u8 = 38;

/// Request opcode: OpenFont
pub const OPEN_FONT: u8 = 45;

/// Request opcode: CreateGC
pub const CREATE_GC: u8 = 55;

/// Request opcode: QueryExtension
pub const QUERY_EXTENSION: u8 = 98;

/// Request opcode: NoOperation
pub const NO_OPERATION: u8 = 127;

/// The maximum length of a request in bytes.
pub const MAX_REQUEST_LEN: usize = 4194304;

/// Whether the opcode names a request of the core protocol this library
/// decodes.
pub open spec fn builtin_opcode(opcode: u8) -> bool {
    ||| opcode == CREATE_WINDOW
    ||| opcode == CHANGE_WINDOW_ATTRIBUTES
    ||| opcode == GET_WINDOW_ATTRIBUTES
    ||| opcode == GET_GEOMETRY
    ||| opcode == INTERN_ATOM
    ||| opcode == GET_ATOM_NAME
    ||| opcode == CHANGE_PROPERTY
    ||| opcode == GET_PROPERTY
    ||| opcode == GET_SELECTION_OWNER
    ||| opcode == GRAB_SERVER
    ||| opcode == UNGRAB_SERVER
    ||| opcode == QUERY_POINTER
    ||| opcode == OPEN_FONT
    ||| opcode == CREATE_GC
    ||| opcode == QUERY_EXTENSION
    ||| opcode == NO_OPERATION
}

/// The `InternAtom` request.
pub struct InternAtom {
    /// The name of the atom.
    pub name: Vec<u8>,
    /// If true, an absent name is not created and yields atom zero.
    pub only_if_exists: bool,
}

/// The `GetAtomName` request.
pub struct GetAtomName {
    /// The atom.
    pub atom: u32,
}

/// The action a `ChangeProperty` request performs on the property.
#[derive(Clone, Copy, PartialEq, Eq, Structural)]
pub enum ChangePropertyMode {
    /// Replaces the previous value.
    Replace,
    /// Prepends the new data to the previous.
    Prepend,
    /// Appends the new data to the previous.
    Append,
}

impl ChangePropertyMode {
    /// The mode with the given wire value, if valid.
    pub open spec fn spec_from(val: u8) -> Option<Self> {
        match val {
            0 => Some(Self::Replace),
            1 => Some(Self::Prepend),
            2 => Some(Self::Append),
            _ => None,
        }
    }

    /// Returns the mode associated with the given value.
    ///
    /// If the value is invalid, the function returns None.
    pub fn from(val: u8) -> (r: Option<Self>)
        ensures
            r == Self::spec_from(val),
    {
        match val {
            0 => Some(Self::Replace),
            1 => Some(Self::Prepend),
            2 => Some(Self::Append),
            _ => None,
        }
    }
}

/// The `ChangeProperty` request.
pub struct ChangeProperty {
    /// The action to perform.
    pub mode: ChangePropertyMode,
    /// The window's ID.
    pub window: u32,
    /// The atom of the property's name.
    pub property: u32,
    /// The atom of the property's type.
    pub type_atom: u32,
    /// The property's format.
    pub format: u8,
    /// The property's data.
    pub data: Vec<u8>,
}

/// The `GetProperty` request.
pub struct GetProperty {
    /// The window to get the property from.
    pub window: u32,
    /// The property.
    pub property: u32,
    /// The atom representing the type of the property.
    pub property_type: u32,
    /// The offset, in 4-byte units, of the beginning of the data returned.
    pub long_offset: u32,
    /// The length, in 4-byte units, of the data to be returned.
    pub long_length: u32,
    /// Tells whether the property must be deleted.
    pub delete: bool,
}

/// The `GetWindowAttributes` request.
pub struct GetWindowAttributes {
    /// The window.
    pub window: u32,
}

/// The `GetGeometry` request.
pub struct GetGeometry {
    /// The ID of the drawable.
    pub drawable: u32,
}

/// The `GetSelectionOwner` request.
pub struct GetSelectionOwner {
    /// The atom representing the selection.
    pub atom: u32,
}

/// The `QueryPointer` request.
pub struct QueryPointer {
    /// The window.
    pub window: u32,
}

/// The `QueryExtension` request.
pub struct QueryExtension {
    /// The name of the extension.
    pub name: Vec<u8>,
}

/// The `OpenFont` request.
pub struct OpenFont {
    /// The ID given to the loaded font.
    pub fid: u32,
    /// The name of the font.
    pub name: Vec<u8>,
}

/// The `CreateWindow` request.
pub struct CreateWindow {
    /// The ID of the window.
    pub wid: u32,
    /// The ID of window's parent.
    pub parent: u32,
    /// The X position of the window.
    pub x: i16,
    /// The Y position of the window.
    pub y: i16,
    /// The width of the window.
    pub width: u16,
    /// The height of the window.
    pub height: u16,
    /// The width of the window's border.
    pub border_width: u16,
    /// The window's class, as its wire value.
    pub class: u16,
    /// The window's visual.
    pub visual: u32,
    /// The window's depth.
    pub depth: u8,
    /// The list of attributes being set.
    pub attrs: Vec<AttrValue>,
}

/// The `ChangeWindowAttributes` request.
pub struct ChangeWindowAttributes {
    /// The window.
    pub window: u32,
    /// The list of attributes to change.
    pub changed_attrs: Vec<AttrValue>,
}

/// The `CreateGC` request.
pub struct CreateGC {
    /// The graphics context's ID.
    pub cid: u32,
    /// The graphics context.
    pub gc: GC,
}

/// Parses `InternAtom`.
///
/// If `only_if_exists` is zero, the atom is created if it doesn't exist.
pub fn read_intern_atom(body: &[u8], only_if_exists: u8) -> (r: Result<Option<InternAtom>, Error>)
    ensures
        match r {
            Ok(Some(q)) => {
                let nl = u16_le_at(body@, 0);
                &&& body@.len() >= 4 + nl + spec_pad(nl)
                &&& q.name@ == body@.subrange(4, 4 + nl)
                &&& q.only_if_exists == (only_if_exists != 0)
            },
            Ok(None) => body@.len() < 4 || body@.len() < 4 + u16_le_at(body@, 0) + spec_pad(
                u16_le_at(body@, 0),
            ),
            Err(_) => false,
        },
{
    if body.len() < 4 {
        return Ok(None);
    }
    let nl = crate::codec::read_u16_le(body, 0) as usize;
    let padded = nl + crate::codec::pad(nl);
    if body.len() < 4 + padded {
        return Ok(None);
    }
    let name = crate::atoms::bytes_to_vec(vstd::slice::slice_subrange(body, 4, 4 + nl));
    Ok(Some(InternAtom { name, only_if_exists: only_if_exists != 0 }))
}

/// Parses `GetAtomName`.
pub fn read_get_atom_name(body: &[u8]) -> (r: Result<Option<GetAtomName>, Error>)
    ensures
        match r {
            Ok(Some(q)) => body@.len() >= 4 && q.atom == u32_le_at(body@, 0),
            Ok(None) => body@.len() < 4,
            Err(_) => false,
        },
{
    if body.len() < 4 {
        return Ok(None);
    }
    Ok(Some(GetAtomName { atom: crate::codec::read_u32_le(body, 0) }))
}

/// Parses `ChangeProperty`.
///
/// `mode` is the action to perform. A mode or format outside its legal set
/// is a `Value` error, as is a data length beyond the request's body.
pub fn read_change_property(body: &[u8], mode: u8) -> (r: Result<Option<ChangeProperty>, Error>)
    ensures
        match r {
            Ok(Some(q)) => {
                let fmt = body@[12];
                let length = u32_le_at(body@, 16);
                let data_len = length * (fmt as int / 8);
                &&& body@.len() >= 20
                &&& ChangePropertyMode::spec_from(mode) == Some(q.mode)
                &&& q.window == u32_le_at(body@, 0)
                &&& q.property == u32_le_at(body@, 4)
                &&& q.type_atom == u32_le_at(body@, 8)
                &&& q.format == fmt
                &&& (fmt == 8 || fmt == 16 || fmt == 32)
                &&& 20 + data_len <= body@.len()
                &&& q.data@ == body@.subrange(20, 20 + data_len)
                &&& q.data@.len() as int % (fmt as int / 8) == 0
            },
            Ok(None) => body@.len() < 20,
            Err(e) => body@.len() >= 20 && {
                ||| (ChangePropertyMode::spec_from(mode) is None && e == Error::Value(mode as u32))
                ||| (ChangePropertyMode::spec_from(mode) is Some && !(body@[12] == 8 || body@[12]
                    == 16 || body@[12] == 32) && e == Error::Value(body@[12] as u32))
                ||| (ChangePropertyMode::spec_from(mode) is Some && (body@[12] == 8 || body@[12]
                    == 16 || body@[12] == 32) && 20 + u32_le_at(body@, 16) * (body@[12] as int / 8)
                    > body@.len() && e == Error::Value(u32_le_at(body@, 16) as u32))
            },
        },
{
    if body.len() < 20 {
        return Ok(None);
    }
    let mode = match ChangePropertyMode::from(mode) {
        Some(m) => m,
        None => {
            return Err(Error::Value(mode as u32));
        }
    };
    let window = crate::codec::read_u32_le(body, 0);
    let property = crate::codec::read_u32_le(body, 4);
    let type_atom = crate::codec::read_u32_le(body, 8);
    let format = body[12];
    if !(format == 8 || format == 16 || format == 32) {
        return Err(Error::Value(format as u32));
    }
    let length = crate::codec::read_u32_le(body, 16);
    let data_len: u64 = if format == 8 {
        length as u64
    } else if format == 16 {
        2 * (length as u64)
    } else {
        4 * (length as u64)
    };
    assert(data_len == length * (format as int / 8)) by {
        if format == 8 {
            assert(length * 1int == length);
        } else if format == 16 {
            assert(length * 2int == 2 * (length as int));
        } else {
            assert(length * 4int == 4 * (length as int));
        }
    }
    if 20 + data_len > body.len() as u64 {
        return Err(Error::Value(length));
    }
    let dl = data_len as usize;
    let data = crate::atoms::bytes_to_vec(vstd::slice::slice_subrange(body, 20, 20 + dl));
    proof {
        let m = format as int / 8;
        assert(data_len as int % m == 0) by {
            if format == 8 {
            } else if format == 16 {
                assert((2 * (length as int)) % 2 == 0) by (nonlinear_arith);
            } else {
                assert((4 * (length as int)) % 4 == 0) by (nonlinear_arith);
            }
        }
    }
    Ok(Some(ChangeProperty { mode, window, property, type_atom, format, data }))
}

/// Parses `GetProperty`.
///
/// If `delete` is nonzero, the property is deleted once fully read.
pub fn read_get_property(body: &[u8], delete: u8) -> (r: Result<Option<GetProperty>, Error>)
    ensures
        match r {
            Ok(Some(q)) => {
                &&& body@.len() >= 20
                &&& q.window == u32_le_at(body@, 0)
                &&& q.property == u32_le_at(body@, 4)
                &&& q.property_type == u32_le_at(body@, 8)
                &&& q.long_offset == u32_le_at(body@, 12)
                &&& q.long_length == u32_le_at(body@, 16)
                &&& q.delete == (delete != 0)
            },
            Ok(None) => body@.len() < 20,
            Err(_) => false,
        },
{
    if body.len() < 20 {
        return Ok(None);
    }
    Ok(Some(GetProperty {
        window: crate::codec::read_u32_le(body, 0),
        property: crate::codec::read_u32_le(body, 4),
        property_type: crate::codec::read_u32_le(body, 8),
        long_offset: crate::codec::read_u32_le(body, 12),
        long_length: crate::codec::read_u32_le(body, 16),
        delete: delete != 0,
    }))
}

/// Parses a request whose body is one 4-byte resource id.
pub fn read_resource_id(body: &[u8]) -> (r: Option<u32>)
    ensures
        match r {
            Some(id) => body@.len() >= 4 && id == u32_le_at(body@, 0),
            None => body@.len() < 4,
        },
{
    if body.len() < 4 {
        return None;
    }
    Some(crate::codec::read_u32_le(body, 0))
}

/// Parses `QueryExtension`.
pub fn read_query_extension(body: &[u8]) -> (r: Result<Option<QueryExtension>, Error>)
    ensures
        match r {
            Ok(Some(q)) => {
                let nl = u16_le_at(body@, 0);
                &&& body@.len() >= 4 + nl + spec_pad(nl)
                &&& q.name@ == body@.subrange(4, 4 + nl)
            },
            Ok(None) => body@.len() < 4 || body@.len() < 4 + u16_le_at(body@, 0) + spec_pad(
                u16_le_at(body@, 0),
            ),
            Err(_) => false,
        },
{
    if body.len() < 4 {
        return Ok(None);
    }
    let nl = crate::codec::read_u16_le(body, 0) as usize;
    let padded = nl + crate::codec::pad(nl);
    if body.len() < 4 + padded {
        return Ok(None);
    }
    let name = crate::atoms::bytes_to_vec(vstd::slice::slice_subrange(body, 4, 4 + nl));
    Ok(Some(QueryExtension { name }))
}

/// Parses `OpenFont`.
pub fn read_open_font(body: &[u8]) -> (r: Result<Option<OpenFont>, Error>)
    ensures
        match r {
            Ok(Some(q)) => {
                let nl = u16_le_at(body@, 4);
                &&& body@.len() >= 8 + nl + spec_pad(nl)
                &&& q.fid == u32_le_at(body@, 0)
                &&& q.name@ == body@.subrange(8, 8 + nl)
            },
            Ok(None) => body@.len() < 8 || body@.len() < 8 + u16_le_at(body@, 4) + spec_pad(
                u16_le_at(body@, 4),
            ),
            Err(_) => false,
        },
{
    if body.len() < 8 {
        return Ok(None);
    }
    let fid = crate::codec::read_u32_le(body, 0);
    let nl = crate::codec::read_u16_le(body, 4) as usize;
    let padded = nl + crate::codec::pad(nl);
    if body.len() < 8 + padded {
        return Ok(None);
    }
    let name = crate::atoms::bytes_to_vec(vstd::slice::slice_subrange(body, 8, 8 + nl));
    Ok(Some(OpenFont { fid, name }))
}

/// The byte width of the window attribute selected by bit `i` of the value
/// mask.
pub open spec fn spec_attr_width(i: int) -> int {
    if 0 <= i <= 3 {
        4
    } else if 4 <= i <= 6 {
        1
    } else if i == 7 || i == 8 {
        4
    } else if i == 9 || i == 10 {
        1
    } else {
        4
    }
}

/// The byte offset of the window attribute selected by bit `i`: the summed
/// width of every selected attribute before it.
pub open spec fn spec_attr_offset(mask: u32, i: int) -> int
    decreases i,
{
    if i <= 0 {
        0
    } else {
        spec_attr_offset(mask, i - 1) + if crate::gc::mask_bit(mask, i - 1) {
            spec_attr_width(i - 1)
        } else {
            0
        }
    }
}

/// The raw integer read for the window attribute selected by bit `i`.
pub open spec fn spec_attr_raw(mask: u32, b: Seq<u8>, i: int) -> int {
    let off = spec_attr_offset(mask, i);
    if spec_attr_width(i) == 1 {
        b[off] as int
    } else {
        u32_le_at(b, off)
    }
}

/// The decoded window attribute selected by bit `i`, given its raw integer,
/// or `None` if the raw integer is not a legal value for that attribute.
pub open spec fn spec_attr_value(i: int, raw: int) -> Option<AttrValue> {
    if i == 0 {
        Some(AttrValue::BackgroundPixmap(raw as u32))
    } else if i == 1 {
        Some(AttrValue::BackgroundPixel(raw as u32))
    } else if i == 2 {
        Some(AttrValue::BorderPixmap(raw as u32))
    } else if i == 3 {
        Some(AttrValue::BorderPixel(raw as u32))
    } else if i == 4 {
        match BitGravity::try_from_spec(raw as u8) {
            Some(g) => Some(AttrValue::BitGravity(g)),
            None => None,
        }
    } else if i == 5 {
        match WinGravity::try_from_spec(raw as u8) {
            Some(g) => Some(AttrValue::WinGravity(g)),
            None => None,
        }
    } else if i == 6 {
        match BackingStore::try_from_spec(raw as u8) {
            Some(s) => Some(AttrValue::BackingStore(s)),
            None => None,
        }
    } else if i == 7 {
        Some(AttrValue::BackingPlanes(raw as u32))
    } else if i == 8 {
        Some(AttrValue::BackingPixel(raw as u32))
    } else if i == 9 {
        Some(AttrValue::OverrideRedirect(raw != 0))
    } else if i == 10 {
        Some(AttrValue::SaveUnder(raw != 0))
    } else if i == 11 {
        Some(AttrValue::EventMask(raw as u32))
    } else if i == 12 {
        Some(AttrValue::DoNotPropagateMask(raw as u32))
    } else if i == 13 {
        Some(AttrValue::Colormap(raw as u32))
    } else {
        Some(AttrValue::Cursor(raw as u32))
    }
}

/// The decoded attribute list of every attribute selected by a bit at or
/// above `i`, or the first offending raw integer.
pub open spec fn spec_attrs_from(mask: u32, b: Seq<u8>, i: int) -> Result<Seq<AttrValue>, int>
    decreases 15 - i,
{
    if i >= 15 {
        Ok(Seq::empty())
    } else if !crate::gc::mask_bit(mask, i) {
        spec_attrs_from(mask, b, i + 1)
    } else {
        let raw = spec_attr_raw(mask, b, i);
        match spec_attr_value(i, raw) {
            None => Err(raw),
            Some(v) => match spec_attrs_from(mask, b, i + 1) {
                Ok(rest) => Ok(seq![v] + rest),
                Err(e) => Err(e),
            },
        }
    }
}

/// The decoded window attribute list of `mask` over `b`.
pub open spec fn spec_attrs(mask: u32, b: Seq<u8>) -> Result<Seq<AttrValue>, int> {
    spec_attrs_from(mask, b, 0)
}

/// The byte width of the window attribute selected by bit `i`.
fn attr_width(i: usize) -> (r: usize)
    requires
        i < 15,
    ensures
        r == spec_attr_width(i as int),
        1 <= r <= 4,
{
    match i {
        0 => 4,
        1 => 4,
        2 => 4,
        3 => 4,
        4 => 1,
        5 => 1,
        6 => 1,
        7 => 4,
        8 => 4,
        9 => 1,
        10 => 1,
        _ => 4,
    }
}

/// The number of bytes the attribute list of `mask` occupies.
pub fn attrs_len(mask: u32) -> (r: usize)
    ensures
        r == spec_attr_offset(mask, 15),
        r <= 60,
{
    let mut r: usize = 0;
    let mut i: usize = 0;
    while i < 15
        invariant
            i <= 15,
            r == spec_attr_offset(mask, i as int),
            r <= 4 * i,
        decreases 15 - i,
    {
        if crate::gc::mask_bit_exec(mask, i) {
            r = r + attr_width(i);
        }
        i = i + 1;
    }
    r
}

/// Reads window attributes from a request: the attributes selected by the
/// bitmask, in ascending bit order. An illegal enumerated value yields a
/// `Value` error carrying it.
///
/// Arguments:
/// - `bitmask` is the bitmask of attributes to read.
/// - `b` is the buffer containing the attributes.
pub fn read_attrs(bitmask: u32, b: &[u8]) -> (r: Result<Vec<AttrValue>, Error>)
    requires
        b@.len() >= spec_attr_offset(bitmask, 15),
    ensures
        match r {
            Ok(values) => spec_attrs(bitmask, b@) == Ok::<Seq<AttrValue>, int>(values@),
            Err(e) => {
                &&& spec_attrs(bitmask, b@) matches Err(raw)
                &&& e == Error::Value(raw as u32)
            },
        },
{
    let mut values: Vec<AttrValue> = Vec::new();
    let mut off: usize = 0;
    let mut i: usize = 0;
    proof {
        lemma_attr_offset_monotonic(bitmask, 0, 15);
        let r0 = spec_attrs_from(bitmask, b@, 0);
        if r0 is Ok {
            assert(values@ + r0->Ok_0 =~= r0->Ok_0);
        }
    }
    while i < 15
        invariant
            i <= 15,
            off == spec_attr_offset(bitmask, i as int),
            off <= 4 * i,
            b@.len() >= spec_attr_offset(bitmask, 15),
            match spec_attrs_from(bitmask, b@, i as int) {
                Ok(rest) => spec_attrs(bitmask, b@) == Ok::<Seq<AttrValue>, int>(values@ + rest),
                Err(e) => spec_attrs(bitmask, b@) == Err::<Seq<AttrValue>, int>(e),
            },
        decreases 15 - i,
    {
        proof {
            lemma_attr_offset_monotonic(bitmask, i as int + 1, 15);
        }
        if crate::gc::mask_bit_exec(bitmask, i) {
            let w = attr_width(i);
            assert(spec_attr_offset(bitmask, i as int + 1) == off + w);
            let raw: u32 = if w == 1 {
                b[off] as u32
            } else {
                crate::codec::read_u32_le(b, off)
            };
            assert(raw == spec_attr_raw(bitmask, b@, i as int));
            let decoded: Result<AttrValue, Error> = match i {
                0 => Ok(AttrValue::BackgroundPixmap(raw)),
                1 => Ok(AttrValue::BackgroundPixel(raw)),
                2 => Ok(AttrValue::BorderPixmap(raw)),
                3 => Ok(AttrValue::BorderPixel(raw)),
                4 => match BitGravity::try_from(raw as u8) {
                    Some(g) => Ok(AttrValue::BitGravity(g)),
                    None => Err(Error::Value(raw)),
                },
                5 => match WinGravity::try_from(raw as u8) {
                    Some(g) => Ok(AttrValue::WinGravity(g)),
                    None => Err(Error::Value(raw)),
                },
                6 => match BackingStore::try_from(raw as u8) {
                    Some(s) => Ok(AttrValue::BackingStore(s)),
                    None => Err(Error::Value(raw)),
                },
                7 => Ok(AttrValue::BackingPlanes(raw)),
                8 => Ok(AttrValue::BackingPixel(raw)),
                9 => Ok(AttrValue::OverrideRedirect(raw != 0)),
                10 => Ok(AttrValue::SaveUnder(raw != 0)),
                11 => Ok(AttrValue::EventMask(raw)),
                12 => Ok(AttrValue::DoNotPropagateMask(raw)),
                13 => Ok(AttrValue::Colormap(raw)),
                _ => Ok(AttrValue::Cursor(raw)),
            };
            match decoded {
                Ok(v) => {
                    assert(spec_attr_value(i as int, raw as int) == Some(v));
                    let ghost vs0 = values@;
                    values.push(v);
                    proof {
                        assert(values@ =~= vs0 + seq![v]);
                        let rnext = spec_attrs_from(bitmask, b@, i as int + 1);
                        if rnext is Ok {
                            assert(vs0 + (seq![v] + rnext->Ok_0) =~= values@ + rnext->Ok_0);
                        }
                    }
                    off = off + w;
                }
                Err(e) => {
                    proof {
                        assert(raw <= 255);
                        assert(spec_attr_value(i as int, raw as int) is None);
                    }
                    return Err(e);
                }
            }
        }
        i = i + 1;
    }
    Ok(values)
}

/// The offset of a later attribute is never smaller than that of an earlier
/// one, and grows by at most four bytes per bit.
proof fn lemma_attr_offset_monotonic(mask: u32, i: int, j: int)
    requires
        i <= j,
    ensures
        spec_attr_offset(mask, i) <= spec_attr_offset(mask, j) <= spec_attr_offset(mask, i) + 4 * (
        j - i),
    decreases j - i,
{
    if i < j {
        lemma_attr_offset_monotonic(mask, i, j - 1);
    }
}

/// Parses `CreateWindow`. The `depth` byte rides in the request header.
pub fn read_create_window(body: &[u8], depth: u8) -> (r: Result<Option<CreateWindow>, Error>)
    ensures
        match r {
            Ok(Some(q)) => {
                let mask = u32_le_at(body@, 24);
                &&& body@.len() >= 28 + spec_attr_offset(mask as u32, 15)
                &&& q.wid == u32_le_at(body@, 0)
                &&& q.parent == u32_le_at(body@, 4)
                &&& q.x == u16_le_at(body@, 8) as u16 as i16
                &&& q.y == u16_le_at(body@, 10) as u16 as i16
                &&& q.width == u16_le_at(body@, 12)
                &&& q.height == u16_le_at(body@, 14)
                &&& q.border_width == u16_le_at(body@, 16)
                &&& q.class == u16_le_at(body@, 18)
                &&& q.visual == u32_le_at(body@, 20)
                &&& q.depth == depth
                &&& spec_attrs(mask as u32, body@.skip(28)) == Ok::<Seq<AttrValue>, int>(q.attrs@)
            },
            Ok(None) => body@.len() < 28 || body@.len() < 28 + spec_attr_offset(
                u32_le_at(body@, 24) as u32,
                15,
            ),
            Err(e) => {
                &&& body@.len() >= 28 + spec_attr_offset(u32_le_at(body@, 24) as u32, 15)
                &&& spec_attrs(u32_le_at(body@, 24) as u32, body@.skip(28)) matches Err(raw)
                &&& e == Error::Value(raw as u32)
            },
        },
{
    if body.len() < 28 {
        return Ok(None);
    }
    let mask = crate::codec::read_u32_le(body, 24);
    let needed = attrs_len(mask);
    if body.len() < 28 + needed {
        return Ok(None);
    }
    let rest = vstd::slice::slice_subrange(body, 28, body.len());
    proof {
        assert(rest@ =~= body@.skip(28));
    }
    let attrs = match read_attrs(mask, rest) {
        Ok(a) => a,
        Err(e) => {
            return Err(e);
        }
    };
    Ok(Some(CreateWindow {
        wid: crate::codec::read_u32_le(body, 0),
        parent: crate::codec::read_u32_le(body, 4),
        x: crate::codec::read_u16_le(body, 8) as i16,
        y: crate::codec::read_u16_le(body, 10) as i16,
        width: crate::codec::read_u16_le(body, 12),
        height: crate::codec::read_u16_le(body, 14),
        border_width: crate::codec::read_u16_le(body, 16),
        class: crate::codec::read_u16_le(body, 18),
        visual: crate::codec::read_u32_le(body, 20),
        depth,
        attrs,
    }))
}

/// Parses `ChangeWindowAttributes`.
pub fn read_change_window_attributes(body: &[u8]) -> (r: Result<
    Option<ChangeWindowAttributes>,
    Error,
>)
    ensures
        match r {
            Ok(Some(q)) => {
                let mask = u32_le_at(body@, 4);
                &&& body@.len() >= 8 + spec_attr_offset(mask as u32, 15)
                &&& q.window == u32_le_at(body@, 0)
                &&& spec_attrs(mask as u32, body@.skip(8)) == Ok::<Seq<AttrValue>, int>(
                    q.changed_attrs@,
                )
            },
            Ok(None) => body@.len() < 8 || body@.len() < 8 + spec_attr_offset(
                u32_le_at(body@, 4) as u32,
                15,
            ),
            Err(e) => {
                &&& body@.len() >= 8 + spec_attr_offset(u32_le_at(body@, 4) as u32, 15)
                &&& spec_attrs(u32_le_at(body@, 4) as u32, body@.skip(8)) matches Err(raw)
                &&& e == Error::Value(raw as u32)
            },
        },
{
    if body.len() < 8 {
        return Ok(None);
    }
    let mask = crate::codec::read_u32_le(body, 4);
    let needed = attrs_len(mask);
    if body.len() < 8 + needed {
        return Ok(None);
    }
    let rest = vstd::slice::slice_subrange(body, 8, body.len());
    proof {
        assert(rest@ =~= body@.skip(8));
    }
    let changed_attrs = match read_attrs(mask, rest) {
        Ok(a) => a,
        Err(e) => {
            return Err(e);
        }
    };
    Ok(Some(ChangeWindowAttributes { window: crate::codec::read_u32_le(body, 0), changed_attrs }))
}

/// Parses `CreateGC`.
pub fn read_create_gc(body: &[u8]) -> (r: Result<Option<CreateGC>, Error>)
    ensures
        match r {
            Ok(Some(q)) => {
                let mask = u32_le_at(body@, 8);
                &&& body@.len() >= 12 + crate::gc::spec_gc_offset(mask as u32, 23)
                &&& q.cid == u32_le_at(body@, 0)
                &&& q.gc.drawable == u32_le_at(body@, 4)
                &&& crate::gc::spec_gc_values(mask as u32, body@.skip(12)) == Ok::<
                    Seq<crate::gc::Value>,
                    int,
                >(q.gc.values@)
            },
            Ok(None) => body@.len() < 12 || body@.len() < 12 + crate::gc::spec_gc_offset(
                u32_le_at(body@, 8) as u32,
                23,
            ),
            Err(e) => {
                &&& body@.len() >= 12 + crate::gc::spec_gc_offset(u32_le_at(body@, 8) as u32, 23)
                &&& crate::gc::spec_gc_values(u32_le_at(body@, 8) as u32, body@.skip(12)) matches
                    Err(raw)
                &&& e == Error::Value(raw as u32)
            },
        },
{
    if body.len() < 12 {
        return Ok(None);
    }
    let mask = crate::codec::read_u32_le(body, 8);
    let needed = crate::gc::gc_values_len(mask);
    if body.len() < 12 + needed {
        return Ok(None);
    }
    let rest = vstd::slice::slice_subrange(body, 12, body.len());
    proof {
        assert(rest@ =~= body@.skip(12));
    }
    let values = match crate::gc::decode_gc_values(mask, rest) {
        Ok(v) => v,
        Err(e) => {
            return Err(e);
        }
    };
    Ok(Some(CreateGC {
        cid: crate::codec::read_u32_le(body, 0),
        gc: GC { drawable: crate::codec::read_u32_le(body, 4), values },
    }))
}

/// Parses `BigReqEnable`: the request has an empty body; anything longer is
/// a `Length` error.
pub fn read_big_req_enable(body: &[u8]) -> (r: Result<(), Error>)
    ensures
        match r {
            Ok(()) => body@.len() == 0,
            Err(e) => body@.len() != 0 && e == Error::Length,
        },
{
    if body.len() == 0 {
        Ok(())
    } else {
        Err(Error::Length)
    }
}

} // verus!
