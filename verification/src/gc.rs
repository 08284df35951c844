//! Graphics contexts (GC): the per-client bundle of drawing parameters, its
//! enumerated attribute values, and the bitmask-driven decoder that reads a
//! GC value list off the wire.

use vstd::prelude::*;
use crate::error::Error;
use crate::codec::{u16_le_at, u32_le_at};

verus! {

/// The raster operation applied when drawing.
#[derive(Clone, Copy, PartialEq, Eq, Structural)]
pub enum Function {
    Clear,
    And,
    AndReverse,
    Copy,
    AndInverted,
    NoOp,
    Xor,
    Or,
    Nor,
    Equiv,
    Invert,
    OrReverse,
    CopyInverted,
    OrInverted,
    Nand,
    AllOnes,
}

impl Function {
    /// The function with the given wire value, if valid.
    pub open spec fn spec_try_from(v: u8) -> Option<Self> {
        match v {
            0 => Some(Self::Clear),
            1 => Some(Self::And),
            2 => Some(Self::AndReverse),
            3 => Some(Self::Copy),
            4 => Some(Self::AndInverted),
            5 => Some(Self::NoOp),
            6 => Some(Self::Xor),
            7 => Some(Self::Or),
            8 => Some(Self::Nor),
            9 => Some(Self::Equiv),
            10 => Some(Self::Invert),
            11 => Some(Self::OrReverse),
            12 => Some(Self::CopyInverted),
            13 => Some(Self::OrInverted),
            14 => Some(Self::Nand),
            15 => Some(Self::AllOnes),
            _ => None,
        }
    }

    /// Decodes the function from its wire value; an invalid value is a
    /// `Value` error.
    pub fn try_from(v: u8) -> (r: Result<Self, Error>)
        ensures
            match r {
                Ok(f) => Self::spec_try_from(v) == Some(f),
                Err(e) => Self::spec_try_from(v) is None && e == Error::Value(v as u32),
            },
    {
        match v {
            0 => Ok(Self::Clear),
            1 => Ok(Self::And),
            2 => Ok(Self::AndReverse),
            3 => Ok(Self::Copy),
            4 => Ok(Self::AndInverted),
            5 => Ok(Self::NoOp),
            6 => Ok(Self::Xor),
            7 => Ok(Self::Or),
            8 => Ok(Self::Nor),
            9 => Ok(Self::Equiv),
            10 => Ok(Self::Invert),
            11 => Ok(Self::OrReverse),
            12 => Ok(Self::CopyInverted),
            13 => Ok(Self::OrInverted),
            14 => Ok(Self::Nand),
            15 => Ok(Self::AllOnes),
            _ => Err(Error::Value(v as u32)),
        }
    }
}

/// The style in which lines are drawn.
#[derive(Clone, Copy, PartialEq, Eq, Structural)]
pub enum LineStyle {
    Solid,
    OnOffDash,
    DoubleDash,
}

impl LineStyle {
    /// The style with the given wire value, if valid.
    pub open spec fn spec_try_from(v: u8) -> Option<Self> {
        match v {
            0 => Some(Self::Solid),
            1 => Some(Self::OnOffDash),
            2 => Some(Self::DoubleDash),
            _ => None,
        }
    }

    /// Decodes the style from its wire value; an invalid value is a `Value`
    /// error.
    pub fn try_from(v: u8) -> (r: Result<Self, Error>)
        ensures
            match r {
                Ok(s) => Self::spec_try_from(v) == Some(s),
                Err(e) => Self::spec_try_from(v) is None && e == Error::Value(v as u32),
            },
    {
        match v {
            0 => Ok(Self::Solid),
            1 => Ok(Self::OnOffDash),
            2 => Ok(Self::DoubleDash),
            _ => Err(Error::Value(v as u32)),
        }
    }
}

/// The style in which line ends are drawn.
#[derive(Clone, Copy, PartialEq, Eq, Structural)]
pub enum CapStyle {
    NotLast,
    Butt,
    Round,
    Projecting,
}

impl CapStyle {
    /// The style with the given wire value, if valid.
    pub open spec fn spec_try_from(v: u8) -> Option<Self> {
        match v {
            0 => Some(Self::NotLast),
            1 => Some(Self::Butt),
            2 => Some(Self::Round),
            3 => Some(Self::Projecting),
            _ => None,
        }
    }

    /// Decodes the style from its wire value; an invalid value is a `Value`
    /// error.
    pub fn try_from(v: u8) -> (r: Result<Self, Error>)
        ensures
            match r {
                Ok(s) => Self::spec_try_from(v) == Some(s),
                Err(e) => Self::spec_try_from(v) is None && e == Error::Value(v as u32),
            },
    {
        match v {
            0 => Ok(Self::NotLast),
            1 => Ok(Self::Butt),
            2 => Ok(Self::Round),
            3 => Ok(Self::Projecting),
            _ => Err(Error::Value(v as u32)),
        }
    }
}

/// The style in which lines are joined.
#[derive(Clone, Copy, PartialEq, Eq, Structural)]
pub enum JoinStyle {
    Miter,
    Round,
    Bevel,
}

impl JoinStyle {
    /// The style with the given wire value, if valid.
    pub open spec fn spec_try_from(v: u8) -> Option<Self> {
        match v {
            0 => Some(Self::Miter),
            1 => Some(Self::Round),
            2 => Some(Self::Bevel),
            _ => None,
        }
    }

    /// Decodes the style from its wire value; an invalid value is a `Value`
    /// error.
    pub fn try_from(v: u8) -> (r: Result<Self, Error>)
        ensures
            match r {
                Ok(s) => Self::spec_try_from(v) == Some(s),
                Err(e) => Self::spec_try_from(v) is None && e == Error::Value(v as u32),
            },
    {
        match v {
            0 => Ok(Self::Miter),
            1 => Ok(Self::Round),
            2 => Ok(Self::Bevel),
            _ => Err(Error::Value(v as u32)),
        }
    }
}

/// The style in which shapes are filled.
#[derive(Clone, Copy, PartialEq, Eq, Structural)]
pub enum FillStyle {
    Solid,
    Tiled,
    Stippled,
    OpaqueStippled,
}

impl FillStyle {
    /// The style with the given wire value, if valid.
    pub open spec fn spec_try_from(v: u8) -> Option<Self> {
        match v {
            0 => Some(Self::Solid),
            1 => Some(Self::Tiled),
            2 => Some(Self::Stippled),
            3 => Some(Self::OpaqueStippled),
            _ => None,
        }
    }

    /// Decodes the style from its wire value; an invalid value is a `Value`
    /// error.
    pub fn try_from(v: u8) -> (r: Result<Self, Error>)
        ensures
            match r {
                Ok(s) => Self::spec_try_from(v) == Some(s),
                Err(e) => Self::spec_try_from(v) is None && e == Error::Value(v as u32),
            },
    {
        match v {
            0 => Ok(Self::Solid),
            1 => Ok(Self::Tiled),
            2 => Ok(Self::Stippled),
            3 => Ok(Self::OpaqueStippled),
            _ => Err(Error::Value(v as u32)),
        }
    }
}

/// The rule deciding which pixels lie inside a filled shape.
#[derive(Clone, Copy, PartialEq, Eq, Structural)]
pub enum FillRule {
    EvenOdd,
    Winding,
}

impl FillRule {
    /// The rule with the given wire value, if valid.
    pub open spec fn spec_try_from(v: u8) -> Option<Self> {
        match v {
            0 => Some(Self::EvenOdd),
            1 => Some(Self::Winding),
            _ => None,
        }
    }

    /// Decodes the rule from its wire value; an invalid value is a `Value`
    /// error.
    pub fn try_from(v: u8) -> (r: Result<Self, Error>)
        ensures
            match r {
                Ok(s) => Self::spec_try_from(v) == Some(s),
                Err(e) => Self::spec_try_from(v) is None && e == Error::Value(v as u32),
            },
    {
        match v {
            0 => Ok(Self::EvenOdd),
            1 => Ok(Self::Winding),
            _ => Err(Error::Value(v as u32)),
        }
    }
}

/// Whether drawing is clipped by subwindows.
#[derive(Clone, Copy, PartialEq, Eq, Structural)]
pub enum SubWindowMode {
    ClipByChildren,
    IncludeInferiors,
}

impl SubWindowMode {
    /// The mode with the given wire value, if valid.
    pub open spec fn spec_try_from(v: u8) -> Option<Self> {
        match v {
            0 => Some(Self::ClipByChildren),
            1 => Some(Self::IncludeInferiors),
            _ => None,
        }
    }

    /// Decodes the mode from its wire value; an invalid value is a `Value`
    /// error.
    pub fn try_from(v: u8) -> (r: Result<Self, Error>)
        ensures
            match r {
                Ok(s) => Self::spec_try_from(v) == Some(s),
                Err(e) => Self::spec_try_from(v) is None && e == Error::Value(v as u32),
            },
    {
        match v {
            0 => Ok(Self::ClipByChildren),
            1 => Ok(Self::IncludeInferiors),
            _ => Err(Error::Value(v as u32)),
        }
    }
}

/// How arcs are filled.
#[derive(Clone, Copy, PartialEq, Eq, Structural)]
pub enum ArcMode {
    Chord,
    PieSlice,
}

impl ArcMode {
    /// The mode with the given wire value, if valid.
    pub open spec fn spec_try_from(v: u8) -> Option<Self> {
        match v {
            0 => Some(Self::Chord),
            1 => Some(Self::PieSlice),
            _ => None,
        }
    }

    /// Decodes the mode from its wire value; an invalid value is a `Value`
    /// error.
    pub fn try_from(v: u8) -> (r: Result<Self, Error>)
        ensures
            match r {
                Ok(s) => Self::spec_try_from(v) == Some(s),
                Err(e) => Self::spec_try_from(v) is None && e == Error::Value(v as u32),
            },
    {
        match v {
            0 => Ok(Self::Chord),
            1 => Ok(Self::PieSlice),
            _ => Err(Error::Value(v as u32)),
        }
    }
}

/// Value of a graphics context.
#[derive(Clone, Copy, PartialEq, Eq, Structural)]
pub enum Value {
    Function(Function),
    PlaneMask(u32),
    Foreground(u32),
    Background(u32),
    LineWidth(u16),
    LineStyle(LineStyle),
    CapStyle(CapStyle),
    JoinStyle(JoinStyle),
    FillStyle(FillStyle),
    FillRule(FillRule),
    Tile(u32),
    Stipple(u32),
    TileStippleXOrigin(i16),
    TileStippleYOrigin(i16),
    Font(u32),
    SubwindowMode(SubWindowMode),
    GraphicsExposures(u8),
    ClipXOrigin(i16),
    ClipYOrigin(i16),
    ClipMask(u32),
    DashOffset(u16),
    Dashes(u8),
    ArcMode(ArcMode),
}

/// A graphics context.
#[derive(Clone)]
pub struct GC {
    /// The ID of the drawable.
    pub drawable: u32,
    /// The list of values.
    pub values: Vec<Value>,
}

/// Whether bit `i` is set in `mask`.
pub open spec fn mask_bit(mask: u32, i: int) -> bool {
    (mask >> (i as u32)) & 1 == 1
}

/// The byte width of the GC value selected by bit `i` of the value mask.
pub open spec fn spec_gc_width(i: int) -> int {
    if i == 0 {
        1
    } else if i == 1 || i == 2 || i == 3 {
        4
    } else if i == 4 {
        2
    } else if 5 <= i <= 9 {
        1
    } else if i == 10 || i == 11 {
        4
    } else if i == 12 || i == 13 {
        2
    } else if i == 14 {
        4
    } else if i == 15 || i == 16 {
        1
    } else if i == 17 || i == 18 {
        2
    } else if i == 19 {
        4
    } else if i == 20 {
        2
    } else {
        1
    }
}

/// The byte offset, from the start of the value list, of the GC value
/// selected by bit `i`: the summed width of every selected value before it.
pub open spec fn spec_gc_offset(mask: u32, i: int) -> int
    decreases i,
{
    if i <= 0 {
        0
    } else {
        spec_gc_offset(mask, i - 1) + if mask_bit(mask, i - 1) {
            spec_gc_width(i - 1)
        } else {
            0
        }
    }
}

/// The raw integer read for the GC value selected by bit `i`, at its offset
/// in the value list `b`.
pub open spec fn spec_gc_raw(mask: u32, b: Seq<u8>, i: int) -> int {
    let off = spec_gc_offset(mask, i);
    if spec_gc_width(i) == 1 {
        b[off] as int
    } else if spec_gc_width(i) == 2 {
        u16_le_at(b, off)
    } else {
        u32_le_at(b, off)
    }
}

/// The decoded GC value selected by bit `i`, given its raw integer, or
/// `None` if the raw integer is not a legal value for that attribute.
pub open spec fn spec_gc_value(i: int, raw: int) -> Option<Value> {
    if i == 0 {
        match Function::spec_try_from(raw as u8) {
            Some(f) => Some(Value::Function(f)),
            None => None,
        }
    } else if i == 1 {
        Some(Value::PlaneMask(raw as u32))
    } else if i == 2 {
        Some(Value::Foreground(raw as u32))
    } else if i == 3 {
        Some(Value::Background(raw as u32))
    } else if i == 4 {
        Some(Value::LineWidth(raw as u16))
    } else if i == 5 {
        match LineStyle::spec_try_from(raw as u8) {
            Some(s) => Some(Value::LineStyle(s)),
            None => None,
        }
    } else if i == 6 {
        match CapStyle::spec_try_from(raw as u8) {
            Some(s) => Some(Value::CapStyle(s)),
            None => None,
        }
    } else if i == 7 {
        match JoinStyle::spec_try_from(raw as u8) {
            Some(s) => Some(Value::JoinStyle(s)),
            None => None,
        }
    } else if i == 8 {
        match FillStyle::spec_try_from(raw as u8) {
            Some(s) => Some(Value::FillStyle(s)),
            None => None,
        }
    } else if i == 9 {
        match FillRule::spec_try_from(raw as u8) {
            Some(s) => Some(Value::FillRule(s)),
            None => None,
        }
    } else if i == 10 {
        Some(Value::Tile(raw as u32))
    } else if i == 11 {
        Some(Value::Stipple(raw as u32))
    } else if i == 12 {
        Some(Value::TileStippleXOrigin(raw as u16 as i16))
    } else if i == 13 {
        Some(Value::TileStippleYOrigin(raw as u16 as i16))
    } else if i == 14 {
        Some(Value::Font(raw as u32))
    } else if i == 15 {
        match SubWindowMode::spec_try_from(raw as u8) {
            Some(s) => Some(Value::SubwindowMode(s)),
            None => None,
        }
    } else if i == 16 {
        Some(Value::GraphicsExposures(raw as u8))
    } else if i == 17 {
        Some(Value::ClipXOrigin(raw as u16 as i16))
    } else if i == 18 {
        Some(Value::ClipYOrigin(raw as u16 as i16))
    } else if i == 19 {
        Some(Value::ClipMask(raw as u32))
    } else if i == 20 {
        Some(Value::DashOffset(raw as u16))
    } else if i == 21 {
        Some(Value::Dashes(raw as u8))
    } else {
        match ArcMode::spec_try_from(raw as u8) {
            Some(s) => Some(Value::ArcMode(s)),
            None => None,
        }
    }
}

/// The decoded value list of every GC value selected by a bit at or above
/// `i`, or the first offending raw integer where one is not legal.
pub open spec fn spec_gc_values_from(mask: u32, b: Seq<u8>, i: int) -> Result<Seq<Value>, int>
    decreases 23 - i,
{
    if i >= 23 {
        Ok(Seq::empty())
    } else if !mask_bit(mask, i) {
        spec_gc_values_from(mask, b, i + 1)
    } else {
        let raw = spec_gc_raw(mask, b, i);
        match spec_gc_value(i, raw) {
            None => Err(raw),
            Some(v) => match spec_gc_values_from(mask, b, i + 1) {
                Ok(rest) => Ok(seq![v] + rest),
                Err(e) => Err(e),
            },
        }
    }
}

/// The decoded GC value list of `mask` over `b`.
pub open spec fn spec_gc_values(mask: u32, b: Seq<u8>) -> Result<Seq<Value>, int> {
    spec_gc_values_from(mask, b, 0)
}

/// Reads bit `i` of `mask`.
pub fn mask_bit_exec(mask: u32, i: usize) -> (r: bool)
    requires
        i < 32,
    ensures
        r == mask_bit(mask, i as int),
{
    (mask >> (i as u32)) & 1 == 1
}

/// The byte width of the GC value selected by bit `i`.
fn gc_width(i: usize) -> (r: usize)
    requires
        i < 23,
    ensures
        r == spec_gc_width(i as int),
        1 <= r <= 4,
{
    match i {
        0 => 1,
        1 => 4,
        2 => 4,
        3 => 4,
        4 => 2,
        5 => 1,
        6 => 1,
        7 => 1,
        8 => 1,
        9 => 1,
        10 => 4,
        11 => 4,
        12 => 2,
        13 => 2,
        14 => 4,
        15 => 1,
        16 => 1,
        17 => 2,
        18 => 2,
        19 => 4,
        20 => 2,
        21 => 1,
        _ => 1,
    }
}

/// The number of bytes the value list of `mask` occupies.
pub fn gc_values_len(mask: u32) -> (r: usize)
    ensures
        r == spec_gc_offset(mask, 23),
        r <= 92,
{
    let mut r: usize = 0;
    let mut i: usize = 0;
    while i < 23
        invariant
            i <= 23,
            r == spec_gc_offset(mask, i as int),
            r <= 4 * i,
        decreases 23 - i,
    {
        if mask_bit_exec(mask, i) {
            r = r + gc_width(i);
        }
        i = i + 1;
    }
    r
}

/// Decodes the GC value list selected by `mask` from `b`, in ascending bit
/// order. An illegal enumerated value yields a `Value` error carrying it.
pub fn decode_gc_values(mask: u32, b: &[u8]) -> (r: Result<Vec<Value>, Error>)
    requires
        b@.len() >= spec_gc_offset(mask, 23),
    ensures
        match r {
            Ok(values) => spec_gc_values(mask, b@) == Ok::<Seq<Value>, int>(values@),
            Err(e) => {
                &&& spec_gc_values(mask, b@) matches Err(raw)
                &&& e == Error::Value(raw as u32)
            },
        },
{
    let mut values: Vec<Value> = Vec::new();
    let mut off: usize = 0;
    let mut i: usize = 0;
    proof {
        lemma_gc_offset_monotonic(mask, 0, 23);
        let r0 = spec_gc_values_from(mask, b@, 0);
        if r0 is Ok {
            assert(values@ + r0->Ok_0 =~= r0->Ok_0);
        }
    }
    while i < 23
        invariant
            i <= 23,
            off == spec_gc_offset(mask, i as int),
            off <= 4 * i,
            b@.len() >= spec_gc_offset(mask, 23),
            match spec_gc_values_from(mask, b@, i as int) {
                Ok(rest) => spec_gc_values(mask, b@) == Ok::<Seq<Value>, int>(values@ + rest),
                Err(e) => spec_gc_values(mask, b@) == Err::<Seq<Value>, int>(e),
            },
        decreases 23 - i,
    {
        proof {
            lemma_gc_offset_monotonic(mask, i as int + 1, 23);
        }
        if mask_bit_exec(mask, i) {
            let w = gc_width(i);
            assert(spec_gc_offset(mask, i as int + 1) == off + w);
            let raw: u32 = if w == 1 {
                b[off] as u32
            } else if w == 2 {
                crate::codec::read_u16_le(b, off) as u32
            } else {
                crate::codec::read_u32_le(b, off)
            };
            assert(raw == spec_gc_raw(mask, b@, i as int));
            let decoded: Result<Value, Error> = match i {
                0 => match Function::try_from(raw as u8) {
                    Ok(f) => Ok(Value::Function(f)),
                    Err(e) => Err(e),
                },
                1 => Ok(Value::PlaneMask(raw)),
                2 => Ok(Value::Foreground(raw)),
                3 => Ok(Value::Background(raw)),
                4 => Ok(Value::LineWidth(raw as u16)),
                5 => match LineStyle::try_from(raw as u8) {
                    Ok(s) => Ok(Value::LineStyle(s)),
                    Err(e) => Err(e),
                },
                6 => match CapStyle::try_from(raw as u8) {
                    Ok(s) => Ok(Value::CapStyle(s)),
                    Err(e) => Err(e),
                },
                7 => match JoinStyle::try_from(raw as u8) {
                    Ok(s) => Ok(Value::JoinStyle(s)),
                    Err(e) => Err(e),
                },
                8 => match FillStyle::try_from(raw as u8) {
                    Ok(s) => Ok(Value::FillStyle(s)),
                    Err(e) => Err(e),
                },
                9 => match FillRule::try_from(raw as u8) {
                    Ok(s) => Ok(Value::FillRule(s)),
                    Err(e) => Err(e),
                },
                10 => Ok(Value::Tile(raw)),
                11 => Ok(Value::Stipple(raw)),
                12 => Ok(Value::TileStippleXOrigin(raw as u16 as i16)),
                13 => Ok(Value::TileStippleYOrigin(raw as u16 as i16)),
                14 => Ok(Value::Font(raw)),
                15 => match SubWindowMode::try_from(raw as u8) {
                    Ok(s) => Ok(Value::SubwindowMode(s)),
                    Err(e) => Err(e),
                },
                16 => Ok(Value::GraphicsExposures(raw as u8)),
                17 => Ok(Value::ClipXOrigin(raw as u16 as i16)),
                18 => Ok(Value::ClipYOrigin(raw as u16 as i16)),
                19 => Ok(Value::ClipMask(raw)),
                20 => Ok(Value::DashOffset(raw as u16)),
                21 => Ok(Value::Dashes(raw as u8)),
                _ => match ArcMode::try_from(raw as u8) {
                    Ok(s) => Ok(Value::ArcMode(s)),
                    Err(e) => Err(e),
                },
            };
            match decoded {
                Ok(v) => {
                    assert(spec_gc_value(i as int, raw as int) == Some(v));
                    let ghost vs0 = values@;
                    values.push(v);
                    proof {
                        assert(values@ =~= vs0 + seq![v]);
                        let rnext = spec_gc_values_from(mask, b@, i as int + 1);
                        if rnext is Ok {
                            assert(vs0 + (seq![v] + rnext->Ok_0) =~= values@ + rnext->Ok_0);
                        }
                    }
                    off = off + w;
                }
                Err(e) => {
                    proof {
                        assert(raw <= 255);
                        assert(spec_gc_value(i as int, raw as int) is None);
                    }
                    return Err(e);
                }
            }
        }
        i = i + 1;
    }
    Ok(values)
}

/// The offset of a later bit is never smaller than that of an earlier one,
/// and grows by at most four bytes per bit.
proof fn lemma_gc_offset_monotonic(mask: u32, i: int, j: int)
    requires
        i <= j,
    ensures
        spec_gc_offset(mask, i) <= spec_gc_offset(mask, j) <= spec_gc_offset(mask, i) + 4 * (j - i),
    decreases j - i,
{
    if i < j {
        lemma_gc_offset_monotonic(mask, i, j - 1);
    }
}

} // verus!
