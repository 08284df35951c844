//! Command-line settings: the display number, whether the server listens on
//! the network, and whether the cursor is drawn. Reading the actual command
//! line and environment happens outside the library; this module parses the
//! display descriptor text.

use vstd::prelude::*;
use vstd::string::StringSliceAdditionalSpecFns;

verus! {

/// The server's command line settings.
pub struct Args {
    /// The display number.
    pub display: usize,
    /// Tells whether the server listens through network.
    pub network: bool,
    /// Tells whether the cursor is enabled.
    pub cursor: bool,
}

impl Default for Args {
    fn default() -> (r: Self)
        ensures
            r.display == 0,
            !r.network,
            r.cursor,
    {
        Args { display: 0, network: false, cursor: true }
    }
}

/// The value of the decimal digits `b`, or nothing where a byte is no digit.
pub open spec fn spec_parse_dec(b: Seq<u8>, acc: int) -> Option<int>
    decreases b.len(),
{
    if b.len() == 0 {
        Some(acc)
    } else if 48 <= b[0] <= 57 {
        spec_parse_dec(b.skip(1), acc * 10 + (b[0] - 48))
    } else {
        None
    }
}

/// Whether `s` is a well-formed display descriptor — a colon followed by at
/// least one decimal digit — and which display number it names.
pub open spec fn spec_parse_display(s: Seq<u8>) -> Option<int> {
    if s.len() >= 2 && s[0] == 58 {
        spec_parse_dec(s.skip(1), 0)
    } else {
        None
    }
}

/// Parses a display descriptor such as the value of a display environment
/// variable: a colon followed by the decimal display number. A descriptor
/// without the colon, without digits, with a stray byte, or naming a number
/// too large for the machine is refused.
pub fn parse_display(s: &str) -> (r: Result<usize, ()>)
    ensures
        match r {
            Ok(n) => spec_parse_display(s.spec_bytes()) == Some(n as int),
            Err(()) => ({
                ||| spec_parse_display(s.spec_bytes()) is None
                ||| (spec_parse_display(s.spec_bytes()) matches Some(v) && v > usize::MAX)
            }),
        },
{
    let b = s.as_bytes();
    if b.len() < 2 || b[0] != 58 {
        return Err(());
    }
    let mut acc: usize = 0;
    let mut i: usize = 1;
    while i < b.len()
        invariant
            1 <= i <= b@.len(),
            b@ == s.spec_bytes(),
            b@.len() >= 2,
            b@[0] == 58,
            spec_parse_dec(b@.skip(1), 0) == spec_parse_dec(b@.skip(i as int), acc as int),
        decreases b@.len() - i,
    {
        let d = b[i];
        if d < 48 || d > 57 {
            return Err(());
        }
        proof {
            assert(b@.skip(i as int).skip(1) =~= b@.skip(i as int + 1));
        }
        if acc > (usize::MAX - (d - 48) as usize) / 10 {
            proof {
                let dv = (d - 48) as int;
                assert(acc * 10 + dv > usize::MAX) by (nonlinear_arith)
                    requires
                        acc > (usize::MAX - dv) / 10,
                        0 <= dv <= 9,
                        acc >= 0,
                ;
                lemma_parse_dec_grows(b@.skip(i as int + 1), acc * 10 + dv);
            }
            return Err(());
        }
        proof {
            let dv = (d - 48) as int;
            assert(acc * 10 + dv <= usize::MAX) by (nonlinear_arith)
                requires
                    acc <= (usize::MAX - dv) / 10,
                    0 <= dv <= 9,
                    acc >= 0,
            ;
        }
        acc = acc * 10 + (d - 48) as usize;
        i = i + 1;
    }
    proof {
        assert(b@.skip(i as int).len() == 0);
    }
    Ok(acc)
}

/// A decimal parse never shrinks its accumulator: whatever digits follow,
/// the value only grows.
proof fn lemma_parse_dec_grows(b: Seq<u8>, acc: int)
    requires
        acc >= 0,
    ensures
        spec_parse_dec(b, acc) matches Some(v) ==> v >= acc,
    decreases b.len(),
{
    if b.len() > 0 && 48 <= b[0] <= 57 {
        lemma_parse_dec_grows(b.skip(1), acc * 10 + (b[0] - 48));
        assert(acc * 10 >= acc) by (nonlinear_arith)
            requires
                acc >= 0,
        ;
    }
}

} // verus!
