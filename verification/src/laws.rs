//! Laws the server keeps, stated across the functions they relate: what
//! interning an atom's own name hands back, what a property round trip
//! returns, what a grab followed by an ungrab leaves behind, and which
//! framings are refused outright.

use vstd::prelude::*;
use vstd::string::StringSliceAdditionalSpecFns;
use crate::atoms::{distinct_names, spec_intern};
use crate::codec::u16_le_at;
use crate::ctx::Context;
use crate::framing::{spec_read_frame, FrameResult, FramingMode};
use crate::handlers::property_read;
use crate::window::{prop_get, prop_keys_distinct, prop_set, Property};

verus! {

/// For every atom `a` of a well-formed table, interning the atom's own name
/// — with either flag — keeps the table and hands back `a` itself: the name
/// of an atom leads back to the atom.
pub proof fn lemma_atom_roundtrip(v: Seq<Seq<u8>>, a: int)
    requires
        distinct_names(v),
        1 <= a <= v.len(),
    ensures
        spec_intern(v, v[a - 1], true) == (v, a),
        spec_intern(v, v[a - 1], false) == (v, a),
{
    let n = v[a - 1];
    assert(v[a - 1] == n);
    assert(exists|i: int| 0 <= i < v.len() && v[i] == n);
    let i = choose|i: int| 0 <= i < v.len() && v[i] == n;
    if i != a - 1 {
        if i < a - 1 {
            assert(v[i] != v[a - 1]);
        } else {
            assert(v[a - 1] != v[i]);
        }
    }
}

/// Replacing a property and reading it back under the same name, from offset
/// zero and with a length of at least as many 4-byte units as the data
/// holds, returns exactly the property that was set — its type, its format,
/// all of its data — with no bytes left after it.
pub proof fn lemma_property_round_trip(
    s: Seq<(Seq<u8>, Property)>,
    n: Seq<u8>,
    p: Property,
    long_length: int,
)
    requires
        prop_keys_distinct(s),
        4 * long_length >= p.spec_data().len(),
    ensures
        prop_get(prop_set(s, n, p), n) == Some(p),
        property_read(p, 0, long_length) == (p.spec_data(), 0int),
{
    crate::window::lemma_prop_set_get(s, n, p);
    assert(p.spec_data().subrange(0, p.spec_data().len() as int) =~= p.spec_data());
}

/// A grab by a client followed by an ungrab leaves the server exactly as it
/// was before the grab, whenever no one held a grab then; and ungrabbing an
/// ungrabbed server changes nothing, so a second ungrab is a no-op.
pub proof fn lemma_grab_ungrab_round_trip(ctx: Context, client_id: u32)
    ensures
        (Context {
            grabbing_client: None,
            ..(Context { grabbing_client: Some(client_id), ..ctx })
        }) == (Context { grabbing_client: None, ..ctx }),
        ctx.grabbing_client is None ==> (Context {
            grabbing_client: None,
            ..(Context { grabbing_client: Some(client_id), ..ctx })
        }) == ctx,
        ctx.grabbing_client is None ==> (Context { grabbing_client: None, ..ctx }) == ctx,
{
}

/// A request whose length field is zero under standard framing is refused
/// with a `Length` error.
pub proof fn lemma_standard_zero_length_is_error(b: Seq<u8>, max: int)
    requires
        b.len() >= 4,
        u16_le_at(b, 2) == 0,
    ensures
        spec_read_frame(FramingMode::Standard, b, max) == (FrameResult::BadLength {
            opcode: b[0],
        }),
{
}

/// A big-framed request whose extended length exceeds the server's maximum
/// is refused with a `Length` error.
pub proof fn lemma_big_overlong_is_error(b: Seq<u8>, max: int)
    requires
        b.len() >= 8,
        u16_le_at(b, 2) == 0,
        4 * crate::codec::u32_le_at(b, 4) > max,
    ensures
        spec_read_frame(FramingMode::Big, b, max) == (FrameResult::BadLength { opcode: b[0] }),
{
}

/// On a server fresh from its bootstrap — the atom table holding exactly
/// the 68 protocol names — interning the name of a window-manager title
/// property hands back its protocol atom, 39, creating nothing, whichever
/// flag the request carries.
pub proof fn lemma_wm_name_is_atom_39(t: Seq<Seq<u8>>, only_if_exists: bool)
    requires
        distinct_names(t),
        t == crate::atoms::bootstrap_names(),
    ensures
        spec_intern(t, "WM_NAME".spec_bytes(), only_if_exists) == (t, 39int),
{
    crate::atoms::lemma_bootstrap_ids();
    lemma_atom_roundtrip(t, 39);
}

} // verus!
