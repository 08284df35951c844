//! Request handling: the effect of each request on the context, and the
//! serialisation of its reply. Every reply record is a whole multiple of
//! four bytes and at least 32 bytes long; a handler that fails leaves the
//! context untouched and hands the protocol error back to the session, which
//! writes exactly one error record.

use vstd::prelude::*;
use vstd::string::StringSliceAdditionalSpecFns;
use crate::codec::{spec_pad, u16_le_bytes, u32_le_bytes, zero_bytes};
use crate::ctx::{win_has, win_index, Context};
use crate::error::Error;
use crate::requests::{GetAtomName, InternAtom};
use crate::window::{prop_get, Property, Window};

verus! {

/// A well-framed record: a whole multiple of four bytes, at least 32.
pub open spec fn wf_record(r: Seq<u8>) -> bool {
    r.len() % 4 == 0 && r.len() >= 32
}

/// The 32-byte reply to `InternAtom`, carrying the atom id.
pub open spec fn intern_atom_reply_bytes(seq_nbr: u16, atom: u32) -> Seq<u8> {
    seq![1u8, 0u8] + u16_le_bytes(seq_nbr as int) + u32_le_bytes(0) + u32_le_bytes(atom as int)
        + zero_bytes(20)
}

/// Writes the reply to `InternAtom`.
pub fn write_intern_atom_reply(out: &mut Vec<u8>, seq_nbr: u16, atom: u32)
    ensures
        final(out)@ == old(out)@ + intern_atom_reply_bytes(seq_nbr, atom),
        wf_record(intern_atom_reply_bytes(seq_nbr, atom)),
        intern_atom_reply_bytes(seq_nbr, atom)[0] == 1,
{
    out.push(1);
    out.push(0);
    crate::codec::write_u16_le(out, seq_nbr);
    crate::codec::write_u32_le(out, 0);
    crate::codec::write_u32_le(out, atom);
    crate::codec::write_zeros(out, 20);
    proof {
        assert(out@ =~= old(out)@ + intern_atom_reply_bytes(seq_nbr, atom));
    }
}

/// The reply to `GetAtomName`: a 32-byte header carrying the name's length,
/// then the name, padded.
pub open spec fn get_atom_name_reply_bytes(seq_nbr: u16, name: Seq<u8>) -> Seq<u8> {
    seq![1u8, 0u8] + u16_le_bytes(seq_nbr as int) + u32_le_bytes(
        (name.len() + spec_pad(name.len() as int)) / 4,
    ) + u16_le_bytes(name.len() as int) + zero_bytes(22) + name + zero_bytes(
        spec_pad(name.len() as int),
    )
}

/// Writes the reply to `GetAtomName`.
pub fn write_get_atom_name_reply(out: &mut Vec<u8>, seq_nbr: u16, name: &[u8])
    requires
        name@.len() <= 0xFFFF,
    ensures
        final(out)@ == old(out)@ + get_atom_name_reply_bytes(seq_nbr, name@),
        wf_record(get_atom_name_reply_bytes(seq_nbr, name@)),
        get_atom_name_reply_bytes(seq_nbr, name@)[0] == 1,
{
    let n = name.len();
    let p = crate::codec::pad(n);
    out.push(1);
    out.push(0);
    crate::codec::write_u16_le(out, seq_nbr);
    crate::codec::write_u32_le(out, ((n + p) / 4) as u32);
    crate::codec::write_u16_le(out, n as u16);
    crate::codec::write_zeros(out, 22);
    crate::codec::write_bytes(out, name);
    crate::codec::write_zeros(out, p);
    proof {
        assert(out@ =~= old(out)@ + get_atom_name_reply_bytes(seq_nbr, name@));
    }
}

/// The reply to `GetProperty`: a 32-byte header carrying the format, the
/// type, the bytes left after the window read, and the value's length in
/// format units, then the value, padded.
pub open spec fn get_property_reply_bytes(
    seq_nbr: u16,
    format: u8,
    ptype: u32,
    bytes_after: u32,
    units: u32,
    value: Seq<u8>,
) -> Seq<u8> {
    seq![1u8, format] + u16_le_bytes(seq_nbr as int) + u32_le_bytes(
        (value.len() + spec_pad(value.len() as int)) / 4,
    ) + u32_le_bytes(ptype as int) + u32_le_bytes(bytes_after as int) + u32_le_bytes(units as int)
        + zero_bytes(12) + value + zero_bytes(spec_pad(value.len() as int))
}

/// Writes the reply to `GetProperty`.
#[verifier::rlimit(100)]
#[verifier::spinoff_prover]
pub fn write_get_property_reply(
    out: &mut Vec<u8>,
    seq_nbr: u16,
    format: u8,
    ptype: u32,
    bytes_after: u32,
    units: u32,
    value: &[u8],
)
    requires
        value@.len() <= 0xFFFFFFFF,
    ensures
        final(out)@ == old(out)@ + get_property_reply_bytes(
            seq_nbr,
            format,
            ptype,
            bytes_after,
            units,
            value@,
        ),
        wf_record(get_property_reply_bytes(seq_nbr, format, ptype, bytes_after, units, value@)),
        get_property_reply_bytes(seq_nbr, format, ptype, bytes_after, units, value@)[0] == 1,
{
    let n = value.len();
    let p = crate::codec::pad(n);
    out.push(1);
    out.push(format);
    crate::codec::write_u16_le(out, seq_nbr);
    crate::codec::write_u32_le(out, ((n as u64 + p as u64) / 4) as u32);
    crate::codec::write_u32_le(out, ptype);
    crate::codec::write_u32_le(out, bytes_after);
    crate::codec::write_u32_le(out, units);
    crate::codec::write_zeros(out, 12);
    crate::codec::write_bytes(out, value);
    crate::codec::write_zeros(out, p);
    proof {
        assert(out@ =~= old(out)@ + get_property_reply_bytes(
            seq_nbr,
            format,
            ptype,
            bytes_after,
            units,
            value@,
        ));
    }
}

/// Handles `InternAtom`: hands back the atom id of the name, interning it
/// first unless the request asks only for existing atoms, in which case an
/// absent name yields atom zero. A full atom table is an `Alloc` error.
pub fn handle_intern_atom(ctx: &mut Context, q: &InternAtom, seq_nbr: u16, out: &mut Vec<u8>) -> (r:
    Result<(), Error>)
    requires
        old(ctx).wf(),
    ensures
        final(ctx).wf(),
        match r {
            Ok(()) => {
                let (t2, id) = crate::atoms::spec_intern(
                    old(ctx).atoms@,
                    q.name@,
                    q.only_if_exists,
                );
                &&& old(ctx).atoms@.len() < crate::atoms::MAX_ATOM_ID
                &&& final(ctx).atoms@ == t2
                &&& *final(ctx) == (Context { atoms: final(ctx).atoms, ..*old(ctx) })
                &&& final(out)@ == old(out)@ + intern_atom_reply_bytes(seq_nbr, id as u32)
            },
            Err(e) => {
                &&& e == Error::Alloc
                &&& old(ctx).atoms@.len() >= crate::atoms::MAX_ATOM_ID
                &&& *final(ctx) == *old(ctx)
                &&& final(out)@ == old(out)@
            },
        },
{
    if ctx.atoms.len() >= crate::atoms::MAX_ATOM_ID as usize {
        return Err(Error::Alloc);
    }
    let atom = ctx.atoms.intern(q.name.as_slice(), q.only_if_exists);
    write_intern_atom_reply(out, seq_nbr, atom);
    Ok(())
}

/// Handles `GetAtomName`: hands back the name of the atom, or an `Atom`
/// error when the id names no atom. A name too long for the reply's length
/// field is an `Implementation` error.
pub fn handle_get_atom_name(ctx: &Context, q: &GetAtomName, seq_nbr: u16, out: &mut Vec<u8>) -> (r:
    Result<(), Error>)
    requires
        ctx.wf(),
    ensures
        match r {
            Ok(()) => {
                &&& 1 <= q.atom <= ctx.atoms@.len()
                &&& ctx.atoms@[q.atom - 1].len() <= 0xFFFF
                &&& final(out)@ == old(out)@ + get_atom_name_reply_bytes(
                    seq_nbr,
                    ctx.atoms@[q.atom - 1],
                )
            },
            Err(Error::Atom(v)) => v == q.atom && (q.atom == 0 || q.atom > ctx.atoms@.len())
                && final(out)@ == old(out)@,
            Err(Error::Implementation) => 1 <= q.atom <= ctx.atoms@.len() && ctx.atoms@[q.atom
                - 1].len() > 0xFFFF && final(out)@ == old(out)@,
            Err(_) => false,
        },
{
    let name = match ctx.atoms.get_atom(q.atom) {
        Some(n) => n,
        None => {
            return Err(Error::Atom(q.atom));
        }
    };
    if name.len() > 0xFFFF {
        return Err(Error::Implementation);
    }
    write_get_atom_name_reply(out, seq_nbr, name.as_slice());
    Ok(())
}


/// The window read a `GetProperty` performs once its offset is known to be
/// in range: the value bytes handed back, and how many bytes remain after
/// them.
pub open spec fn property_read(p: Property, long_offset: int, long_length: int) -> (Seq<u8>, int) {
    let start = 4 * long_offset;
    let avail = p.spec_data().len() - start;
    let len = if avail < 4 * long_length {
        avail
    } else {
        4 * long_length
    };
    (p.spec_data().subrange(start, start + len), p.spec_data().len() - (start + len))
}

/// Handles `ChangeProperty`: replaces, prepends to, or appends to the named
/// property of the window. An unknown property atom is an `Atom` error and
/// an unknown window a `Window` error; prepending or appending to a property
/// whose type or format differs is a `Match` error; a payload that would
/// outgrow the protocol's length fields is an `Alloc` error. Prepending or
/// appending to an absent property creates it.
pub fn handle_change_property(ctx: &mut Context, q: &crate::requests::ChangeProperty) -> (r: Result<
    (),
    Error,
>)
    requires
        old(ctx).wf(),
        q.format == 8 || q.format == 16 || q.format == 32,
        q.data@.len() as int % (q.format as int / 8) == 0,
        q.data@.len() <= crate::requests::MAX_REQUEST_LEN,
    ensures
        final(ctx).wf(),
        match r {
            Ok(()) => {
                &&& 1 <= q.property <= old(ctx).atoms@.len()
                &&& win_has(old(ctx).windows@, q.window)
                &&& *final(ctx) == (Context { windows: final(ctx).windows, ..*old(ctx) })
                &&& {
                    let ws = old(ctx).windows@;
                    let i = win_index(ws, q.window);
                    let name = old(ctx).atoms@[q.property - 1];
                    let w0 = ws[i];
                    let w2 = final(ctx).windows@[i];
                    &&& final(ctx).windows@ == ws.update(i, w2)
                    &&& w2 == (Window { properties: w2.properties, ..w0 })
                    &&& (forall|m: Seq<u8>|
                        m != name ==> prop_get(w2.spec_props(), m) == prop_get(w0.spec_props(), m))
                    &&& prop_get(w2.spec_props(), name) matches Some(p2) && (match prop_get(
                        w0.spec_props(),
                        name,
                    ) {
                        Some(p0) => match q.mode {
                            crate::requests::ChangePropertyMode::Replace => p2.spec_type()
                                == q.type_atom && p2.spec_format() == q.format && p2.spec_data()
                                == q.data@,
                            crate::requests::ChangePropertyMode::Prepend => p2.spec_type()
                                == p0.spec_type() && p2.spec_format() == p0.spec_format()
                                && p2.spec_data() == q.data@ + p0.spec_data(),
                            crate::requests::ChangePropertyMode::Append => p2.spec_type()
                                == p0.spec_type() && p2.spec_format() == p0.spec_format()
                                && p2.spec_data() == p0.spec_data() + q.data@,
                        },
                        None => p2.spec_type() == q.type_atom && p2.spec_format() == q.format
                            && p2.spec_data() == q.data@,
                    })
                }
            },
            Err(Error::Atom(v)) => v == q.property && (q.property == 0 || q.property > old(ctx).atoms@.len()) && *final(ctx) == *old(ctx),
            Err(Error::Window(v)) => 1 <= q.property <= old(ctx).atoms@.len() && v == q.window
                && !win_has(old(ctx).windows@, q.window) && *final(ctx) == *old(ctx),
            Err(Error::Match) => {
                &&& 1 <= q.property <= old(ctx).atoms@.len()
                &&& win_has(old(ctx).windows@, q.window)
                &&& !(q.mode is Replace)
                &&& {
                    let ws = old(ctx).windows@;
                    let w0 = ws[win_index(ws, q.window)];
                    let name = old(ctx).atoms@[q.property - 1];
                    prop_get(w0.spec_props(), name) matches Some(p0) && (p0.spec_type()
                        != q.type_atom || p0.spec_format() != q.format)
                }
                &&& *final(ctx) == *old(ctx)
            },
            Err(Error::Alloc) => {
                &&& 1 <= q.property <= old(ctx).atoms@.len()
                &&& win_has(old(ctx).windows@, q.window)
                &&& !(q.mode is Replace)
                &&& {
                    let ws = old(ctx).windows@;
                    let w0 = ws[win_index(ws, q.window)];
                    let name = old(ctx).atoms@[q.property - 1];
                    prop_get(w0.spec_props(), name) matches Some(p0) && p0.spec_type()
                        == q.type_atom && p0.spec_format() == q.format && q.data@.len()
                        + p0.spec_data().len() > 0xFFFFFFFF
                }
                &&& *final(ctx) == *old(ctx)
            },
            Err(_) => false,
        },
{
    let name = match ctx.atoms.get_atom(q.property) {
        Some(n) => crate::atoms::bytes_to_vec(n.as_slice()),
        None => {
            return Err(Error::Atom(q.property));
        }
    };
    let i = match ctx.find_window(q.window) {
        Some(i) => i,
        None => {
            return Err(Error::Window(q.window));
        }
    };
    let ghost ws = ctx.windows@;
    let ghost w0 = ws[i as int];
    proof {
        assert(w0.wf());
    }
    let prop: Property = {
        let w = &ctx.windows[i];
        match w.get_property(name.as_slice()) {
            Some(p0) => {
                match q.mode {
                    crate::requests::ChangePropertyMode::Replace => Property::new(
                        q.type_atom,
                        q.format,
                        crate::atoms::bytes_to_vec(q.data.as_slice()),
                    ),
                    crate::requests::ChangePropertyMode::Prepend => {
                        if p0.get_type() != q.type_atom || p0.get_format() != q.format {
                            return Err(Error::Match);
                        }
                        if q.data.len() as u64 + p0.get_data().len() as u64 > 0xFFFFFFFF {
                            return Err(Error::Alloc);
                        }
                        let mut combined = crate::atoms::bytes_to_vec(q.data.as_slice());
                        crate::codec::write_bytes(&mut combined, p0.get_data());
                        proof {
                            let sp = w0.spec_props();
                            let j = crate::window::prop_index(sp, name@);
                            assert(sp[j].1.wf());
                            assert(p0.wf());
                            let m = q.format as int / 8;
                            assert(m == 1 || m == 2 || m == 4);
                            assert(p0.spec_data().len() as int % m == 0);
                            vstd::arithmetic::div_mod::lemma_add_mod_noop(
                                q.data@.len() as int,
                                p0.spec_data().len() as int,
                                m,
                            );
                            assert(combined@.len() == q.data@.len() + p0.spec_data().len());
                            assert(combined@.len() as int % m == 0);
                        }
                        Property::new(q.type_atom, q.format, combined)
                    },
                    crate::requests::ChangePropertyMode::Append => {
                        if p0.get_type() != q.type_atom || p0.get_format() != q.format {
                            return Err(Error::Match);
                        }
                        if q.data.len() as u64 + p0.get_data().len() as u64 > 0xFFFFFFFF {
                            return Err(Error::Alloc);
                        }
                        let mut combined = crate::atoms::bytes_to_vec(p0.get_data());
                        crate::codec::write_bytes(&mut combined, q.data.as_slice());
                        proof {
                            let sp = w0.spec_props();
                            let j = crate::window::prop_index(sp, name@);
                            assert(sp[j].1.wf());
                            assert(p0.wf());
                            let m = q.format as int / 8;
                            assert(m == 1 || m == 2 || m == 4);
                            assert(p0.spec_data().len() as int % m == 0);
                            vstd::arithmetic::div_mod::lemma_add_mod_noop(
                                p0.spec_data().len() as int,
                                q.data@.len() as int,
                                m,
                            );
                            assert(combined@.len() == q.data@.len() + p0.spec_data().len());
                            assert(combined@.len() as int % m == 0);
                        }
                        Property::new(q.type_atom, q.format, combined)
                    },
                }
            },
            None => Property::new(
                q.type_atom,
                q.format,
                crate::atoms::bytes_to_vec(q.data.as_slice()),
            ),
        }
    };
    let ghost theprop = prop;
    let wmut = &mut ctx.windows[i];
    wmut.create_property(name.as_slice(), prop);
    proof {
        crate::ctx::lemma_wf_update_content(ws, i as int, ctx.windows@[i as int]);
        assert(ctx.windows@ =~= ws.update(i as int, ctx.windows@[i as int]));
        crate::window::lemma_prop_set_get(w0.spec_props(), name@, theprop);
        assert forall|m: Seq<u8>| m != name@ implies prop_get(
            ctx.windows@[i as int].spec_props(),
            m,
        ) == prop_get(w0.spec_props(), m) by {
            crate::window::lemma_prop_set_other(w0.spec_props(), name@, theprop, m);
        }
    }
    Ok(())
}

/// Handles `GetProperty`: hands back a window of the named property's data,
/// starting `4 * long_offset` bytes in and at most `4 * long_length` bytes
/// long, together with the property's type and format and the number of
/// bytes left after the window. An offset beyond the data is a `Value`
/// error. Once the last byte has been handed out, a set `delete` flag whose
/// requested type matches removes the property. An absent property yields a
/// reply with format, type and length all zero.
pub fn handle_get_property(
    ctx: &mut Context,
    q: &crate::requests::GetProperty,
    seq_nbr: u16,
    out: &mut Vec<u8>,
) -> (r: Result<(), Error>)
    requires
        old(ctx).wf(),
    ensures
        final(ctx).wf(),
        match r {
            Ok(()) => {
                &&& 1 <= q.property <= old(ctx).atoms@.len()
                &&& win_has(old(ctx).windows@, q.window)
                &&& {
                    let ws = old(ctx).windows@;
                    let i = win_index(ws, q.window);
                    let name = old(ctx).atoms@[q.property - 1];
                    let w0 = ws[i];
                    match prop_get(w0.spec_props(), name) {
                        None => *final(ctx) == *old(ctx) && final(out)@ == old(out)@
                            + get_property_reply_bytes(seq_nbr, 0, 0, 0, 0, Seq::empty()),
                        Some(p) => {
                            let (value, bytes_after) = property_read(
                                p,
                                q.long_offset as int,
                                q.long_length as int,
                            );
                            &&& 4 * q.long_offset <= p.spec_data().len()
                            &&& final(out)@ == old(out)@ + get_property_reply_bytes(
                                seq_nbr,
                                p.spec_format(),
                                p.spec_type(),
                                bytes_after as u32,
                                (value.len() as int / (p.spec_format() as int / 8)) as u32,
                                value,
                            )
                            &&& if q.delete && q.property_type == p.spec_type() && bytes_after
                                == 0 {
                                let w2 = final(ctx).windows@[i];
                                &&& *final(ctx) == (Context {
                                    windows: final(ctx).windows,
                                    ..*old(ctx)
                                })
                                &&& final(ctx).windows@ == ws.update(i, w2)
                                &&& w2 == (Window { properties: w2.properties, ..w0 })
                                &&& prop_get(w2.spec_props(), name) is None
                                &&& (forall|m: Seq<u8>|
                                    m != name ==> prop_get(w2.spec_props(), m) == prop_get(
                                        w0.spec_props(),
                                        m,
                                    ))
                            } else {
                                *final(ctx) == *old(ctx)
                            }
                        },
                    }
                }
            },
            Err(Error::Atom(v)) => v == q.property && (q.property == 0 || q.property > old(ctx).atoms@.len()) && *final(ctx) == *old(ctx) && final(out)@ == old(out)@,
            Err(Error::Window(v)) => 1 <= q.property <= old(ctx).atoms@.len() && v == q.window
                && !win_has(old(ctx).windows@, q.window) && *final(ctx) == *old(ctx) && final(out)@
                == old(out)@,
            Err(Error::Value(v)) => {
                &&& 1 <= q.property <= old(ctx).atoms@.len()
                &&& win_has(old(ctx).windows@, q.window)
                &&& v == q.long_offset
                &&& {
                    let ws = old(ctx).windows@;
                    let name = old(ctx).atoms@[q.property - 1];
                    prop_get(ws[win_index(ws, q.window)].spec_props(), name) matches Some(p) && 4
                        * q.long_offset > p.spec_data().len()
                }
                &&& *final(ctx) == *old(ctx)
                &&& final(out)@ == old(out)@
            },
            Err(_) => false,
        },
{
    let name = match ctx.atoms.get_atom(q.property) {
        Some(n) => crate::atoms::bytes_to_vec(n.as_slice()),
        None => {
            return Err(Error::Atom(q.property));
        }
    };
    let i = match ctx.find_window(q.window) {
        Some(i) => i,
        None => {
            return Err(Error::Window(q.window));
        }
    };
    let ghost ws = ctx.windows@;
    let ghost w0 = ws[i as int];
    proof {
        assert(w0.wf());
    }
    let found: Option<(u8, u32, Vec<u8>, u64)> = {
        let w = &ctx.windows[i];
        match w.get_property(name.as_slice()) {
            None => None,
            Some(p) => {
                let data = p.get_data();
                let start: u64 = 4 * (q.long_offset as u64);
                if start > data.len() as u64 {
                    return Err(Error::Value(q.long_offset));
                }
                let avail: u64 = data.len() as u64 - start;
                let want: u64 = 4 * (q.long_length as u64);
                let len: u64 = if avail < want {
                    avail
                } else {
                    want
                };
                let bytes_after: u64 = data.len() as u64 - (start + len);
                let su = start as usize;
                let lu = len as usize;
                let value = crate::atoms::bytes_to_vec(
                    vstd::slice::slice_subrange(data, su, su + lu),
                );
                Some((p.get_format(), p.get_type(), value, bytes_after))
            },
        }
    };
    match found {
        None => {
            let empty: Vec<u8> = Vec::new();
            write_get_property_reply(out, seq_nbr, 0, 0, 0, 0, empty.as_slice());
            proof {
                assert(empty@ =~= Seq::<u8>::empty());
            }
            Ok(())
        },
        Some((format, ptype, value, bytes_after)) => {
            let units: u32 = (value.len() / ((format / 8) as usize)) as u32;
            write_get_property_reply(
                out,
                seq_nbr,
                format,
                ptype,
                bytes_after as u32,
                units,
                value.as_slice(),
            );
            if q.delete && q.property_type == ptype && bytes_after == 0 {
                let wmut = &mut ctx.windows[i];
                wmut.delete_property(name.as_slice());
                proof {
                    crate::ctx::lemma_wf_update_content(ws, i as int, ctx.windows@[i as int]);
                    assert(ctx.windows@ =~= ws.update(i as int, ctx.windows@[i as int]));
                    crate::window::lemma_prop_remove_get(w0.spec_props(), name@, name@);
                    assert forall|m: Seq<u8>| m != name@ implies prop_get(
                        ctx.windows@[i as int].spec_props(),
                        m,
                    ) == prop_get(w0.spec_props(), m) by {
                        crate::window::lemma_prop_remove_get(w0.spec_props(), name@, m);
                    }
                }
            }
            Ok(())
        },
    }
}


/// The 44-byte reply to `GetWindowAttributes`.
pub open spec fn get_window_attributes_reply_bytes(
    seq_nbr: u16,
    a: crate::window::WindowAttributes,
) -> Seq<u8> {
    seq![1u8, a.backing_store.spec_code()] + u16_le_bytes(seq_nbr as int) + u32_le_bytes(3)
        + u32_le_bytes(a.visual as int) + u16_le_bytes(a.class.spec_code() as int) + seq![
        a.bit_gravity.spec_code(),
        a.win_gravity.spec_code(),
    ] + u32_le_bytes(a.backing_planes as int) + u32_le_bytes(a.backing_pixel as int) + seq![
        (if a.save_under {
            1u8
        } else {
            0u8
        }),
        a.map_is_installed,
        a.map_state.spec_code(),
        (if a.override_redirect {
            1u8
        } else {
            0u8
        }),
    ] + u32_le_bytes(a.colormap as int) + u32_le_bytes(a.event_mask as int) + u32_le_bytes(0)
        + u16_le_bytes((a.do_not_propagate_mask as u16) as int) + zero_bytes(2)
}

/// Writes the reply to `GetWindowAttributes`.
#[verifier::rlimit(100)]
#[verifier::spinoff_prover]
pub fn write_get_window_attributes_reply(
    out: &mut Vec<u8>,
    seq_nbr: u16,
    a: &crate::window::WindowAttributes,
)
    ensures
        final(out)@ == old(out)@ + get_window_attributes_reply_bytes(seq_nbr, *a),
        wf_record(get_window_attributes_reply_bytes(seq_nbr, *a)),
        get_window_attributes_reply_bytes(seq_nbr, *a)[0] == 1,
{
    out.push(1);
    out.push(a.backing_store.code());
    crate::codec::write_u16_le(out, seq_nbr);
    crate::codec::write_u32_le(out, 3);
    crate::codec::write_u32_le(out, a.visual);
    crate::codec::write_u16_le(out, a.class.code() as u16);
    out.push(a.bit_gravity.code());
    out.push(a.win_gravity.code());
    crate::codec::write_u32_le(out, a.backing_planes);
    crate::codec::write_u32_le(out, a.backing_pixel);
    out.push(if a.save_under { 1 } else { 0 });
    out.push(a.map_is_installed);
    out.push(a.map_state.code());
    out.push(if a.override_redirect { 1 } else { 0 });
    crate::codec::write_u32_le(out, a.colormap);
    crate::codec::write_u32_le(out, a.event_mask);
    crate::codec::write_u32_le(out, 0);
    crate::codec::write_u16_le(out, a.do_not_propagate_mask as u16);
    crate::codec::write_zeros(out, 2);
    proof {
        assert(out@ =~= old(out)@ + get_window_attributes_reply_bytes(seq_nbr, *a));
    }
}

/// Handles `GetWindowAttributes`: hands the window's attribute record back,
/// or a `Window` error when the id names no window.
pub fn handle_get_window_attributes(
    ctx: &Context,
    q: &crate::requests::GetWindowAttributes,
    seq_nbr: u16,
    out: &mut Vec<u8>,
) -> (r: Result<(), Error>)
    requires
        ctx.wf(),
    ensures
        match r {
            Ok(()) => win_has(ctx.windows@, q.window) && final(out)@ == old(out)@
                + get_window_attributes_reply_bytes(
                seq_nbr,
                ctx.windows@[win_index(ctx.windows@, q.window)].attributes,
            ),
            Err(Error::Window(v)) => v == q.window && !win_has(ctx.windows@, q.window) && final(out)@
                == old(out)@,
            Err(_) => false,
        },
{
    let i = match ctx.find_window(q.window) {
        Some(i) => i,
        None => {
            return Err(Error::Window(q.window));
        }
    };
    let a = ctx.windows[i].attributes;
    write_get_window_attributes_reply(out, seq_nbr, &a);
    Ok(())
}

/// The 32-byte reply to `GetGeometry`.
pub open spec fn get_geometry_reply_bytes(
    seq_nbr: u16,
    depth: u8,
    root: u32,
    rect: crate::protocol::Rectangle,
    border_width: u16,
) -> Seq<u8> {
    seq![1u8, depth] + u16_le_bytes(seq_nbr as int) + u32_le_bytes(0) + u32_le_bytes(root as int)
        + u16_le_bytes((rect.x as u16) as int) + u16_le_bytes((rect.y as u16) as int)
        + u16_le_bytes(rect.width as int) + u16_le_bytes(rect.height as int) + u16_le_bytes(
        border_width as int,
    ) + zero_bytes(10)
}

/// Writes the reply to `GetGeometry`.
pub fn write_get_geometry_reply(
    out: &mut Vec<u8>,
    seq_nbr: u16,
    depth: u8,
    root: u32,
    rect: crate::protocol::Rectangle,
    border_width: u16,
)
    ensures
        final(out)@ == old(out)@ + get_geometry_reply_bytes(seq_nbr, depth, root, rect, border_width),
        wf_record(get_geometry_reply_bytes(seq_nbr, depth, root, rect, border_width)),
        get_geometry_reply_bytes(seq_nbr, depth, root, rect, border_width)[0] == 1,
{
    out.push(1);
    out.push(depth);
    crate::codec::write_u16_le(out, seq_nbr);
    crate::codec::write_u32_le(out, 0);
    crate::codec::write_u32_le(out, root);
    crate::codec::write_u16_le(out, rect.x as u16);
    crate::codec::write_u16_le(out, rect.y as u16);
    crate::codec::write_u16_le(out, rect.width);
    crate::codec::write_u16_le(out, rect.height);
    crate::codec::write_u16_le(out, border_width);
    crate::codec::write_zeros(out, 10);
    proof {
        assert(out@ =~= old(out)@ + get_geometry_reply_bytes(
            seq_nbr,
            depth,
            root,
            rect,
            border_width,
        ));
    }
}

/// Handles `GetGeometry`: hands back the drawable's depth, root, rectangle
/// and border width, or a `Drawable` error when the id names no drawable.
pub fn handle_get_geometry(
    ctx: &Context,
    q: &crate::requests::GetGeometry,
    seq_nbr: u16,
    out: &mut Vec<u8>,
) -> (r: Result<(), Error>)
    requires
        ctx.wf(),
    ensures
        match r {
            Ok(()) => win_has(ctx.windows@, q.drawable) && {
                let w = ctx.windows@[win_index(ctx.windows@, q.drawable)];
                final(out)@ == old(out)@ + get_geometry_reply_bytes(
                    seq_nbr,
                    w.spec_depth(),
                    crate::ctx::spec_root_of(ctx.windows@, q.drawable, ctx.windows@.len() as int),
                    w.spec_rect(),
                    w.spec_border_width(),
                )
            },
            Err(Error::Drawable(v)) => v == q.drawable && !win_has(ctx.windows@, q.drawable)
                && final(out)@ == old(out)@,
            Err(_) => false,
        },
{
    let i = match ctx.find_window(q.drawable) {
        Some(i) => i,
        None => {
            return Err(Error::Drawable(q.drawable));
        }
    };
    let root = ctx.get_root_of(q.drawable);
    let depth = ctx.windows[i].get_depth();
    let rect = ctx.windows[i].get_rectangle();
    let bw = ctx.windows[i].get_border_width();
    write_get_geometry_reply(out, seq_nbr, depth, root, rect, bw);
    Ok(())
}

/// The 32-byte reply to `GetSelectionOwner`.
pub open spec fn get_selection_owner_reply_bytes(seq_nbr: u16, owner: u32) -> Seq<u8> {
    seq![1u8, 0u8] + u16_le_bytes(seq_nbr as int) + u32_le_bytes(0) + u32_le_bytes(owner as int)
        + zero_bytes(20)
}

/// Writes the reply to `GetSelectionOwner`.
pub fn write_get_selection_owner_reply(out: &mut Vec<u8>, seq_nbr: u16, owner: u32)
    ensures
        final(out)@ == old(out)@ + get_selection_owner_reply_bytes(seq_nbr, owner),
        wf_record(get_selection_owner_reply_bytes(seq_nbr, owner)),
        get_selection_owner_reply_bytes(seq_nbr, owner)[0] == 1,
{
    out.push(1);
    out.push(0);
    crate::codec::write_u16_le(out, seq_nbr);
    crate::codec::write_u32_le(out, 0);
    crate::codec::write_u32_le(out, owner);
    crate::codec::write_zeros(out, 20);
    proof {
        assert(out@ =~= old(out)@ + get_selection_owner_reply_bytes(seq_nbr, owner));
    }
}

/// Handles `GetSelectionOwner`: hands back the owning window of the named
/// selection, zero when the selection is unowned or unknown; an atom that
/// names nothing is an `Atom` error.
pub fn handle_get_selection_owner(
    ctx: &Context,
    q: &crate::requests::GetSelectionOwner,
    seq_nbr: u16,
    out: &mut Vec<u8>,
) -> (r: Result<(), Error>)
    requires
        ctx.wf(),
    ensures
        match r {
            Ok(()) => 1 <= q.atom <= ctx.atoms@.len() && {
                let name = ctx.atoms@[q.atom - 1];
                if forall|i: int|
                    0 <= i < ctx.selections@.len() ==> (#[trigger] ctx.selections@[i].0)@
                        != name {
                    final(out)@ == old(out)@ + get_selection_owner_reply_bytes(seq_nbr, 0)
                } else {
                    exists|i: int|
                        {
                            &&& 0 <= i < ctx.selections@.len()
                            &&& (#[trigger] ctx.selections@[i].0)@ == name
                            &&& final(out)@ == old(out)@ + get_selection_owner_reply_bytes(
                                seq_nbr,
                                match ctx.selections@[i].1.spec_owner() {
                                    Some(o) => o,
                                    None => 0,
                                },
                            )
                        }
                }
            },
            Err(Error::Atom(v)) => v == q.atom && (q.atom == 0 || q.atom > ctx.atoms@.len())
                && final(out)@ == old(out)@,
            Err(_) => false,
        },
{
    let name = match ctx.atoms.get_atom(q.atom) {
        Some(n) => crate::atoms::bytes_to_vec(n.as_slice()),
        None => {
            return Err(Error::Atom(q.atom));
        }
    };
    let owner: u32 = match ctx.get_selection(name.as_slice()) {
        Some(sel) => match sel.get_owner() {
            Some(o) => o,
            None => 0,
        },
        None => 0,
    };
    write_get_selection_owner_reply(out, seq_nbr, owner);
    Ok(())
}

/// The 32-byte reply to `QueryPointer`.
pub open spec fn query_pointer_reply_bytes(seq_nbr: u16, root: u32, x: i16, y: i16) -> Seq<u8> {
    seq![1u8, 1u8] + u16_le_bytes(seq_nbr as int) + u32_le_bytes(0) + u32_le_bytes(root as int)
        + u32_le_bytes(0) + u16_le_bytes((x as u16) as int) + u16_le_bytes((y as u16) as int)
        + u16_le_bytes(0) + u16_le_bytes(0) + u16_le_bytes(0) + zero_bytes(6)
}

/// Writes the reply to `QueryPointer`.
pub fn write_query_pointer_reply(out: &mut Vec<u8>, seq_nbr: u16, root: u32, x: i16, y: i16)
    ensures
        final(out)@ == old(out)@ + query_pointer_reply_bytes(seq_nbr, root, x, y),
        wf_record(query_pointer_reply_bytes(seq_nbr, root, x, y)),
        query_pointer_reply_bytes(seq_nbr, root, x, y)[0] == 1,
{
    out.push(1);
    out.push(1);
    crate::codec::write_u16_le(out, seq_nbr);
    crate::codec::write_u32_le(out, 0);
    crate::codec::write_u32_le(out, root);
    crate::codec::write_u32_le(out, 0);
    crate::codec::write_u16_le(out, x as u16);
    crate::codec::write_u16_le(out, y as u16);
    crate::codec::write_u16_le(out, 0);
    crate::codec::write_u16_le(out, 0);
    crate::codec::write_u16_le(out, 0);
    crate::codec::write_zeros(out, 6);
    proof {
        assert(out@ =~= old(out)@ + query_pointer_reply_bytes(seq_nbr, root, x, y));
    }
}

/// Handles `QueryPointer`: hands back the pointer's position on its root
/// window — the first screen's root — or a `Window` error when the id names
/// no window.
pub fn handle_query_pointer(
    ctx: &Context,
    q: &crate::requests::QueryPointer,
    seq_nbr: u16,
    out: &mut Vec<u8>,
) -> (r: Result<(), Error>)
    requires
        ctx.wf(),
    ensures
        match r {
            Ok(()) => win_has(ctx.windows@, q.window) && final(out)@ == old(out)@
                + query_pointer_reply_bytes(
                seq_nbr,
                if ctx.screens@.len() > 0 {
                    ctx.screens@[0].root_win_id
                } else {
                    0
                },
                ctx.pointer.x,
                ctx.pointer.y,
            ),
            Err(Error::Window(v)) => v == q.window && !win_has(ctx.windows@, q.window) && final(out)@
                == old(out)@,
            Err(_) => false,
        },
{
    if ctx.find_window(q.window).is_none() {
        return Err(Error::Window(q.window));
    }
    let root: u32 = if ctx.screens.len() > 0 {
        ctx.screens[0].root_win_id
    } else {
        0
    };
    write_query_pointer_reply(out, seq_nbr, root, ctx.pointer.x, ctx.pointer.y);
    Ok(())
}

/// The 32-byte reply to `QueryExtension`.
pub open spec fn query_extension_reply_bytes(
    seq_nbr: u16,
    present: u8,
    major_opcode: u8,
    first_event: u8,
    first_error: u8,
) -> Seq<u8> {
    seq![1u8, 0u8] + u16_le_bytes(seq_nbr as int) + u32_le_bytes(0) + seq![
        present,
        major_opcode,
        first_event,
        first_error,
    ] + zero_bytes(20)
}

/// Writes the reply to `QueryExtension`.
pub fn write_query_extension_reply(
    out: &mut Vec<u8>,
    seq_nbr: u16,
    present: u8,
    major_opcode: u8,
    first_event: u8,
    first_error: u8,
)
    ensures
        final(out)@ == old(out)@ + query_extension_reply_bytes(
            seq_nbr,
            present,
            major_opcode,
            first_event,
            first_error,
        ),
        wf_record(
            query_extension_reply_bytes(seq_nbr, present, major_opcode, first_event, first_error),
        ),
        query_extension_reply_bytes(seq_nbr, present, major_opcode, first_event, first_error)[0]
            == 1,
{
    out.push(1);
    out.push(0);
    crate::codec::write_u16_le(out, seq_nbr);
    crate::codec::write_u32_le(out, 0);
    out.push(present);
    out.push(major_opcode);
    out.push(first_event);
    out.push(first_error);
    crate::codec::write_zeros(out, 20);
    proof {
        assert(out@ =~= old(out)@ + query_extension_reply_bytes(
            seq_nbr,
            present,
            major_opcode,
            first_event,
            first_error,
        ));
    }
}

/// Handles `QueryExtension`. A loaded extension is reported present with
/// the numbers its registry record carries. The BIG-REQUEST extension, which
/// this library itself implements, is loaded lazily on its first query: its
/// single request is registered under a fresh major opcode. Any other
/// unloaded name is reported absent, with all numbers zero.
pub fn handle_query_extension(
    ctx: &mut Context,
    q: &crate::requests::QueryExtension,
    seq_nbr: u16,
    out: &mut Vec<u8>,
) -> (r: Result<(), Error>)
    requires
        old(ctx).wf(),
    ensures
        final(ctx).wf(),
        r is Ok,
        final(ctx).windows@ == old(ctx).windows@,
        final(ctx).atoms == old(ctx).atoms,
        final(ctx).grabbing_client == old(ctx).grabbing_client,
        final(ctx).screens@ == old(ctx).screens@,
        crate::ctx::ext_known(old(ctx).extensions@, q.name@) ==> ({
            let e = old(ctx).extensions@[crate::ctx::ext_index(old(ctx).extensions@, q.name@)];
            &&& *final(ctx) == *old(ctx)
            &&& final(out)@ == old(out)@ + query_extension_reply_bytes(
                seq_nbr,
                1,
                e.major_opcode,
                e.first_event,
                e.first_error,
            )
        }),
        (!crate::ctx::ext_known(old(ctx).extensions@, q.name@) && q.name@
            == "BIG-REQUEST".spec_bytes() && old(ctx).next_ext_opcode < 255) ==> exists|maj: u8|
            {
                &&& maj >= 128
                &&& final(out)@ == old(out)@ + query_extension_reply_bytes(seq_nbr, 1, maj, 0, 0)
                &&& final(ctx).custom_requests@ == old(ctx).custom_requests@.push(
                    (maj, crate::ctx::ExtDecoder::BigReqEnable),
                )
                &&& final(ctx).extensions@.len() == old(ctx).extensions@.len() + 1
                &&& (final(ctx).extensions@.last().name)@ == q.name@
                &&& final(ctx).extensions@.last().major_opcode == maj
            },
        (!crate::ctx::ext_known(old(ctx).extensions@, q.name@) && q.name@
            == "BIG-REQUEST".spec_bytes() && old(ctx).next_ext_opcode == 255) ==> *final(ctx)
            == *old(ctx) && final(out)@ == old(out)@ + query_extension_reply_bytes(
            seq_nbr,
            0,
            0,
            0,
            0,
        ),
        (!crate::ctx::ext_known(old(ctx).extensions@, q.name@) && q.name@
            != "BIG-REQUEST".spec_bytes()) ==> *final(ctx) == *old(ctx) && final(out)@ == old(
            out,
        )@ + query_extension_reply_bytes(seq_nbr, 0, 0, 0, 0),
{
    match ctx.find_extension(q.name.as_slice()) {
        Some(e) => {
            let maj = e.get_major_opcode();
            let fe = e.get_first_event();
            let fer = e.get_first_error();
            write_query_extension_reply(out, seq_nbr, 1, maj, fe, fer);
            return Ok(());
        },
        None => {},
    }
    let big_name = crate::atoms::lit_bytes("BIG-REQUEST");
    if crate::atoms::bytes_eq(q.name.as_slice(), big_name.as_slice()) {
        match ctx.register_extension(
            q.name.as_slice(),
            Some(crate::ctx::ExtDecoder::BigReqEnable),
        ) {
            Some((maj, fe, fer)) => {
                write_query_extension_reply(out, seq_nbr, 1, maj, fe, fer);
            },
            None => {
                write_query_extension_reply(out, seq_nbr, 0, 0, 0, 0);
            },
        }
    } else {
        write_query_extension_reply(out, seq_nbr, 0, 0, 0, 0);
    }
    Ok(())
}

/// Handles `OpenFont`: records the font id and name. What the font engine
/// does with the name is outside this library.
pub fn handle_open_font(ctx: &mut Context, q: &crate::requests::OpenFont) -> (r: Result<(), Error>)
    requires
        old(ctx).wf(),
    ensures
        final(ctx).wf(),
        r is Ok,
        *final(ctx) == (Context { fonts: final(ctx).fonts, ..*old(ctx) }),
        final(ctx).fonts@.len() == old(ctx).fonts@.len() + 1,
        final(ctx).fonts@.last().0 == q.fid,
        (final(ctx).fonts@.last().1)@ == q.name@,
{
    let name = crate::atoms::bytes_to_vec(q.name.as_slice());
    ctx.fonts.push((q.fid, name));
    Ok(())
}


/// Handles `CreateWindow`: creates the window under its parent with the
/// requested geometry, applies the requested attributes over the defaults,
/// and resolves a copy-from-parent class to the parent's. An illegal class
/// value is a `Value` error; a zero or taken window id is an `IDChoice`
/// error; an unknown parent is a `Window` error.
pub fn handle_create_window(ctx: &mut Context, q: &crate::requests::CreateWindow) -> (r: Result<
    (),
    Error,
>)
    requires
        old(ctx).wf(),
    ensures
        final(ctx).wf(),
        match r {
            Ok(()) => {
                &&& crate::protocol::Class::try_from_spec(q.class) is Some
                &&& q.wid != 0
                &&& !win_has(old(ctx).windows@, q.wid)
                &&& win_has(old(ctx).windows@, q.parent)
                &&& win_has(final(ctx).windows@, q.wid)
                &&& {
                    let w = final(ctx).windows@[win_index(final(ctx).windows@, q.wid)];
                    let base = crate::window::spec_apply_attrs(
                        crate::window::WindowAttributes::spec_default(),
                        q.attrs@,
                    );
                    &&& w.spec_parent() == Some(q.parent)
                    &&& w.spec_rect() == (crate::protocol::Rectangle {
                        x: q.x,
                        y: q.y,
                        width: q.width,
                        height: q.height,
                    })
                    &&& w.spec_depth() == q.depth
                    &&& w.spec_border_width() == q.border_width
                    &&& w.attributes.visual == q.visual
                    &&& (crate::protocol::Class::try_from_spec(q.class) matches Some(c) ==> (
                    if c is CopyFromParent {
                        w.attributes.class == old(ctx).windows@[win_index(
                            old(ctx).windows@,
                            q.parent,
                        )].attributes.class
                    } else {
                        w.attributes.class == c
                    }))
                    &&& w.attributes == (crate::window::WindowAttributes {
                        visual: w.attributes.visual,
                        class: w.attributes.class,
                        ..base
                    })
                }
                &&& *final(ctx) == (Context { windows: final(ctx).windows, ..*old(ctx) })
            },
            Err(Error::Value(v)) => crate::protocol::Class::try_from_spec(q.class) is None && v
                == q.class as u32 && *final(ctx) == *old(ctx),
            Err(Error::IDChoice(v)) => crate::protocol::Class::try_from_spec(q.class) is Some && v
                == q.wid && (q.wid == 0 || win_has(old(ctx).windows@, q.wid)) && *final(ctx)
                == *old(ctx),
            Err(Error::Window(v)) => crate::protocol::Class::try_from_spec(q.class) is Some && v
                == q.parent && !win_has(old(ctx).windows@, q.parent) && *final(ctx) == *old(ctx),
            Err(_) => false,
        },
{
    let class = match crate::protocol::Class::try_from(q.class) {
        Some(c) => c,
        None => {
            return Err(Error::Value(q.class as u32));
        }
    };
    let rect = crate::protocol::Rectangle {
        x: q.x,
        y: q.y,
        width: q.width,
        height: q.height,
    };
    let parent_class = match ctx.find_window(q.parent) {
        Some(j) => ctx.windows[j].attributes.class,
        None => crate::protocol::Class::InputOnly,
    };
    match ctx.create_window(q.wid, Some(q.parent), rect, q.depth) {
        Ok(()) => {},
        Err(e) => {
            return Err(e);
        }
    }
    let ghost ws1 = ctx.windows@;
    let i = match ctx.find_window(q.wid) {
        Some(i) => i,
        None => {
            proof {
                assert(false);
            }
            return Ok(());
        }
    };
    let mut a = crate::window::WindowAttributes::default();
    crate::window::set_attrs(&mut a, q.attrs.as_slice());
    a.visual = q.visual;
    a.class = match class {
        crate::protocol::Class::CopyFromParent => parent_class,
        c => c,
    };
    let ghost w1 = ctx.windows@[i as int];
    let wmut = &mut ctx.windows[i];
    wmut.set_attributes(a);
    let ghost w2 = ctx.windows@[i as int];
    let wmut2 = &mut ctx.windows[i];
    wmut2.set_border_width(q.border_width);
    proof {
        crate::ctx::lemma_wf_update_content(ws1, i as int, w2);
        crate::ctx::lemma_wf_update_content(ws1.update(i as int, w2), i as int, ctx.windows@[i as int]);
        assert(ctx.windows@ =~= ws1.update(i as int, w2).update(i as int, ctx.windows@[i as int]));
        assert(win_has(ctx.windows@, q.wid)) by {
            assert(ctx.windows@[i as int].spec_id() == q.wid);
        }
        crate::ctx::lemma_win_index_of(ctx.windows@, i as int);
    }
    Ok(())
}

/// Handles `ChangeWindowAttributes`: sets the requested attributes on the
/// window, in ascending bit order, leaving the others alone. An unknown
/// window is a `Window` error.
pub fn handle_change_window_attributes(
    ctx: &mut Context,
    q: &crate::requests::ChangeWindowAttributes,
) -> (r: Result<(), Error>)
    requires
        old(ctx).wf(),
    ensures
        final(ctx).wf(),
        match r {
            Ok(()) => {
                &&& win_has(old(ctx).windows@, q.window)
                &&& *final(ctx) == (Context { windows: final(ctx).windows, ..*old(ctx) })
                &&& {
                    let ws = old(ctx).windows@;
                    let i = win_index(ws, q.window);
                    let w2 = final(ctx).windows@[i];
                    &&& final(ctx).windows@ == ws.update(i, w2)
                    &&& w2 == (Window {
                        attributes: crate::window::spec_apply_attrs(
                            ws[i].attributes,
                            q.changed_attrs@,
                        ),
                        ..ws[i]
                    })
                }
            },
            Err(Error::Window(v)) => v == q.window && !win_has(old(ctx).windows@, q.window)
                && *final(ctx) == *old(ctx),
            Err(_) => false,
        },
{
    let i = match ctx.find_window(q.window) {
        Some(i) => i,
        None => {
            return Err(Error::Window(q.window));
        }
    };
    let ghost ws = ctx.windows@;
    let mut a = ctx.windows[i].attributes;
    crate::window::set_attrs(&mut a, q.changed_attrs.as_slice());
    let wmut = &mut ctx.windows[i];
    wmut.set_attributes(a);
    proof {
        crate::ctx::lemma_wf_update_content(ws, i as int, ctx.windows@[i as int]);
        assert(ctx.windows@ =~= ws.update(i as int, ctx.windows@[i as int]));
    }
    Ok(())
}


/// The 32-byte reply to the BIG-REQUEST extension's enable request, carrying
/// the server's maximum request length in 4-byte units.
pub open spec fn big_req_enable_reply_bytes(seq_nbr: u16, max_units: u32) -> Seq<u8> {
    seq![1u8, 0u8] + u16_le_bytes(seq_nbr as int) + u32_le_bytes(0) + u32_le_bytes(
        max_units as int,
    ) + zero_bytes(20)
}

/// Writes the reply to the BIG-REQUEST enable request.
pub fn write_big_req_enable_reply(out: &mut Vec<u8>, seq_nbr: u16, max_units: u32)
    ensures
        final(out)@ == old(out)@ + big_req_enable_reply_bytes(seq_nbr, max_units),
        wf_record(big_req_enable_reply_bytes(seq_nbr, max_units)),
        big_req_enable_reply_bytes(seq_nbr, max_units)[0] == 1,
{
    out.push(1);
    out.push(0);
    crate::codec::write_u16_le(out, seq_nbr);
    crate::codec::write_u32_le(out, 0);
    crate::codec::write_u32_le(out, max_units);
    crate::codec::write_zeros(out, 20);
    proof {
        assert(out@ =~= old(out)@ + big_req_enable_reply_bytes(seq_nbr, max_units));
    }
}

} // verus!
