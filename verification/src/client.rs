//! The per-client session: the buffered input stream, the handshake state
//! machine, the wrapping sequence counter, the active framing strategy, the
//! per-request dispatch, and the reply bytes owed to the client's stream.
//!
//! The session never touches a socket: bytes read from the client's stream
//! are handed in through `feed`, and the bytes to write back are collected
//! through `take_output`.

use vstd::prelude::*;
use vstd::string::StringSliceAdditionalSpecFns;
use crate::codec::spec_pad;
use crate::ctx::{Context, ExtDecoder, Screen};
use crate::error::{error_record, Error};
use crate::framing::{spec_read_frame, FrameResult, FramingMode};
use crate::gc::GC;

verus! {

/// The state of a client.
#[derive(Clone, Copy, PartialEq, Eq, Structural)]
pub enum ClientState {
    /// The server is waiting for a connect request.
    Waiting,
    /// Connection succeeded.
    ConnectSuccess,
    /// Connection failed.
    ConnectFailed,
}

/// Clips a failure reason to what the record's length byte can carry.
pub open spec fn clip_reason(r: Seq<u8>) -> Seq<u8> {
    if r.len() <= 255 {
        r
    } else {
        r.take(255)
    }
}

/// The reason reported when the client opens with an unsupported protocol
/// version.
pub open spec fn version_reason(major: u16, minor: u16) -> Seq<u8> {
    "Unsupported protocol version: ".spec_bytes() + crate::connect::dec_bytes(major as int)
        + seq![46u8] + crate::connect::dec_bytes(minor as int)
}

/// What one dispatched request may append to the output: either reply
/// records — each a whole multiple of four bytes, at least 32, with the
/// reply type byte — or, when `clean` says the request had no effect,
/// exactly one 32-byte error record under the request's sequence number.
pub open spec fn dispatch_chunk_ok(out0: Seq<u8>, out1: Seq<u8>, seq_nbr: u16, clean: bool) -> bool {
    let chunk = out1.skip(out0.len() as int);
    &&& out1 == out0 + chunk
    &&& ({
        ||| (chunk.len() % 4 == 0 && (chunk.len() == 0 || (chunk.len() >= 32 && chunk[0] == 1)))
        ||| ((exists|e: Error, opcode: u8| chunk == error_record(e, seq_nbr, 0, opcode)) && clean)
    })
}

/// How one handshake step transforms a waiting client: nothing happens until
/// the buffer holds the whole opening record; a wrong byte-order byte or an
/// unsupported protocol major version refuses the connection with a readable
/// reason; otherwise the record is consumed, the acceptance record — with
/// every screen — is written, and the client is connected.
pub open spec fn handshake_step(c0: Client, c1: Client, screens: Seq<Screen>) -> bool {
    let b = c0.buff@;
    if b.len() < 12 {
        c1 == c0
    } else {
        let nl = crate::codec::u16_le_at(b, 6);
        let dl = crate::codec::u16_le_at(b, 8);
        let required = 12 + nl + spec_pad(nl) + dl + spec_pad(dl);
        let major = crate::codec::u16_le_at(b, 2);
        let minor = crate::codec::u16_le_at(b, 4);
        if b.len() < required {
            c1 == c0
        } else if b[0] != crate::connect::MSB_FIRST && b[0] != crate::connect::LSB_FIRST {
            &&& c1 == (Client { state: ClientState::ConnectFailed, out: c1.out, ..c0 })
            &&& c1.out@ == c0.out@ + crate::connect::connect_failed_bytes(
                clip_reason("Invalid byte_order value".spec_bytes()),
            )
        } else if major != crate::protocol::MAJOR_VERSION {
            &&& c1 == (Client {
                state: ClientState::ConnectFailed,
                msb_first: c1.msb_first,
                out: c1.out,
                ..c0
            })
            &&& c1.out@ == c0.out@ + crate::connect::connect_failed_bytes(
                clip_reason(version_reason(major as u16, minor as u16)),
            )
        } else {
            &&& c1 == (Client {
                state: ClientState::ConnectSuccess,
                msb_first: b[0] == crate::connect::MSB_FIRST,
                buff: c1.buff,
                out: c1.out,
                ..c0
            })
            &&& c1.buff@ == b.skip(required)
            &&& c1.out@ == c0.out@ + crate::connect::connect_success_bytes(
                screens,
                c0.max_request_len as int,
            )
        }
    }
}

/// How a framed InternAtom request transforms the server once routed: a
/// body shorter than the name it announces is a `Length` error; a full atom
/// table is an `Alloc` error; otherwise the name is interned and the reply
/// carries its atom id, zero where an absent name was only queried.
pub open spec fn intern_atom_step(
    ctx0: Context,
    ctx1: Context,
    out0: Seq<u8>,
    out1: Seq<u8>,
    body: Seq<u8>,
    only_if_exists: bool,
    seq: u16,
) -> bool {
    let nl = crate::codec::u16_le_at(body, 0);
    if body.len() < 4 || body.len() < 4 + nl + spec_pad(nl) {
        ctx1 == ctx0 && out1 == out0 + error_record(
            Error::Length,
            seq,
            0,
            crate::requests::INTERN_ATOM,
        )
    } else if ctx0.atoms@.len() >= crate::atoms::MAX_ATOM_ID {
        ctx1 == ctx0 && out1 == out0 + error_record(
            Error::Alloc,
            seq,
            0,
            crate::requests::INTERN_ATOM,
        )
    } else {
        let name = body.subrange(4, 4 + nl);
        let (t2, id) = crate::atoms::spec_intern(ctx0.atoms@, name, only_if_exists);
        &&& ctx1 == (Context { atoms: ctx1.atoms, ..ctx0 })
        &&& ctx1.atoms@ == t2
        &&& out1 == out0 + crate::handlers::intern_atom_reply_bytes(seq, id as u32)
    }
}

/// How a framed GetAtomName request transforms the server once routed: a
/// body shorter than the atom field is a `Length` error; an id naming no
/// atom is an `Atom` error; a name too long for the reply's length field is
/// an `Implementation` error; otherwise the reply carries the atom's name.
pub open spec fn get_atom_name_step(
    ctx0: Context,
    ctx1: Context,
    out0: Seq<u8>,
    out1: Seq<u8>,
    body: Seq<u8>,
    seq: u16,
) -> bool {
    let opcode = crate::requests::GET_ATOM_NAME;
    if body.len() < 4 {
        ctx1 == ctx0 && out1 == out0 + error_record(Error::Length, seq, 0, opcode)
    } else {
        let atom = crate::codec::u32_le_at(body, 0);
        if atom == 0 || atom > ctx0.atoms@.len() {
            ctx1 == ctx0 && out1 == out0 + error_record(
                Error::Atom(atom as u32),
                seq,
                0,
                opcode,
            )
        } else if ctx0.atoms@[atom - 1].len() > 0xFFFF {
            ctx1 == ctx0 && out1 == out0 + error_record(Error::Implementation, seq, 0, opcode)
        } else {
            ctx1 == ctx0 && out1 == out0 + crate::handlers::get_atom_name_reply_bytes(
                seq,
                ctx0.atoms@[atom - 1],
            )
        }
    }
}

/// How a framed QueryExtension request transforms the server once routed: a
/// body shorter than the name it announces is a `Length` error; a loaded
/// extension answers present with its record's numbers; an unloaded
/// BIG-REQUEST — the extension this library itself carries — is registered
/// under a fresh opcode while the pool lasts; anything else is absent.
pub open spec fn query_extension_step(
    ctx0: Context,
    ctx1: Context,
    out0: Seq<u8>,
    out1: Seq<u8>,
    body: Seq<u8>,
    seq: u16,
) -> bool {
    let nl = crate::codec::u16_le_at(body, 0);
    if body.len() < 4 || body.len() < 4 + nl + spec_pad(nl) {
        ctx1 == ctx0 && out1 == out0 + error_record(
            Error::Length,
            seq,
            0,
            crate::requests::QUERY_EXTENSION,
        )
    } else {
        let name = body.subrange(4, 4 + nl);
        if crate::ctx::ext_known(ctx0.extensions@, name) {
            let e = ctx0.extensions@[crate::ctx::ext_index(ctx0.extensions@, name)];
            ctx1 == ctx0 && out1 == out0 + crate::handlers::query_extension_reply_bytes(
                seq,
                1,
                e.major_opcode,
                e.first_event,
                e.first_error,
            )
        } else if name == "BIG-REQUEST".spec_bytes() && ctx0.next_ext_opcode < 255 {
            exists|maj: u8|
                {
                    &&& maj >= 128
                    &&& out1 == out0 + crate::handlers::query_extension_reply_bytes(
                        seq,
                        1,
                        maj,
                        0,
                        0,
                    )
                    &&& ctx1.custom_requests@ == ctx0.custom_requests@.push(
                        (maj, ExtDecoder::BigReqEnable),
                    )
                    &&& ctx1.extensions@.len() == ctx0.extensions@.len() + 1
                    &&& (ctx1.extensions@.last().name)@ == name
                    &&& ctx1.extensions@.last().major_opcode == maj
                    &&& ctx1.windows@ == ctx0.windows@
                    &&& ctx1.atoms == ctx0.atoms
                    &&& ctx1.grabbing_client == ctx0.grabbing_client
                    &&& ctx1.screens@ == ctx0.screens@
                }
        } else {
            ctx1 == ctx0 && out1 == out0 + crate::handlers::query_extension_reply_bytes(
                seq,
                0,
                0,
                0,
                0,
            )
        }
    }
}

/// A client of the display server.
pub struct Client {
    /// The ID of the client.
    pub id: u32,
    /// The bytes received from the client's stream and not yet consumed.
    pub buff: Vec<u8>,
    /// The client's state.
    pub state: ClientState,
    /// Tells whether the client works in MSB first.
    pub msb_first: bool,
    /// The last sequence number handed out; it wraps at 16 bits.
    pub sequence_number: u16,
    /// The active request framing. Switching it changes how later requests
    /// are read.
    pub framing: FramingMode,
    /// The server-chosen maximum request length, in bytes.
    pub max_request_len: usize,
    /// The list of graphics contexts. The key is the ID of the context.
    pub gcs: Vec<(u32, GC)>,
    /// The reply and error bytes owed to the client's stream.
    pub out: Vec<u8>,
}

impl Client {
    /// The maximum request length lies between one big-framing header and
    /// the server-wide ceiling.
    pub open spec fn wf(&self) -> bool {
        8 <= self.max_request_len <= crate::requests::MAX_REQUEST_LEN
    }

    /// Creates a new client with the given id, waiting for its handshake.
    pub fn new(id: u32) -> (c: Self)
        ensures
            c.wf(),
            c.id == id,
            c.buff@.len() == 0,
            c.state is Waiting,
            !c.msb_first,
            c.sequence_number == 0,
            c.framing is Standard,
            c.max_request_len == crate::requests::MAX_REQUEST_LEN,
            c.gcs@.len() == 0,
            c.out@.len() == 0,
    {
        Client {
            id,
            buff: Vec::new(),
            state: ClientState::Waiting,
            msb_first: false,
            sequence_number: 0,
            framing: FramingMode::Standard,
            max_request_len: crate::requests::MAX_REQUEST_LEN,
            gcs: Vec::new(),
            out: Vec::new(),
        }
    }

    /// Creates a new client enforcing the given maximum request length.
    pub fn with_max_request_len(id: u32, max_request_len: usize) -> (c: Self)
        requires
            8 <= max_request_len <= crate::requests::MAX_REQUEST_LEN,
        ensures
            c.wf(),
            c.id == id,
            c.buff@.len() == 0,
            c.state is Waiting,
            !c.msb_first,
            c.sequence_number == 0,
            c.framing is Standard,
            c.max_request_len == max_request_len,
            c.gcs@.len() == 0,
            c.out@.len() == 0,
    {
        Client {
            id,
            buff: Vec::new(),
            state: ClientState::Waiting,
            msb_first: false,
            sequence_number: 0,
            framing: FramingMode::Standard,
            max_request_len,
            gcs: Vec::new(),
            out: Vec::new(),
        }
    }

    /// Returns the ID of the client.
    pub fn get_id(&self) -> (r: u32)
        ensures
            r == self.id,
    {
        self.id
    }

    /// Hands bytes read from the client's stream to the session.
    pub fn feed(&mut self, data: &[u8])
        ensures
            *final(self) == (Client { buff: final(self).buff, ..*old(self) }),
            final(self).buff@ == old(self).buff@ + data@,
    {
        crate::codec::write_bytes(&mut self.buff, data);
    }

    /// Takes the bytes owed to the client's stream, leaving none.
    pub fn take_output(&mut self) -> (r: Vec<u8>)
        ensures
            r@ == old(self).out@,
            *final(self) == (Client { out: final(self).out, ..*old(self) }),
            final(self).out@.len() == 0,
    {
        let mut t: Vec<u8> = Vec::new();
        core::mem::swap(&mut t, &mut self.out);
        t
    }

    /// Sets the request framing for the client.
    pub fn set_request_reader(&mut self, framing: FramingMode)
        ensures
            *final(self) == (Client { framing, ..*old(self) }),
    {
        self.framing = framing;
    }

    /// Sets a Graphics Context `gc` with the given ID `cid`.
    pub fn set_gc(&mut self, cid: u32, gc: GC)
        ensures
            *final(self) == (Client { gcs: final(self).gcs, ..*old(self) }),
            final(self).gcs@.len() == old(self).gcs@.len() + 1,
            final(self).gcs@.last().0 == cid,
    {
        self.gcs.push((cid, gc));
    }

    /// Hands out the next sequence number: the counter wraps at 16 bits.
    fn next_sequence_number(&mut self) -> (r: u16)
        ensures
            *final(self) == (Client {
                sequence_number: final(self).sequence_number,
                ..*old(self)
            }),
            final(self).sequence_number == (old(self).sequence_number + 1) % 0x10000,
            r == final(self).sequence_number,
    {
        if self.sequence_number == 0xFFFF {
            self.sequence_number = 0;
        } else {
            self.sequence_number = self.sequence_number + 1;
        }
        self.sequence_number
    }

    /// Drops the first `n` bytes of the input buffer.
    fn consume(&mut self, n: usize)
        requires
            n <= old(self).buff@.len(),
        ensures
            *final(self) == (Client { buff: final(self).buff, ..*old(self) }),
            final(self).buff@ == old(self).buff@.skip(n as int),
    {
        let len = self.buff.len();
        let rest = crate::atoms::bytes_to_vec(
            vstd::slice::slice_subrange(self.buff.as_slice(), n, len),
        );
        self.buff = rest;
        proof {
            assert(self.buff@ =~= old(self).buff@.skip(n as int));
        }
    }

    /// Refuses the connection: writes the failure record, with the reason
    /// clipped to the record's length byte, and marks the client failed.
    fn fail_connect(&mut self, reason: Vec<u8>)
        ensures
            *final(self) == (Client {
                state: ClientState::ConnectFailed,
                out: final(self).out,
                ..*old(self)
            }),
            final(self).out@ == old(self).out@ + crate::connect::connect_failed_bytes(
                clip_reason(reason@),
            ),
    {
        let mut reason = reason;
        if reason.len() > 255 {
            reason.truncate(255);
        }
        crate::connect::write_connect_failed_bytes(&mut self.out, reason.as_slice());
        self.state = ClientState::ConnectFailed;
    }

    /// Handles an incoming connect request, if the buffer holds a whole one.
    ///
    /// A wrong byte-order byte or an unsupported protocol major version
    /// refuses the connection with a readable reason; otherwise the
    /// acceptance record is written, announcing every screen, and the client
    /// moves to the connected state.
    ///
    /// `screens` is the list of screens.
    pub fn handle_connect_request(&mut self, screens: &Vec<Screen>)
        requires
            old(self).wf(),
            screens@.len() <= 255,
        ensures
            final(self).wf(),
            handshake_step(*old(self), *final(self), screens@),
    {
        if self.buff.len() < 12 {
            return ;
        }
        let hdr = crate::connect::ClientConnect::read(self.buff.as_slice());
        let required = hdr.total_len();
        if self.buff.len() < required {
            return ;
        }
        let b0 = self.buff[0];
        if b0 == crate::connect::MSB_FIRST {
            self.msb_first = true;
        } else if b0 == crate::connect::LSB_FIRST {
            self.msb_first = false;
        } else {
            let reason = crate::atoms::lit_bytes("Invalid byte_order value");
            self.fail_connect(reason);
            return ;
        }
        if hdr.protocol_major_version != crate::protocol::MAJOR_VERSION {
            let mut reason = crate::atoms::lit_bytes("Unsupported protocol version: ");
            crate::connect::push_dec(&mut reason, hdr.protocol_major_version);
            reason.push(46);
            crate::connect::push_dec(&mut reason, hdr.protocol_minor_version);
            proof {
                assert(reason@ =~= version_reason(
                    hdr.protocol_major_version,
                    hdr.protocol_minor_version,
                ));
            }
            self.fail_connect(reason);
            return ;
        }
        self.consume(required);
        let max = self.max_request_len;
        crate::connect::write_connect_success_bytes(&mut self.out, screens, max);
        self.state = ClientState::ConnectSuccess;
    }

    /// Handles the BIG-REQUEST extension's enable request: switches this
    /// client — and only this client — to big framing and replies with the
    /// server's maximum request length in 4-byte units. A request carrying
    /// any body announces a wrong length and is a `Length` error that
    /// changes nothing.
    pub fn handle_big_req_enable(&mut self, body: &[u8], seq_nbr: u16) -> (r: Result<(), Error>)
        requires
            old(self).wf(),
        ensures
            final(self).wf(),
            match r {
                Ok(()) => {
                    &&& body@.len() == 0
                    &&& *final(self) == (Client {
                        framing: FramingMode::Big,
                        out: final(self).out,
                        ..*old(self)
                    })
                    &&& final(self).out@ == old(self).out@
                        + crate::handlers::big_req_enable_reply_bytes(
                        seq_nbr,
                        (old(self).max_request_len / 4) as u32,
                    )
                },
                Err(e) => body@.len() != 0 && e == Error::Length && *final(self) == *old(self),
            },
    {
        match crate::requests::read_big_req_enable(body) {
            Ok(()) => {
                self.framing = FramingMode::Big;
                let units = (self.max_request_len / 4) as u32;
                crate::handlers::write_big_req_enable_reply(&mut self.out, seq_nbr, units);
                Ok(())
            },
            Err(e) => Err(e),
        }
    }

    /// Decodes and handles one core-protocol request by opcode. A protocol
    /// error leaves the context and the client untouched and is handed back
    /// for the caller to serialise; an unknown opcode is a `Request` error.
    fn dispatch_builtin(
        &mut self,
        ctx: &mut Context,
        opcode: u8,
        optional: u8,
        body: &[u8],
        seq_nbr: u16,
    ) -> (r: Result<(), Error>)
        requires
            old(self).wf(),
            old(ctx).wf(),
            body@.len() + 4 <= crate::requests::MAX_REQUEST_LEN,
        ensures
            final(self).wf(),
            final(ctx).wf(),
            final(ctx).screens@ == old(ctx).screens@,
            final(ctx).grabbing_client == old(ctx).grabbing_client || final(ctx).grabbing_client is None || final(ctx).grabbing_client == Some(old(self).id),
            *final(self) == (Client {
                gcs: final(self).gcs,
                out: final(self).out,
                ..*old(self)
            }),
            ({
                let chunk = final(self).out@.skip(old(self).out@.len() as int);
                &&& final(self).out@ == old(self).out@ + chunk
                &&& match r {
                    Ok(()) => chunk.len() % 4 == 0 && (chunk.len() == 0 || (chunk.len() >= 32
                        && chunk[0] == 1)),
                    Err(_) => chunk.len() == 0 && *final(ctx) == *old(ctx) && final(self).gcs@
                        == old(self).gcs@,
                }
            }),
            opcode == crate::requests::GRAB_SERVER ==> r is Ok && *final(ctx) == (Context {
                grabbing_client: Some(old(self).id),
                ..*old(ctx)
            }) && final(self).out@ == old(self).out@ && final(self).gcs@ == old(self).gcs@,
            opcode == crate::requests::UNGRAB_SERVER ==> r is Ok && *final(ctx) == (Context {
                grabbing_client: None,
                ..*old(ctx)
            }) && final(self).out@ == old(self).out@ && final(self).gcs@ == old(self).gcs@,
            opcode == crate::requests::NO_OPERATION ==> r is Ok && *final(ctx) == *old(ctx)
                && final(self).out@ == old(self).out@ && final(self).gcs@ == old(self).gcs@,
            !crate::requests::builtin_opcode(opcode) ==> (r matches Err(e) && e is Request),
            opcode == crate::requests::INTERN_ATOM ==> ({
                let nl = crate::codec::u16_le_at(body@, 0);
                if body@.len() < 4 || body@.len() < 4 + nl + spec_pad(nl) {
                    (r matches Err(e) && e is Length) && *final(ctx) == *old(ctx) && final(self).out@ == old(self).out@
                } else if old(ctx).atoms@.len() >= crate::atoms::MAX_ATOM_ID {
                    (r matches Err(e) && e is Alloc) && *final(ctx) == *old(ctx) && final(self).out@ == old(self).out@
                } else {
                    let name = body@.subrange(4, 4 + nl);
                    let (t2, id) = crate::atoms::spec_intern(old(ctx).atoms@, name, optional != 0);
                    &&& r is Ok
                    &&& *final(ctx) == (Context { atoms: final(ctx).atoms, ..*old(ctx) })
                    &&& final(ctx).atoms@ == t2
                    &&& final(self).out@ == old(self).out@
                        + crate::handlers::intern_atom_reply_bytes(seq_nbr, id as u32)
                }
            }),
            opcode == crate::requests::GET_ATOM_NAME ==> ({
                if body@.len() < 4 {
                    (r matches Err(e) && e is Length) && *final(ctx) == *old(ctx) && final(self).out@ == old(self).out@
                } else {
                    let atom = crate::codec::u32_le_at(body@, 0);
                    if atom == 0 || atom > old(ctx).atoms@.len() {
                        (r matches Err(e) && e == Error::Atom(atom as u32)) && *final(ctx)
                            == *old(ctx) && final(self).out@ == old(self).out@
                    } else if old(ctx).atoms@[atom - 1].len() > 0xFFFF {
                        (r matches Err(e) && e is Implementation) && *final(ctx) == *old(ctx)
                            && final(self).out@ == old(self).out@
                    } else {
                        &&& r is Ok
                        &&& *final(ctx) == *old(ctx)
                        &&& final(self).out@ == old(self).out@
                            + crate::handlers::get_atom_name_reply_bytes(
                            seq_nbr,
                            old(ctx).atoms@[atom - 1],
                        )
                    }
                }
            }),
            opcode == crate::requests::QUERY_EXTENSION ==> ({
                let nl = crate::codec::u16_le_at(body@, 0);
                if body@.len() < 4 || body@.len() < 4 + nl + spec_pad(nl) {
                    (r matches Err(e) && e is Length) && *final(ctx) == *old(ctx) && final(self).out@ == old(self).out@
                } else {
                    r is Ok && query_extension_step(
                        *old(ctx),
                        *final(ctx),
                        old(self).out@,
                        final(self).out@,
                        body@,
                        seq_nbr,
                    )
                }
            }),
    {
        if opcode <= crate::requests::GET_GEOMETRY {
            self.dispatch_builtin_low(ctx, opcode, optional, body, seq_nbr)
        } else if opcode <= crate::requests::GET_PROPERTY {
            self.dispatch_builtin_mid(ctx, opcode, optional, body, seq_nbr)
        } else {
            self.dispatch_builtin_high(ctx, opcode, optional, body, seq_nbr)
        }
    }

    /// Decodes and handles one request with a low core opcode: the window
    /// creation, attribute and geometry requests. A protocol error leaves
    /// the context and the client untouched and is handed back for the
    /// caller to serialise.
    #[verifier::rlimit(100)]
    #[verifier::spinoff_prover]
    fn dispatch_builtin_low(
        &mut self,
        ctx: &mut Context,
        opcode: u8,
        optional: u8,
        body: &[u8],
        seq_nbr: u16,
    ) -> (r: Result<(), Error>)
        requires
            old(self).wf(),
            old(ctx).wf(),
            opcode <= crate::requests::GET_GEOMETRY,
            body@.len() + 4 <= crate::requests::MAX_REQUEST_LEN,
        ensures
            final(self).wf(),
            final(ctx).wf(),
            final(ctx).screens@ == old(ctx).screens@,
            final(ctx).grabbing_client == old(ctx).grabbing_client || final(ctx).grabbing_client is None || final(ctx).grabbing_client == Some(old(self).id),
            *final(self) == (Client {
                gcs: final(self).gcs,
                out: final(self).out,
                ..*old(self)
            }),
            ({
                let chunk = final(self).out@.skip(old(self).out@.len() as int);
                &&& final(self).out@ == old(self).out@ + chunk
                &&& match r {
                    Ok(()) => chunk.len() % 4 == 0 && (chunk.len() == 0 || (chunk.len() >= 32
                        && chunk[0] == 1)),
                    Err(_) => chunk.len() == 0 && *final(ctx) == *old(ctx) && final(self).gcs@
                        == old(self).gcs@,
                }
            }),
            opcode == crate::requests::GRAB_SERVER ==> r is Ok && *final(ctx) == (Context {
                grabbing_client: Some(old(self).id),
                ..*old(ctx)
            }) && final(self).out@ == old(self).out@ && final(self).gcs@ == old(self).gcs@,
            opcode == crate::requests::UNGRAB_SERVER ==> r is Ok && *final(ctx) == (Context {
                grabbing_client: None,
                ..*old(ctx)
            }) && final(self).out@ == old(self).out@ && final(self).gcs@ == old(self).gcs@,
            opcode == crate::requests::NO_OPERATION ==> r is Ok && *final(ctx) == *old(ctx)
                && final(self).out@ == old(self).out@ && final(self).gcs@ == old(self).gcs@,
            !crate::requests::builtin_opcode(opcode) ==> (r matches Err(e) && e is Request),
    {
        let ghost out0 = self.out@;
        let r: Result<(), Error> = match opcode {
            crate::requests::CREATE_WINDOW => {
                match crate::requests::read_create_window(body, optional) {
                    Ok(Some(q)) => crate::handlers::handle_create_window(ctx, &q),
                    Ok(None) => Err(Error::Length),
                    Err(e) => Err(e),
                }
            },
            crate::requests::CHANGE_WINDOW_ATTRIBUTES => {
                match crate::requests::read_change_window_attributes(body) {
                    Ok(Some(q)) => crate::handlers::handle_change_window_attributes(ctx, &q),
                    Ok(None) => Err(Error::Length),
                    Err(e) => Err(e),
                }
            },
            crate::requests::GET_WINDOW_ATTRIBUTES => {
                match crate::requests::read_resource_id(body) {
                    Some(window) => crate::handlers::handle_get_window_attributes(
                        ctx,
                        &(crate::requests::GetWindowAttributes { window }),
                        seq_nbr,
                        &mut self.out,
                    ),
                    None => Err(Error::Length),
                }
            },
            crate::requests::GET_GEOMETRY => {
                match crate::requests::read_resource_id(body) {
                    Some(drawable) => crate::handlers::handle_get_geometry(
                        ctx,
                        &(crate::requests::GetGeometry { drawable }),
                        seq_nbr,
                        &mut self.out,
                    ),
                    None => Err(Error::Length),
                }
            },
            _ => Err(Error::Request),
        };
        proof {
            let chunk = self.out@.skip(out0.len() as int);
            assert(self.out@ =~= out0 + chunk);
        }
        r
    }

    /// Decodes and handles one request with a middle core opcode: the atom
    /// and property requests. A protocol error leaves the context and the
    /// client untouched and is handed back for the caller to serialise.
    #[verifier::rlimit(100)]
    #[verifier::spinoff_prover]
    fn dispatch_builtin_mid(
        &mut self,
        ctx: &mut Context,
        opcode: u8,
        optional: u8,
        body: &[u8],
        seq_nbr: u16,
    ) -> (r: Result<(), Error>)
        requires
            old(self).wf(),
            old(ctx).wf(),
            crate::requests::GET_GEOMETRY < opcode <= crate::requests::GET_PROPERTY,
            body@.len() + 4 <= crate::requests::MAX_REQUEST_LEN,
        ensures
            final(self).wf(),
            final(ctx).wf(),
            final(ctx).screens@ == old(ctx).screens@,
            final(ctx).grabbing_client == old(ctx).grabbing_client || final(ctx).grabbing_client is None || final(ctx).grabbing_client == Some(old(self).id),
            *final(self) == (Client {
                gcs: final(self).gcs,
                out: final(self).out,
                ..*old(self)
            }),
            ({
                let chunk = final(self).out@.skip(old(self).out@.len() as int);
                &&& final(self).out@ == old(self).out@ + chunk
                &&& match r {
                    Ok(()) => chunk.len() % 4 == 0 && (chunk.len() == 0 || (chunk.len() >= 32
                        && chunk[0] == 1)),
                    Err(_) => chunk.len() == 0 && *final(ctx) == *old(ctx) && final(self).gcs@
                        == old(self).gcs@,
                }
            }),
            opcode == crate::requests::GRAB_SERVER ==> r is Ok && *final(ctx) == (Context {
                grabbing_client: Some(old(self).id),
                ..*old(ctx)
            }) && final(self).out@ == old(self).out@ && final(self).gcs@ == old(self).gcs@,
            opcode == crate::requests::UNGRAB_SERVER ==> r is Ok && *final(ctx) == (Context {
                grabbing_client: None,
                ..*old(ctx)
            }) && final(self).out@ == old(self).out@ && final(self).gcs@ == old(self).gcs@,
            opcode == crate::requests::NO_OPERATION ==> r is Ok && *final(ctx) == *old(ctx)
                && final(self).out@ == old(self).out@ && final(self).gcs@ == old(self).gcs@,
            !crate::requests::builtin_opcode(opcode) ==> (r matches Err(e) && e is Request),
            opcode == crate::requests::INTERN_ATOM ==> ({
                let nl = crate::codec::u16_le_at(body@, 0);
                if body@.len() < 4 || body@.len() < 4 + nl + spec_pad(nl) {
                    (r matches Err(e) && e is Length) && *final(ctx) == *old(ctx) && final(self).out@ == old(self).out@
                } else if old(ctx).atoms@.len() >= crate::atoms::MAX_ATOM_ID {
                    (r matches Err(e) && e is Alloc) && *final(ctx) == *old(ctx) && final(self).out@ == old(self).out@
                } else {
                    let name = body@.subrange(4, 4 + nl);
                    let (t2, id) = crate::atoms::spec_intern(old(ctx).atoms@, name, optional != 0);
                    &&& r is Ok
                    &&& *final(ctx) == (Context { atoms: final(ctx).atoms, ..*old(ctx) })
                    &&& final(ctx).atoms@ == t2
                    &&& final(self).out@ == old(self).out@
                        + crate::handlers::intern_atom_reply_bytes(seq_nbr, id as u32)
                }
            }),
            opcode == crate::requests::GET_ATOM_NAME ==> ({
                if body@.len() < 4 {
                    (r matches Err(e) && e is Length) && *final(ctx) == *old(ctx) && final(self).out@ == old(self).out@
                } else {
                    let atom = crate::codec::u32_le_at(body@, 0);
                    if atom == 0 || atom > old(ctx).atoms@.len() {
                        (r matches Err(e) && e == Error::Atom(atom as u32)) && *final(ctx)
                            == *old(ctx) && final(self).out@ == old(self).out@
                    } else if old(ctx).atoms@[atom - 1].len() > 0xFFFF {
                        (r matches Err(e) && e is Implementation) && *final(ctx) == *old(ctx)
                            && final(self).out@ == old(self).out@
                    } else {
                        &&& r is Ok
                        &&& *final(ctx) == *old(ctx)
                        &&& final(self).out@ == old(self).out@
                            + crate::handlers::get_atom_name_reply_bytes(
                            seq_nbr,
                            old(ctx).atoms@[atom - 1],
                        )
                    }
                }
            }),
    {
        let ghost out0 = self.out@;
        let r: Result<(), Error> = match opcode {
            crate::requests::INTERN_ATOM => {
                match crate::requests::read_intern_atom(body, optional) {
                    Ok(Some(q)) => crate::handlers::handle_intern_atom(
                        ctx,
                        &q,
                        seq_nbr,
                        &mut self.out,
                    ),
                    Ok(None) => Err(Error::Length),
                    Err(e) => Err(e),
                }
            },
            crate::requests::GET_ATOM_NAME => {
                match crate::requests::read_get_atom_name(body) {
                    Ok(Some(q)) => crate::handlers::handle_get_atom_name(
                        ctx,
                        &q,
                        seq_nbr,
                        &mut self.out,
                    ),
                    Ok(None) => Err(Error::Length),
                    Err(e) => Err(e),
                }
            },
            crate::requests::CHANGE_PROPERTY => {
                match crate::requests::read_change_property(body, optional) {
                    Ok(Some(q)) => crate::handlers::handle_change_property(ctx, &q),
                    Ok(None) => Err(Error::Length),
                    Err(e) => Err(e),
                }
            },
            crate::requests::GET_PROPERTY => {
                match crate::requests::read_get_property(body, optional) {
                    Ok(Some(q)) => crate::handlers::handle_get_property(
                        ctx,
                        &q,
                        seq_nbr,
                        &mut self.out,
                    ),
                    Ok(None) => Err(Error::Length),
                    Err(e) => Err(e),
                }
            },
            _ => Err(Error::Request),
        };
        proof {
            let chunk = self.out@.skip(out0.len() as int);
            assert(self.out@ =~= out0 + chunk);
        }
        r
    }

    /// Decodes and handles one request with a high core opcode: selections,
    /// grabs, the pointer, fonts, graphics contexts and extension queries.
    /// A protocol error leaves the context and the client untouched and is
    /// handed back for the caller to serialise; an unknown opcode is a
    /// `Request` error.
    #[verifier::rlimit(100)]
    #[verifier::spinoff_prover]
    fn dispatch_builtin_high(
        &mut self,
        ctx: &mut Context,
        opcode: u8,
        optional: u8,
        body: &[u8],
        seq_nbr: u16,
    ) -> (r: Result<(), Error>)
        requires
            old(self).wf(),
            old(ctx).wf(),
            opcode > crate::requests::GET_PROPERTY,
            body@.len() + 4 <= crate::requests::MAX_REQUEST_LEN,
        ensures
            final(self).wf(),
            final(ctx).wf(),
            final(ctx).screens@ == old(ctx).screens@,
            final(ctx).grabbing_client == old(ctx).grabbing_client || final(ctx).grabbing_client is None || final(ctx).grabbing_client == Some(old(self).id),
            *final(self) == (Client {
                gcs: final(self).gcs,
                out: final(self).out,
                ..*old(self)
            }),
            ({
                let chunk = final(self).out@.skip(old(self).out@.len() as int);
                &&& final(self).out@ == old(self).out@ + chunk
                &&& match r {
                    Ok(()) => chunk.len() % 4 == 0 && (chunk.len() == 0 || (chunk.len() >= 32
                        && chunk[0] == 1)),
                    Err(_) => chunk.len() == 0 && *final(ctx) == *old(ctx) && final(self).gcs@
                        == old(self).gcs@,
                }
            }),
            opcode == crate::requests::GRAB_SERVER ==> r is Ok && *final(ctx) == (Context {
                grabbing_client: Some(old(self).id),
                ..*old(ctx)
            }) && final(self).out@ == old(self).out@ && final(self).gcs@ == old(self).gcs@,
            opcode == crate::requests::UNGRAB_SERVER ==> r is Ok && *final(ctx) == (Context {
                grabbing_client: None,
                ..*old(ctx)
            }) && final(self).out@ == old(self).out@ && final(self).gcs@ == old(self).gcs@,
            opcode == crate::requests::NO_OPERATION ==> r is Ok && *final(ctx) == *old(ctx)
                && final(self).out@ == old(self).out@ && final(self).gcs@ == old(self).gcs@,
            !crate::requests::builtin_opcode(opcode) ==> (r matches Err(e) && e is Request),
            opcode == crate::requests::QUERY_EXTENSION ==> ({
                let nl = crate::codec::u16_le_at(body@, 0);
                if body@.len() < 4 || body@.len() < 4 + nl + spec_pad(nl) {
                    (r matches Err(e) && e is Length) && *final(ctx) == *old(ctx) && final(self).out@ == old(self).out@
                } else {
                    r is Ok && query_extension_step(
                        *old(ctx),
                        *final(ctx),
                        old(self).out@,
                        final(self).out@,
                        body@,
                        seq_nbr,
                    )
                }
            }),
    {
        let ghost out0 = self.out@;
        let r: Result<(), Error> = match opcode {
            crate::requests::GET_SELECTION_OWNER => {
                match crate::requests::read_resource_id(body) {
                    Some(atom) => crate::handlers::handle_get_selection_owner(
                        ctx,
                        &(crate::requests::GetSelectionOwner { atom }),
                        seq_nbr,
                        &mut self.out,
                    ),
                    None => Err(Error::Length),
                }
            },
            crate::requests::GRAB_SERVER => {
                ctx.grab_by(self.id);
                Ok(())
            },
            crate::requests::UNGRAB_SERVER => {
                ctx.ungrab();
                Ok(())
            },
            crate::requests::QUERY_POINTER => {
                match crate::requests::read_resource_id(body) {
                    Some(window) => crate::handlers::handle_query_pointer(
                        ctx,
                        &(crate::requests::QueryPointer { window }),
                        seq_nbr,
                        &mut self.out,
                    ),
                    None => Err(Error::Length),
                }
            },
            crate::requests::OPEN_FONT => {
                match crate::requests::read_open_font(body) {
                    Ok(Some(q)) => crate::handlers::handle_open_font(ctx, &q),
                    Ok(None) => Err(Error::Length),
                    Err(e) => Err(e),
                }
            },
            crate::requests::CREATE_GC => {
                match crate::requests::read_create_gc(body) {
                    Ok(Some(q)) => {
                        self.gcs.push((q.cid, q.gc));
                        Ok(())
                    },
                    Ok(None) => Err(Error::Length),
                    Err(e) => Err(e),
                }
            },
            crate::requests::QUERY_EXTENSION => {
                match crate::requests::read_query_extension(body) {
                    Ok(Some(q)) => crate::handlers::handle_query_extension(
                        ctx,
                        &q,
                        seq_nbr,
                        &mut self.out,
                    ),
                    Ok(None) => Err(Error::Length),
                    Err(e) => Err(e),
                }
            },
            crate::requests::NO_OPERATION => Ok(()),
            _ => Err(Error::Request),
        };
        proof {
            let chunk = self.out@.skip(out0.len() as int);
            assert(self.out@ =~= out0 + chunk);
        }
        r
    }

    /// Decodes and handles one framed request. On a protocol error — from
    /// the decoder, from the handler, or from a body shorter than the fields
    /// it announces — the context is left untouched and exactly one 32-byte
    /// error record is written; otherwise the request's side effects are
    /// applied and its reply, if it has one, is written.
    fn dispatch_request(
        &mut self,
        ctx: &mut Context,
        opcode: u8,
        optional: u8,
        body: &[u8],
        seq_nbr: u16,
    )
        requires
            old(self).wf(),
            old(ctx).wf(),
            body@.len() + 4 <= crate::requests::MAX_REQUEST_LEN,
        ensures
            final(self).wf(),
            final(ctx).wf(),
            final(ctx).screens@ == old(ctx).screens@,
            final(ctx).grabbing_client == old(ctx).grabbing_client || final(ctx).grabbing_client is None || final(ctx).grabbing_client == Some(old(self).id),
            *final(self) == (Client {
                framing: final(self).framing,
                gcs: final(self).gcs,
                out: final(self).out,
                ..*old(self)
            }),
            ({
                let chunk = final(self).out@.skip(old(self).out@.len() as int);
                &&& final(self).out@ == old(self).out@ + chunk
                &&& ({
                    ||| (chunk.len() % 4 == 0 && (chunk.len() == 0 || (chunk.len() >= 32
                        && chunk[0] == 1)))
                    ||| (exists|e: Error|
                        chunk == error_record(e, seq_nbr, 0, opcode) && *final(ctx) == *old(ctx)
                            && final(self).gcs@ == old(self).gcs@ && final(self).framing == old(self).framing)
                })
            }),
            !crate::ctx::custom_has(old(ctx).custom_requests@, opcode) ==> {
                &&& (opcode == crate::requests::GRAB_SERVER ==> *final(ctx) == (Context {
                    grabbing_client: Some(old(self).id),
                    ..*old(ctx)
                }) && final(self).out@ == old(self).out@ && final(self).gcs@ == old(self).gcs@
                    && final(self).framing == old(self).framing)
                &&& (opcode == crate::requests::UNGRAB_SERVER ==> *final(ctx) == (Context {
                    grabbing_client: None,
                    ..*old(ctx)
                }) && final(self).out@ == old(self).out@ && final(self).gcs@ == old(self).gcs@
                    && final(self).framing == old(self).framing)
                &&& (opcode == crate::requests::NO_OPERATION ==> *final(ctx) == *old(ctx) && final(self).out@ == old(self).out@ && final(self).gcs@ == old(self).gcs@ && final(self).framing == old(self).framing)
                &&& (!crate::requests::builtin_opcode(opcode) ==> *final(ctx) == *old(ctx)
                    && final(self).out@ == old(self).out@ + error_record(
                    Error::Request,
                    seq_nbr,
                    0,
                    opcode,
                ) && final(self).gcs@ == old(self).gcs@ && final(self).framing == old(self).framing)
                &&& (opcode == crate::requests::INTERN_ATOM ==> intern_atom_step(
                    *old(ctx),
                    *final(ctx),
                    old(self).out@,
                    final(self).out@,
                    body@,
                    optional != 0,
                    seq_nbr,
                ))
                &&& (opcode == crate::requests::GET_ATOM_NAME ==> get_atom_name_step(
                    *old(ctx),
                    *final(ctx),
                    old(self).out@,
                    final(self).out@,
                    body@,
                    seq_nbr,
                ))
                &&& (opcode == crate::requests::QUERY_EXTENSION ==> query_extension_step(
                    *old(ctx),
                    *final(ctx),
                    old(self).out@,
                    final(self).out@,
                    body@,
                    seq_nbr,
                ))
            },
            (crate::ctx::custom_has(old(ctx).custom_requests@, opcode) && crate::ctx::custom_at(
                old(ctx).custom_requests@,
                opcode,
            ) is BigReqEnable) ==> {
                &&& (body@.len() == 0 ==> *final(ctx) == *old(ctx) && *final(self) == (Client {
                    framing: FramingMode::Big,
                    out: final(self).out,
                    ..*old(self)
                }) && final(self).out@ == old(self).out@
                    + crate::handlers::big_req_enable_reply_bytes(
                    seq_nbr,
                    (old(self).max_request_len / 4) as u32,
                ))
                &&& (body@.len() != 0 ==> *final(ctx) == *old(ctx) && final(self).out@ == old(self).out@ + error_record(Error::Length, seq_nbr, 0, opcode) && final(self).framing
                    == old(self).framing && final(self).gcs@ == old(self).gcs@)
            },
    {
        let ghost out0 = self.out@;
        let custom = ctx.custom_request_decoder(opcode);
        let outcome: Result<(), Error> = match custom {
            Some(ExtDecoder::BigReqEnable) => self.handle_big_req_enable(body, seq_nbr),
            None => self.dispatch_builtin(ctx, opcode, optional, body, seq_nbr),
        };
        match outcome {
            Ok(()) => {
                proof {
                    let chunk = self.out@.skip(out0.len() as int);
                    assert(self.out@ =~= out0 + chunk);
                }
            },
            Err(e) => {
                let rec = e.to_protocol(seq_nbr, 0, opcode);
                crate::codec::write_bytes(&mut self.out, rec.as_slice());
                proof {
                    let chunk = self.out@.skip(out0.len() as int);
                    assert(self.out@ =~= out0 + chunk);
                    assert(chunk =~= error_record(e, seq_nbr, 0, opcode));
                }
            },
        }
    }

    /// Reads and dispatches one request off the input buffer, if it holds a
    /// whole one, and says whether it did. Each dispatched request takes the
    /// next sequence number, in receive order. An invalid or over-long
    /// length field costs a `Length` error record and the rest of the
    /// buffered input, whose framing is lost.
    pub fn process_one_request(&mut self, ctx: &mut Context) -> (progress: bool)
        requires
            old(self).wf(),
            old(ctx).wf(),
        ensures
            final(self).wf(),
            final(ctx).wf(),
            final(ctx).screens@ == old(ctx).screens@,
            final(ctx).grabbing_client == old(ctx).grabbing_client || final(ctx).grabbing_client
                is None || final(ctx).grabbing_client == Some(old(self).id),
            !progress ==> *final(self) == *old(self) && *final(ctx) == *old(ctx),
            !progress ==> spec_read_frame(
                old(self).framing,
                old(self).buff@,
                old(self).max_request_len as int,
            ) is NeedMore,
            progress ==> final(self).sequence_number == (old(self).sequence_number + 1) % 0x10000,
            progress ==> final(self).buff@.len() < old(self).buff@.len(),
            progress ==> final(self).id == old(self).id && final(self).state == old(self).state
                && final(self).max_request_len == old(self).max_request_len && final(self).msb_first == old(self).msb_first,
            progress ==> dispatch_chunk_ok(
                old(self).out@,
                final(self).out@,
                final(self).sequence_number,
                *final(ctx) == *old(ctx) && final(self).gcs@ == old(self).gcs@ && final(self).framing == old(self).framing,
            ),
            progress ==> ({
                let fr = spec_read_frame(
                    old(self).framing,
                    old(self).buff@,
                    old(self).max_request_len as int,
                );
                let seq = final(self).sequence_number;
                &&& (fr matches FrameResult::BadLength { opcode } ==> final(self).buff@.len() == 0
                    && *final(ctx) == *old(ctx) && final(self).out@ == old(self).out@
                    + error_record(Error::Length, seq, 0, opcode) && final(self).gcs@ == old(self).gcs@ && final(self).framing == old(self).framing)
                &&& (fr matches FrameResult::Frame { opcode, optional, hdr_len, total_len } ==> {
                    let body = old(self).buff@.subrange(hdr_len as int, total_len as int);
                    &&& final(self).buff@ == old(self).buff@.skip(total_len as int)
                    &&& (!crate::ctx::custom_has(old(ctx).custom_requests@, opcode) ==> {
                        &&& (opcode == crate::requests::GRAB_SERVER ==> *final(ctx) == (Context {
                            grabbing_client: Some(old(self).id),
                            ..*old(ctx)
                        }) && final(self).out@ == old(self).out@)
                        &&& (opcode == crate::requests::UNGRAB_SERVER ==> *final(ctx) == (Context {
                            grabbing_client: None,
                            ..*old(ctx)
                        }) && final(self).out@ == old(self).out@)
                        &&& (opcode == crate::requests::NO_OPERATION ==> *final(ctx) == *old(ctx)
                            && final(self).out@ == old(self).out@)
                        &&& (!crate::requests::builtin_opcode(opcode) ==> *final(ctx) == *old(ctx)
                            && final(self).out@ == old(self).out@ + error_record(
                            Error::Request,
                            seq,
                            0,
                            opcode,
                        ))
                        &&& (opcode == crate::requests::INTERN_ATOM ==> intern_atom_step(
                            *old(ctx),
                            *final(ctx),
                            old(self).out@,
                            final(self).out@,
                            body,
                            optional != 0,
                            seq,
                        ))
                        &&& (opcode == crate::requests::GET_ATOM_NAME ==> get_atom_name_step(
                            *old(ctx),
                            *final(ctx),
                            old(self).out@,
                            final(self).out@,
                            body,
                            seq,
                        ))
                        &&& (opcode == crate::requests::QUERY_EXTENSION ==> query_extension_step(
                            *old(ctx),
                            *final(ctx),
                            old(self).out@,
                            final(self).out@,
                            body,
                            seq,
                        ))
                    })
                    &&& ((crate::ctx::custom_has(old(ctx).custom_requests@, opcode)
                        && crate::ctx::custom_at(old(ctx).custom_requests@, opcode)
                        is BigReqEnable) ==> {
                        &&& (body.len() == 0 ==> *final(ctx) == *old(ctx) && final(self).framing
                            is Big && final(self).out@ == old(self).out@
                            + crate::handlers::big_req_enable_reply_bytes(
                            seq,
                            (old(self).max_request_len / 4) as u32,
                        ))
                        &&& (body.len() != 0 ==> *final(ctx) == *old(ctx) && final(self).out@
                            == old(self).out@ + error_record(Error::Length, seq, 0, opcode)
                            && final(self).framing == old(self).framing)
                    })
                })
            }),
    {
        let frame = crate::framing::read_frame(
            self.framing,
            self.buff.as_slice(),
            self.max_request_len,
        );
        match frame {
            FrameResult::NeedMore => false,
            FrameResult::BadLength { opcode } => {
                let seq_nbr = self.next_sequence_number();
                let ghost out0 = self.out@;
                let rec = Error::Length.to_protocol(seq_nbr, 0, opcode);
                crate::codec::write_bytes(&mut self.out, rec.as_slice());
                let n = self.buff.len();
                self.consume(n);
                proof {
                    let chunk = self.out@.skip(out0.len() as int);
                    assert(self.out@ =~= out0 + chunk);
                    assert(chunk =~= error_record(Error::Length, seq_nbr, 0, opcode));
                    assert(self.out@ =~= old(self).out@ + error_record(
                        Error::Length,
                        seq_nbr,
                        0,
                        opcode,
                    ));
                    assert(self.buff@ =~= Seq::<u8>::empty());
                    assert(dispatch_chunk_ok(
                        old(self).out@,
                        self.out@,
                        self.sequence_number,
                        *ctx == *old(ctx) && self.gcs@ == old(self).gcs@ && self.framing == old(self).framing,
                    ));
                }
                true
            },
            FrameResult::Frame { opcode, optional, hdr_len, total_len } => {
                let seq_nbr = self.next_sequence_number();
                let body = crate::atoms::bytes_to_vec(
                    vstd::slice::slice_subrange(self.buff.as_slice(), hdr_len, total_len),
                );
                proof {
                    assert(body@ == old(self).buff@.subrange(hdr_len as int, total_len as int));
                }
                self.consume(total_len);
                let ghost mid = *self;
                let ghost ctx0 = *ctx;
                self.dispatch_request(ctx, opcode, optional, body.as_slice(), seq_nbr);
                proof {
                    assert(mid.out@ == old(self).out@);
                    assert(mid.gcs@ == old(self).gcs@);
                    assert(mid.framing == old(self).framing);
                    assert(ctx0 == *old(ctx));
                    let chunk = self.out@.skip(old(self).out@.len() as int);
                    assert(self.out@ =~= old(self).out@ + chunk);
                    assert(chunk =~= self.out@.skip(mid.out@.len() as int));
                    assert(dispatch_chunk_ok(
                        old(self).out@,
                        self.out@,
                        self.sequence_number,
                        *ctx == *old(ctx) && self.gcs@ == old(self).gcs@ && self.framing == old(self).framing,
                    ));
                }
                true
            },
        }
    }

    /// Ticks the client: in the waiting state, parses the handshake; once
    /// connected, dispatches every whole request the input buffer holds, in
    /// receive order. A failed client is left as it is.
    ///
    /// `ctx` is the current context.
    pub fn tick(&mut self, ctx: &mut Context)
        requires
            old(self).wf(),
            old(ctx).wf(),
            old(ctx).screens@.len() <= 255,
        ensures
            final(self).wf(),
            final(ctx).wf(),
            final(self).id == old(self).id,
            final(ctx).screens@ == old(ctx).screens@,
            final(ctx).grabbing_client == old(ctx).grabbing_client || final(ctx).grabbing_client
                is None || final(ctx).grabbing_client == Some(old(self).id),
            old(self).state is Waiting ==> handshake_step(
                *old(self),
                *final(self),
                old(ctx).screens@,
            ) && *final(ctx) == *old(ctx),
            old(self).state is ConnectFailed ==> *final(self) == *old(self) && *final(ctx)
                == *old(ctx),
            old(self).state is ConnectSuccess ==> {
                &&& final(self).state is ConnectSuccess
                &&& final(self).max_request_len == old(self).max_request_len
                &&& final(self).msb_first == old(self).msb_first
                &&& final(self).out@.len() >= old(self).out@.len()
                &&& final(self).out@.subrange(0, old(self).out@.len() as int) == old(self).out@
                &&& spec_read_frame(
                    final(self).framing,
                    final(self).buff@,
                    final(self).max_request_len as int,
                ) is NeedMore
            },
    {
        match self.state {
            ClientState::Waiting => {
                self.handle_connect_request(&ctx.screens);
            },
            ClientState::ConnectFailed => {
                // A failed connection is terminal: the stream stays open just
                // long enough for the failure record to be delivered.
            },
            ClientState::ConnectSuccess => {
                loop
                    invariant
                        self.wf(),
                        ctx.wf(),
                        self.id == old(self).id,
                        self.state is ConnectSuccess,
                        self.max_request_len == old(self).max_request_len,
                        self.msb_first == old(self).msb_first,
                        self.out@.len() >= old(self).out@.len(),
                        self.out@.subrange(0, old(self).out@.len() as int) == old(self).out@,
                        ctx.screens@ == old(ctx).screens@,
                        old(ctx).screens@.len() <= 255,
                        ctx.grabbing_client == old(ctx).grabbing_client || ctx.grabbing_client
                            is None || ctx.grabbing_client == Some(old(self).id),
                    ensures
                        spec_read_frame(
                            self.framing,
                            self.buff@,
                            self.max_request_len as int,
                        ) is NeedMore,
                    decreases self.buff@.len(),
                {
                    let ghost pre = *self;
                    let progress = self.process_one_request(ctx);
                    proof {
                        if progress {
                            let chunk = self.out@.skip(pre.out@.len() as int);
                            assert(self.out@ == pre.out@ + chunk);
                            assert(self.out@.subrange(0, old(self).out@.len() as int)
                                =~= pre.out@.subrange(0, old(self).out@.len() as int));
                        }
                    }
                    if !progress {
                        break ;
                    }
                }
            },
        }
    }
}

/// Ticks every connected client, in order, skipping those the grab holder
/// locks out: while one client grabs the server, the others' requests stay
/// buffered and are not dispatched; once the holder lets go, later clients
/// of the pass are dispatched again, in order.
pub fn tick_clients(clients: &mut Vec<Client>, ctx: &mut Context)
    requires
        old(ctx).wf(),
        old(ctx).screens@.len() <= 255,
        forall|i: int| 0 <= i < old(clients)@.len() ==> (#[trigger] old(clients)@[i]).wf(),
        forall|i: int, j: int|
            0 <= i < j < old(clients)@.len() ==> old(clients)@[i].id != old(clients)@[j].id,
    ensures
        final(ctx).wf(),
        final(clients)@.len() == old(clients)@.len(),
        forall|i: int| 0 <= i < final(clients)@.len() ==> (#[trigger] final(clients)@[i]).wf(),
        (old(ctx).grabbing_client is Some && (forall|i: int|
            0 <= i < old(clients)@.len() ==> (#[trigger] old(clients)@[i]).id != old(
                ctx,
            ).grabbing_client->Some_0)) ==> *final(clients) == *old(clients) && *final(ctx)
            == *old(ctx),
        (old(ctx).grabbing_client is Some && final(ctx).grabbing_client == old(
            ctx,
        ).grabbing_client) ==> forall|i: int|
            0 <= i < old(clients)@.len() && (#[trigger] old(clients)@[i]).id != old(
                ctx,
            ).grabbing_client->Some_0 ==> final(clients)@[i] == old(clients)@[i],
{
    let ghost locked_out = old(ctx).grabbing_client is Some && (forall|i: int|
        0 <= i < old(clients)@.len() ==> (#[trigger] old(clients)@[i]).id != old(
            ctx,
        ).grabbing_client->Some_0);
    let ghost held = old(ctx).grabbing_client is Some;
    let ghost h: u32 = if held {
        old(ctx).grabbing_client->Some_0
    } else {
        0
    };
    let mut i: usize = 0;
    while i < clients.len()
        invariant
            ctx.wf(),
            ctx.screens@ == old(ctx).screens@,
            ctx.screens@.len() <= 255,
            clients@.len() == old(clients)@.len(),
            forall|j: int| 0 <= j < clients@.len() ==> (#[trigger] clients@[j]).wf(),
            forall|j: int| 0 <= j < clients@.len() ==> (#[trigger] clients@[j]).id == old(clients)@[j].id,
            forall|a: int, b: int|
                0 <= a < b < old(clients)@.len() ==> old(clients)@[a].id != old(clients)@[b].id,
            locked_out == (old(ctx).grabbing_client is Some && (forall|j: int|
                0 <= j < old(clients)@.len() ==> (#[trigger] old(clients)@[j]).id != old(
                    ctx,
                ).grabbing_client->Some_0)),
            locked_out ==> *clients == *old(clients) && *ctx == *old(ctx),
            held == (old(ctx).grabbing_client is Some),
            held ==> h == old(ctx).grabbing_client->Some_0,
            held && ctx.grabbing_client == Some(h) ==> forall|j: int|
                0 <= j < clients@.len() && (#[trigger] clients@[j]).id != h ==> clients@[j]
                    == old(clients)@[j],
            held && ctx.grabbing_client != Some(h) ==> forall|j: int|
                i <= j < clients@.len() ==> (#[trigger] clients@[j]).id != h,
        decreases clients@.len() - i,
    {
        if ctx.allows_dispatch(clients[i].get_id()) {
            proof {
                if locked_out {
                    assert(*ctx == *old(ctx));
                    assert(old(clients)@[i as int].id != h);
                    assert(clients@[i as int].id != h);
                    assert(false);
                }
                if held && ctx.grabbing_client == Some(h) {
                    assert(clients@[i as int].id == h);
                }
            }
            let ghost cid = clients@[i as int].id;
            let ghost grab0 = ctx.grabbing_client;
            let c = &mut clients[i];
            c.tick(ctx);
            proof {
                if held {
                    if grab0 == Some(h) {
                        assert(cid == h);
                        if ctx.grabbing_client != Some(h) {
                            assert forall|j: int|
                                i as int + 1 <= j < clients@.len() implies (#[trigger] clients@[j]).id
                                != h by {
                                assert(clients@[j].id == old(clients)@[j].id);
                                assert(old(clients)@[i as int].id == h);
                            }
                        }
                    } else {
                        assert(cid != h);
                        if ctx.grabbing_client == Some(h) {
                            assert(ctx.grabbing_client == grab0 || ctx.grabbing_client is None
                                || ctx.grabbing_client == Some(cid));
                            assert(false);
                        }
                    }
                }
            }
        }
        i = i + 1;
    }
}

} // verus!
