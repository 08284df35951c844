//! End-to-end wire tests: a context and a client session, fed raw protocol
//! bytes, checked against the bytes they owe back.

use visto::client::{Client, ClientState};
use visto::ctx::{Context, Screen};
use visto::framing::FramingMode;

/// Builds the 12-byte opening record of a little-endian client.
fn handshake_bytes(major: u16, minor: u16) -> Vec<u8> {
    let mut b = vec![0x6c, 0x00];
    b.extend_from_slice(&major.to_le_bytes());
    b.extend_from_slice(&minor.to_le_bytes());
    b.extend_from_slice(&0u16.to_le_bytes());
    b.extend_from_slice(&0u16.to_le_bytes());
    b.extend_from_slice(&0u16.to_le_bytes());
    b
}

/// Frames a request under standard framing: 4-byte header, body padded to a
/// 4-byte boundary.
fn frame(opcode: u8, optional: u8, body: &[u8]) -> Vec<u8> {
    let pad = (4 - body.len() % 4) % 4;
    let total = 4 + body.len() + pad;
    assert_eq!(total % 4, 0);
    let units = (total / 4) as u16;
    let mut b = vec![opcode, optional];
    b.extend_from_slice(&units.to_le_bytes());
    b.extend_from_slice(body);
    b.extend_from_slice(&vec![0u8; pad]);
    b
}

fn u16_at(b: &[u8], off: usize) -> u16 {
    u16::from_le_bytes([b[off], b[off + 1]])
}

fn u32_at(b: &[u8], off: usize) -> u32 {
    u32::from_le_bytes([b[off], b[off + 1], b[off + 2], b[off + 3]])
}

/// A context with one screen and its root window (id 1).
fn ctx_with_screen() -> Context {
    let mut ctx = Context::new();
    let rect = visto::protocol::Rectangle { x: 0, y: 0, width: 640, height: 480 };
    ctx.create_window(1, None, rect, 24).unwrap();
    ctx.screens.push(Screen::new(1, 0, 0, 640, 480, 300, 200));
    ctx
}

/// A client that has already shaken hands.
fn connected_client(ctx: &mut Context, id: u32) -> Client {
    let mut c = Client::new(id);
    c.feed(&handshake_bytes(11, 0));
    c.tick(ctx);
    assert!(matches!(c.state, ClientState::ConnectSuccess));
    let _ = c.take_output();
    c
}

#[test]
fn handshake_happy_path() {
    let mut ctx = ctx_with_screen();
    let mut c = Client::new(7);
    assert_eq!(c.sequence_number, 0);
    c.feed(&handshake_bytes(11, 0));
    c.tick(&mut ctx);
    assert!(matches!(c.state, ClientState::ConnectSuccess));
    assert_eq!(c.sequence_number, 0);
    let out = c.take_output();
    // Success code, protocol 11.0.
    assert_eq!(out[0], 1);
    assert_eq!(u16_at(&out, 2), 11);
    assert_eq!(u16_at(&out, 4), 0);
    // Additional data: 32 fixed + vendor (5 + 3 pad) + one format (8) + one
    // screen (72); the field counts 4-byte units.
    assert_eq!(u16_at(&out, 6), (32 + 8 + 8 + 72) / 4);
    assert_eq!(out.len(), 8 + 32 + 8 + 8 + 72);
    // Vendor length and name.
    assert_eq!(u16_at(&out, 24), 5);
    assert_eq!(&out[40..45], b"visto");
    // One screen, one format, max request length in units.
    assert_eq!(u16_at(&out, 26), 0xffff);
    assert_eq!(out[28], 1);
    assert_eq!(out[29], 1);
    // The pixmap format: depth 24, bpp 24, scanline pad 8.
    assert_eq!(&out[48..51], &[24, 24, 8]);
    // The screen record starts with the root window id.
    assert_eq!(u32_at(&out, 56), 1);
    assert_eq!(u16_at(&out, 76), 640);
    assert_eq!(u16_at(&out, 78), 480);
}

#[test]
fn handshake_wrong_byte_order() {
    let mut ctx = ctx_with_screen();
    let mut c = Client::new(7);
    let mut bytes = handshake_bytes(11, 0);
    bytes[0] = 0x13;
    c.feed(&bytes);
    c.tick(&mut ctx);
    assert!(matches!(c.state, ClientState::ConnectFailed));
    let out = c.take_output();
    assert_eq!(out[0], 0);
    let reason_len = out[1] as usize;
    assert_eq!(&out[8..8 + reason_len], b"Invalid byte_order value");
    assert_eq!(out.len() % 4, 0);
}

#[test]
fn handshake_unsupported_version() {
    let mut ctx = ctx_with_screen();
    let mut c = Client::new(7);
    c.feed(&handshake_bytes(12, 3));
    c.tick(&mut ctx);
    assert!(matches!(c.state, ClientState::ConnectFailed));
    let out = c.take_output();
    assert_eq!(out[0], 0);
    let reason_len = out[1] as usize;
    assert_eq!(&out[8..8 + reason_len], b"Unsupported protocol version: 12.3");
}

#[test]
fn handshake_waits_for_whole_record() {
    let mut ctx = ctx_with_screen();
    let mut c = Client::new(7);
    c.feed(&handshake_bytes(11, 0)[..7]);
    c.tick(&mut ctx);
    assert!(matches!(c.state, ClientState::Waiting));
    assert!(c.take_output().is_empty());
    c.feed(&handshake_bytes(11, 0)[7..]);
    c.tick(&mut ctx);
    assert!(matches!(c.state, ClientState::ConnectSuccess));
}

/// The `InternAtom` body for a name.
fn intern_atom_body(name: &[u8]) -> Vec<u8> {
    let mut b = Vec::new();
    b.extend_from_slice(&(name.len() as u16).to_le_bytes());
    b.extend_from_slice(&[0, 0]);
    b.extend_from_slice(name);
    b
}

#[test]
fn intern_atom_and_get_atom_name() {
    let mut ctx = ctx_with_screen();
    let mut c = connected_client(&mut ctx, 3);
    // InternAtom(only-if-exists = 0, "WM_NAME"): the bootstrap atom 39.
    c.feed(&frame(16, 0, &intern_atom_body(b"WM_NAME")));
    c.tick(&mut ctx);
    let out = c.take_output();
    assert_eq!(out.len(), 32);
    assert_eq!(out[0], 1);
    assert_eq!(u16_at(&out, 2), 1); // first sequence number
    assert_eq!(u32_at(&out, 8), 39);
    // GetAtomName(39) hands the 7-byte name back, one byte of padding.
    c.feed(&frame(17, 0, &39u32.to_le_bytes()));
    c.tick(&mut ctx);
    let out = c.take_output();
    assert_eq!(out.len(), 40);
    assert_eq!(out[0], 1);
    assert_eq!(u16_at(&out, 2), 2);
    assert_eq!(u32_at(&out, 4), 2); // reply length: (7 + 1) / 4
    assert_eq!(u16_at(&out, 8), 7); // name length
    assert_eq!(&out[32..39], b"WM_NAME");
    assert_eq!(out[39], 0);
}

#[test]
fn intern_atom_twice_is_idempotent() {
    let mut ctx = ctx_with_screen();
    let mut c = connected_client(&mut ctx, 3);
    c.feed(&frame(16, 0, &intern_atom_body(b"MY_THING")));
    c.tick(&mut ctx);
    let out = c.take_output();
    let id = u32_at(&out, 8);
    assert!(id > 68);
    // A second intern — with only-if-exists set or clear — returns the same
    // atom and creates nothing.
    for flag in [1u8, 0u8] {
        c.feed(&frame(16, flag, &intern_atom_body(b"MY_THING")));
        c.tick(&mut ctx);
        let out = c.take_output();
        assert_eq!(u32_at(&out, 8), id);
    }
    // An absent name under only-if-exists yields atom zero.
    c.feed(&frame(16, 1, &intern_atom_body(b"NOT_THERE")));
    c.tick(&mut ctx);
    let out = c.take_output();
    assert_eq!(u32_at(&out, 8), 0);
}

/// The `CreateWindow` body.
fn create_window_body(wid: u32, parent: u32, x: i16, y: i16, w: u16, h: u16, class: u16) -> Vec<u8> {
    let mut b = Vec::new();
    b.extend_from_slice(&wid.to_le_bytes());
    b.extend_from_slice(&parent.to_le_bytes());
    b.extend_from_slice(&x.to_le_bytes());
    b.extend_from_slice(&y.to_le_bytes());
    b.extend_from_slice(&w.to_le_bytes());
    b.extend_from_slice(&h.to_le_bytes());
    b.extend_from_slice(&0u16.to_le_bytes()); // border width
    b.extend_from_slice(&class.to_le_bytes());
    b.extend_from_slice(&0u32.to_le_bytes()); // visual
    b.extend_from_slice(&0u32.to_le_bytes()); // empty value mask
    b
}

/// The `ChangeProperty` body.
fn change_property_body(window: u32, property: u32, ptype: u32, format: u8, data: &[u8]) -> Vec<u8> {
    let mut b = Vec::new();
    b.extend_from_slice(&window.to_le_bytes());
    b.extend_from_slice(&property.to_le_bytes());
    b.extend_from_slice(&ptype.to_le_bytes());
    b.push(format);
    b.extend_from_slice(&[0, 0, 0]);
    b.extend_from_slice(&((data.len() / (format as usize / 8)) as u32).to_le_bytes());
    b.extend_from_slice(data);
    b
}

/// The `GetProperty` body.
fn get_property_body(window: u32, property: u32, ptype: u32, off: u32, len: u32) -> Vec<u8> {
    let mut b = Vec::new();
    b.extend_from_slice(&window.to_le_bytes());
    b.extend_from_slice(&property.to_le_bytes());
    b.extend_from_slice(&ptype.to_le_bytes());
    b.extend_from_slice(&off.to_le_bytes());
    b.extend_from_slice(&len.to_le_bytes());
    b
}

#[test]
fn change_then_get_property_round_trip() {
    let mut ctx = ctx_with_screen();
    let mut c = connected_client(&mut ctx, 3);
    // The client creates a window under the root.
    c.feed(&frame(1, 24, &create_window_body(2, 1, 5, 5, 20, 10, 1)));
    c.tick(&mut ctx);
    assert!(c.take_output().is_empty());
    // ChangeProperty(Replace, W, WM_NAME (39), STRING (31), 8, "hi").
    c.feed(&frame(18, 0, &change_property_body(2, 39, 31, 8, b"hi")));
    c.tick(&mut ctx);
    assert!(c.take_output().is_empty());
    // GetProperty(W, WM_NAME, AnyPropertyType, offset 0, length 1).
    c.feed(&frame(20, 0, &get_property_body(2, 39, 0, 0, 1)));
    c.tick(&mut ctx);
    let out = c.take_output();
    assert_eq!(out.len(), 36); // 32-byte header, "hi", 2 bytes of padding
    assert_eq!(out[0], 1);
    assert_eq!(out[1], 8); // format
    assert_eq!(u32_at(&out, 8), 31); // type: STRING
    assert_eq!(u32_at(&out, 12), 0); // bytes after
    assert_eq!(u32_at(&out, 16), 2); // length in format units
    assert_eq!(&out[32..34], b"hi");
}

#[test]
fn change_property_bad_format_is_value_error() {
    let mut ctx = ctx_with_screen();
    // Rewrite the format byte to an illegal 9; the length stays as built.
    let mut req = frame(18, 0, &change_property_body(1, 39, 31, 8, b"xy"));
    req[4 + 12] = 9;
    let mut c = connected_client(&mut ctx, 4);
    c.feed(&req);
    c.tick(&mut ctx);
    let out = c.take_output();
    assert_eq!(out.len(), 32);
    assert_eq!(out[0], 0); // an error record
    assert_eq!(out[1], 2); // Value
    assert_eq!(u32_at(&out, 4), 9); // the offending value
}

#[test]
fn get_property_offset_beyond_data_is_value_error() {
    let mut ctx = ctx_with_screen();
    let mut c = connected_client(&mut ctx, 3);
    c.feed(&frame(18, 0, &change_property_body(1, 39, 31, 8, b"hi")));
    c.tick(&mut ctx);
    c.feed(&frame(20, 0, &get_property_body(1, 39, 0, 9, 1)));
    c.tick(&mut ctx);
    let out = c.take_output();
    assert_eq!(out.len(), 32);
    assert_eq!(out[0], 0);
    assert_eq!(out[1], 2); // Value
    assert_eq!(u32_at(&out, 4), 9); // the offending offset
}

#[test]
fn get_property_append_prepend() {
    let mut ctx = ctx_with_screen();
    let mut c = connected_client(&mut ctx, 3);
    c.feed(&frame(18, 0, &change_property_body(1, 39, 31, 8, b"cd")));
    c.feed(&frame(18, 2, &change_property_body(1, 39, 31, 8, b"ef")));
    c.feed(&frame(18, 1, &change_property_body(1, 39, 31, 8, b"ab")));
    c.tick(&mut ctx);
    assert!(c.take_output().is_empty());
    c.feed(&frame(20, 0, &get_property_body(1, 39, 0, 0, 2)));
    c.tick(&mut ctx);
    let out = c.take_output();
    assert_eq!(u32_at(&out, 16), 6);
    assert_eq!(&out[32..38], b"abcdef");
    // Appending under a mismatched type is a Match error.
    c.feed(&frame(18, 2, &change_property_body(1, 39, 4, 8, b"zz")));
    c.tick(&mut ctx);
    let out = c.take_output();
    assert_eq!(out[0], 0);
    assert_eq!(out[1], 8); // Match
}

#[test]
fn sequence_numbers_increase_by_one() {
    let mut ctx = ctx_with_screen();
    let mut c = connected_client(&mut ctx, 3);
    for expected in 1u16..=3 {
        c.feed(&frame(17, 0, &39u32.to_le_bytes()));
        c.tick(&mut ctx);
        let out = c.take_output();
        assert_eq!(u16_at(&out, 2), expected);
    }
}

#[test]
fn unknown_opcode_is_request_error() {
    let mut ctx = ctx_with_screen();
    let mut c = connected_client(&mut ctx, 3);
    c.feed(&frame(99, 0, &[]));
    c.tick(&mut ctx);
    let out = c.take_output();
    assert_eq!(out.len(), 32);
    assert_eq!(out[0], 0);
    assert_eq!(out[1], 1); // Request
    assert_eq!(out[10], 99); // the offending major opcode
}

#[test]
fn zero_length_request_is_length_error() {
    let mut ctx = ctx_with_screen();
    let mut c = connected_client(&mut ctx, 3);
    // A standard-framed request whose length field is zero.
    c.feed(&[127, 0, 0, 0]);
    c.tick(&mut ctx);
    let out = c.take_output();
    assert_eq!(out.len(), 32);
    assert_eq!(out[0], 0);
    assert_eq!(out[1], 16); // Length
    assert_eq!(out[10], 127);
    assert!(matches!(c.state, ClientState::ConnectSuccess));
}

#[test]
fn over_long_request_is_length_error_and_closes_nothing() {
    let mut ctx = ctx_with_screen();
    let mut c = Client::with_max_request_len(9, 32);
    c.feed(&handshake_bytes(11, 0));
    c.tick(&mut ctx);
    let _ = c.take_output();
    // A header announcing 40 bytes exceeds this client's 32-byte maximum.
    c.feed(&[127, 0, 10, 0]);
    c.tick(&mut ctx);
    let out = c.take_output();
    assert_eq!(out.len(), 32);
    assert_eq!(out[0], 0);
    assert_eq!(out[1], 16); // Length
    assert_eq!(out[10], 127);
    assert!(matches!(c.state, ClientState::ConnectSuccess));
}

/// The `QueryExtension` body for a name.
fn query_extension_body(name: &[u8]) -> Vec<u8> {
    let mut b = Vec::new();
    b.extend_from_slice(&(name.len() as u16).to_le_bytes());
    b.extend_from_slice(&[0, 0]);
    b.extend_from_slice(name);
    b
}

#[test]
fn big_request_enablement() {
    let mut ctx = ctx_with_screen();
    let mut c = connected_client(&mut ctx, 3);
    // QueryExtension("BIG-REQUEST") reports it present under a fresh opcode.
    c.feed(&frame(98, 0, &query_extension_body(b"BIG-REQUEST")));
    c.tick(&mut ctx);
    let out = c.take_output();
    assert_eq!(out[0], 1);
    assert_eq!(out[8], 1); // present
    let major = out[9];
    assert!(major >= 128);
    // The enable request switches this client to big framing and reports the
    // maximum request length in 4-byte units.
    c.feed(&frame(major, 0, &[]));
    c.tick(&mut ctx);
    let out = c.take_output();
    assert_eq!(out[0], 1);
    assert_eq!(u32_at(&out, 8), (visto::requests::MAX_REQUEST_LEN / 4) as u32);
    assert!(matches!(c.framing, FramingMode::Big));
    // A zero length field now announces the 8-byte extended header.
    let mut big = vec![127u8, 0, 0, 0];
    big.extend_from_slice(&2u32.to_le_bytes());
    c.feed(&big);
    c.tick(&mut ctx);
    assert!(c.take_output().is_empty());
    assert_eq!(c.sequence_number, 3);
    // On a client that never enabled it, the same bytes stay an error.
    let mut other = connected_client(&mut ctx, 4);
    let mut big2 = vec![127u8, 0, 0, 0];
    big2.extend_from_slice(&2u32.to_le_bytes());
    other.feed(&big2);
    other.tick(&mut ctx);
    let out = other.take_output();
    assert_eq!(out[0], 0);
    assert_eq!(out[1], 16); // Length
}

#[test]
fn big_framed_over_long_request_is_length_error() {
    let mut ctx = ctx_with_screen();
    let mut c = connected_client(&mut ctx, 3);
    c.feed(&frame(98, 0, &query_extension_body(b"BIG-REQUEST")));
    c.tick(&mut ctx);
    let major = c.take_output()[9];
    c.feed(&frame(major, 0, &[]));
    c.tick(&mut ctx);
    let _ = c.take_output();
    // An extended length beyond the server's maximum.
    let mut big = vec![127u8, 0, 0, 0];
    big.extend_from_slice(&0x40000000u32.to_le_bytes());
    c.feed(&big);
    c.tick(&mut ctx);
    let out = c.take_output();
    assert_eq!(out[0], 0);
    assert_eq!(out[1], 16); // Length
}

#[test]
fn query_extension_absent_name() {
    let mut ctx = ctx_with_screen();
    let mut c = connected_client(&mut ctx, 3);
    c.feed(&frame(98, 0, &query_extension_body(b"NO-SUCH-EXT")));
    c.tick(&mut ctx);
    let out = c.take_output();
    assert_eq!(out[0], 1);
    assert_eq!(out[8], 0); // absent
}

#[test]
fn grab_server_isolates_other_clients() {
    let mut ctx = ctx_with_screen();
    let a = connected_client(&mut ctx, 1);
    let b = connected_client(&mut ctx, 2);
    let mut clients = vec![a, b];
    // A grabs the server.
    clients[0].feed(&frame(36, 0, &[]));
    visto::client::tick_clients(&mut clients, &mut ctx);
    assert_eq!(ctx.grabbing_client, Some(1));
    // B's request stays buffered, undispatched.
    clients[1].feed(&frame(17, 0, &39u32.to_le_bytes()));
    visto::client::tick_clients(&mut clients, &mut ctx);
    assert!(clients[1].take_output().is_empty());
    assert!(!clients[1].buff.is_empty());
    assert_eq!(clients[1].sequence_number, 0);
    // A ungrabs; B's pending request is dispatched in order.
    clients[0].feed(&frame(37, 0, &[]));
    visto::client::tick_clients(&mut clients, &mut ctx);
    assert_eq!(ctx.grabbing_client, None);
    let out = clients[1].take_output();
    assert_eq!(out.len(), 40);
    assert_eq!(&out[32..39], b"WM_NAME");
    assert!(clients[1].buff.is_empty());
}

#[test]
fn get_geometry_reports_rectangle() {
    let mut ctx = ctx_with_screen();
    let mut c = connected_client(&mut ctx, 3);
    c.feed(&frame(1, 24, &create_window_body(2, 1, 7, 9, 20, 10, 1)));
    c.tick(&mut ctx);
    c.feed(&frame(14, 0, &2u32.to_le_bytes()));
    c.tick(&mut ctx);
    let out = c.take_output();
    assert_eq!(out.len(), 32);
    assert_eq!(out[1], 24); // depth
    assert_eq!(u32_at(&out, 8), 1); // root window
    assert_eq!(u16_at(&out, 12), 7);
    assert_eq!(u16_at(&out, 14), 9);
    assert_eq!(u16_at(&out, 16), 20);
    assert_eq!(u16_at(&out, 18), 10);
}

#[test]
fn get_window_attributes_reflects_changes() {
    let mut ctx = ctx_with_screen();
    let mut c = connected_client(&mut ctx, 3);
    c.feed(&frame(1, 24, &create_window_body(2, 1, 0, 0, 8, 8, 2)));
    c.tick(&mut ctx);
    // ChangeWindowAttributes: set the event mask (bit 11).
    let mut body = Vec::new();
    body.extend_from_slice(&2u32.to_le_bytes());
    body.extend_from_slice(&(1u32 << 11).to_le_bytes());
    body.extend_from_slice(&0x2244u32.to_le_bytes());
    c.feed(&frame(2, 0, &body));
    c.tick(&mut ctx);
    c.feed(&frame(3, 0, &2u32.to_le_bytes()));
    c.tick(&mut ctx);
    let out = c.take_output();
    assert_eq!(out.len(), 44);
    assert_eq!(u16_at(&out, 12), 2); // class: InputOnly
    assert_eq!(u32_at(&out, 32), 0x2244); // all event masks
}

#[test]
fn create_gc_is_stored_on_the_client() {
    let mut ctx = ctx_with_screen();
    let mut c = connected_client(&mut ctx, 3);
    // CreateGC with function (bit 0) = Copy and foreground (bit 2) = 0xff.
    let mut body = Vec::new();
    body.extend_from_slice(&77u32.to_le_bytes()); // cid
    body.extend_from_slice(&1u32.to_le_bytes()); // drawable
    body.extend_from_slice(&0b101u32.to_le_bytes());
    body.push(3); // function: Copy
    body.extend_from_slice(&0xffu32.to_le_bytes());
    c.feed(&frame(55, 0, &body));
    c.tick(&mut ctx);
    assert!(c.take_output().is_empty());
    assert_eq!(c.gcs.len(), 1);
    assert_eq!(c.gcs[0].0, 77);
    assert_eq!(c.gcs[0].1.drawable, 1);
    assert_eq!(c.gcs[0].1.values.len(), 2);
    // An illegal function value is a Value error and stores nothing.
    let mut bad = Vec::new();
    bad.extend_from_slice(&78u32.to_le_bytes());
    bad.extend_from_slice(&1u32.to_le_bytes());
    bad.extend_from_slice(&1u32.to_le_bytes());
    bad.push(99);
    c.feed(&frame(55, 0, &bad));
    c.tick(&mut ctx);
    let out = c.take_output();
    assert_eq!(out[0], 0);
    assert_eq!(out[1], 2); // Value
    assert_eq!(u32_at(&out, 4), 99);
    assert_eq!(c.gcs.len(), 1);
}

#[test]
fn replies_are_padded_records() {
    // Every reply or error record written to a client is a whole multiple of
    // four bytes and at least 32 bytes long.
    let mut ctx = ctx_with_screen();
    let mut c = connected_client(&mut ctx, 3);
    for req in [
        frame(16, 0, &intern_atom_body(b"WM_NAME")),
        frame(17, 0, &39u32.to_le_bytes()),
        frame(99, 0, &[]),
        frame(20, 0, &get_property_body(1, 39, 0, 0, 1)),
        frame(38, 0, &1u32.to_le_bytes()),
        frame(23, 0, &1u32.to_le_bytes()),
    ] {
        c.feed(&req);
        c.tick(&mut ctx);
        let out = c.take_output();
        assert_eq!(out.len() % 4, 0);
        assert!(out.len() >= 32);
    }
}

#[test]
fn partial_request_waits_for_more_bytes() {
    let mut ctx = ctx_with_screen();
    let mut c = connected_client(&mut ctx, 3);
    let req = frame(17, 0, &39u32.to_le_bytes());
    c.feed(&req[..5]);
    c.tick(&mut ctx);
    assert!(c.take_output().is_empty());
    assert_eq!(c.sequence_number, 0);
    c.feed(&req[5..]);
    c.tick(&mut ctx);
    let out = c.take_output();
    assert_eq!(out.len(), 40);
    assert_eq!(c.sequence_number, 1);
}

#[test]
fn failed_connection_is_terminal() {
    let mut ctx = ctx_with_screen();
    let mut c = Client::new(7);
    let mut bytes = handshake_bytes(11, 0);
    bytes[0] = 0x13;
    c.feed(&bytes);
    c.tick(&mut ctx);
    assert!(matches!(c.state, ClientState::ConnectFailed));
    let _ = c.take_output();
    // A failed client stays failed: later bytes are neither parsed as a new
    // handshake nor dispatched as requests.
    c.feed(&handshake_bytes(11, 0));
    c.feed(&frame(17, 0, &39u32.to_le_bytes()));
    c.tick(&mut ctx);
    assert!(matches!(c.state, ClientState::ConnectFailed));
    assert!(c.take_output().is_empty());
    assert_eq!(c.sequence_number, 0);
}

#[test]
fn handshake_advertises_the_server_maximum() {
    let mut ctx = ctx_with_screen();
    // A client with a small maximum advertises exactly that, in units.
    let mut c = Client::with_max_request_len(8, 64);
    c.feed(&handshake_bytes(11, 0));
    c.tick(&mut ctx);
    let out = c.take_output();
    assert_eq!(u16_at(&out, 26), 16);
    // The default maximum exceeds the record's 16-bit field and saturates;
    // the BIG-REQUEST reply carries the full value.
    let mut d = connected_client(&mut ctx, 9);
    d.feed(&frame(98, 0, &query_extension_body(b"BIG-REQUEST")));
    d.tick(&mut ctx);
    let major = d.take_output()[9];
    d.feed(&frame(major, 0, &[]));
    d.tick(&mut ctx);
    let out = d.take_output();
    assert_eq!(u32_at(&out, 8), (visto::requests::MAX_REQUEST_LEN / 4) as u32);
}
