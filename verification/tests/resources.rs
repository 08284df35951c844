//! Unit tests on the resource model: atoms, windows and properties, the id
//! allocator, graphics contexts, screens, rendering and the wire codec.

use visto::atoms::AtomTable;
use visto::ctx::{Context, Screen};
use visto::error::Error;
use visto::id_allocator::IDAllocator;
use visto::protocol::Rectangle;
use visto::window::{Property, Window};

#[test]
fn bootstrap_atoms_have_their_protocol_ids() {
    let t = AtomTable::new();
    assert_eq!(t.len(), 68);
    assert_eq!(t.get_atom(1).unwrap().as_slice(), b"PRIMARY");
    assert_eq!(t.get_atom(4).unwrap().as_slice(), b"ATOM");
    assert_eq!(t.get_atom(31).unwrap().as_slice(), b"STRING");
    assert_eq!(t.get_atom(39).unwrap().as_slice(), b"WM_NAME");
    assert_eq!(t.get_atom(68).unwrap().as_slice(), b"WM_TRANSIENT_FOR");
    assert_eq!(t.get_atom(0), None);
    assert_eq!(t.get_atom(69), None);
}

#[test]
fn atom_name_leads_back_to_the_atom() {
    let t = AtomTable::new();
    for id in 1u32..=68 {
        let name = t.get_atom(id).unwrap().clone();
        assert_eq!(t.get_atom_from_name(&name), Some(id));
    }
    assert_eq!(t.get_atom_from_name(b"NOT_AN_ATOM"), None);
}

#[test]
fn intern_creates_once() {
    let mut t = AtomTable::new();
    assert_eq!(t.intern(b"WM_NAME", true), 39);
    assert_eq!(t.intern(b"FRESH", true), 0);
    let id = t.intern(b"FRESH", false);
    assert_eq!(id, 69);
    assert_eq!(t.intern(b"FRESH", true), id);
    assert_eq!(t.intern(b"FRESH", false), id);
    assert_eq!(t.len(), 69);
}

#[test]
fn root_window_keeps_its_origin() {
    let rect = Rectangle { x: 0, y: 0, width: 100, height: 50 };
    let mut w = Window::new(1, None, rect, 24);
    w.set_rectangle(Rectangle { x: 12, y: 7, width: 80, height: 40 });
    let r = w.get_rectangle();
    assert_eq!((r.x, r.y, r.width, r.height), (0, 0, 100, 50));
    w.set_rectangle(Rectangle { x: 0, y: 0, width: 80, height: 40 });
    let r = w.get_rectangle();
    assert_eq!((r.x, r.y, r.width, r.height), (0, 0, 80, 40));
    // A window created as a root zeroes a nonzero origin.
    let w2 = Window::new(2, None, Rectangle { x: 3, y: 4, width: 9, height: 9 }, 24);
    let r2 = w2.get_rectangle();
    assert_eq!((r2.x, r2.y), (0, 0));
    // A child keeps its origin.
    let mut w3 = Window::new(3, Some(1), Rectangle { x: 3, y: 4, width: 9, height: 9 }, 24);
    assert_eq!((w3.get_rectangle().x, w3.get_rectangle().y), (3, 4));
    w3.set_rectangle(Rectangle { x: -2, y: 6, width: 9, height: 9 });
    assert_eq!((w3.get_rectangle().x, w3.get_rectangle().y), (-2, 6));
}

#[test]
fn window_tree_links_both_ways() {
    let mut ctx = Context::new();
    let rect = Rectangle { x: 0, y: 0, width: 100, height: 100 };
    ctx.create_window(1, None, rect, 24).unwrap();
    ctx.create_window(2, Some(1), rect, 24).unwrap();
    ctx.create_window(3, Some(1), rect, 24).unwrap();
    ctx.create_window(4, Some(2), rect, 24).unwrap();
    let root = ctx.get_window(1).unwrap();
    assert_eq!(root.get_parent(), None);
    assert!(root.is_root());
    assert_eq!(root.get_children().as_slice(), &[2, 3]);
    let w2 = ctx.get_window(2).unwrap();
    assert_eq!(w2.get_parent(), Some(1));
    assert!(!w2.is_root());
    assert_eq!(w2.get_children().as_slice(), &[4]);
    assert_eq!(ctx.get_window(4).unwrap().get_parent(), Some(2));
    // Every child names its parent back, and every parent lists its child.
    for id in [2u32, 3, 4] {
        let w = ctx.get_window(id).unwrap();
        let p = ctx.get_window(w.get_parent().unwrap()).unwrap();
        assert!(p.get_children().contains(&w.get_id()));
    }
}

#[test]
fn create_window_rejects_bad_ids() {
    let mut ctx = Context::new();
    let rect = Rectangle { x: 0, y: 0, width: 10, height: 10 };
    ctx.create_window(1, None, rect, 24).unwrap();
    assert!(matches!(ctx.create_window(0, Some(1), rect, 24), Err(Error::IDChoice(0))));
    assert!(matches!(ctx.create_window(1, Some(1), rect, 24), Err(Error::IDChoice(1))));
    assert!(matches!(ctx.create_window(2, Some(9), rect, 24), Err(Error::Window(9))));
}

#[test]
fn properties_keep_whole_format_units() {
    let p = Property::new(31, 16, vec![1, 2, 3, 4]);
    assert_eq!(p.get_type(), 31);
    assert_eq!(p.get_format(), 16);
    assert_eq!(p.get_data(), &[1, 2, 3, 4]);
    let mut p = p;
    p.append_data(&[5, 6]);
    assert_eq!(p.get_data(), &[1, 2, 3, 4, 5, 6]);
    p.prepend_data(&[9, 8]);
    assert_eq!(p.get_data(), &[9, 8, 1, 2, 3, 4, 5, 6]);
    assert_eq!(p.get_data().len() % (p.get_format() as usize / 8), 0);
}

#[test]
fn window_property_map_replaces_and_deletes() {
    let rect = Rectangle { x: 0, y: 0, width: 10, height: 10 };
    let mut w = Window::new(1, None, rect, 24);
    w.create_property(b"ONE", Property::new(31, 8, b"ab".to_vec()));
    w.create_property(b"TWO", Property::new(31, 8, b"cd".to_vec()));
    w.create_property(b"ONE", Property::new(4, 32, vec![1, 2, 3, 4]));
    assert_eq!(w.get_property(b"ONE").unwrap().get_format(), 32);
    assert_eq!(w.get_property(b"TWO").unwrap().get_data(), b"cd");
    w.delete_property(b"ONE");
    assert!(w.get_property(b"ONE").is_none());
    assert!(w.get_property(b"TWO").is_some());
    w.delete_property(b"NONE");
    assert!(w.get_property(b"TWO").is_some());
}

#[test]
fn id_allocator_hands_out_each_id_once() {
    let mut a = IDAllocator::from_range(0, 4);
    let mut seen = Vec::new();
    for _ in 0..4 {
        let id = a.allocate().unwrap();
        assert!(id < 4);
        assert!(!seen.contains(&id));
        seen.push(id);
    }
    assert_eq!(a.allocate(), None);
    a.free(2);
    assert_eq!(a.allocate(), Some(2));
    // Freeing an unallocated id does nothing.
    a.free(99);
    assert_eq!(a.allocate(), None);
}

#[test]
fn id_allocator_inclusive_range() {
    let mut a = IDAllocator::from_range_inclusive(5, 6);
    let x = a.allocate().unwrap();
    let y = a.allocate().unwrap();
    assert!(x != y && (5..=6).contains(&x) && (5..=6).contains(&y));
    assert_eq!(a.allocate(), None);
}

#[test]
fn pad_brings_lengths_to_a_multiple_of_four() {
    assert_eq!(visto::codec::pad(0), 0);
    assert_eq!(visto::codec::pad(1), 3);
    assert_eq!(visto::codec::pad(2), 2);
    assert_eq!(visto::codec::pad(3), 1);
    assert_eq!(visto::codec::pad(4), 0);
    assert_eq!(visto::codec::pad(7), 1);
}

#[test]
fn codec_round_trips_little_endian() {
    let mut out = Vec::new();
    visto::codec::write_u16_le(&mut out, 0xBEEF);
    visto::codec::write_u32_le(&mut out, 0x12345678);
    assert_eq!(out, vec![0xEF, 0xBE, 0x78, 0x56, 0x34, 0x12]);
    assert_eq!(visto::codec::read_u16_le(&out, 0), 0xBEEF);
    assert_eq!(visto::codec::read_u32_le(&out, 2), 0x12345678);
}

#[test]
fn error_records_carry_their_codes() {
    let cases: Vec<(Error, u8, u32)> = vec![
        (Error::Request, 1, 0),
        (Error::Value(7), 2, 7),
        (Error::Window(3), 3, 3),
        (Error::Pixmap(4), 4, 4),
        (Error::Atom(5), 5, 5),
        (Error::Cursor(6), 6, 6),
        (Error::Font(7), 7, 7),
        (Error::Match, 8, 0),
        (Error::Drawable(9), 9, 9),
        (Error::Access, 10, 0),
        (Error::Alloc, 11, 0),
        (Error::Colormap(12), 12, 12),
        (Error::GContext(13), 13, 13),
        (Error::IDChoice(14), 14, 14),
        (Error::Name, 15, 0),
        (Error::Length, 16, 0),
        (Error::Implementation, 17, 0),
    ];
    for (e, code, data0) in cases {
        assert_eq!(e.get_code(), code);
        let rec = e.to_protocol(0x0102, 0x0304, 0x05);
        assert_eq!(rec.len(), 32);
        assert_eq!(rec[0], 0);
        assert_eq!(rec[1], code);
        assert_eq!(u16::from_le_bytes([rec[2], rec[3]]), 0x0102);
        assert_eq!(u32::from_le_bytes([rec[4], rec[5], rec[6], rec[7]]), data0);
        assert_eq!(u16::from_le_bytes([rec[8], rec[9]]), 0x0304);
        assert_eq!(rec[10], 0x05);
    }
}

#[test]
fn screens_are_adjacent_when_their_spans_touch() {
    let a = Screen::new(1, 0, 0, 100, 100, 10, 10);
    let b = Screen::new(2, 100, 0, 100, 100, 10, 10);
    let c = Screen::new(3, 300, 0, 100, 100, 10, 10);
    assert!(a.adj(&b));
    assert!(b.adj(&a));
    assert!(!a.adj(&c));
    assert_eq!(a.get_screen_size(), (100, 100));
    assert_eq!(a.get_screen_size_mm(), (10, 10));
    assert_eq!(a.get_root_window_id(), 1);
}

#[test]
fn protocol_screen_record_is_72_bytes() {
    let s = Screen::new(5, 0, 0, 800, 600, 310, 230);
    let b = s.to_protocol_screen();
    assert_eq!(b.len(), 72);
    assert_eq!(u32::from_le_bytes([b[0], b[1], b[2], b[3]]), 5);
    assert_eq!(u16::from_le_bytes([b[20], b[21]]), 800);
    assert_eq!(u16::from_le_bytes([b[22], b[23]]), 600);
    // One depth of 24 bits follows, then one direct-color visual.
    assert_eq!(b[38], 24); // root depth
    assert_eq!(b[40], 24); // the depth record
    assert_eq!(u16::from_le_bytes([b[42], b[43]]), 1); // one visual
    assert_eq!(b[52], 5); // DirectColor
    assert_eq!(b[53], 24); // bits per rgb value
    assert_eq!(u32::from_le_bytes([b[56], b[57], b[58], b[59]]), 0xff0000);
    assert_eq!(u32::from_le_bytes([b[60], b[61], b[62], b[63]]), 0x00ff00);
    assert_eq!(u32::from_le_bytes([b[64], b[65], b[66], b[67]]), 0x0000ff);
}

#[test]
fn render_buffer_clears_by_channel() {
    let mut rb = visto::render::RenderBuffer::new(2, 2, 3);
    rb.clear(&[1, 2, 3]);
    // A color of the wrong width does nothing.
    rb.clear(&[9, 9]);
    let mut rb2 = visto::render::RenderBuffer::new(1, 1, 3);
    rb2.clear(&[7, 8, 9]);
    drop(rb);
    drop(rb2);
}

#[test]
fn window_background_paints_its_clamped_rectangle() {
    let rect = Rectangle { x: 1, y: 1, width: 2, height: 2 };
    let mut w = Window::new(2, Some(1), rect, 24);
    let mut attrs = w.attributes;
    attrs.background_pixel = 7;
    w.set_attributes(attrs);
    let mut fb: Vec<u32> = vec![0; 16];
    w.render_pixel_background(1, 1, 4, 4, &mut fb);
    let expected: Vec<u32> = vec![
        0, 0, 0, 0,
        0, 7, 7, 0,
        0, 7, 7, 0,
        0, 0, 0, 0,
    ];
    assert_eq!(fb, expected);
    // A window hanging off the edge is clamped to the screen.
    let mut w2 = Window::new(3, Some(1), Rectangle { x: -1, y: 3, width: 3, height: 5 }, 24);
    let mut attrs2 = w2.attributes;
    attrs2.background_pixel = 9;
    attrs2.class = visto::protocol::Class::InputOutput;
    w2.set_attributes(attrs2);
    w2.render_pixel_background(-1, 3, 4, 4, &mut fb);
    let expected2: Vec<u32> = vec![
        0, 0, 0, 0,
        0, 7, 7, 0,
        0, 7, 7, 0,
        9, 9, 0, 0,
    ];
    assert_eq!(fb, expected2);
}

#[test]
fn children_render_at_absolute_coordinates() {
    // A child at (1, 1) inside a parent at (1, 0) paints at (2, 1).
    let mut ctx = Context::new();
    let rect = Rectangle { x: 0, y: 0, width: 4, height: 4 };
    ctx.create_window(1, None, rect, 24).unwrap();
    ctx.create_window(2, Some(1), Rectangle { x: 1, y: 0, width: 3, height: 4 }, 24).unwrap();
    ctx.create_window(3, Some(2), Rectangle { x: 1, y: 1, width: 1, height: 1 }, 24).unwrap();
    for (id, color) in [(2u32, 5u32), (3u32, 6u32)] {
        let i = ctx.find_window(id).unwrap();
        let mut a = ctx.windows[i].attributes;
        a.class = visto::protocol::Class::InputOutput;
        a.background_pixel = color;
        ctx.windows[i].set_attributes(a);
    }
    ctx.screens.push(Screen::new(1, 0, 0, 4, 4, 10, 10));
    let mut fbs: Vec<Vec<u32>> = vec![vec![0; 16]];
    ctx.render(&mut fbs);
    let expected: Vec<u32> = vec![
        0, 5, 5, 5,
        0, 5, 6, 5,
        0, 5, 5, 5,
        0, 5, 5, 5,
    ];
    assert_eq!(fbs[0], expected);
}

#[test]
fn context_renders_output_windows() {
    let mut ctx = Context::new();
    let rect = Rectangle { x: 0, y: 0, width: 2, height: 2 };
    ctx.create_window(1, None, rect, 24).unwrap();
    ctx.create_window(2, Some(1), Rectangle { x: 1, y: 0, width: 1, height: 2 }, 24).unwrap();
    // Make both windows drawable: the root white, the child coloured.
    let i = ctx.find_window(1).unwrap();
    let mut a = ctx.windows[i].attributes;
    a.class = visto::protocol::Class::InputOutput;
    a.background_pixel = 0xffffff;
    ctx.windows[i].set_attributes(a);
    let j = ctx.find_window(2).unwrap();
    let mut a2 = ctx.windows[j].attributes;
    a2.class = visto::protocol::Class::InputOutput;
    a2.background_pixel = 0xff;
    ctx.windows[j].set_attributes(a2);
    ctx.screens.push(Screen::new(1, 0, 0, 2, 2, 10, 10));
    let mut fbs: Vec<Vec<u32>> = vec![vec![0; 4]];
    ctx.render(&mut fbs);
    assert_eq!(fbs[0], vec![0xffffff, 0xff, 0xffffff, 0xff]);
}

#[test]
fn extension_list_parses_and_serves_paths() {
    let mut ctx = Context::new();
    let ok = ctx.load_extensions_list("{\"BIG-REQUEST\": \"/usr/lib/bigreq.so\"}");
    assert!(ok);
    let p = ctx.get_extension_path(b"BIG-REQUEST").unwrap();
    assert_eq!(p.as_str(), "/usr/lib/bigreq.so");
    assert!(ctx.get_extension_path(b"OTHER").is_none());
    // A text that is not a JSON object of strings leaves the registry alone.
    let bad = ctx.load_extensions_list("[1, 2]");
    assert!(!bad);
    assert!(ctx.get_extension_path(b"BIG-REQUEST").is_some());
}

#[test]
fn registered_extensions_get_distinct_opcodes() {
    let mut ctx = Context::new();
    let (a, _, _) = ctx.register_extension(b"ONE", None).unwrap();
    let (b, _, _) = ctx.register_extension(b"TWO", None).unwrap();
    assert!(a >= 128 && b >= 128 && a != b);
    assert!(ctx.find_extension(b"ONE").is_some());
    assert!(ctx.find_extension(b"THREE").is_none());
    assert_eq!(ctx.find_extension(b"TWO").unwrap().get_major_opcode(), b);
}

#[test]
fn gc_value_enums_reject_out_of_range_values() {
    assert!(visto::gc::Function::try_from(15).is_ok());
    assert!(matches!(visto::gc::Function::try_from(16), Err(Error::Value(16))));
    assert!(visto::gc::LineStyle::try_from(2).is_ok());
    assert!(visto::gc::LineStyle::try_from(3).is_err());
    assert!(visto::gc::CapStyle::try_from(3).is_ok());
    assert!(visto::gc::CapStyle::try_from(4).is_err());
    assert!(visto::gc::JoinStyle::try_from(2).is_ok());
    assert!(visto::gc::JoinStyle::try_from(3).is_err());
    assert!(visto::gc::FillStyle::try_from(3).is_ok());
    assert!(visto::gc::FillStyle::try_from(4).is_err());
    assert!(visto::gc::FillRule::try_from(1).is_ok());
    assert!(visto::gc::FillRule::try_from(2).is_err());
    assert!(visto::gc::SubWindowMode::try_from(1).is_ok());
    assert!(visto::gc::SubWindowMode::try_from(2).is_err());
    assert!(visto::gc::ArcMode::try_from(1).is_ok());
    assert!(visto::gc::ArcMode::try_from(2).is_err());
}

#[test]
fn change_property_mode_values() {
    assert!(matches!(
        visto::requests::ChangePropertyMode::from(0),
        Some(visto::requests::ChangePropertyMode::Replace)
    ));
    assert!(matches!(
        visto::requests::ChangePropertyMode::from(1),
        Some(visto::requests::ChangePropertyMode::Prepend)
    ));
    assert!(matches!(
        visto::requests::ChangePropertyMode::from(2),
        Some(visto::requests::ChangePropertyMode::Append)
    ));
    assert!(visto::requests::ChangePropertyMode::from(3).is_none());
}

#[test]
fn grab_and_ungrab_restore_the_context() {
    let mut ctx = Context::new();
    assert_eq!(ctx.grabbing_client, None);
    assert!(ctx.allows_dispatch(5));
    ctx.grab_by(5);
    assert_eq!(ctx.grabbing_client, Some(5));
    assert!(ctx.allows_dispatch(5));
    assert!(!ctx.allows_dispatch(6));
    ctx.ungrab();
    assert_eq!(ctx.grabbing_client, None);
    // A second ungrab is a no-op.
    ctx.ungrab();
    assert_eq!(ctx.grabbing_client, None);
    // Disconnecting a holder releases its grab; anyone else's stays.
    ctx.grab_by(5);
    ctx.on_client_disconnect(6);
    assert_eq!(ctx.grabbing_client, Some(5));
    ctx.on_client_disconnect(5);
    assert_eq!(ctx.grabbing_client, None);
}

#[test]
fn mutable_access_updates_in_place() {
    let mut ctx = Context::new();
    let rect = Rectangle { x: 0, y: 0, width: 10, height: 10 };
    ctx.create_window(1, None, rect, 24).unwrap();
    ctx.create_window(2, Some(1), rect, 24).unwrap();
    ctx.get_window_mut(2).unwrap().set_border_width(5);
    assert_eq!(ctx.get_window(2).unwrap().get_border_width(), 5);
    assert!(ctx.get_window_mut(9).is_none());
    ctx.get_screens_mut().push(Screen::new(1, 0, 0, 10, 10, 1, 1));
    assert_eq!(ctx.get_screens().len(), 1);
    // A property read back through the mutable accessor can be grown.
    let mut w = Window::new(7, Some(1), rect, 24);
    w.create_property(b"P", Property::new(31, 8, b"a".to_vec()));
    w.get_property_mut(b"P").unwrap().append_data(b"b");
    assert_eq!(w.get_property(b"P").unwrap().get_data(), b"ab");
    assert!(w.get_property_mut(b"Q").is_none());
}

#[test]
fn event_mask_bits_are_distinct_powers_of_two() {
    let events = [
        visto::protocol::Event::KeyPress,
        visto::protocol::Event::KeyRelease,
        visto::protocol::Event::ButtonPress,
        visto::protocol::Event::ButtonRelease,
        visto::protocol::Event::EnterWindow,
        visto::protocol::Event::LeaveWindow,
        visto::protocol::Event::PointerMotion,
        visto::protocol::Event::PointerMotionHint,
        visto::protocol::Event::Button1Motion,
        visto::protocol::Event::Button2Motion,
        visto::protocol::Event::Button3Motion,
        visto::protocol::Event::Button4Motion,
        visto::protocol::Event::Button5Motion,
        visto::protocol::Event::ButtonMotion,
        visto::protocol::Event::KeymapState,
        visto::protocol::Event::Exposure,
        visto::protocol::Event::VisibilityChange,
        visto::protocol::Event::StructureNotify,
        visto::protocol::Event::ResizeRedirect,
        visto::protocol::Event::SubstructureNotify,
        visto::protocol::Event::SubstructureRedirect,
        visto::protocol::Event::FocusChange,
        visto::protocol::Event::PropertyChange,
        visto::protocol::Event::ColormapChange,
        visto::protocol::Event::OwnerGrabButton,
    ];
    let mut seen: u32 = 0;
    for e in events {
        let bit = e.mask_bit();
        assert!(bit.is_power_of_two());
        assert_eq!(seen & bit, 0);
        seen |= bit;
    }
    assert_eq!(visto::protocol::Event::KeyPress.mask_bit(), 1);
    assert_eq!(visto::protocol::Event::PropertyChange.mask_bit(), 0x400000);
}

#[test]
fn pointer_follows_input_events() {
    let mut ctx = Context::new();
    ctx.apply_input(visto::input::Input::AbsoluteMove { x: 10, y: 20 });
    assert_eq!((ctx.pointer.x, ctx.pointer.y), (10, 20));
    ctx.apply_input(visto::input::Input::RelativeMove { delta_x: -3, delta_y: 5 });
    assert_eq!((ctx.pointer.x, ctx.pointer.y), (7, 25));
    // Moves clamp to the pointer's range.
    ctx.apply_input(visto::input::Input::RelativeMove { delta_x: -100, delta_y: 0x10000 });
    assert_eq!((ctx.pointer.x, ctx.pointer.y), (0, 0x7FFF));
    // Keys and buttons leave the pointer alone.
    ctx.apply_input(visto::input::Input::KeyPress(9));
    ctx.apply_input(visto::input::Input::ButtonPress(visto::input::MouseButton::Button1));
    assert_eq!((ctx.pointer.x, ctx.pointer.y), (0, 0x7FFF));
}
