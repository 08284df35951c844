//! The server context: the process-wide state a display server maintains —
//! screens, the window tree, the atom table, selections, the grab holder,
//! and the extension registry with its per-opcode request decoders.

use vstd::prelude::*;
use vstd::string::StringSliceAdditionalSpecFns;
use crate::atoms::AtomTable;
use crate::error::Error;
use crate::protocol::Rectangle;
use crate::window::Window;

verus! {

/// A selection: a name owned by at most one window.
pub struct Selection {
    /// The window ID of the owner of the selection, nonzero; `None` when the
    /// selection has no owner.
    owner: Option<u32>,
}

impl Selection {
    /// The owner of the selection, if any.
    pub closed spec fn spec_owner(&self) -> Option<u32> {
        self.owner
    }

    /// Returns the owner of the selection. If the selection has no owner, the
    /// function returns None.
    pub fn get_owner(&self) -> (r: Option<u32>)
        ensures
            r == self.spec_owner(),
    {
        self.owner
    }
}

/// The pointer, controlled by user inputs.
pub struct Pointer {
    /// The ID of the screen the pointer is located on.
    pub screen: u32,
    /// The X position of the pointer relative to the screen's top-left corner.
    pub x: i16,
    /// The Y position of the pointer relative to the screen's top-left corner.
    pub y: i16,
    /// The ID of the cursor associated with the pointer.
    pub cursor: u32,
}

impl Default for Pointer {
    fn default() -> (r: Self)
        ensures
            r.screen == 0 && r.x == 0 && r.y == 0 && r.cursor == 0,
    {
        Pointer { screen: 0, x: 0, y: 0, cursor: 0 }
    }
}

/// A screen: one physical output, reduced to what the protocol and the
/// compositor read of it. The framebuffers and the display hardware behind
/// them live outside the library.
pub struct Screen {
    /// The ID of the root window of the screen.
    pub root_win_id: u32,
    /// The absolute virtual X position of the screen.
    pub x: u32,
    /// The absolute virtual Y position of the screen.
    pub y: u32,
    /// The screen's width in pixels.
    pub width: u16,
    /// The screen's height in pixels.
    pub height: u16,
    /// The screen's width in millimeters.
    pub mm_width: u16,
    /// The screen's height in millimeters.
    pub mm_height: u16,
}

impl Screen {
    /// Creates a new screen record.
    pub fn new(root_win_id: u32, x: u32, y: u32, width: u16, height: u16, mm_width: u16, mm_height: u16) -> (s: Self)
        ensures
            s == (Screen { root_win_id, x, y, width, height, mm_width, mm_height }),
    {
        Screen { root_win_id, x, y, width, height, mm_width, mm_height }
    }

    /// Returns the size of the screen in pixels.
    pub fn get_screen_size(&self) -> (r: (u16, u16))
        ensures
            r == (self.width, self.height),
    {
        (self.width, self.height)
    }

    /// Returns the size of the screen in millimeters.
    pub fn get_screen_size_mm(&self) -> (r: (u16, u16))
        ensures
            r == (self.mm_width, self.mm_height),
    {
        (self.mm_width, self.mm_height)
    }

    /// Returns the ID of the screen's root window.
    pub fn get_root_window_id(&self) -> (r: u32)
        ensures
            r == self.root_win_id,
    {
        self.root_win_id
    }

    /// Tells whether two screens are adjacent: their virtual rectangles touch
    /// or overlap on both axes. This function is commutative.
    pub fn adj(&self, other: &Self) -> (r: bool)
        ensures
            r == (((self.x <= other.x && self.x + self.width + 1 >= other.x) || (other.x <= self.x
                && other.x + other.width + 1 >= self.x)) && ((self.y <= other.y && self.y
                + self.height + 1 >= other.y) || (other.y <= self.y && other.y + other.height + 1
                >= self.y))),
    {
        let sw = self.width as u64;
        let sh = self.height as u64;
        let ow = other.width as u64;
        let oh = other.height as u64;
        let x_adj = (self.x <= other.x && self.x as u64 + sw + 1 >= other.x as u64) || (other.x
            <= self.x && other.x as u64 + ow + 1 >= self.x as u64);
        let y_adj = (self.y <= other.y && self.y as u64 + sh + 1 >= other.y as u64) || (other.y
            <= self.y && other.y as u64 + oh + 1 >= self.y as u64);
        x_adj && y_adj
    }
}

/// A screen mode a layout may ask for.
pub struct ScreenModeDesc {
    /// The width of the screen in pixels.
    pub width: u16,
    /// The height of the screen in pixels.
    pub height: u16,
}

/// The position of one screen in a configured layout.
pub struct ScreenLayout {
    /// The name of the screen.
    pub name: Vec<u8>,
    /// The absolute virtual X position of the screen.
    pub x: u32,
    /// The absolute virtual Y position of the screen.
    pub y: u32,
    /// Tells whether the screen is enabled.
    pub enabled: bool,
    /// The mode for the screen.
    pub mode: ScreenModeDesc,
}

/// The configured virtual disposition of screens.
pub struct ScreensLayout {
    /// The list of layouts for each screen.
    pub screens: Vec<ScreenLayout>,
}

/// An extension loaded into the server, with the protocol numbers the
/// registry assigned to it.
pub struct Extension {
    /// The name of the extension, as queried on the wire.
    pub name: Vec<u8>,
    /// Major opcode allocated to the extension.
    pub major_opcode: u8,
    /// First event number allocated to the extension.
    pub first_event: u8,
    /// First error number allocated to the extension.
    pub first_error: u8,
}

impl Extension {
    /// Returns the major opcode allocated to the extension.
    pub fn get_major_opcode(&self) -> (r: u8)
        ensures
            r == self.major_opcode,
    {
        self.major_opcode
    }

    /// Returns the first event allocated to the extension.
    pub fn get_first_event(&self) -> (r: u8)
        ensures
            r == self.first_event,
    {
        self.first_event
    }

    /// Returns the first error allocated to the extension.
    pub fn get_first_error(&self) -> (r: u8)
        ensures
            r == self.first_error,
    {
        self.first_error
    }
}

/// A request decoder registered for an extension's major opcode. Decoders
/// are drawn from the extensions this library itself implements.
#[derive(Clone, Copy, PartialEq, Eq, Structural)]
pub enum ExtDecoder {
    /// The BIG-REQUEST extension's single request: enable big framing.
    BigReqEnable,
}

/// Whether the registry holds an extension under the given name.
pub open spec fn ext_known(exts: Seq<Extension>, name: Seq<u8>) -> bool {
    exists|i: int| 0 <= i < exts.len() && (#[trigger] exts[i].name)@ == name
}

/// The index of the extension with the given name.
pub open spec fn ext_index(exts: Seq<Extension>, name: Seq<u8>) -> int {
    choose|i: int| 0 <= i < exts.len() && (#[trigger] exts[i].name)@ == name
}

/// Whether a decoder is registered for the given major opcode.
pub open spec fn custom_has(reqs: Seq<(u8, ExtDecoder)>, opcode: u8) -> bool {
    exists|i: int| 0 <= i < reqs.len() && (#[trigger] reqs[i]).0 == opcode
}

/// The decoder registered for the given major opcode.
pub open spec fn custom_at(reqs: Seq<(u8, ExtDecoder)>, opcode: u8) -> ExtDecoder {
    reqs[choose|i: int| 0 <= i < reqs.len() && (#[trigger] reqs[i]).0 == opcode].1
}

/// Whether the window list holds a window with the given id.
pub open spec fn win_has(ws: Seq<Window>, id: u32) -> bool {
    exists|i: int| 0 <= i < ws.len() && ws[i].spec_id() == id
}

/// The index of the window with the given id.
pub open spec fn win_index(ws: Seq<Window>, id: u32) -> int {
    choose|i: int| 0 <= i < ws.len() && ws[i].spec_id() == id
}

/// The window with the given id, if any.
pub open spec fn win_get(ws: Seq<Window>, id: u32) -> Option<Window> {
    if win_has(ws, id) {
        Some(ws[win_index(ws, id)])
    } else {
        None
    }
}

/// No two windows share an id.
pub open spec fn win_ids_unique(ws: Seq<Window>) -> bool {
    forall|i: int, j: int| 0 <= i < j < ws.len() ==> ws[i].spec_id() != ws[j].spec_id()
}

/// The window at index `i` names an existing parent, and that parent lists
/// the window among its children.
pub open spec fn parent_linked(ws: Seq<Window>, i: int) -> bool {
    ws[i].spec_parent() matches Some(p) ==> win_has(ws, p) && ws[win_index(
        ws,
        p,
    )].spec_children().contains(ws[i].spec_id())
}

/// Every child the window at index `i` lists exists and names the window as
/// its parent.
pub open spec fn children_linked(ws: Seq<Window>, i: int) -> bool {
    forall|k: int|
        0 <= k < ws[i].spec_children().len() ==> win_has(ws, #[trigger] ws[i].spec_children()[k])
            && ws[win_index(ws, ws[i].spec_children()[k])].spec_parent() == Some(ws[i].spec_id())
}

/// The window list forms a well-linked tree: ids are unique, each window is
/// well-formed, and the parent/child links agree in both directions.
pub open spec fn windows_wf(ws: Seq<Window>) -> bool {
    &&& win_ids_unique(ws)
    &&& forall|i: int| 0 <= i < ws.len() ==> (#[trigger] ws[i]).wf()
    &&& forall|i: int| 0 <= i < ws.len() ==> #[trigger] parent_linked(ws, i)
    &&& forall|i: int| 0 <= i < ws.len() ==> #[trigger] children_linked(ws, i)
}

/// With unique ids, the index of a window's id is that window's index.
pub proof fn lemma_win_index_of(ws: Seq<Window>, i: int)
    requires
        win_ids_unique(ws),
        0 <= i < ws.len(),
    ensures
        win_has(ws, ws[i].spec_id()),
        win_index(ws, ws[i].spec_id()) == i,
{
    assert(win_has(ws, ws[i].spec_id()));
    let j = win_index(ws, ws[i].spec_id());
    assert(ws[j].spec_id() == ws[i].spec_id());
}

/// For all windows `w` with parent `p`: `p` exists, and `p.children`
/// contains `w.id`. With the converse direction: every child a window lists
/// names it back as parent.
pub proof fn lemma_window_tree_linked(ws: Seq<Window>, i: int)
    requires
        windows_wf(ws),
        0 <= i < ws.len(),
    ensures
        ws[i].spec_parent() matches Some(p) ==> win_has(ws, p) && win_get(
            ws,
            p,
        ).unwrap().spec_children().contains(ws[i].spec_id()),
        forall|k: int|
            0 <= k < ws[i].spec_children().len() ==> (win_get(
                ws,
                #[trigger] ws[i].spec_children()[k],
            ) matches Some(c) && c.spec_parent() == Some(ws[i].spec_id())),
    {
    assert(parent_linked(ws, i));
    assert(children_linked(ws, i));
    assert forall|k: int| 0 <= k < ws[i].spec_children().len() implies (win_get(
        ws,
        #[trigger] ws[i].spec_children()[k],
    ) matches Some(c) && c.spec_parent() == Some(ws[i].spec_id())) by {
        assert(win_has(ws, ws[i].spec_children()[k]));
    }
}

/// Replacing one window by another with the same id, parent and children
/// keeps the tree well-linked.
pub proof fn lemma_wf_update_content(ws: Seq<Window>, i: int, w2: Window)
    requires
        windows_wf(ws),
        0 <= i < ws.len(),
        w2.wf(),
        w2.spec_id() == ws[i].spec_id(),
        w2.spec_parent() == ws[i].spec_parent(),
        w2.spec_children() == ws[i].spec_children(),
    ensures
        windows_wf(ws.update(i, w2)),
{
    let ws2 = ws.update(i, w2);
    assert forall|a: int| 0 <= a < ws2.len() implies (#[trigger] ws2[a]).wf() by {
        if a != i {
            assert(ws2[a] == ws[a]);
        }
    }
    assert forall|a: int, b: int| 0 <= a < b < ws2.len() implies ws2[a].spec_id()
        != ws2[b].spec_id() by {
        assert(ws2[a].spec_id() == ws[a].spec_id());
        assert(ws2[b].spec_id() == ws[b].spec_id());
    }
    assert forall|id: u32| win_has(ws, id) implies win_has(ws2, id) && ws2[win_index(
        ws2,
        id,
    )].spec_id() == id by {
        let a = win_index(ws, id);
        assert(ws2[a].spec_id() == id);
        assert(win_has(ws2, id));
        let b = win_index(ws2, id);
        assert(ws2[b].spec_id() == id);
    }
    assert forall|a: int| 0 <= a < ws2.len() implies #[trigger] parent_linked(ws2, a) by {
        assert(parent_linked(ws, a));
        assert(ws2[a].spec_parent() == ws[a].spec_parent());
        assert(ws2[a].spec_id() == ws[a].spec_id());
        if (ws[a].spec_parent()) is Some {
            let p = (ws[a].spec_parent())->Some_0;
            let j = win_index(ws, p);
            assert(ws[j].spec_id() == p);
            assert(ws2[j].spec_id() == p);
            assert(win_has(ws2, p));
            let j2 = win_index(ws2, p);
            assert(ws2[j2].spec_id() == p);
            assert(j2 == j) by {
                if j2 != j {
                    if j2 < j {
                        assert(ws2[j2].spec_id() != ws2[j].spec_id());
                    } else {
                        assert(ws2[j].spec_id() != ws2[j2].spec_id());
                    }
                }
            }
            assert(ws2[j].spec_children() == ws[j].spec_children());
        }
    }
    assert forall|a: int| 0 <= a < ws2.len() implies #[trigger] children_linked(ws2, a) by {
        assert(children_linked(ws, a));
        assert(ws2[a].spec_children() == ws[a].spec_children());
        assert forall|k: int| 0 <= k < ws2[a].spec_children().len() implies win_has(
            ws2,
            #[trigger] ws2[a].spec_children()[k],
        ) && ws2[win_index(ws2, ws2[a].spec_children()[k])].spec_parent() == Some(
            ws2[a].spec_id(),
        ) by {
            let c = ws2[a].spec_children()[k];
            assert(ws[a].spec_children()[k] == c);
            assert(win_has(ws, c));
            let j = win_index(ws, c);
            assert(ws[j].spec_id() == c);
            assert(ws2[j].spec_id() == c);
            assert(win_has(ws2, c));
            let j2 = win_index(ws2, c);
            assert(ws2[j2].spec_id() == c);
            assert(j2 == j) by {
                if j2 != j {
                    if j2 < j {
                        assert(ws2[j2].spec_id() != ws2[j].spec_id());
                    } else {
                        assert(ws2[j].spec_id() != ws2[j2].spec_id());
                    }
                }
            }
            assert(ws2[j].spec_parent() == ws[j].spec_parent());
        }
    }
}

/// A context: the state of one running server.
pub struct Context {
    /// The list of screens.
    pub screens: Vec<Screen>,
    /// The list of windows.
    pub windows: Vec<Window>,
    /// The atoms interned on the server.
    pub atoms: AtomTable,
    /// The list of selections on the server, by name.
    pub selections: Vec<(Vec<u8>, Selection)>,
    /// The client currently grabbing the server.
    pub grabbing_client: Option<u32>,
    /// Request decoders registered by extensions, by major opcode.
    pub custom_requests: Vec<(u8, ExtDecoder)>,
    /// The extensions the registry may load: name and module path.
    pub extension_paths: Vec<(String, String)>,
    /// The extensions loaded so far, with their assigned numbers.
    pub extensions: Vec<Extension>,
    /// The next major opcode the registry will assign.
    pub next_ext_opcode: u8,
    /// Fonts opened by clients: font id and font name.
    pub fonts: Vec<(u32, Vec<u8>)>,
    /// The pointer, controlled by user inputs.
    pub pointer: Pointer,
}

impl Context {
    /// A context is well-formed when its atom table and window tree are, and
    /// every registered extension carries an opcode from the extension range
    /// and a name of its own.
    pub open spec fn wf(&self) -> bool {
        &&& self.atoms.wf()
        &&& windows_wf(self.windows@)
        &&& self.next_ext_opcode >= 128
        &&& forall|i: int|
            0 <= i < self.extensions@.len() ==> (#[trigger] self.extensions@[i]).major_opcode
                >= 128
        &&& forall|i: int, j: int|
            0 <= i < j < self.extensions@.len() ==> (self.extensions@[i].name)@
                != (self.extensions@[j].name)@
        &&& forall|i: int|
            0 <= i < self.custom_requests@.len() ==> (#[trigger] self.custom_requests@[i]).0
                < self.next_ext_opcode
        &&& forall|i: int, j: int|
            0 <= i < j < self.custom_requests@.len() ==> self.custom_requests@[i].0
                != self.custom_requests@[j].0
    }

    /// Creates a new context: no screens, no windows, the bootstrap atoms,
    /// no selections, no grab and no extensions.
    pub fn new() -> (ctx: Self)
        ensures
            ctx.wf(),
            ctx.screens@.len() == 0,
            ctx.windows@.len() == 0,
            crate::atoms::bootstrap_present(ctx.atoms@),
            ctx.atoms@.len() <= 68,
            ctx.atoms@.len() == 68 ==> ctx.atoms@ == crate::atoms::bootstrap_names(),
            ctx.selections@.len() == 0,
            ctx.grabbing_client is None,
            ctx.custom_requests@.len() == 0,
            ctx.extensions@.len() == 0,
    {
        let ctx = Context {
            screens: Vec::new(),
            windows: Vec::new(),
            atoms: AtomTable::new(),
            selections: Vec::new(),
            grabbing_client: None,
            custom_requests: Vec::new(),
            extension_paths: Vec::new(),
            extensions: Vec::new(),
            next_ext_opcode: 128,
            fonts: Vec::new(),
            pointer: Pointer::default(),
        };
        ctx
    }

    /// Returns an immutable reference to the list of screens.
    pub fn get_screens(&self) -> (r: &Vec<Screen>)
        ensures
            r@ == self.screens@,
    {
        &self.screens
    }

    /// Returns a mutable reference to the list of screens.
    pub fn get_screens_mut(&mut self) -> (r: &mut Vec<Screen>)
        ensures
            *r == old(self).screens,
            final(self).screens == *final(r),
            *final(self) == (Context { screens: final(self).screens, ..*old(self) }),
    {
        &mut self.screens
    }

    /// Returns an immutable reference to the window with the given ID.
    pub fn get_window(&self, wid: u32) -> (r: Option<&Window>)
        requires
            self.wf(),
        ensures
            match r {
                Some(w) => win_get(self.windows@, wid) == Some(*w),
                None => !win_has(self.windows@, wid),
            },
    {
        let ghost ws = self.windows@;
        let mut i: usize = 0;
        while i < self.windows.len()
            invariant
                i <= ws.len(),
                ws == self.windows@,
                self.wf(),
                forall|j: int| 0 <= j < i ==> ws[j].spec_id() != wid,
            decreases ws.len() - i,
        {
            if self.windows[i].get_id() == wid {
                proof {
                    lemma_win_index_of(ws, i as int);
                }
                return Some(&self.windows[i]);
            }
            i = i + 1;
        }
        None
    }

    /// Returns a mutable reference to the window with the given ID. The
    /// window tree stays well-linked as long as the caller leaves the
    /// window's id, parent and children alone.
    pub fn get_window_mut(&mut self, wid: u32) -> (r: Option<&mut Window>)
        requires
            old(self).wf(),
        ensures
            match r {
                Some(w) => {
                    &&& win_get(old(self).windows@, wid) == Some(*w)
                    &&& *final(self) == (Context { windows: final(self).windows, ..*old(self) })
                    &&& final(self).windows@ == old(self).windows@.update(
                        win_index(old(self).windows@, wid),
                        *final(w),
                    )
                },
                None => *final(self) == *old(self) && !win_has(old(self).windows@, wid),
            },
    {
        let i = match self.find_window(wid) {
            Some(i) => i,
            None => {
                return None;
            }
        };
        Some(&mut self.windows[i])
    }

    /// The index of the window with the given id in the window list.
    pub fn find_window(&self, wid: u32) -> (r: Option<usize>)
        requires
            self.wf(),
        ensures
            match r {
                Some(i) => i < self.windows@.len() && self.windows@[i as int].spec_id() == wid
                    && win_index(self.windows@, wid) == i && win_has(self.windows@, wid),
                None => !win_has(self.windows@, wid),
            },
    {
        let ghost ws = self.windows@;
        let mut i: usize = 0;
        while i < self.windows.len()
            invariant
                i <= ws.len(),
                ws == self.windows@,
                self.wf(),
                forall|j: int| 0 <= j < i ==> ws[j].spec_id() != wid,
            decreases ws.len() - i,
        {
            if self.windows[i].get_id() == wid {
                proof {
                    assert(win_has(ws, wid));
                    lemma_win_index_of(ws, i as int);
                }
                return Some(i);
            }
            i = i + 1;
        }
        None
    }

    /// Creates a window with the given id under the given parent and inserts
    /// it in the tree. A zero or taken id is an `IDChoice` error; a missing
    /// parent is a `Window` error.
    pub fn create_window(&mut self, wid: u32, parent: Option<u32>, rect: Rectangle, depth: u8) -> (r: Result<
        (),
        Error,
    >)
        requires
            old(self).wf(),
        ensures
            final(self).wf(),
            match r {
                Ok(()) => {
                    &&& !win_has(old(self).windows@, wid)
                    &&& wid != 0
                    &&& (parent matches Some(p) ==> win_has(old(self).windows@, p))
                    &&& win_has(final(self).windows@, wid)
                    &&& win_get(final(self).windows@, wid) matches Some(w) && w.spec_parent()
                        == parent && w.spec_props().len() == 0 && w.spec_id() == wid
                        && w.spec_children().len() == 0 && w.spec_depth() == depth
                        && w.spec_border_width() == 0 && w.attributes
                        == crate::window::WindowAttributes::spec_default() && w.spec_rect() == (
                    if parent is None {
                        (Rectangle { x: 0, y: 0, ..rect })
                    } else {
                        rect
                    })
                    &&& (parent matches Some(p) ==> win_get(final(self).windows@, p) matches Some(
                        pw,
                    ) && pw.spec_children().contains(wid))
                    &&& *final(self) == (Context { windows: final(self).windows, ..*old(self) })
                },
                Err(Error::IDChoice(v)) => v == wid && (wid == 0 || win_has(
                    old(self).windows@,
                    wid,
                )) && *final(self) == *old(self),
                Err(Error::Window(v)) => parent == Some(v) && !win_has(old(self).windows@, v)
                    && *final(self) == *old(self),
                Err(_) => false,
            },
    {
        if wid == 0 {
            return Err(Error::IDChoice(wid));
        }
        if let Some(_) = self.find_window(wid) {
            return Err(Error::IDChoice(wid));
        }
        let ghost ws0 = self.windows@;
        match parent {
            Some(p) => {
                let j = match self.find_window(p) {
                    Some(j) => j,
                    None => {
                        return Err(Error::Window(p));
                    }
                };
                let ghost pw0 = self.windows@[j as int];
                let pwin = &mut self.windows[j];
                pwin.add_child(wid);
                let ghost ws1 = self.windows@;
                let w = Window::new(wid, parent, rect, depth);
                let ghost neww = w;
                self.windows.push(w);
                proof {
                    let ws2 = self.windows@;
                    let n = ws1.len() as int;
                    assert(ws2 =~= ws1.push(neww));
                    lemma_wf_insert_child(ws0, j as int, wid, ws1[j as int], neww, ws1, ws2);
                    lemma_win_index_of(ws2, n);
                    assert(win_get(ws2, wid) == Some(neww));
                    assert(neww.spec_props() =~= Seq::<(Seq<u8>, crate::window::Property)>::empty());
                    lemma_win_index_of(ws2, j as int);
                    assert(win_get(ws2, p) == Some(ws2[j as int]));
                    assert(ws2[j as int].spec_children() == pw0.spec_children().push(wid));
                    assert(ws2[j as int].spec_children().contains(wid)) by {
                        assert(ws2[j as int].spec_children()[pw0.spec_children().len() as int]
                            == wid);
                    }
                }
                Ok(())
            }
            None => {
                let w = Window::new(wid, None, rect, depth);
                let ghost neww = w;
                self.windows.push(w);
                proof {
                    let ws2 = self.windows@;
                    let n = ws0.len() as int;
                    assert(ws2 =~= ws0.push(neww));
                    lemma_wf_push_root(ws0, neww);
                    lemma_win_index_of(ws2, n);
                    assert(win_get(ws2, wid) == Some(neww));
                    assert(neww.spec_props() =~= Seq::<(Seq<u8>, crate::window::Property)>::empty());
                }
                Ok(())
            }
        }
    }

    /// Returns the value of the atom with the given ID. If the atom doesn't
    /// exist, the function returns None.
    pub fn get_atom(&self, id: u32) -> (r: Option<&Vec<u8>>)
        ensures
            match r {
                Some(n) => 1 <= id <= self.atoms@.len() && n@ == self.atoms@[id - 1],
                None => id == 0 || id > self.atoms@.len(),
            },
    {
        self.atoms.get_atom(id)
    }

    /// Returns the ID of the atom with the given name, if interned.
    pub fn get_atom_from_name(&self, name: &[u8]) -> (r: Option<u32>)
        requires
            self.atoms@.len() <= crate::atoms::MAX_ATOM_ID,
        ensures
            match r {
                Some(id) => 1 <= id <= self.atoms@.len() && self.atoms@[id - 1] == name@,
                None => forall|i: int| 0 <= i < self.atoms@.len() ==> self.atoms@[i] != name@,
            },
    {
        self.atoms.get_atom_from_name(name)
    }

    /// Creates an atom with the given name and returns its ID; an existing
    /// name keeps its id.
    pub fn create_atom(&mut self, name: &[u8]) -> (r: u32)
        requires
            old(self).wf(),
            old(self).atoms@.len() < crate::atoms::MAX_ATOM_ID,
        ensures
            final(self).wf(),
            *final(self) == (Context { atoms: final(self).atoms, ..*old(self) }),
            (final(self).atoms@, r as int) == crate::atoms::spec_intern(
                old(self).atoms@,
                name@,
                false,
            ),
    {
        self.atoms.intern(name, false)
    }

    /// Returns the selection with the given name. If the selection doesn't
    /// exist, the function returns None.
    pub fn get_selection(&self, name: &[u8]) -> (r: Option<&Selection>)
        ensures
            (r is Some) == (exists|i: int|
                0 <= i < self.selections@.len() && (#[trigger] self.selections@[i].0)@ == name@),
            r matches Some(sel) ==> exists|i: int|
                0 <= i < self.selections@.len() && (#[trigger] self.selections@[i].0)@ == name@
                    && self.selections@[i].1.spec_owner() == sel.spec_owner(),
    {
        let mut i: usize = 0;
        while i < self.selections.len()
            invariant
                i <= self.selections@.len(),
                forall|j: int| 0 <= j < i ==> (#[trigger] self.selections@[j].0)@ != name@,
            decreases self.selections@.len() - i,
        {
            if crate::atoms::bytes_eq(self.selections[i].0.as_slice(), name) {
                return Some(&self.selections[i].1);
            }
            i = i + 1;
        }
        None
    }

    /// Makes the server be grabbed by the given client.
    pub fn grab_by(&mut self, client_id: u32)
        ensures
            *final(self) == (Context { grabbing_client: Some(client_id), ..*old(self) }),
    {
        self.grabbing_client = Some(client_id);
    }

    /// Ungrabs the server.
    pub fn ungrab(&mut self)
        ensures
            *final(self) == (Context { grabbing_client: None, ..*old(self) }),
    {
        self.grabbing_client = None;
    }

    /// Whether requests from the given client may be dispatched: no grab is
    /// held, or the client itself holds it.
    pub fn allows_dispatch(&self, client_id: u32) -> (r: bool)
        ensures
            r == (self.grabbing_client is None || self.grabbing_client == Some(client_id)),
    {
        match self.grabbing_client {
            None => true,
            Some(holder) => holder == client_id,
        }
    }

    /// A client went away: release its grab if it held one.
    pub fn on_client_disconnect(&mut self, client_id: u32)
        ensures
            *final(self) == (Context {
                grabbing_client: final(self).grabbing_client,
                ..*old(self)
            }),
            final(self).grabbing_client == (if old(self).grabbing_client == Some(client_id) {
                Option::<u32>::None
            } else {
                old(self).grabbing_client
            }),
    {
        if let Some(holder) = self.grabbing_client {
            if holder == client_id {
                self.grabbing_client = None;
            }
        }
    }

    /// The decoder an extension registered for the given major opcode: in a
    /// well-formed context, the one decoder so keyed.
    pub fn custom_request_decoder(&self, opcode: u8) -> (r: Option<ExtDecoder>)
        ensures
            (r is Some) == custom_has(self.custom_requests@, opcode),
            r matches Some(d) ==> exists|i: int|
                0 <= i < self.custom_requests@.len() && #[trigger] self.custom_requests@[i] == (
                opcode,
                d,
                ),
            self.wf() ==> r == (if custom_has(self.custom_requests@, opcode) {
                Some(custom_at(self.custom_requests@, opcode))
            } else {
                None
            }),
    {
        let mut i: usize = 0;
        while i < self.custom_requests.len()
            invariant
                i <= self.custom_requests@.len(),
                forall|j: int| 0 <= j < i ==> (#[trigger] self.custom_requests@[j]).0 != opcode,
            decreases self.custom_requests@.len() - i,
        {
            if self.custom_requests[i].0 == opcode {
                return Some(self.custom_requests[i].1);
            }
            i = i + 1;
        }
        None
    }

    /// Registers a decoder for an extension's major opcode. The opcode must
    /// come fresh from the registry's pool, so each opcode keys one decoder.
    pub fn register_custom_request(&mut self, opcode: u8, decoder: ExtDecoder)
        requires
            old(self).wf(),
            opcode >= old(self).next_ext_opcode,
            opcode < 255,
        ensures
            final(self).wf(),
            *final(self) == (Context {
                custom_requests: final(self).custom_requests,
                next_ext_opcode: final(self).next_ext_opcode,
                ..*old(self)
            }),
            final(self).custom_requests@ == old(self).custom_requests@.push((opcode, decoder)),
            final(self).next_ext_opcode == opcode + 1,
    {
        self.custom_requests.push((opcode, decoder));
        self.next_ext_opcode = opcode + 1;
    }

    /// The extension with the given name, if the registry has loaded it: in
    /// a well-formed context that extension is the one record so named.
    pub fn find_extension(&self, name: &[u8]) -> (r: Option<&Extension>)
        ensures
            (r is Some) == ext_known(self.extensions@, name@),
            r matches Some(e) ==> (exists|i: int|
                0 <= i < self.extensions@.len() && #[trigger] self.extensions@[i] == *e) && (
            e.name)@ == name@,
            self.wf() && ext_known(self.extensions@, name@) ==> r == Some(
                &self.extensions@[ext_index(self.extensions@, name@)],
            ),
    {
        let mut i: usize = 0;
        while i < self.extensions.len()
            invariant
                i <= self.extensions@.len(),
                forall|j: int| 0 <= j < i ==> (#[trigger] self.extensions@[j].name)@ != name@,
            decreases self.extensions@.len() - i,
        {
            if crate::atoms::bytes_eq(self.extensions[i].name.as_slice(), name) {
                return Some(&self.extensions[i]);
            }
            i = i + 1;
        }
        None
    }

    /// Registers an extension under the next free major opcode and hands the
    /// assigned numbers back, or `None` when the opcode pool is exhausted.
    pub fn register_extension(&mut self, name: &[u8], decoder: Option<ExtDecoder>) -> (r: Option<(
        u8,
        u8,
        u8,
    )>)
        requires
            old(self).wf(),
            !ext_known(old(self).extensions@, name@),
        ensures
            final(self).wf(),
            final(self).windows@ == old(self).windows@,
            final(self).atoms == old(self).atoms,
            final(self).grabbing_client == old(self).grabbing_client,
            *final(self) == (Context {
                extensions: final(self).extensions,
                custom_requests: final(self).custom_requests,
                next_ext_opcode: final(self).next_ext_opcode,
                ..*old(self)
            }),
            r matches Some(nums) ==> {
                &&& final(self).extensions@ == old(self).extensions@.push(Extension {
                    name: final(self).extensions@.last().name,
                    major_opcode: nums.0,
                    first_event: nums.1,
                    first_error: nums.2,
                })
                &&& (final(self).extensions@.last().name)@ == name@
                &&& nums.0 >= 128
                &&& nums.1 == 0 && nums.2 == 0
                &&& (match decoder {
                    Some(d) => final(self).custom_requests@ == old(
                        self,
                    ).custom_requests@.push((nums.0, d)),
                    None => final(self).custom_requests@ == old(self).custom_requests@,
                })
            },
            (r is None) <==> old(self).next_ext_opcode == 255,
            r is None ==> *final(self) == *old(self),
    {
        if self.next_ext_opcode == 255 {
            return None;
        }
        let opcode = self.next_ext_opcode;
        self.next_ext_opcode = self.next_ext_opcode + 1;
        let ext = Extension {
            name: crate::atoms::bytes_to_vec(name),
            major_opcode: opcode,
            first_event: 0,
            first_error: 0,
        };
        self.extensions.push(ext);
        if let Some(d) = decoder {
            self.custom_requests.push((opcode, d));
        }
        Some((opcode, 0, 0))
    }
}

/// Pushing a fresh root window keeps the tree well-linked.
proof fn lemma_wf_push_root(ws: Seq<Window>, w: Window)
    requires
        windows_wf(ws),
        w.wf(),
        w.spec_parent() is None,
        w.spec_children().len() == 0,
        !win_has(ws, w.spec_id()),
    ensures
        windows_wf(ws.push(w)),
{
    let ws2 = ws.push(w);
    let n = ws.len() as int;
    assert forall|a: int| 0 <= a < ws2.len() implies (#[trigger] ws2[a]).wf() by {
        if a < n {
            assert(ws2[a] == ws[a]);
        }
    }
    assert forall|a: int, b: int| 0 <= a < b < ws2.len() implies ws2[a].spec_id()
        != ws2[b].spec_id() by {
        if b < n {
            assert(ws2[a] == ws[a] && ws2[b] == ws[b]);
        } else {
            assert(ws2[a] == ws[a] && ws2[b] == w);
            if ws[a].spec_id() == w.spec_id() {
                assert(win_has(ws, w.spec_id()));
            }
        }
    }
    assert forall|id: u32| win_has(ws, id) implies win_has(ws2, id) && ws2[win_index(
        ws2,
        id,
    )].spec_id() == id && ws2[win_index(ws2, id)] == ws[win_index(ws, id)] by {
        let a = win_index(ws, id);
        assert(ws2[a].spec_id() == id);
        assert(win_has(ws2, id));
        let b = win_index(ws2, id);
        assert(ws2[b].spec_id() == id);
        if b != a {
            if b < n {
                assert(ws[b].spec_id() == ws[a].spec_id());
                assert(false);
            } else {
                assert(ws2[b] == w);
                assert(win_has(ws, w.spec_id()));
                assert(false);
            }
        }
    }
    assert forall|a: int| 0 <= a < ws2.len() implies #[trigger] parent_linked(ws2, a) by {
        if a < n {
            assert(parent_linked(ws, a));
            if (ws[a].spec_parent()) is Some {
                let p = (ws[a].spec_parent())->Some_0;
                let j = win_index(ws, p);
                assert(win_has(ws2, p));
                assert(ws2[win_index(ws2, p)] == ws[j]);
            }
        }
    }
    assert forall|a: int| 0 <= a < ws2.len() implies #[trigger] children_linked(ws2, a) by {
        if a < n {
            assert(children_linked(ws, a));
            assert(ws2[a].spec_children() == ws[a].spec_children());
            assert forall|k: int| 0 <= k < ws2[a].spec_children().len() implies win_has(
                ws2,
                #[trigger] ws2[a].spec_children()[k],
            ) && ws2[win_index(ws2, ws2[a].spec_children()[k])].spec_parent() == Some(
                ws2[a].spec_id(),
            ) by {
                let c = ws[a].spec_children()[k];
                assert(win_has(ws, c));
                assert(ws2[win_index(ws2, c)] == ws[win_index(ws, c)]);
            }
        } else {
            assert(ws2[a].spec_children().len() == 0);
        }
    }
}

/// Adding a fresh child id to an existing parent's list and then pushing the
/// child window keeps the tree well-linked.
proof fn lemma_wf_insert_child(
    ws0: Seq<Window>,
    j: int,
    wid: u32,
    p2: Window,
    w: Window,
    ws1: Seq<Window>,
    ws2: Seq<Window>,
)
    requires
        windows_wf(ws0),
        0 <= j < ws0.len(),
        !win_has(ws0, wid),
        w.wf(),
        w.spec_id() == wid,
        w.spec_parent() == Some(ws0[j].spec_id()),
        w.spec_children().len() == 0,
        ws1 == ws0.update(j, p2),
        p2.spec_children() == ws0[j].spec_children().push(wid),
        p2.spec_id() == ws0[j].spec_id(),
        p2.spec_parent() == ws0[j].spec_parent(),
        p2.wf(),
        ws2 == ws1.push(w),
    ensures
        windows_wf(ws2),
{
    let n = ws0.len() as int;
    assert forall|a: int| 0 <= a < ws2.len() implies (#[trigger] ws2[a]).wf() by {
        if a < n && a != j {
            assert(ws2[a] == ws0[a]);
        }
    }
    assert forall|a: int, b: int| 0 <= a < b < ws2.len() implies ws2[a].spec_id()
        != ws2[b].spec_id() by {
        if b < n {
            assert(ws2[a].spec_id() == ws0[a].spec_id());
            assert(ws2[b].spec_id() == ws0[b].spec_id());
        } else {
            assert(ws2[b] == w);
            assert(ws2[a].spec_id() == ws0[a].spec_id());
            if ws0[a].spec_id() == wid {
                assert(win_has(ws0, wid));
            }
        }
    }
    assert forall|id: u32| win_has(ws0, id) implies win_has(ws2, id) && win_index(ws2, id)
        == win_index(ws0, id) by {
        let a = win_index(ws0, id);
        assert(ws0[a].spec_id() == id);
        assert(ws2[a].spec_id() == id);
        assert(win_has(ws2, id));
        let b = win_index(ws2, id);
        assert(ws2[b].spec_id() == id);
        if b != a {
            if b < n {
                assert(ws0[b].spec_id() == id);
                if b < a {
                    assert(ws0[b].spec_id() != ws0[a].spec_id());
                } else {
                    assert(ws0[a].spec_id() != ws0[b].spec_id());
                }
            } else {
                assert(ws2[b] == w);
                assert(win_has(ws0, wid));
            }
        }
    }
    assert forall|a: int| 0 <= a < ws2.len() implies #[trigger] parent_linked(ws2, a) by {
        if a < n {
            assert(parent_linked(ws0, a));
            assert(ws2[a].spec_parent() == ws0[a].spec_parent());
            assert(ws2[a].spec_id() == ws0[a].spec_id());
            if (ws0[a].spec_parent()) is Some {
                let p = (ws0[a].spec_parent())->Some_0;
                let pj = win_index(ws0, p);
                assert(win_has(ws2, p));
                assert(win_index(ws2, p) == pj);
                if pj == j {
                    assert(ws2[pj].spec_children() == ws0[j].spec_children().push(wid));
                    assert(ws0[j].spec_children().contains(ws0[a].spec_id()));
                    let k = choose|k: int|
                        0 <= k < ws0[j].spec_children().len() && ws0[j].spec_children()[k]
                            == ws0[a].spec_id();
                    assert(ws2[pj].spec_children()[k] == ws0[a].spec_id());
                    assert(ws2[pj].spec_children().contains(ws2[a].spec_id()));
                } else {
                    assert(ws2[pj] == ws0[pj]);
                }
            }
        } else {
            assert(ws2[a] == w);
            assert(w.spec_parent() == Some(ws0[j].spec_id()));
            assert(ws0[j].spec_id() == ws2[j].spec_id());
            assert(win_has(ws0, ws0[j].spec_id())) by {
                lemma_win_index_of(ws0, j);
            }
            assert(win_index(ws2, ws0[j].spec_id()) == win_index(ws0, ws0[j].spec_id()));
            assert(win_index(ws0, ws0[j].spec_id()) == j) by {
                lemma_win_index_of(ws0, j);
            }
            assert(ws2[j].spec_children()[ws0[j].spec_children().len() as int] == wid);
            assert(ws2[j].spec_children().contains(wid));
        }
    }
    assert forall|a: int| 0 <= a < ws2.len() implies #[trigger] children_linked(ws2, a) by {
        assert forall|k: int| 0 <= k < ws2[a].spec_children().len() implies win_has(
            ws2,
            #[trigger] ws2[a].spec_children()[k],
        ) && ws2[win_index(ws2, ws2[a].spec_children()[k])].spec_parent() == Some(
            ws2[a].spec_id(),
        ) by {
            let c = ws2[a].spec_children()[k];
            if a == n {
                assert(false);
            } else if a == j && k == ws0[j].spec_children().len() as int {
                assert(c == wid);
                assert(ws2[n].spec_id() == wid);
                assert(win_has(ws2, wid));
                let b = win_index(ws2, wid);
                assert(ws2[b].spec_id() == wid);
                if b != n {
                    assert(ws2[b].spec_id() == ws0[b].spec_id());
                    assert(win_has(ws0, wid));
                }
                assert(ws2[b] == w);
                assert(w.spec_parent() == Some(ws0[j].spec_id()));
            } else {
                assert(children_linked(ws0, a));
                assert(ws0[a].spec_children()[k] == c);
                assert(win_has(ws0, c));
                let cj = win_index(ws0, c);
                assert(win_index(ws2, c) == cj);
                assert(ws2[cj].spec_parent() == ws0[cj].spec_parent());
                assert(ws2[cj].spec_id() == ws0[cj].spec_id());
            }
        }
    }
}


/// The id of the root window reached by walking `fuel` parent links up from
/// the window `id`, or zero where the walk fails: an unknown id, or a chain
/// longer than the fuel.
pub open spec fn spec_root_of(ws: Seq<Window>, id: u32, fuel: int) -> u32
    decreases fuel,
{
    if !win_has(ws, id) {
        0
    } else {
        let w = ws[win_index(ws, id)];
        match w.spec_parent() {
            None => w.spec_id(),
            Some(p) => if fuel <= 0 {
                0
            } else {
                spec_root_of(ws, p, fuel - 1)
            },
        }
    }
}

impl Context {
    /// The id of the root window above the given window: the parent chain is
    /// walked at most as many steps as there are windows; zero when the id is
    /// unknown or no root is reached.
    pub fn get_root_of(&self, wid: u32) -> (r: u32)
        requires
            self.wf(),
        ensures
            r == spec_root_of(self.windows@, wid, self.windows@.len() as int),
    {
        let fuel = self.windows.len();
        self.root_of_fuel(wid, fuel)
    }

    /// Walks at most `fuel` parent links up from `id`.
    fn root_of_fuel(&self, id: u32, fuel: usize) -> (r: u32)
        requires
            self.wf(),
        ensures
            r == spec_root_of(self.windows@, id, fuel as int),
        decreases fuel,
    {
        let i = match self.find_window(id) {
            Some(i) => i,
            None => {
                return 0;
            }
        };
        match self.windows[i].get_parent() {
            None => self.windows[i].get_id(),
            Some(p) => {
                if fuel == 0 {
                    0
                } else {
                    self.root_of_fuel(p, fuel - 1)
                }
            },
        }
    }
}

} // verus!
