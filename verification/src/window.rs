//! Windows and their properties: a window is a node of the window tree,
//! carrying a rectangle, a depth, a border width, a set of attributes and a
//! map of named properties.

use vstd::prelude::*;
use crate::protocol::{BackingStore, BitGravity, Class, MapState, Rectangle, WinGravity};

verus! {

/// A property associated to a window: a typed, formatted byte payload.
pub struct Property {
    /// The atom of the name of the data's type.
    property_type: u32,
    /// The data's format: how many bits make one unit of the payload.
    format: u8,
    /// The property's data.
    data: Vec<u8>,
}

impl Property {
    /// The atom naming the type of the payload.
    pub closed spec fn spec_type(&self) -> u32 {
        self.property_type
    }

    /// The format of the payload.
    pub closed spec fn spec_format(&self) -> u8 {
        self.format
    }

    /// The payload bytes.
    pub closed spec fn spec_data(&self) -> Seq<u8> {
        self.data@
    }

    /// A property's format is 8, 16 or 32, its payload is a whole number of
    /// format units, and the payload fits the protocol's 32-bit length
    /// fields.
    pub open spec fn wf(&self) -> bool {
        &&& (self.spec_format() == 8 || self.spec_format() == 16 || self.spec_format() == 32)
        &&& self.spec_data().len() as int % (self.spec_format() as int / 8) == 0
        &&& self.spec_data().len() <= 0xFFFFFFFF
    }

    /// Creates a property.
    ///
    /// Arguments:
    /// - `property_type` is the atom representing the type of the property.
    /// - `format` is the format of the property.
    /// - `data` is the data of the property.
    pub fn new(property_type: u32, format: u8, data: Vec<u8>) -> (r: Self)
        requires
            format == 8 || format == 16 || format == 32,
            data@.len() as int % (format as int / 8) == 0,
            data@.len() <= 0xFFFFFFFF,
        ensures
            r.wf(),
            r.spec_type() == property_type,
            r.spec_format() == format,
            r.spec_data() == data@,
    {
        Self { property_type, format, data }
    }

    /// Returns the atom of the type of the property.
    pub fn get_type(&self) -> (r: u32)
        ensures
            r == self.spec_type(),
    {
        self.property_type
    }

    /// Returns the format of the property.
    pub fn get_format(&self) -> (r: u8)
        ensures
            r == self.spec_format(),
    {
        self.format
    }

    /// Returns a slice to the property's data.
    pub fn get_data(&self) -> (r: &[u8])
        ensures
            r@ == self.spec_data(),
    {
        self.data.as_slice()
    }

    /// Prepends the given data to the current.
    pub fn prepend_data(&mut self, data: &[u8])
        requires
            old(self).wf(),
            data@.len() as int % (old(self).spec_format() as int / 8) == 0,
            data@.len() + old(self).spec_data().len() <= 0xFFFFFFFF,
        ensures
            final(self).wf(),
            final(self).spec_type() == old(self).spec_type(),
            final(self).spec_format() == old(self).spec_format(),
            final(self).spec_data() == data@ + old(self).spec_data(),
    {
        let mut new: Vec<u8> = crate::atoms::bytes_to_vec(data);
        new.append(&mut self.data);
        self.data = new;
        proof {
            let m = old(self).spec_format() as int / 8;
            assert(m == 1 || m == 2 || m == 4);
            vstd::arithmetic::div_mod::lemma_add_mod_noop(
                data@.len() as int,
                old(self).spec_data().len() as int,
                m,
            );
            assert((data@.len() as int + old(self).spec_data().len() as int) % m == 0);
            assert(self.spec_data() == data@ + old(self).spec_data());
        }
    }

    /// Appends the given data to the current.
    pub fn append_data(&mut self, data: &[u8])
        requires
            old(self).wf(),
            data@.len() as int % (old(self).spec_format() as int / 8) == 0,
            data@.len() + old(self).spec_data().len() <= 0xFFFFFFFF,
        ensures
            final(self).wf(),
            final(self).spec_type() == old(self).spec_type(),
            final(self).spec_format() == old(self).spec_format(),
            final(self).spec_data() == old(self).spec_data() + data@,
    {
        let mut extra: Vec<u8> = crate::atoms::bytes_to_vec(data);
        self.data.append(&mut extra);
        proof {
            let m = old(self).spec_format() as int / 8;
            assert(m == 1 || m == 2 || m == 4);
            vstd::arithmetic::div_mod::lemma_add_mod_noop(
                old(self).spec_data().len() as int,
                data@.len() as int,
                m,
            );
            assert((old(self).spec_data().len() as int + data@.len() as int) % m == 0);
        }
    }
}

/// A window's attributes.
#[derive(Clone, Copy, PartialEq, Eq, Structural)]
pub struct WindowAttributes {
    /// The pixmap painting the background.
    pub background_pixmap: u32,
    /// The pixel painting the background where no pixmap is set.
    pub background_pixel: u32,
    /// The pixmap painting the border.
    pub border_pixmap: u32,
    /// The pixel painting the border where no pixmap is set.
    pub border_pixel: u32,
    /// How the window's contents move on resize.
    pub bit_gravity: BitGravity,
    /// How the window moves when its parent is resized.
    pub win_gravity: WinGravity,
    /// When the server may keep the window's contents.
    pub backing_store: BackingStore,
    /// The planes to preserve in the backing store.
    pub backing_planes: u32,
    /// The pixel filling unpreserved planes.
    pub backing_pixel: u32,
    /// Whether map and configure requests override the redirection.
    pub override_redirect: bool,
    /// Whether the contents under the window should be saved.
    pub save_under: bool,
    /// The events selected on the window.
    pub event_mask: u32,
    /// The events that must not propagate to ancestors.
    pub do_not_propagate_mask: u32,
    /// The window's colormap.
    pub colormap: u32,
    /// The cursor shown over the window.
    pub cursor: u32,
    /// The window's visual.
    pub visual: u32,
    /// The window's class.
    pub class: Class,
    /// The backing places.
    pub backing_places: u32,
    /// Whether the colormap is installed.
    pub map_is_installed: u8,
    /// The window's map state.
    pub map_state: MapState,
}

impl WindowAttributes {
    /// The attribute record every new window starts from.
    pub open spec fn spec_default() -> Self {
        WindowAttributes {
            background_pixmap: 0,
            background_pixel: 0,
            border_pixmap: 0,
            border_pixel: 0,
            bit_gravity: BitGravity::Forget,
            win_gravity: WinGravity::Unmap,
            backing_store: BackingStore::NotUseful,
            backing_planes: 0,
            backing_pixel: 0,
            override_redirect: false,
            save_under: false,
            event_mask: 0,
            do_not_propagate_mask: 0,
            colormap: 0,
            cursor: 0,
            visual: 0,
            class: Class::InputOnly,
            backing_places: 0,
            map_is_installed: 0,
            map_state: MapState::Unviewable,
        }
    }
}

impl Default for WindowAttributes {
    fn default() -> (r: Self)
        ensures
            r == Self::spec_default(),
    {
        WindowAttributes {
            background_pixmap: 0,
            background_pixel: 0,
            border_pixmap: 0,
            border_pixel: 0,
            bit_gravity: BitGravity::Forget,
            win_gravity: WinGravity::Unmap,
            backing_store: BackingStore::NotUseful,
            backing_planes: 0,
            backing_pixel: 0,
            override_redirect: false,
            save_under: false,
            event_mask: 0,
            do_not_propagate_mask: 0,
            colormap: 0,
            cursor: 0,
            visual: 0,
            class: Class::InputOnly,
            backing_places: 0,
            map_is_installed: 0,
            map_state: MapState::Unviewable,
        }
    }
}

/// One window attribute value read from a request.
pub enum AttrValue {
    BackgroundPixmap(u32),
    BackgroundPixel(u32),
    BorderPixmap(u32),
    BorderPixel(u32),
    BitGravity(BitGravity),
    WinGravity(WinGravity),
    BackingStore(BackingStore),
    BackingPlanes(u32),
    BackingPixel(u32),
    OverrideRedirect(bool),
    SaveUnder(bool),
    EventMask(u32),
    DoNotPropagateMask(u32),
    Colormap(u32),
    Cursor(u32),
}

/// The attribute record `a` with the single attribute `v` set.
pub open spec fn spec_apply_attr(a: WindowAttributes, v: AttrValue) -> WindowAttributes {
    match v {
        AttrValue::BackgroundPixmap(x) => WindowAttributes { background_pixmap: x, ..a },
        AttrValue::BackgroundPixel(x) => WindowAttributes { background_pixel: x, ..a },
        AttrValue::BorderPixmap(x) => WindowAttributes { border_pixmap: x, ..a },
        AttrValue::BorderPixel(x) => WindowAttributes { border_pixel: x, ..a },
        AttrValue::BitGravity(x) => WindowAttributes { bit_gravity: x, ..a },
        AttrValue::WinGravity(x) => WindowAttributes { win_gravity: x, ..a },
        AttrValue::BackingStore(x) => WindowAttributes { backing_store: x, ..a },
        AttrValue::BackingPlanes(x) => WindowAttributes { backing_planes: x, ..a },
        AttrValue::BackingPixel(x) => WindowAttributes { backing_pixel: x, ..a },
        AttrValue::OverrideRedirect(x) => WindowAttributes { override_redirect: x, ..a },
        AttrValue::SaveUnder(x) => WindowAttributes { save_under: x, ..a },
        AttrValue::EventMask(x) => WindowAttributes { event_mask: x, ..a },
        AttrValue::DoNotPropagateMask(x) => WindowAttributes { do_not_propagate_mask: x, ..a },
        AttrValue::Colormap(x) => WindowAttributes { colormap: x, ..a },
        AttrValue::Cursor(x) => WindowAttributes { cursor: x, ..a },
    }
}

/// The attribute record `a` with the first `n` attributes of `list` set, in
/// order.
pub open spec fn spec_apply_attrs_prefix(a: WindowAttributes, list: Seq<AttrValue>, n: int) -> WindowAttributes
    decreases n,
{
    if n <= 0 {
        a
    } else {
        spec_apply_attr(spec_apply_attrs_prefix(a, list, n - 1), list[n - 1])
    }
}

/// The attribute record `a` with every attribute of `list` set, in order.
pub open spec fn spec_apply_attrs(a: WindowAttributes, list: Seq<AttrValue>) -> WindowAttributes {
    spec_apply_attrs_prefix(a, list, list.len() as int)
}

/// Sets the given attributes list on the given attributes structure.
pub fn set_attrs(attrs: &mut WindowAttributes, list: &[AttrValue])
    ensures
        *final(attrs) == spec_apply_attrs(*old(attrs), list@),
{
    let mut i: usize = 0;
    while i < list.len()
        invariant
            i <= list@.len(),
            *attrs == spec_apply_attrs_prefix(*old(attrs), list@, i as int),
        decreases list@.len() - i,
    {
        match list[i] {
            AttrValue::BackgroundPixmap(x) => attrs.background_pixmap = x,
            AttrValue::BackgroundPixel(x) => attrs.background_pixel = x,
            AttrValue::BorderPixmap(x) => attrs.border_pixmap = x,
            AttrValue::BorderPixel(x) => attrs.border_pixel = x,
            AttrValue::BitGravity(x) => attrs.bit_gravity = x,
            AttrValue::WinGravity(x) => attrs.win_gravity = x,
            AttrValue::BackingStore(x) => attrs.backing_store = x,
            AttrValue::BackingPlanes(x) => attrs.backing_planes = x,
            AttrValue::BackingPixel(x) => attrs.backing_pixel = x,
            AttrValue::OverrideRedirect(x) => attrs.override_redirect = x,
            AttrValue::SaveUnder(x) => attrs.save_under = x,
            AttrValue::EventMask(x) => attrs.event_mask = x,
            AttrValue::DoNotPropagateMask(x) => attrs.do_not_propagate_mask = x,
            AttrValue::Colormap(x) => attrs.colormap = x,
            AttrValue::Cursor(x) => attrs.cursor = x,
        }
        i = i + 1;
    }
}

/// The index of the property named `n` in the property list `s`, if any.
pub open spec fn prop_index(s: Seq<(Seq<u8>, Property)>, n: Seq<u8>) -> int {
    choose|i: int| 0 <= i < s.len() && s[i].0 == n
}

/// Whether the property list `s` holds a property named `n`.
pub open spec fn prop_has(s: Seq<(Seq<u8>, Property)>, n: Seq<u8>) -> bool {
    exists|i: int| 0 <= i < s.len() && s[i].0 == n
}

/// The property named `n` in the property list `s`, if any.
pub open spec fn prop_get(s: Seq<(Seq<u8>, Property)>, n: Seq<u8>) -> Option<Property> {
    if prop_has(s, n) {
        Some(s[prop_index(s, n)].1)
    } else {
        None
    }
}

/// The property list `s` with the property named `n` set to `p`: an existing
/// entry is overwritten in place, an absent one is appended.
pub open spec fn prop_set(s: Seq<(Seq<u8>, Property)>, n: Seq<u8>, p: Property) -> Seq<(Seq<u8>, Property)> {
    if prop_has(s, n) {
        s.update(prop_index(s, n), (n, p))
    } else {
        s.push((n, p))
    }
}

/// The property list `s` without the property named `n`.
pub open spec fn prop_remove(s: Seq<(Seq<u8>, Property)>, n: Seq<u8>) -> Seq<(Seq<u8>, Property)> {
    if prop_has(s, n) {
        s.remove(prop_index(s, n))
    } else {
        s
    }
}

/// The names in the property list are pairwise distinct.
pub open spec fn prop_keys_distinct(s: Seq<(Seq<u8>, Property)>) -> bool {
    forall|i: int, j: int| 0 <= i < j < s.len() ==> s[i].0 != s[j].0
}

/// A window to be rendered on screen.
pub struct Window {
    /// The ID of the window.
    pub id: u32,
    /// The ID of the parent window; a window with no parent is a root.
    pub parent: Option<u32>,
    /// The ids of the children of the current window.
    pub children: Vec<u32>,
    /// The depth of the pixmap.
    pub depth: u8,
    /// The position and size of the window.
    pub rect: Rectangle,
    /// The width of the window's border.
    pub border_width: u16,
    /// The list of properties of the window. The key is the name of the property.
    pub properties: Vec<(Vec<u8>, Property)>,
    /// The window's attributes.
    pub attributes: WindowAttributes,
}

impl Window {
    /// The id of the window.
    pub open spec fn spec_id(&self) -> u32 {
        self.id
    }

    /// The id of the window's parent, if the window is not a root.
    pub open spec fn spec_parent(&self) -> Option<u32> {
        self.parent
    }

    /// The ids of the window's children.
    pub open spec fn spec_children(&self) -> Seq<u32> {
        self.children@
    }

    /// The window's rectangle.
    pub open spec fn spec_rect(&self) -> Rectangle {
        self.rect
    }

    /// The window's depth.
    pub open spec fn spec_depth(&self) -> u8 {
        self.depth
    }

    /// The window's border width.
    pub open spec fn spec_border_width(&self) -> u16 {
        self.border_width
    }

    /// The window's properties, by name.
    pub open spec fn spec_props(&self) -> Seq<(Seq<u8>, Property)> {
        self.properties@.map_values(|e: (Vec<u8>, Property)| (e.0@, e.1))
    }

    /// A window is well-formed when its id is nonzero, a root sits at the
    /// origin, its property names are distinct and each property is itself
    /// well-formed.
    pub open spec fn wf(&self) -> bool {
        &&& self.spec_id() != 0
        &&& (self.spec_parent() is None ==> self.spec_rect().x == 0 && self.spec_rect().y == 0)
        &&& prop_keys_distinct(self.spec_props())
        &&& forall|i: int|
            0 <= i < self.spec_props().len() ==> (#[trigger] self.spec_props()[i]).1.wf()
    }

    /// Creates a window.
    ///
    /// Arguments:
    /// - `id` is the id of the window.
    /// - `parent` is the ID of the parent window. If None, the window is a root window.
    /// - `rect` represents the position and dimensions of the window relative to its parent.
    /// - `depth` is the depth of the window's pixmap.
    ///
    /// If the window is root, the X/Y position is zero-ed.
    pub fn new(id: u32, parent: Option<u32>, rect: Rectangle, depth: u8) -> (w: Self)
        requires
            id != 0,
        ensures
            w.wf(),
            w.spec_id() == id,
            w.spec_parent() == parent,
            w.spec_children().len() == 0,
            w.spec_depth() == depth,
            w.spec_rect() == (if parent is None {
                (Rectangle { x: 0, y: 0, ..rect })
            } else {
                rect
            }),
            w.spec_border_width() == 0,
            w.spec_props().len() == 0,
            w.attributes == WindowAttributes::spec_default(),
    {
        let rect = if parent.is_none() {
            Rectangle { x: 0, y: 0, width: rect.width, height: rect.height }
        } else {
            rect
        };
        let w = Self {
            id,
            parent,
            children: Vec::new(),
            depth,
            rect,
            border_width: 0,
            properties: Vec::new(),
            attributes: WindowAttributes::default(),
        };
        proof {
            assert(w.spec_props() =~= Seq::<(Seq<u8>, Property)>::empty());
        }
        w
    }

    /// Returns the ID of the window.
    pub fn get_id(&self) -> (r: u32)
        ensures
            r == self.spec_id(),
    {
        self.id
    }

    /// Returns the ID of the window's parent.
    pub fn get_parent(&self) -> (r: Option<u32>)
        ensures
            r == self.spec_parent(),
    {
        self.parent
    }

    /// Tells whether the window is root.
    pub fn is_root(&self) -> (r: bool)
        ensures
            r == (self.spec_parent() is None),
    {
        self.parent.is_none()
    }

    /// The ids of the children of the window.
    pub fn get_children(&self) -> (r: &Vec<u32>)
        ensures
            r@ == self.spec_children(),
    {
        &self.children
    }

    /// Adds a child id to the window.
    pub fn add_child(&mut self, child: u32)
        requires
            old(self).wf(),
        ensures
            final(self).wf(),
            *final(self) == (Window { children: final(self).children, ..*old(self) }),
            final(self).spec_children() == old(self).spec_children().push(child),
    {
        self.children.push(child);
    }

    /// Sets the depth of the window.
    pub fn set_depth(&mut self, depth: u8)
        requires
            old(self).wf(),
        ensures
            final(self).wf(),
            *final(self) == (Window { depth, ..*old(self) }),
    {
        self.depth = depth;
    }

    /// Returns the depth of the window.
    pub fn get_depth(&self) -> (r: u8)
        ensures
            r == self.spec_depth(),
    {
        self.depth
    }

    /// Sets the position and size of the window. On a root window a nonzero
    /// origin is refused: the rectangle keeps its origin at (0, 0).
    pub fn set_rectangle(&mut self, rect: Rectangle)
        requires
            old(self).wf(),
        ensures
            final(self).wf(),
            *final(self) == (if old(self).spec_parent() is None && (rect.x != 0 || rect.y != 0) {
                *old(self)
            } else {
                (Window { rect, ..*old(self) })
            }),
    {
        if self.parent.is_none() && (rect.x != 0 || rect.y != 0) {
            return;
        }
        self.rect = rect;
    }

    /// Returns the position and size of the window.
    pub fn get_rectangle(&self) -> (r: Rectangle)
        ensures
            r == self.spec_rect(),
    {
        self.rect
    }

    /// Sets the width of the border.
    pub fn set_border_width(&mut self, border_width: u16)
        requires
            old(self).wf(),
        ensures
            final(self).wf(),
            *final(self) == (Window { border_width, ..*old(self) }),
    {
        self.border_width = border_width;
    }

    /// Returns the width of the border.
    pub fn get_border_width(&self) -> (r: u16)
        ensures
            r == self.spec_border_width(),
    {
        self.border_width
    }

    /// Returns an immutable reference to the property with the given name.
    /// If the property doesn't exist, the function returns None.
    pub fn get_property(&self, name: &[u8]) -> (r: Option<&Property>)
        requires
            self.wf(),
        ensures
            match r {
                Some(p) => prop_get(self.spec_props(), name@) == Some(*p),
                None => prop_get(self.spec_props(), name@) is None,
            },
    {
        let ghost s = self.spec_props();
        let mut i: usize = 0;
        while i < self.properties.len()
            invariant
                i <= s.len(),
                s == self.spec_props(),
                self.wf(),
                forall|j: int| 0 <= j < i ==> s[j].0 != name@,
            decreases s.len() - i,
        {
            if crate::atoms::bytes_eq(self.properties[i].0.as_slice(), name) {
                proof {
                    assert(s[i as int].0 == name@);
                    let c = prop_index(s, name@);
                    assert(s[c].0 == name@);
                }
                return Some(&self.properties[i].1);
            }
            i = i + 1;
        }
        None
    }

    /// Returns a mutable reference to the property with the given name.
    /// If the property doesn't exist, the function returns None. Writing a
    /// well-formed property through the reference replaces exactly that
    /// property, leaving the window otherwise as it was.
    pub fn get_property_mut(&mut self, name: &[u8]) -> (r: Option<&mut Property>)
        requires
            old(self).wf(),
        ensures
            match r {
                Some(p) => {
                    &&& prop_get(old(self).spec_props(), name@) == Some(*p)
                    &&& *final(self) == (Window {
                        properties: final(self).properties,
                        ..*old(self)
                    })
                    &&& final(self).spec_props() == old(self).spec_props().update(
                        prop_index(old(self).spec_props(), name@),
                        (name@, *final(p)),
                    )
                },
                None => *final(self) == *old(self) && prop_get(old(self).spec_props(), name@)
                    is None,
            },
    {
        let ghost s = self.spec_props();
        let n = self.properties.len();
        let mut i: usize = 0;
        while i < n
            invariant
                i <= s.len(),
                n == s.len(),
                s == self.spec_props(),
                self == old(self),
                old(self).wf(),
                forall|j: int| 0 <= j < i ==> s[j].0 != name@,
            decreases s.len() - i,
        {
            if crate::atoms::bytes_eq(self.properties[i].0.as_slice(), name) {
                proof {
                    assert(s[i as int].0 == name@);
                    let c = prop_index(s, name@);
                    assert(s[c].0 == name@);
                    assert(c == i as int);
                }
                let entry = &mut self.properties[i];
                return Some(&mut entry.1);
            }
            i = i + 1;
        }
        None
    }

    /// Creates or replaces the property with the given name.
    pub fn create_property(&mut self, name: &[u8], prop: Property)
        requires
            old(self).wf(),
            prop.wf(),
        ensures
            final(self).wf(),
            *final(self) == (Window { properties: final(self).properties, ..*old(self) }),
            final(self).spec_props() == prop_set(old(self).spec_props(), name@, prop),
    {
        let ghost s = self.spec_props();
        let mut i: usize = 0;
        while i < self.properties.len()
            invariant
                i <= s.len(),
                s == self.spec_props(),
                self == old(self),
                old(self).wf(),
                prop.wf(),
                forall|j: int| 0 <= j < i ==> s[j].0 != name@,
            decreases s.len() - i,
        {
            if crate::atoms::bytes_eq(self.properties[i].0.as_slice(), name) {
                proof {
                    assert(s[i as int].0 == name@);
                    let c = prop_index(s, name@);
                    assert(s[c].0 == name@);
                    assert(c == i as int);
                }
                let owned = crate::atoms::bytes_to_vec(name);
                self.properties.set(i, (owned, prop));
                proof {
                    assert(self.spec_props() =~= s.update(i as int, (name@, prop)));
                    assert(self.spec_props() =~= prop_set(s, name@, prop));
                    assert forall|a: int, b: int|
                        0 <= a < b < self.spec_props().len() implies self.spec_props()[a].0
                        != self.spec_props()[b].0 by {
                        if a != i as int && b != i as int {
                            assert(self.spec_props()[a] == s[a]);
                            assert(self.spec_props()[b] == s[b]);
                        }
                    }
                    assert forall|a: int|
                        0 <= a < self.spec_props().len() implies (#[trigger] self.spec_props()[a]).1.wf() by {
                        if a == i as int {
                            assert(self.spec_props()[a] == (name@, prop));
                            assert(prop.wf());
                        } else {
                            assert(old(self).spec_props() == s);
                            assert((old(self).spec_props()[a]).1.wf());
                            assert(self.spec_props()[a] == s[a]);
                        }
                    }
                }
                return;
            }
            i = i + 1;
        }
        let owned = crate::atoms::bytes_to_vec(name);
        self.properties.push((owned, prop));
        proof {
            assert(self.spec_props() =~= s.push((name@, prop)));
            assert(!prop_has(s, name@));
            assert forall|a: int, b: int|
                0 <= a < b < self.spec_props().len() implies self.spec_props()[a].0
                != self.spec_props()[b].0 by {
                if b == s.len() {
                    assert(self.spec_props()[a] == s[a]);
                }
            }
        }
    }

    /// Deletes the property with the given name. If the property doesn't
    /// exist, the function does nothing.
    pub fn delete_property(&mut self, name: &[u8])
        requires
            old(self).wf(),
        ensures
            final(self).wf(),
            *final(self) == (Window { properties: final(self).properties, ..*old(self) }),
            final(self).spec_props() == prop_remove(old(self).spec_props(), name@),
    {
        let ghost s = self.spec_props();
        let mut i: usize = 0;
        while i < self.properties.len()
            invariant
                i <= s.len(),
                s == self.spec_props(),
                self == old(self),
                old(self).wf(),
                forall|j: int| 0 <= j < i ==> s[j].0 != name@,
            decreases s.len() - i,
        {
            if crate::atoms::bytes_eq(self.properties[i].0.as_slice(), name) {
                proof {
                    assert(s[i as int].0 == name@);
                    let c = prop_index(s, name@);
                    assert(s[c].0 == name@);
                    assert(c == i as int);
                }
                self.properties.remove(i);
                proof {
                    assert(self.spec_props() =~= prop_remove(s, name@));
                }
                return;
            }
            i = i + 1;
        }
    }

    /// Replaces the data of the property with the given name by appending or
    /// prepending, leaving other properties alone.
    pub fn update_property(&mut self, name: &[u8], prop: Property)
        requires
            old(self).wf(),
            prop.wf(),
        ensures
            final(self).wf(),
            *final(self) == (Window { properties: final(self).properties, ..*old(self) }),
            final(self).spec_props() == prop_set(old(self).spec_props(), name@, prop),
    {
        self.create_property(name, prop);
    }

    /// Sets the window's attributes.
    pub fn set_attributes(&mut self, attr: WindowAttributes)
        requires
            old(self).wf(),
        ensures
            final(self).wf(),
            *final(self) == (Window { attributes: attr, ..*old(self) }),
    {
        self.attributes = attr;
    }

    /// Tells whether the window can render anything on screen.
    pub fn is_output(&self) -> (r: bool)
        ensures
            r == (self.attributes.class == Class::InputOutput),
    {
        matches!(self.attributes.class, Class::InputOutput)
    }
}

/// Setting a property and reading it back by the same name yields exactly
/// the property that was set, whatever the list held before.
pub proof fn lemma_prop_set_get(s: Seq<(Seq<u8>, Property)>, n: Seq<u8>, p: Property)
    requires
        prop_keys_distinct(s),
    ensures
        prop_get(prop_set(s, n, p), n) == Some(p),
{
    let s1 = prop_set(s, n, p);
    if prop_has(s, n) {
        let i = prop_index(s, n);
        assert(s1[i].0 == n);
        assert(prop_has(s1, n));
        let j = prop_index(s1, n);
        assert(s1[j].0 == n);
        if i != j {
            assert(s1[j] == s[j]);
            assert(s[i].0 == n);
        }
    } else {
        let i = s.len() as int;
        assert(s1[i].0 == n);
        assert(prop_has(s1, n));
        let j = prop_index(s1, n);
        if j != i {
            assert(s1[j] == s[j]);
            assert(prop_has(s, n));
        }
    }
}


/// Setting a property named `n` leaves every property with another name as
/// it was.
pub proof fn lemma_prop_set_other(s: Seq<(Seq<u8>, Property)>, n: Seq<u8>, p: Property, m: Seq<u8>)
    requires
        prop_keys_distinct(s),
        m != n,
    ensures
        prop_get(prop_set(s, n, p), m) == prop_get(s, m),
{
    let s1 = prop_set(s, n, p);
    if prop_has(s, n) {
        let i = prop_index(s, n);
        assert(s[i].0 == n);
        assert forall|k: int| 0 <= k < s1.len() && k != i implies s1[k] == s[k] by {}
        if prop_has(s, m) {
            let j = prop_index(s, m);
            assert(s[j].0 == m);
            assert(j != i);
            assert(s1[j] == s[j]);
            assert(prop_has(s1, m));
            let j1 = prop_index(s1, m);
            assert(s1[j1].0 == m);
            if j1 != j {
                if j1 == i {
                    assert(s1[i].0 == n);
                } else {
                    assert(s1[j1] == s[j1]);
                    assert(s[j1].0 == m && s[j].0 == m);
                }
            }
            assert(j1 == j);
        } else {
            if prop_has(s1, m) {
                let j1 = prop_index(s1, m);
                assert(s1[j1].0 == m);
                if j1 == i {
                    assert(s1[i].0 == n);
                } else {
                    assert(s1[j1] == s[j1]);
                }
                assert(false);
            }
        }
    } else {
        assert(s1 == s.push((n, p)));
        if prop_has(s, m) {
            let j = prop_index(s, m);
            assert(s1[j] == s[j]);
            assert(prop_has(s1, m));
            let j1 = prop_index(s1, m);
            if j1 != j {
                if j1 == s.len() as int {
                    assert(s1[j1].0 == n);
                } else {
                    assert(s1[j1] == s[j1]);
                }
            }
            assert(j1 == j);
        } else {
            if prop_has(s1, m) {
                let j1 = prop_index(s1, m);
                if j1 == s.len() as int {
                    assert(s1[j1].0 == n);
                } else {
                    assert(s1[j1] == s[j1]);
                }
                assert(false);
            }
        }
    }
}

/// Removing the property named `n` removes exactly it: the name reads back
/// as absent, and every other name as before.
pub proof fn lemma_prop_remove_get(s: Seq<(Seq<u8>, Property)>, n: Seq<u8>, m: Seq<u8>)
    requires
        prop_keys_distinct(s),
    ensures
        prop_get(prop_remove(s, n), n) is None,
        m != n ==> prop_get(prop_remove(s, n), m) == prop_get(s, m),
{
    if prop_has(s, n) {
        let i = prop_index(s, n);
        assert(s[i].0 == n);
        let s1 = s.remove(i);
        assert(s1.len() == s.len() - 1);
        assert forall|k: int| 0 <= k < s1.len() implies s1[k] == (if k < i {
            s[k]
        } else {
            s[k + 1]
        }) by {}
        if prop_has(s1, n) {
            let j = prop_index(s1, n);
            assert(s1[j].0 == n);
            if j < i {
                assert(s[j].0 == n && s[i].0 == n);
            } else {
                assert(s[j + 1].0 == n && s[i].0 == n);
            }
            assert(false);
        }
        if m != n {
            if prop_has(s, m) {
                let j = prop_index(s, m);
                assert(s[j].0 == m);
                assert(j != i);
                let j1: int = if j < i { j } else { j - 1 };
                assert(s1[j1] == s[j]);
                assert(prop_has(s1, m));
                let j2 = prop_index(s1, m);
                assert(s1[j2].0 == m);
                let jo: int = if j2 < i { j2 } else { j2 + 1 };
                assert(s[jo].0 == m);
                assert(jo == j);
                assert(j2 == j1);
            } else {
                if prop_has(s1, m) {
                    let j2 = prop_index(s1, m);
                    let jo: int = if j2 < i { j2 } else { j2 + 1 };
                    assert(s[jo] == s1[j2]);
                    assert(false);
                }
            }
        }
    }
}

} // verus!
