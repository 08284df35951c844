//! The atom table: a server-wide bidirectional map between nonzero atom ids
//! and names. Ids are allocated densely from 1; the first 68 ids are the
//! protocol's bootstrap atoms. Names are byte strings as they appear on the
//! wire.

use vstd::prelude::*;
use vstd::string::StringSliceAdditionalSpecFns;

verus! {

/// Compares two byte slices.
pub fn bytes_eq(a: &[u8], b: &[u8]) -> (r: bool)
    ensures
        r == (a@ == b@),
{
    if a.len() != b.len() {
        assert(a@ != b@);
        return false;
    }
    let mut i: usize = 0;
    while i < a.len()
        invariant
            i <= a@.len(),
            a@.len() == b@.len(),
            forall|j: int| 0 <= j < i ==> a@[j] == b@[j],
        decreases a@.len() - i,
    {
        if a[i] != b[i] {
            return false;
        }
        i = i + 1;
    }
    proof {
        assert(a@ =~= b@);
    }
    true
}

/// Copies a byte slice into an owned vector.
pub fn bytes_to_vec(s: &[u8]) -> (r: Vec<u8>)
    ensures
        r@ == s@,
{
    vstd::slice::slice_to_vec(s)
}

/// The bytes of a string literal.
pub fn lit_bytes(s: &str) -> (r: Vec<u8>)
    ensures
        r@ == s.spec_bytes(),
{
    vstd::slice::slice_to_vec(s.as_bytes())
}

/// A table of interned names. The atom with id `i` (1-based, nonzero) is the
/// name at index `i - 1`.
pub struct AtomTable {
    names: Vec<Vec<u8>>,
}

/// All names in the sequence are pairwise distinct.
pub open spec fn distinct_names(v: Seq<Seq<u8>>) -> bool {
    forall|i: int, j: int| 0 <= i < j < v.len() ==> v[i] != v[j]
}

/// The largest atom id the protocol can carry.
pub const MAX_ATOM_ID: u32 = 0x1FFFFFFF;

/// The effect of interning `n` in table `v`: the new table and the id
/// handed back. An existing name keeps the table and yields its id; an
/// absent name is appended under the next id, unless `only_if_exists`
/// is set, in which case the table is kept and the id is zero.
pub open spec fn spec_intern(v: Seq<Seq<u8>>, n: Seq<u8>, only_if_exists: bool) -> (Seq<Seq<u8>>, int) {
    if exists|i: int| 0 <= i < v.len() && v[i] == n {
        (v, (choose|i: int| 0 <= i < v.len() && v[i] == n) + 1)
    } else if only_if_exists {
        (v, 0)
    } else {
        (v.push(n), v.len() as int + 1)
    }
}

/// Every name of the bootstrap set, with its protocol-defined spelling,
/// is present in the table.
pub open spec fn bootstrap_present(v: Seq<Seq<u8>>) -> bool {
    &&& v.contains("PRIMARY".spec_bytes())
    &&& v.contains("SECONDARY".spec_bytes())
    &&& v.contains("ARC".spec_bytes())
    &&& v.contains("ATOM".spec_bytes())
    &&& v.contains("BITMAP".spec_bytes())
    &&& v.contains("CARDINAL".spec_bytes())
    &&& v.contains("COLORMAP".spec_bytes())
    &&& v.contains("CURSOR".spec_bytes())
    &&& v.contains("CUT_BUFFER0".spec_bytes())
    &&& v.contains("CUT_BUFFER1".spec_bytes())
    &&& v.contains("CUT_BUFFER2".spec_bytes())
    &&& v.contains("CUT_BUFFER3".spec_bytes())
    &&& v.contains("CUT_BUFFER4".spec_bytes())
    &&& v.contains("CUT_BUFFER5".spec_bytes())
    &&& v.contains("CUT_BUFFER6".spec_bytes())
    &&& v.contains("CUT_BUFFER7".spec_bytes())
    &&& v.contains("DRAWABLE".spec_bytes())
    &&& v.contains("FONT".spec_bytes())
    &&& v.contains("INTEGER".spec_bytes())
    &&& v.contains("PIXMAP".spec_bytes())
    &&& v.contains("POINT".spec_bytes())
    &&& v.contains("RECTANGLE".spec_bytes())
    &&& v.contains("RESOURCE_MANAGER".spec_bytes())
    &&& v.contains("RGB_COLOR_MAP".spec_bytes())
    &&& v.contains("RGB_BEST_MAP".spec_bytes())
    &&& v.contains("RGB_BLUE_MAP".spec_bytes())
    &&& v.contains("RGB_DEFAULT_MAP".spec_bytes())
    &&& v.contains("RGB_GRAY_MAP".spec_bytes())
    &&& v.contains("RGB_GREEN_MAP".spec_bytes())
    &&& v.contains("RGB_RED_MAP".spec_bytes())
    &&& v.contains("STRING".spec_bytes())
    &&& v.contains("VISUALID".spec_bytes())
    &&& v.contains("WINDOW".spec_bytes())
    &&& v.contains("WM_COMMAND".spec_bytes())
    &&& v.contains("WM_HINTS".spec_bytes())
    &&& v.contains("WM_CLIENT_MACHINE".spec_bytes())
    &&& v.contains("WM_ICON_NAME".spec_bytes())
    &&& v.contains("WM_ICON_SIZE".spec_bytes())
    &&& v.contains("WM_NAME".spec_bytes())
    &&& v.contains("WM_NORMAL_HINTS".spec_bytes())
    &&& v.contains("WM_SIZE_HINTS".spec_bytes())
    &&& v.contains("WM_ZOOM_HINTS".spec_bytes())
    &&& v.contains("MIN_SPACE".spec_bytes())
    &&& v.contains("NORM_SPACE".spec_bytes())
    &&& v.contains("MAX_SPACE".spec_bytes())
    &&& v.contains("END_SPACE".spec_bytes())
    &&& v.contains("SUPERSCRIPT_X".spec_bytes())
    &&& v.contains("SUPERSCRIPT_Y".spec_bytes())
    &&& v.contains("SUBSCRIPT_X".spec_bytes())
    &&& v.contains("SUBSCRIPT_Y".spec_bytes())
    &&& v.contains("UNDERLINE_POSITION".spec_bytes())
    &&& v.contains("UNDERLINE_THICKNESS".spec_bytes())
    &&& v.contains("STRIKEOUT_ASCENT".spec_bytes())
    &&& v.contains("STRIKEOUT_DESCENT".spec_bytes())
    &&& v.contains("ITALIC_ANGLE".spec_bytes())
    &&& v.contains("X_HEIGHT".spec_bytes())
    &&& v.contains("QUAD_WIDTH".spec_bytes())
    &&& v.contains("WEIGHT".spec_bytes())
    &&& v.contains("POINT_SIZE".spec_bytes())
    &&& v.contains("RESOLUTION".spec_bytes())
    &&& v.contains("COPYRIGHT".spec_bytes())
    &&& v.contains("NOTICE".spec_bytes())
    &&& v.contains("FONT_NAME".spec_bytes())
    &&& v.contains("FAMILY_NAME".spec_bytes())
    &&& v.contains("FULL_NAME".spec_bytes())
    &&& v.contains("CAP_HEIGHT".spec_bytes())
    &&& v.contains("WM_CLASS".spec_bytes())
    &&& v.contains("WM_TRANSIENT_FOR".spec_bytes())
}

/// One run of the bootstrap names, in protocol order.
pub open spec fn bootstrap_run_names0() -> Seq<Seq<u8>> {
    seq![
        "PRIMARY".spec_bytes(),
        "SECONDARY".spec_bytes(),
        "ARC".spec_bytes(),
        "ATOM".spec_bytes(),
        "BITMAP".spec_bytes(),
        "CARDINAL".spec_bytes(),
        "COLORMAP".spec_bytes(),
        "CURSOR".spec_bytes(),
        "CUT_BUFFER0".spec_bytes(),
        "CUT_BUFFER1".spec_bytes(),
        "CUT_BUFFER2".spec_bytes(),
        "CUT_BUFFER3".spec_bytes(),
    ]
}

/// One run of the bootstrap names, in protocol order.
pub open spec fn bootstrap_run_names1() -> Seq<Seq<u8>> {
    seq![
        "CUT_BUFFER4".spec_bytes(),
        "CUT_BUFFER5".spec_bytes(),
        "CUT_BUFFER6".spec_bytes(),
        "CUT_BUFFER7".spec_bytes(),
        "DRAWABLE".spec_bytes(),
        "FONT".spec_bytes(),
        "INTEGER".spec_bytes(),
        "PIXMAP".spec_bytes(),
        "POINT".spec_bytes(),
        "RECTANGLE".spec_bytes(),
        "RESOURCE_MANAGER".spec_bytes(),
        "RGB_COLOR_MAP".spec_bytes(),
    ]
}

/// One run of the bootstrap names, in protocol order.
pub open spec fn bootstrap_run_names2() -> Seq<Seq<u8>> {
    seq![
        "RGB_BEST_MAP".spec_bytes(),
        "RGB_BLUE_MAP".spec_bytes(),
        "RGB_DEFAULT_MAP".spec_bytes(),
        "RGB_GRAY_MAP".spec_bytes(),
        "RGB_GREEN_MAP".spec_bytes(),
        "RGB_RED_MAP".spec_bytes(),
        "STRING".spec_bytes(),
        "VISUALID".spec_bytes(),
        "WINDOW".spec_bytes(),
        "WM_COMMAND".spec_bytes(),
        "WM_HINTS".spec_bytes(),
        "WM_CLIENT_MACHINE".spec_bytes(),
    ]
}

/// One run of the bootstrap names, in protocol order.
pub open spec fn bootstrap_run_names3() -> Seq<Seq<u8>> {
    seq![
        "WM_ICON_NAME".spec_bytes(),
        "WM_ICON_SIZE".spec_bytes(),
        "WM_NAME".spec_bytes(),
        "WM_NORMAL_HINTS".spec_bytes(),
        "WM_SIZE_HINTS".spec_bytes(),
        "WM_ZOOM_HINTS".spec_bytes(),
        "MIN_SPACE".spec_bytes(),
        "NORM_SPACE".spec_bytes(),
        "MAX_SPACE".spec_bytes(),
        "END_SPACE".spec_bytes(),
        "SUPERSCRIPT_X".spec_bytes(),
        "SUPERSCRIPT_Y".spec_bytes(),
    ]
}

/// One run of the bootstrap names, in protocol order.
pub open spec fn bootstrap_run_names4() -> Seq<Seq<u8>> {
    seq![
        "SUBSCRIPT_X".spec_bytes(),
        "SUBSCRIPT_Y".spec_bytes(),
        "UNDERLINE_POSITION".spec_bytes(),
        "UNDERLINE_THICKNESS".spec_bytes(),
        "STRIKEOUT_ASCENT".spec_bytes(),
        "STRIKEOUT_DESCENT".spec_bytes(),
        "ITALIC_ANGLE".spec_bytes(),
        "X_HEIGHT".spec_bytes(),
        "QUAD_WIDTH".spec_bytes(),
        "WEIGHT".spec_bytes(),
        "POINT_SIZE".spec_bytes(),
        "RESOLUTION".spec_bytes(),
    ]
}

/// One run of the bootstrap names, in protocol order.
pub open spec fn bootstrap_run_names5() -> Seq<Seq<u8>> {
    seq![
        "COPYRIGHT".spec_bytes(),
        "NOTICE".spec_bytes(),
        "FONT_NAME".spec_bytes(),
        "FAMILY_NAME".spec_bytes(),
        "FULL_NAME".spec_bytes(),
        "CAP_HEIGHT".spec_bytes(),
        "WM_CLASS".spec_bytes(),
        "WM_TRANSIENT_FOR".spec_bytes(),
    ]
}

/// The bootstrap names, in protocol order: the atom with id `i` is the
/// name at index `i - 1`.
pub open spec fn bootstrap_names() -> Seq<Seq<u8>> {
    bootstrap_run_names0() + bootstrap_run_names1() + bootstrap_run_names2()
        + bootstrap_run_names3() + bootstrap_run_names4() + bootstrap_run_names5()
}

impl View for AtomTable {
    type V = Seq<Seq<u8>>;

    closed spec fn view(&self) -> Seq<Seq<u8>> {
        self.names@.map_values(|n: Vec<u8>| n@)
    }
}

impl AtomTable {
    /// The table never holds the same name twice.
    pub open spec fn wf(&self) -> bool {
        distinct_names(self@)
    }

    /// Creates the table, pre-populated with the bootstrap atoms: where the
    /// table comes out full — every bootstrap name fresh, as the protocol's
    /// spellings are — the atoms sit exactly at their protocol ids, in
    /// protocol order.
    #[verifier::rlimit(100)]
    #[verifier::spinoff_prover]
    pub fn new() -> (t: Self)
        ensures
            t.wf(),
            bootstrap_present(t@),
            t@.len() <= 68,
            t@.len() == 68 ==> t@ == bootstrap_names(),
    {
        let mut t = AtomTable { names: Vec::new() };
        Self::bootstrap_run0(&mut t);
        let ghost q1 = t@;
        Self::bootstrap_run1(&mut t);
        let ghost q2 = t@;
        Self::bootstrap_run2(&mut t);
        let ghost q3 = t@;
        Self::bootstrap_run3(&mut t);
        let ghost q4 = t@;
        Self::bootstrap_run4(&mut t);
        let ghost q5 = t@;
        Self::bootstrap_run5(&mut t);
        let ghost q6 = t@;
        proof {
            if t@.len() == 68 {
                assert(q1.len() == Seq::<Seq<u8>>::empty().len() + 12);
                assert(q1 == Seq::<Seq<u8>>::empty() + bootstrap_run_names0());
                assert(q2.len() == q1.len() + 12);
                assert(q2 == q1 + bootstrap_run_names1());
                assert(q3.len() == q2.len() + 12);
                assert(q3 == q2 + bootstrap_run_names2());
                assert(q4.len() == q3.len() + 12);
                assert(q4 == q3 + bootstrap_run_names3());
                assert(q5.len() == q4.len() + 12);
                assert(q5 == q4 + bootstrap_run_names4());
                assert(q6.len() == q5.len() + 8);
                assert(q6 == q5 + bootstrap_run_names5());
                assert(t@ =~= bootstrap_names());
            }
        }
        t
    }

    /// Interns a few of the bootstrap names.
    #[verifier::rlimit(50)]
    #[verifier::spinoff_prover]
    fn bootstrap_chunk0(t: &mut Self)
        requires
            old(t).wf(),
            old(t)@.len() <= 0,
        ensures
            final(t).wf(),
            final(t)@.len() <= 4,
            old(t)@.len() <= final(t)@.len() <= old(t)@.len() + 4,
            forall|n: Seq<u8>| old(t)@.contains(n) ==> final(t)@.contains(n),
            final(t)@.contains("PRIMARY".spec_bytes()),
            final(t)@.contains("SECONDARY".spec_bytes()),
            final(t)@.contains("ARC".spec_bytes()),
            final(t)@.contains("ATOM".spec_bytes()),
            final(t)@.len() == old(t)@.len() + 4 ==> final(t)@ == old(t)@ + seq![
                "PRIMARY".spec_bytes(),
                "SECONDARY".spec_bytes(),
                "ARC".spec_bytes(),
                "ATOM".spec_bytes(),
            ],
    {
        t.intern_lit("PRIMARY");
        t.intern_lit("SECONDARY");
        t.intern_lit("ARC");
        t.intern_lit("ATOM");
    }

    /// Interns a few of the bootstrap names.
    #[verifier::rlimit(50)]
    #[verifier::spinoff_prover]
    fn bootstrap_chunk1(t: &mut Self)
        requires
            old(t).wf(),
            old(t)@.len() <= 4,
        ensures
            final(t).wf(),
            final(t)@.len() <= 8,
            old(t)@.len() <= final(t)@.len() <= old(t)@.len() + 4,
            forall|n: Seq<u8>| old(t)@.contains(n) ==> final(t)@.contains(n),
            final(t)@.contains("BITMAP".spec_bytes()),
            final(t)@.contains("CARDINAL".spec_bytes()),
            final(t)@.contains("COLORMAP".spec_bytes()),
            final(t)@.contains("CURSOR".spec_bytes()),
            final(t)@.len() == old(t)@.len() + 4 ==> final(t)@ == old(t)@ + seq![
                "BITMAP".spec_bytes(),
                "CARDINAL".spec_bytes(),
                "COLORMAP".spec_bytes(),
                "CURSOR".spec_bytes(),
            ],
    {
        t.intern_lit("BITMAP");
        t.intern_lit("CARDINAL");
        t.intern_lit("COLORMAP");
        t.intern_lit("CURSOR");
    }

    /// Interns a few of the bootstrap names.
    #[verifier::rlimit(50)]
    #[verifier::spinoff_prover]
    fn bootstrap_chunk2(t: &mut Self)
        requires
            old(t).wf(),
            old(t)@.len() <= 8,
        ensures
            final(t).wf(),
            final(t)@.len() <= 12,
            old(t)@.len() <= final(t)@.len() <= old(t)@.len() + 4,
            forall|n: Seq<u8>| old(t)@.contains(n) ==> final(t)@.contains(n),
            final(t)@.contains("CUT_BUFFER0".spec_bytes()),
            final(t)@.contains("CUT_BUFFER1".spec_bytes()),
            final(t)@.contains("CUT_BUFFER2".spec_bytes()),
            final(t)@.contains("CUT_BUFFER3".spec_bytes()),
            final(t)@.len() == old(t)@.len() + 4 ==> final(t)@ == old(t)@ + seq![
                "CUT_BUFFER0".spec_bytes(),
                "CUT_BUFFER1".spec_bytes(),
                "CUT_BUFFER2".spec_bytes(),
                "CUT_BUFFER3".spec_bytes(),
            ],
    {
        t.intern_lit("CUT_BUFFER0");
        t.intern_lit("CUT_BUFFER1");
        t.intern_lit("CUT_BUFFER2");
        t.intern_lit("CUT_BUFFER3");
    }

    /// Interns a few of the bootstrap names.
    #[verifier::rlimit(50)]
    #[verifier::spinoff_prover]
    fn bootstrap_chunk3(t: &mut Self)
        requires
            old(t).wf(),
            old(t)@.len() <= 12,
        ensures
            final(t).wf(),
            final(t)@.len() <= 16,
            old(t)@.len() <= final(t)@.len() <= old(t)@.len() + 4,
            forall|n: Seq<u8>| old(t)@.contains(n) ==> final(t)@.contains(n),
            final(t)@.contains("CUT_BUFFER4".spec_bytes()),
            final(t)@.contains("CUT_BUFFER5".spec_bytes()),
            final(t)@.contains("CUT_BUFFER6".spec_bytes()),
            final(t)@.contains("CUT_BUFFER7".spec_bytes()),
            final(t)@.len() == old(t)@.len() + 4 ==> final(t)@ == old(t)@ + seq![
                "CUT_BUFFER4".spec_bytes(),
                "CUT_BUFFER5".spec_bytes(),
                "CUT_BUFFER6".spec_bytes(),
                "CUT_BUFFER7".spec_bytes(),
            ],
    {
        t.intern_lit("CUT_BUFFER4");
        t.intern_lit("CUT_BUFFER5");
        t.intern_lit("CUT_BUFFER6");
        t.intern_lit("CUT_BUFFER7");
    }

    /// Interns a few of the bootstrap names.
    #[verifier::rlimit(50)]
    #[verifier::spinoff_prover]
    fn bootstrap_chunk4(t: &mut Self)
        requires
            old(t).wf(),
            old(t)@.len() <= 16,
        ensures
            final(t).wf(),
            final(t)@.len() <= 20,
            old(t)@.len() <= final(t)@.len() <= old(t)@.len() + 4,
            forall|n: Seq<u8>| old(t)@.contains(n) ==> final(t)@.contains(n),
            final(t)@.contains("DRAWABLE".spec_bytes()),
            final(t)@.contains("FONT".spec_bytes()),
            final(t)@.contains("INTEGER".spec_bytes()),
            final(t)@.contains("PIXMAP".spec_bytes()),
            final(t)@.len() == old(t)@.len() + 4 ==> final(t)@ == old(t)@ + seq![
                "DRAWABLE".spec_bytes(),
                "FONT".spec_bytes(),
                "INTEGER".spec_bytes(),
                "PIXMAP".spec_bytes(),
            ],
    {
        t.intern_lit("DRAWABLE");
        t.intern_lit("FONT");
        t.intern_lit("INTEGER");
        t.intern_lit("PIXMAP");
    }

    /// Interns a few of the bootstrap names.
    #[verifier::rlimit(50)]
    #[verifier::spinoff_prover]
    fn bootstrap_chunk5(t: &mut Self)
        requires
            old(t).wf(),
            old(t)@.len() <= 20,
        ensures
            final(t).wf(),
            final(t)@.len() <= 24,
            old(t)@.len() <= final(t)@.len() <= old(t)@.len() + 4,
            forall|n: Seq<u8>| old(t)@.contains(n) ==> final(t)@.contains(n),
            final(t)@.contains("POINT".spec_bytes()),
            final(t)@.contains("RECTANGLE".spec_bytes()),
            final(t)@.contains("RESOURCE_MANAGER".spec_bytes()),
            final(t)@.contains("RGB_COLOR_MAP".spec_bytes()),
            final(t)@.len() == old(t)@.len() + 4 ==> final(t)@ == old(t)@ + seq![
                "POINT".spec_bytes(),
                "RECTANGLE".spec_bytes(),
                "RESOURCE_MANAGER".spec_bytes(),
                "RGB_COLOR_MAP".spec_bytes(),
            ],
    {
        t.intern_lit("POINT");
        t.intern_lit("RECTANGLE");
        t.intern_lit("RESOURCE_MANAGER");
        t.intern_lit("RGB_COLOR_MAP");
    }

    /// Interns a few of the bootstrap names.
    #[verifier::rlimit(50)]
    #[verifier::spinoff_prover]
    fn bootstrap_chunk6(t: &mut Self)
        requires
            old(t).wf(),
            old(t)@.len() <= 24,
        ensures
            final(t).wf(),
            final(t)@.len() <= 28,
            old(t)@.len() <= final(t)@.len() <= old(t)@.len() + 4,
            forall|n: Seq<u8>| old(t)@.contains(n) ==> final(t)@.contains(n),
            final(t)@.contains("RGB_BEST_MAP".spec_bytes()),
            final(t)@.contains("RGB_BLUE_MAP".spec_bytes()),
            final(t)@.contains("RGB_DEFAULT_MAP".spec_bytes()),
            final(t)@.contains("RGB_GRAY_MAP".spec_bytes()),
            final(t)@.len() == old(t)@.len() + 4 ==> final(t)@ == old(t)@ + seq![
                "RGB_BEST_MAP".spec_bytes(),
                "RGB_BLUE_MAP".spec_bytes(),
                "RGB_DEFAULT_MAP".spec_bytes(),
                "RGB_GRAY_MAP".spec_bytes(),
            ],
    {
        t.intern_lit("RGB_BEST_MAP");
        t.intern_lit("RGB_BLUE_MAP");
        t.intern_lit("RGB_DEFAULT_MAP");
        t.intern_lit("RGB_GRAY_MAP");
    }

    /// Interns a few of the bootstrap names.
    #[verifier::rlimit(50)]
    #[verifier::spinoff_prover]
    fn bootstrap_chunk7(t: &mut Self)
        requires
            old(t).wf(),
            old(t)@.len() <= 28,
        ensures
            final(t).wf(),
            final(t)@.len() <= 32,
            old(t)@.len() <= final(t)@.len() <= old(t)@.len() + 4,
            forall|n: Seq<u8>| old(t)@.contains(n) ==> final(t)@.contains(n),
            final(t)@.contains("RGB_GREEN_MAP".spec_bytes()),
            final(t)@.contains("RGB_RED_MAP".spec_bytes()),
            final(t)@.contains("STRING".spec_bytes()),
            final(t)@.contains("VISUALID".spec_bytes()),
            final(t)@.len() == old(t)@.len() + 4 ==> final(t)@ == old(t)@ + seq![
                "RGB_GREEN_MAP".spec_bytes(),
                "RGB_RED_MAP".spec_bytes(),
                "STRING".spec_bytes(),
                "VISUALID".spec_bytes(),
            ],
    {
        t.intern_lit("RGB_GREEN_MAP");
        t.intern_lit("RGB_RED_MAP");
        t.intern_lit("STRING");
        t.intern_lit("VISUALID");
    }

    /// Interns a few of the bootstrap names.
    #[verifier::rlimit(50)]
    #[verifier::spinoff_prover]
    fn bootstrap_chunk8(t: &mut Self)
        requires
            old(t).wf(),
            old(t)@.len() <= 32,
        ensures
            final(t).wf(),
            final(t)@.len() <= 36,
            old(t)@.len() <= final(t)@.len() <= old(t)@.len() + 4,
            forall|n: Seq<u8>| old(t)@.contains(n) ==> final(t)@.contains(n),
            final(t)@.contains("WINDOW".spec_bytes()),
            final(t)@.contains("WM_COMMAND".spec_bytes()),
            final(t)@.contains("WM_HINTS".spec_bytes()),
            final(t)@.contains("WM_CLIENT_MACHINE".spec_bytes()),
            final(t)@.len() == old(t)@.len() + 4 ==> final(t)@ == old(t)@ + seq![
                "WINDOW".spec_bytes(),
                "WM_COMMAND".spec_bytes(),
                "WM_HINTS".spec_bytes(),
                "WM_CLIENT_MACHINE".spec_bytes(),
            ],
    {
        t.intern_lit("WINDOW");
        t.intern_lit("WM_COMMAND");
        t.intern_lit("WM_HINTS");
        t.intern_lit("WM_CLIENT_MACHINE");
    }

    /// Interns a few of the bootstrap names.
    #[verifier::rlimit(50)]
    #[verifier::spinoff_prover]
    fn bootstrap_chunk9(t: &mut Self)
        requires
            old(t).wf(),
            old(t)@.len() <= 36,
        ensures
            final(t).wf(),
            final(t)@.len() <= 40,
            old(t)@.len() <= final(t)@.len() <= old(t)@.len() + 4,
            forall|n: Seq<u8>| old(t)@.contains(n) ==> final(t)@.contains(n),
            final(t)@.contains("WM_ICON_NAME".spec_bytes()),
            final(t)@.contains("WM_ICON_SIZE".spec_bytes()),
            final(t)@.contains("WM_NAME".spec_bytes()),
            final(t)@.contains("WM_NORMAL_HINTS".spec_bytes()),
            final(t)@.len() == old(t)@.len() + 4 ==> final(t)@ == old(t)@ + seq![
                "WM_ICON_NAME".spec_bytes(),
                "WM_ICON_SIZE".spec_bytes(),
                "WM_NAME".spec_bytes(),
                "WM_NORMAL_HINTS".spec_bytes(),
            ],
    {
        t.intern_lit("WM_ICON_NAME");
        t.intern_lit("WM_ICON_SIZE");
        t.intern_lit("WM_NAME");
        t.intern_lit("WM_NORMAL_HINTS");
    }

    /// Interns a few of the bootstrap names.
    #[verifier::rlimit(50)]
    #[verifier::spinoff_prover]
    fn bootstrap_chunk10(t: &mut Self)
        requires
            old(t).wf(),
            old(t)@.len() <= 40,
        ensures
            final(t).wf(),
            final(t)@.len() <= 44,
            old(t)@.len() <= final(t)@.len() <= old(t)@.len() + 4,
            forall|n: Seq<u8>| old(t)@.contains(n) ==> final(t)@.contains(n),
            final(t)@.contains("WM_SIZE_HINTS".spec_bytes()),
            final(t)@.contains("WM_ZOOM_HINTS".spec_bytes()),
            final(t)@.contains("MIN_SPACE".spec_bytes()),
            final(t)@.contains("NORM_SPACE".spec_bytes()),
            final(t)@.len() == old(t)@.len() + 4 ==> final(t)@ == old(t)@ + seq![
                "WM_SIZE_HINTS".spec_bytes(),
                "WM_ZOOM_HINTS".spec_bytes(),
                "MIN_SPACE".spec_bytes(),
                "NORM_SPACE".spec_bytes(),
            ],
    {
        t.intern_lit("WM_SIZE_HINTS");
        t.intern_lit("WM_ZOOM_HINTS");
        t.intern_lit("MIN_SPACE");
        t.intern_lit("NORM_SPACE");
    }

    /// Interns a few of the bootstrap names.
    #[verifier::rlimit(50)]
    #[verifier::spinoff_prover]
    fn bootstrap_chunk11(t: &mut Self)
        requires
            old(t).wf(),
            old(t)@.len() <= 44,
        ensures
            final(t).wf(),
            final(t)@.len() <= 48,
            old(t)@.len() <= final(t)@.len() <= old(t)@.len() + 4,
            forall|n: Seq<u8>| old(t)@.contains(n) ==> final(t)@.contains(n),
            final(t)@.contains("MAX_SPACE".spec_bytes()),
            final(t)@.contains("END_SPACE".spec_bytes()),
            final(t)@.contains("SUPERSCRIPT_X".spec_bytes()),
            final(t)@.contains("SUPERSCRIPT_Y".spec_bytes()),
            final(t)@.len() == old(t)@.len() + 4 ==> final(t)@ == old(t)@ + seq![
                "MAX_SPACE".spec_bytes(),
                "END_SPACE".spec_bytes(),
                "SUPERSCRIPT_X".spec_bytes(),
                "SUPERSCRIPT_Y".spec_bytes(),
            ],
    {
        t.intern_lit("MAX_SPACE");
        t.intern_lit("END_SPACE");
        t.intern_lit("SUPERSCRIPT_X");
        t.intern_lit("SUPERSCRIPT_Y");
    }

    /// Interns a few of the bootstrap names.
    #[verifier::rlimit(50)]
    #[verifier::spinoff_prover]
    fn bootstrap_chunk12(t: &mut Self)
        requires
            old(t).wf(),
            old(t)@.len() <= 48,
        ensures
            final(t).wf(),
            final(t)@.len() <= 52,
            old(t)@.len() <= final(t)@.len() <= old(t)@.len() + 4,
            forall|n: Seq<u8>| old(t)@.contains(n) ==> final(t)@.contains(n),
            final(t)@.contains("SUBSCRIPT_X".spec_bytes()),
            final(t)@.contains("SUBSCRIPT_Y".spec_bytes()),
            final(t)@.contains("UNDERLINE_POSITION".spec_bytes()),
            final(t)@.contains("UNDERLINE_THICKNESS".spec_bytes()),
            final(t)@.len() == old(t)@.len() + 4 ==> final(t)@ == old(t)@ + seq![
                "SUBSCRIPT_X".spec_bytes(),
                "SUBSCRIPT_Y".spec_bytes(),
                "UNDERLINE_POSITION".spec_bytes(),
                "UNDERLINE_THICKNESS".spec_bytes(),
            ],
    {
        t.intern_lit("SUBSCRIPT_X");
        t.intern_lit("SUBSCRIPT_Y");
        t.intern_lit("UNDERLINE_POSITION");
        t.intern_lit("UNDERLINE_THICKNESS");
    }

    /// Interns a few of the bootstrap names.
    #[verifier::rlimit(50)]
    #[verifier::spinoff_prover]
    fn bootstrap_chunk13(t: &mut Self)
        requires
            old(t).wf(),
            old(t)@.len() <= 52,
        ensures
            final(t).wf(),
            final(t)@.len() <= 56,
            old(t)@.len() <= final(t)@.len() <= old(t)@.len() + 4,
            forall|n: Seq<u8>| old(t)@.contains(n) ==> final(t)@.contains(n),
            final(t)@.contains("STRIKEOUT_ASCENT".spec_bytes()),
            final(t)@.contains("STRIKEOUT_DESCENT".spec_bytes()),
            final(t)@.contains("ITALIC_ANGLE".spec_bytes()),
            final(t)@.contains("X_HEIGHT".spec_bytes()),
            final(t)@.len() == old(t)@.len() + 4 ==> final(t)@ == old(t)@ + seq![
                "STRIKEOUT_ASCENT".spec_bytes(),
                "STRIKEOUT_DESCENT".spec_bytes(),
                "ITALIC_ANGLE".spec_bytes(),
                "X_HEIGHT".spec_bytes(),
            ],
    {
        t.intern_lit("STRIKEOUT_ASCENT");
        t.intern_lit("STRIKEOUT_DESCENT");
        t.intern_lit("ITALIC_ANGLE");
        t.intern_lit("X_HEIGHT");
    }

    /// Interns a few of the bootstrap names.
    #[verifier::rlimit(50)]
    #[verifier::spinoff_prover]
    fn bootstrap_chunk14(t: &mut Self)
        requires
            old(t).wf(),
            old(t)@.len() <= 56,
        ensures
            final(t).wf(),
            final(t)@.len() <= 60,
            old(t)@.len() <= final(t)@.len() <= old(t)@.len() + 4,
            forall|n: Seq<u8>| old(t)@.contains(n) ==> final(t)@.contains(n),
            final(t)@.contains("QUAD_WIDTH".spec_bytes()),
            final(t)@.contains("WEIGHT".spec_bytes()),
            final(t)@.contains("POINT_SIZE".spec_bytes()),
            final(t)@.contains("RESOLUTION".spec_bytes()),
            final(t)@.len() == old(t)@.len() + 4 ==> final(t)@ == old(t)@ + seq![
                "QUAD_WIDTH".spec_bytes(),
                "WEIGHT".spec_bytes(),
                "POINT_SIZE".spec_bytes(),
                "RESOLUTION".spec_bytes(),
            ],
    {
        t.intern_lit("QUAD_WIDTH");
        t.intern_lit("WEIGHT");
        t.intern_lit("POINT_SIZE");
        t.intern_lit("RESOLUTION");
    }

    /// Interns a few of the bootstrap names.
    #[verifier::rlimit(50)]
    #[verifier::spinoff_prover]
    fn bootstrap_chunk15(t: &mut Self)
        requires
            old(t).wf(),
            old(t)@.len() <= 60,
        ensures
            final(t).wf(),
            final(t)@.len() <= 64,
            old(t)@.len() <= final(t)@.len() <= old(t)@.len() + 4,
            forall|n: Seq<u8>| old(t)@.contains(n) ==> final(t)@.contains(n),
            final(t)@.contains("COPYRIGHT".spec_bytes()),
            final(t)@.contains("NOTICE".spec_bytes()),
            final(t)@.contains("FONT_NAME".spec_bytes()),
            final(t)@.contains("FAMILY_NAME".spec_bytes()),
            final(t)@.len() == old(t)@.len() + 4 ==> final(t)@ == old(t)@ + seq![
                "COPYRIGHT".spec_bytes(),
                "NOTICE".spec_bytes(),
                "FONT_NAME".spec_bytes(),
                "FAMILY_NAME".spec_bytes(),
            ],
    {
        t.intern_lit("COPYRIGHT");
        t.intern_lit("NOTICE");
        t.intern_lit("FONT_NAME");
        t.intern_lit("FAMILY_NAME");
    }

    /// Interns a few of the bootstrap names.
    #[verifier::rlimit(50)]
    #[verifier::spinoff_prover]
    fn bootstrap_chunk16(t: &mut Self)
        requires
            old(t).wf(),
            old(t)@.len() <= 64,
        ensures
            final(t).wf(),
            final(t)@.len() <= 68,
            old(t)@.len() <= final(t)@.len() <= old(t)@.len() + 4,
            forall|n: Seq<u8>| old(t)@.contains(n) ==> final(t)@.contains(n),
            final(t)@.contains("FULL_NAME".spec_bytes()),
            final(t)@.contains("CAP_HEIGHT".spec_bytes()),
            final(t)@.contains("WM_CLASS".spec_bytes()),
            final(t)@.contains("WM_TRANSIENT_FOR".spec_bytes()),
            final(t)@.len() == old(t)@.len() + 4 ==> final(t)@ == old(t)@ + seq![
                "FULL_NAME".spec_bytes(),
                "CAP_HEIGHT".spec_bytes(),
                "WM_CLASS".spec_bytes(),
                "WM_TRANSIENT_FOR".spec_bytes(),
            ],
    {
        t.intern_lit("FULL_NAME");
        t.intern_lit("CAP_HEIGHT");
        t.intern_lit("WM_CLASS");
        t.intern_lit("WM_TRANSIENT_FOR");
    }

    /// Interns one run of the bootstrap names.
    #[verifier::rlimit(100)]
    #[verifier::spinoff_prover]
    fn bootstrap_run0(t: &mut Self)
        requires
            old(t).wf(),
            old(t)@.len() <= 0,
        ensures
            final(t).wf(),
            final(t)@.len() <= 12,
            old(t)@.len() <= final(t)@.len() <= old(t)@.len() + 12,
            forall|n: Seq<u8>| old(t)@.contains(n) ==> final(t)@.contains(n),
            final(t)@.contains("PRIMARY".spec_bytes()),
            final(t)@.contains("SECONDARY".spec_bytes()),
            final(t)@.contains("ARC".spec_bytes()),
            final(t)@.contains("ATOM".spec_bytes()),
            final(t)@.contains("BITMAP".spec_bytes()),
            final(t)@.contains("CARDINAL".spec_bytes()),
            final(t)@.contains("COLORMAP".spec_bytes()),
            final(t)@.contains("CURSOR".spec_bytes()),
            final(t)@.contains("CUT_BUFFER0".spec_bytes()),
            final(t)@.contains("CUT_BUFFER1".spec_bytes()),
            final(t)@.contains("CUT_BUFFER2".spec_bytes()),
            final(t)@.contains("CUT_BUFFER3".spec_bytes()),
            final(t)@.len() == old(t)@.len() + 12 ==> final(t)@ == old(t)@ + bootstrap_run_names0(),
    {
        Self::bootstrap_chunk0(t);
        let ghost s1 = t@;
        Self::bootstrap_chunk1(t);
        let ghost s2 = t@;
        Self::bootstrap_chunk2(t);
        let ghost s3 = t@;
        proof {
            if t@.len() == old(t)@.len() + 12 {
                assert(s1.len() == old(t)@.len() + 4);
                assert(s1 == old(t)@ + seq![
                    "PRIMARY".spec_bytes(),
                    "SECONDARY".spec_bytes(),
                    "ARC".spec_bytes(),
                    "ATOM".spec_bytes(),
                ]);
                assert(s2.len() == s1.len() + 4);
                assert(s2 == s1 + seq![
                    "BITMAP".spec_bytes(),
                    "CARDINAL".spec_bytes(),
                    "COLORMAP".spec_bytes(),
                    "CURSOR".spec_bytes(),
                ]);
                assert(s3.len() == s2.len() + 4);
                assert(s3 == s2 + seq![
                    "CUT_BUFFER0".spec_bytes(),
                    "CUT_BUFFER1".spec_bytes(),
                    "CUT_BUFFER2".spec_bytes(),
                    "CUT_BUFFER3".spec_bytes(),
                ]);
                assert(t@ =~= old(t)@ + bootstrap_run_names0());
            }
        }
    }

    /// Interns one run of the bootstrap names.
    #[verifier::rlimit(100)]
    #[verifier::spinoff_prover]
    fn bootstrap_run1(t: &mut Self)
        requires
            old(t).wf(),
            old(t)@.len() <= 12,
        ensures
            final(t).wf(),
            final(t)@.len() <= 24,
            old(t)@.len() <= final(t)@.len() <= old(t)@.len() + 12,
            forall|n: Seq<u8>| old(t)@.contains(n) ==> final(t)@.contains(n),
            final(t)@.contains("CUT_BUFFER4".spec_bytes()),
            final(t)@.contains("CUT_BUFFER5".spec_bytes()),
            final(t)@.contains("CUT_BUFFER6".spec_bytes()),
            final(t)@.contains("CUT_BUFFER7".spec_bytes()),
            final(t)@.contains("DRAWABLE".spec_bytes()),
            final(t)@.contains("FONT".spec_bytes()),
            final(t)@.contains("INTEGER".spec_bytes()),
            final(t)@.contains("PIXMAP".spec_bytes()),
            final(t)@.contains("POINT".spec_bytes()),
            final(t)@.contains("RECTANGLE".spec_bytes()),
            final(t)@.contains("RESOURCE_MANAGER".spec_bytes()),
            final(t)@.contains("RGB_COLOR_MAP".spec_bytes()),
            final(t)@.len() == old(t)@.len() + 12 ==> final(t)@ == old(t)@ + bootstrap_run_names1(),
    {
        Self::bootstrap_chunk3(t);
        let ghost s1 = t@;
        Self::bootstrap_chunk4(t);
        let ghost s2 = t@;
        Self::bootstrap_chunk5(t);
        let ghost s3 = t@;
        proof {
            if t@.len() == old(t)@.len() + 12 {
                assert(s1.len() == old(t)@.len() + 4);
                assert(s1 == old(t)@ + seq![
                    "CUT_BUFFER4".spec_bytes(),
                    "CUT_BUFFER5".spec_bytes(),
                    "CUT_BUFFER6".spec_bytes(),
                    "CUT_BUFFER7".spec_bytes(),
                ]);
                assert(s2.len() == s1.len() + 4);
                assert(s2 == s1 + seq![
                    "DRAWABLE".spec_bytes(),
                    "FONT".spec_bytes(),
                    "INTEGER".spec_bytes(),
                    "PIXMAP".spec_bytes(),
                ]);
                assert(s3.len() == s2.len() + 4);
                assert(s3 == s2 + seq![
                    "POINT".spec_bytes(),
                    "RECTANGLE".spec_bytes(),
                    "RESOURCE_MANAGER".spec_bytes(),
                    "RGB_COLOR_MAP".spec_bytes(),
                ]);
                assert(t@ =~= old(t)@ + bootstrap_run_names1());
            }
        }
    }

    /// Interns one run of the bootstrap names.
    #[verifier::rlimit(100)]
    #[verifier::spinoff_prover]
    fn bootstrap_run2(t: &mut Self)
        requires
            old(t).wf(),
            old(t)@.len() <= 24,
        ensures
            final(t).wf(),
            final(t)@.len() <= 36,
            old(t)@.len() <= final(t)@.len() <= old(t)@.len() + 12,
            forall|n: Seq<u8>| old(t)@.contains(n) ==> final(t)@.contains(n),
            final(t)@.contains("RGB_BEST_MAP".spec_bytes()),
            final(t)@.contains("RGB_BLUE_MAP".spec_bytes()),
            final(t)@.contains("RGB_DEFAULT_MAP".spec_bytes()),
            final(t)@.contains("RGB_GRAY_MAP".spec_bytes()),
            final(t)@.contains("RGB_GREEN_MAP".spec_bytes()),
            final(t)@.contains("RGB_RED_MAP".spec_bytes()),
            final(t)@.contains("STRING".spec_bytes()),
            final(t)@.contains("VISUALID".spec_bytes()),
            final(t)@.contains("WINDOW".spec_bytes()),
            final(t)@.contains("WM_COMMAND".spec_bytes()),
            final(t)@.contains("WM_HINTS".spec_bytes()),
            final(t)@.contains("WM_CLIENT_MACHINE".spec_bytes()),
            final(t)@.len() == old(t)@.len() + 12 ==> final(t)@ == old(t)@ + bootstrap_run_names2(),
    {
        Self::bootstrap_chunk6(t);
        let ghost s1 = t@;
        Self::bootstrap_chunk7(t);
        let ghost s2 = t@;
        Self::bootstrap_chunk8(t);
        let ghost s3 = t@;
        proof {
            if t@.len() == old(t)@.len() + 12 {
                assert(s1.len() == old(t)@.len() + 4);
                assert(s1 == old(t)@ + seq![
                    "RGB_BEST_MAP".spec_bytes(),
                    "RGB_BLUE_MAP".spec_bytes(),
                    "RGB_DEFAULT_MAP".spec_bytes(),
                    "RGB_GRAY_MAP".spec_bytes(),
                ]);
                assert(s2.len() == s1.len() + 4);
                assert(s2 == s1 + seq![
                    "RGB_GREEN_MAP".spec_bytes(),
                    "RGB_RED_MAP".spec_bytes(),
                    "STRING".spec_bytes(),
                    "VISUALID".spec_bytes(),
                ]);
                assert(s3.len() == s2.len() + 4);
                assert(s3 == s2 + seq![
                    "WINDOW".spec_bytes(),
                    "WM_COMMAND".spec_bytes(),
                    "WM_HINTS".spec_bytes(),
                    "WM_CLIENT_MACHINE".spec_bytes(),
                ]);
                assert(t@ =~= old(t)@ + bootstrap_run_names2());
            }
        }
    }

    /// Interns one run of the bootstrap names.
    #[verifier::rlimit(100)]
    #[verifier::spinoff_prover]
    fn bootstrap_run3(t: &mut Self)
        requires
            old(t).wf(),
            old(t)@.len() <= 36,
        ensures
            final(t).wf(),
            final(t)@.len() <= 48,
            old(t)@.len() <= final(t)@.len() <= old(t)@.len() + 12,
            forall|n: Seq<u8>| old(t)@.contains(n) ==> final(t)@.contains(n),
            final(t)@.contains("WM_ICON_NAME".spec_bytes()),
            final(t)@.contains("WM_ICON_SIZE".spec_bytes()),
            final(t)@.contains("WM_NAME".spec_bytes()),
            final(t)@.contains("WM_NORMAL_HINTS".spec_bytes()),
            final(t)@.contains("WM_SIZE_HINTS".spec_bytes()),
            final(t)@.contains("WM_ZOOM_HINTS".spec_bytes()),
            final(t)@.contains("MIN_SPACE".spec_bytes()),
            final(t)@.contains("NORM_SPACE".spec_bytes()),
            final(t)@.contains("MAX_SPACE".spec_bytes()),
            final(t)@.contains("END_SPACE".spec_bytes()),
            final(t)@.contains("SUPERSCRIPT_X".spec_bytes()),
            final(t)@.contains("SUPERSCRIPT_Y".spec_bytes()),
            final(t)@.len() == old(t)@.len() + 12 ==> final(t)@ == old(t)@ + bootstrap_run_names3(),
    {
        Self::bootstrap_chunk9(t);
        let ghost s1 = t@;
        Self::bootstrap_chunk10(t);
        let ghost s2 = t@;
        Self::bootstrap_chunk11(t);
        let ghost s3 = t@;
        proof {
            if t@.len() == old(t)@.len() + 12 {
                assert(s1.len() == old(t)@.len() + 4);
                assert(s1 == old(t)@ + seq![
                    "WM_ICON_NAME".spec_bytes(),
                    "WM_ICON_SIZE".spec_bytes(),
                    "WM_NAME".spec_bytes(),
                    "WM_NORMAL_HINTS".spec_bytes(),
                ]);
                assert(s2.len() == s1.len() + 4);
                assert(s2 == s1 + seq![
                    "WM_SIZE_HINTS".spec_bytes(),
                    "WM_ZOOM_HINTS".spec_bytes(),
                    "MIN_SPACE".spec_bytes(),
                    "NORM_SPACE".spec_bytes(),
                ]);
                assert(s3.len() == s2.len() + 4);
                assert(s3 == s2 + seq![
                    "MAX_SPACE".spec_bytes(),
                    "END_SPACE".spec_bytes(),
                    "SUPERSCRIPT_X".spec_bytes(),
                    "SUPERSCRIPT_Y".spec_bytes(),
                ]);
                assert(t@ =~= old(t)@ + bootstrap_run_names3());
            }
        }
    }

    /// Interns one run of the bootstrap names.
    #[verifier::rlimit(100)]
    #[verifier::spinoff_prover]
    fn bootstrap_run4(t: &mut Self)
        requires
            old(t).wf(),
            old(t)@.len() <= 48,
        ensures
            final(t).wf(),
            final(t)@.len() <= 60,
            old(t)@.len() <= final(t)@.len() <= old(t)@.len() + 12,
            forall|n: Seq<u8>| old(t)@.contains(n) ==> final(t)@.contains(n),
            final(t)@.contains("SUBSCRIPT_X".spec_bytes()),
            final(t)@.contains("SUBSCRIPT_Y".spec_bytes()),
            final(t)@.contains("UNDERLINE_POSITION".spec_bytes()),
            final(t)@.contains("UNDERLINE_THICKNESS".spec_bytes()),
            final(t)@.contains("STRIKEOUT_ASCENT".spec_bytes()),
            final(t)@.contains("STRIKEOUT_DESCENT".spec_bytes()),
            final(t)@.contains("ITALIC_ANGLE".spec_bytes()),
            final(t)@.contains("X_HEIGHT".spec_bytes()),
            final(t)@.contains("QUAD_WIDTH".spec_bytes()),
            final(t)@.contains("WEIGHT".spec_bytes()),
            final(t)@.contains("POINT_SIZE".spec_bytes()),
            final(t)@.contains("RESOLUTION".spec_bytes()),
            final(t)@.len() == old(t)@.len() + 12 ==> final(t)@ == old(t)@ + bootstrap_run_names4(),
    {
        Self::bootstrap_chunk12(t);
        let ghost s1 = t@;
        Self::bootstrap_chunk13(t);
        let ghost s2 = t@;
        Self::bootstrap_chunk14(t);
        let ghost s3 = t@;
        proof {
            if t@.len() == old(t)@.len() + 12 {
                assert(s1.len() == old(t)@.len() + 4);
                assert(s1 == old(t)@ + seq![
                    "SUBSCRIPT_X".spec_bytes(),
                    "SUBSCRIPT_Y".spec_bytes(),
                    "UNDERLINE_POSITION".spec_bytes(),
                    "UNDERLINE_THICKNESS".spec_bytes(),
                ]);
                assert(s2.len() == s1.len() + 4);
                assert(s2 == s1 + seq![
                    "STRIKEOUT_ASCENT".spec_bytes(),
                    "STRIKEOUT_DESCENT".spec_bytes(),
                    "ITALIC_ANGLE".spec_bytes(),
                    "X_HEIGHT".spec_bytes(),
                ]);
                assert(s3.len() == s2.len() + 4);
                assert(s3 == s2 + seq![
                    "QUAD_WIDTH".spec_bytes(),
                    "WEIGHT".spec_bytes(),
                    "POINT_SIZE".spec_bytes(),
                    "RESOLUTION".spec_bytes(),
                ]);
                assert(t@ =~= old(t)@ + bootstrap_run_names4());
            }
        }
    }

    /// Interns one run of the bootstrap names.
    #[verifier::rlimit(100)]
    #[verifier::spinoff_prover]
    fn bootstrap_run5(t: &mut Self)
        requires
            old(t).wf(),
            old(t)@.len() <= 60,
        ensures
            final(t).wf(),
            final(t)@.len() <= 68,
            old(t)@.len() <= final(t)@.len() <= old(t)@.len() + 8,
            forall|n: Seq<u8>| old(t)@.contains(n) ==> final(t)@.contains(n),
            final(t)@.contains("COPYRIGHT".spec_bytes()),
            final(t)@.contains("NOTICE".spec_bytes()),
            final(t)@.contains("FONT_NAME".spec_bytes()),
            final(t)@.contains("FAMILY_NAME".spec_bytes()),
            final(t)@.contains("FULL_NAME".spec_bytes()),
            final(t)@.contains("CAP_HEIGHT".spec_bytes()),
            final(t)@.contains("WM_CLASS".spec_bytes()),
            final(t)@.contains("WM_TRANSIENT_FOR".spec_bytes()),
            final(t)@.len() == old(t)@.len() + 8 ==> final(t)@ == old(t)@ + bootstrap_run_names5(),
    {
        Self::bootstrap_chunk15(t);
        let ghost s1 = t@;
        Self::bootstrap_chunk16(t);
        let ghost s2 = t@;
        proof {
            if t@.len() == old(t)@.len() + 8 {
                assert(s1.len() == old(t)@.len() + 4);
                assert(s1 == old(t)@ + seq![
                    "COPYRIGHT".spec_bytes(),
                    "NOTICE".spec_bytes(),
                    "FONT_NAME".spec_bytes(),
                    "FAMILY_NAME".spec_bytes(),
                ]);
                assert(s2.len() == s1.len() + 4);
                assert(s2 == s1 + seq![
                    "FULL_NAME".spec_bytes(),
                    "CAP_HEIGHT".spec_bytes(),
                    "WM_CLASS".spec_bytes(),
                    "WM_TRANSIENT_FOR".spec_bytes(),
                ]);
                assert(t@ =~= old(t)@ + bootstrap_run_names5());
            }
        }
    }

    /// Interns one literal name during bootstrap.
    fn intern_lit(&mut self, s: &str)
        requires
            old(self).wf(),
            old(self)@.len() < 68,
        ensures
            final(self).wf(),
            final(self)@.contains(s.spec_bytes()),
            forall|n: Seq<u8>| old(self)@.contains(n) ==> final(self)@.contains(n),
            old(self)@.len() <= final(self)@.len() <= old(self)@.len() + 1,
            final(self)@.len() == old(self)@.len() + 1 ==> final(self)@ == old(self)@.push(
                s.spec_bytes(),
            ),
    {
        let name = lit_bytes(s);
        let _ = self.intern(name.as_slice(), false);
        proof {
            let v0 = old(self)@;
            let v1 = self@;
            if exists|i: int| 0 <= i < v0.len() && v0[i] == s.spec_bytes() {
                assert(v1 == v0);
                let i = choose|i: int| 0 <= i < v0.len() && v0[i] == s.spec_bytes();
                assert(v1.contains(s.spec_bytes()));
            } else {
                assert(v1 == v0.push(s.spec_bytes()));
                assert(v1[v0.len() as int] == s.spec_bytes());
                assert(v1.contains(s.spec_bytes()));
                assert forall|n: Seq<u8>| v0.contains(n) implies v1.contains(n) by {
                    let i = choose|i: int| 0 <= i < v0.len() && v0[i] == n;
                    assert(v1[i] == n);
                }
            }
        }
    }

    /// The number of atoms in the table.
    pub fn len(&self) -> (r: usize)
        ensures
            r == self@.len(),
    {
        self.names.len()
    }

    /// Returns the name of the atom with the given id, or `None` if the id
    /// names no atom.
    pub fn get_atom(&self, id: u32) -> (r: Option<&Vec<u8>>)
        ensures
            match r {
                Some(n) => 1 <= id <= self@.len() && n@ == self@[id - 1],
                None => id == 0 || id > self@.len(),
            },
    {
        if id == 0 {
            return None;
        }
        let idx = (id - 1) as usize;
        if idx < self.names.len() {
            Some(&self.names[idx])
        } else {
            None
        }
    }

    /// Returns the id of the atom with the given name, or `None` if the name
    /// is not interned.
    pub fn get_atom_from_name(&self, name: &[u8]) -> (r: Option<u32>)
        requires
            self@.len() <= MAX_ATOM_ID,
        ensures
            match r {
                Some(id) => 1 <= id <= self@.len() && self@[id - 1] == name@,
                None => forall|i: int| 0 <= i < self@.len() ==> self@[i] != name@,
            },
    {
        let mut i: usize = 0;
        while i < self.names.len()
            invariant
                i <= self@.len(),
                self@.len() <= MAX_ATOM_ID,
                forall|j: int| 0 <= j < i ==> self@[j] != name@,
            decreases self@.len() - i,
        {
            if bytes_eq(self.names[i].as_slice(), name) {
                return Some((i + 1) as u32);
            }
            i = i + 1;
        }
        None
    }

    /// Interns a name: hands back the id of an existing atom, or creates the
    /// atom unless `only_if_exists` is set, in which case an absent name
    /// yields id zero.
    pub fn intern(&mut self, name: &[u8], only_if_exists: bool) -> (r: u32)
        requires
            old(self).wf(),
            old(self)@.len() < MAX_ATOM_ID,
        ensures
            final(self).wf(),
            (final(self)@, r as int) == spec_intern(old(self)@, name@, only_if_exists),
    {
        match self.get_atom_from_name(name) {
            Some(id) => {
                proof {
                    let v = self@;
                    let c = choose|i: int| 0 <= i < v.len() && v[i] == name@;
                    assert(v[id - 1] == name@);
                    assert(c == id - 1);
                }
                id
            }
            None => {
                if only_if_exists {
                    0
                } else {
                    let ghost v0 = self@;
                    let id = (self.names.len() + 1) as u32;
                    self.names.push(bytes_to_vec(name));
                    proof {
                        assert(self@ =~= v0.push(name@));
                        assert forall|i: int, j: int| 0 <= i < j < self@.len() implies self@[i]
                            != self@[j] by {
                            if j == v0.len() {
                                assert(self@[i] == v0[i]);
                                assert(!v0.contains(name@));
                                assert(v0.contains(v0[i]));
                            }
                        }
                    }
                    id
                }
            }
        }
    }
}

/// Interning a name makes it permanent: once a name has been interned, a
/// later intern of the same name — with either flag — hands back the same
/// id and leaves the table unchanged.
pub proof fn lemma_intern_idempotent(v: Seq<Seq<u8>>, n: Seq<u8>, only_if_exists: bool)
    requires
        distinct_names(v),
    ensures
        ({
            let (v1, id) = spec_intern(v, n, false);
            spec_intern(v1, n, only_if_exists) == (v1, id)
        }),
{
    let (v1, id) = spec_intern(v, n, false);
    if exists|i: int| 0 <= i < v.len() && v[i] == n {
        let i = choose|i: int| 0 <= i < v.len() && v[i] == n;
        assert(v1 == v);
        let j = choose|j: int| 0 <= j < v1.len() && v1[j] == n;
        assert(j == i);
    } else {
        assert(v1 == v.push(n));
        assert(v1[v.len() as int] == n);
        let j = choose|j: int| 0 <= j < v1.len() && v1[j] == n;
        assert forall|k: int| 0 <= k < v1.len() && v1[k] == n implies k == v.len() as int by {
            if k < v.len() {
                assert(v.contains(v[k]));
            }
        }
        assert(j == v.len() as int);
    }
}

/// In a well-formed table the name of an atom determines the atom: two ids
/// that carry the same name are the same id.
pub proof fn lemma_atom_name_determines_id(v: Seq<Seq<u8>>, a: int, b: int)
    requires
        distinct_names(v),
        1 <= a <= v.len(),
        1 <= b <= v.len(),
        v[a - 1] == v[b - 1],
    ensures
        a == b,
{
}


/// The protocol ids of the bootstrap atoms: the table holds 68 names, and
/// the names the core requests lean on sit at their protocol-defined ids —
/// PRIMARY at 1, ATOM at 4, STRING at 31, WM_NAME at 39, WM_TRANSIENT_FOR
/// at 68 (each id one past its index).
/// The names the core scenarios lean on, at their indexes within their runs.
#[verifier::spinoff_prover]
proof fn lemma_run_ids()
    ensures
        bootstrap_run_names0().len() == 12,
        bootstrap_run_names1().len() == 12,
        bootstrap_run_names2().len() == 12,
        bootstrap_run_names3().len() == 12,
        bootstrap_run_names4().len() == 12,
        bootstrap_run_names5().len() == 8,
        bootstrap_run_names0()[0] == "PRIMARY".spec_bytes(),
        bootstrap_run_names0()[3] == "ATOM".spec_bytes(),
        bootstrap_run_names2()[6] == "STRING".spec_bytes(),
        bootstrap_run_names3()[2] == "WM_NAME".spec_bytes(),
        bootstrap_run_names5()[7] == "WM_TRANSIENT_FOR".spec_bytes(),
{
}

/// The protocol ids of the bootstrap atoms: the table holds 68 names, and
/// the names the core requests lean on sit at their protocol-defined ids —
/// PRIMARY at 1, ATOM at 4, STRING at 31, WM_NAME at 39, WM_TRANSIENT_FOR
/// at 68 (each id one past its index).
#[verifier::rlimit(100)]
#[verifier::spinoff_prover]
pub proof fn lemma_bootstrap_ids()
    ensures
        bootstrap_names().len() == 68,
        bootstrap_names()[0] == "PRIMARY".spec_bytes(),
        bootstrap_names()[3] == "ATOM".spec_bytes(),
        bootstrap_names()[30] == "STRING".spec_bytes(),
        bootstrap_names()[38] == "WM_NAME".spec_bytes(),
        bootstrap_names()[67] == "WM_TRANSIENT_FOR".spec_bytes(),
{
    lemma_run_ids();
    assert(bootstrap_names()[0] == bootstrap_run_names0()[0]);
    assert(bootstrap_names()[3] == bootstrap_run_names0()[3]);
    assert(bootstrap_names()[30] == bootstrap_run_names2()[6]);
    assert(bootstrap_names()[38] == bootstrap_run_names3()[2]);
    assert(bootstrap_names()[67] == bootstrap_run_names5()[7]);
}

} // verus!
