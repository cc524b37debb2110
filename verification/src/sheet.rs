use vstd::prelude::*;

verus! {

/// Largest extent or offset a sprite-sheet rectangle may carry. Bounding
/// sheet data keeps the geometry computed from it within `i16`.
pub const MAX_SPRITE_DIM: i16 = 1024;

/// A rectangle as it appears in a sprite-sheet description.
#[derive(Clone, Copy, PartialEq, Eq, Structural, Debug)]
pub struct SheetRect {
    pub x: i16,
    pub y: i16,
    pub w: i16,
    pub h: i16,
}

impl SheetRect {
    pub open spec fn wf(self) -> bool {
        &&& 0 <= self.x <= MAX_SPRITE_DIM
        &&& 0 <= self.y <= MAX_SPRITE_DIM
        &&& 0 <= self.w <= MAX_SPRITE_DIM
        &&& 0 <= self.h <= MAX_SPRITE_DIM
    }

    pub fn is_wf(&self) -> (r: bool)
        ensures
            r == self.wf(),
    {
        0 <= self.x && self.x <= MAX_SPRITE_DIM && 0 <= self.y && self.y <= MAX_SPRITE_DIM
            && 0 <= self.w && self.w <= MAX_SPRITE_DIM && 0 <= self.h && self.h <= MAX_SPRITE_DIM
    }
}

/// One sprite: where it sits in the sheet image (`frame`) and where it sits
/// inside its nominal box when blitted (`sprite_source_size`).
#[derive(Clone, Copy, PartialEq, Eq, Structural, Debug)]
pub struct Cell {
    pub frame: SheetRect,
    pub sprite_source_size: SheetRect,
}

impl Cell {
    pub open spec fn wf(self) -> bool {
        self.frame.wf() && self.sprite_source_size.wf()
    }

    pub fn is_wf(&self) -> (r: bool)
        ensures
            r == self.wf(),
    {
        self.frame.is_wf() && self.sprite_source_size.is_wf()
    }
}

/// A named sprite of a sheet.
#[derive(Clone, Debug)]
pub struct SheetEntry {
    pub name: String,
    pub cell: Cell,
}

/// A sprite sheet: a mapping from sprite names to cells, read-only after
/// construction. Lookup returns the first entry with the probed name.
#[derive(Clone, Debug)]
pub struct Sheet {
    pub frames: Vec<SheetEntry>,
}

/// The cell the given name maps to: the first entry whose name matches.
pub open spec fn spec_lookup(frames: Seq<SheetEntry>, name: Seq<char>) -> Option<Cell>
    decreases frames.len(),
{
    if frames.len() == 0 {
        None
    } else if frames[0].name@ == name {
        Some(frames[0].cell)
    } else {
        spec_lookup(frames.drop_first(), name)
    }
}

/// If no entry before position `i` matches, the lookup result is decided by
/// the entries from `i` on.
proof fn lemma_lookup_skip(frames: Seq<SheetEntry>, name: Seq<char>, i: int)
    requires
        0 <= i <= frames.len(),
        forall|j: int| 0 <= j < i ==> #[trigger] frames[j].name@ != name,
    ensures
        spec_lookup(frames, name) == spec_lookup(frames.skip(i), name),
    decreases i,
{
    if i > 0 {
        lemma_lookup_skip(frames.drop_first(), name, i - 1);
        assert(frames.drop_first().skip(i - 1) =~= frames.skip(i));
    } else {
        assert(frames.skip(0) =~= frames);
    }
}

/// A cell found in a well-formed sheet is itself well formed.
pub proof fn lemma_lookup_wf(frames: Seq<SheetEntry>, name: Seq<char>)
    requires
        forall|i: int| 0 <= i < frames.len() ==> (#[trigger] frames[i].cell).wf(),
        spec_lookup(frames, name) is Some,
    ensures
        spec_lookup(frames, name)->Some_0.wf(),
    decreases frames.len(),
{
    if frames.len() > 0 && frames[0].name@ != name {
        assert(forall|i: int|
            0 <= i < frames.drop_first().len() ==> (#[trigger] frames.drop_first()[i].cell).wf());
        lemma_lookup_wf(frames.drop_first(), name);
    }
}

impl Sheet {
    /// Every cell of the sheet is well formed.
    pub open spec fn wf(self) -> bool {
        forall|i: int| 0 <= i < self.frames@.len() ==> (#[trigger] self.frames@[i].cell).wf()
    }

    pub open spec fn spec_cell(self, name: Seq<char>) -> Option<Cell> {
        spec_lookup(self.frames@, name)
    }

    pub fn new(frames: Vec<SheetEntry>) -> (r: Sheet)
        ensures
            r.frames == frames,
    {
        Sheet { frames }
    }

    /// The first cell stored under `name`, if any.
    pub fn cell(&self, name: &String) -> (r: Option<&Cell>)
        ensures
            match r {
                Some(c) => self.spec_cell(name@) == Some(*c),
                None => self.spec_cell(name@) is None,
            },
    {
        let mut idx: usize = 0;
        while idx < self.frames.len()
            invariant
                0 <= idx <= self.frames@.len(),
                forall|j: int| 0 <= j < idx ==> #[trigger] self.frames@[j].name@ != name@,
            decreases self.frames@.len() - idx,
        {
            if self.frames[idx].name == *name {
                proof {
                    lemma_lookup_skip(self.frames@, name@, idx as int);
                }
                return Some(&self.frames[idx].cell);
            }
            idx = idx + 1;
        }
        proof {
            lemma_lookup_skip(self.frames@, name@, idx as int);
        }
        None
    }
}

} // verus!
