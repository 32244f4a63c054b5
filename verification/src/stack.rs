//! The effect stack: an ordered list of rows, each a node in disguise.
//!
//! Every row carries its own enable switch, blend mode and label beside the
//! effect it runs. The parts of a row that are numbers on a continuous scale
//! (its parameters, opacity and key) travel in the row's `look`, which this
//! module carries without reading: nothing the stack decides depends on them.

use vstd::prelude::*;
use crate::text::str_eq;

verus! {

/// Stable identifier for a row. Survives reordering, which is why callers key
/// off this and never off the index.
#[derive(Clone, Copy, Debug, PartialEq, Eq, PartialOrd, Ord, Hash, Structural)]
pub struct RowId(pub u64);

/// How a row's result is combined with what came before it.
#[derive(Clone, Copy, Debug, PartialEq, Eq, Structural)]
pub enum BlendMode {
    Normal,
    Add,
    Multiply,
    Screen,
    Overlay,
    SoftLight,
    HardLight,
    Darken,
    Lighten,
    Difference,
    Exclusion,
    /// Takes hue and saturation from the result, luminance from the input.
    Color,
    /// Takes luminance from the result, hue and saturation from the input.
    Luminosity,
}

impl Default for BlendMode {
    fn default() -> (r: BlendMode)
        ensures
            r == BlendMode::Normal,
    {
        BlendMode::Normal
    }
}

/// Every blend mode, in declaration order.
pub open spec fn blend_modes() -> Seq<BlendMode> {
    seq![
        BlendMode::Normal,
        BlendMode::Add,
        BlendMode::Multiply,
        BlendMode::Screen,
        BlendMode::Overlay,
        BlendMode::SoftLight,
        BlendMode::HardLight,
        BlendMode::Darken,
        BlendMode::Lighten,
        BlendMode::Difference,
        BlendMode::Exclusion,
        BlendMode::Color,
        BlendMode::Luminosity,
    ]
}

impl BlendMode {
    pub const ALL: [BlendMode; 13] = [
        BlendMode::Normal,
        BlendMode::Add,
        BlendMode::Multiply,
        BlendMode::Screen,
        BlendMode::Overlay,
        BlendMode::SoftLight,
        BlendMode::HardLight,
        BlendMode::Darken,
        BlendMode::Lighten,
        BlendMode::Difference,
        BlendMode::Exclusion,
        BlendMode::Color,
        BlendMode::Luminosity,
    ];

    /// Blend modes that model light arriving at a sensor and so are evaluated
    /// in linear space; the rest are perceptual.
    pub fn is_light_like(self) -> (r: bool)
        ensures
            r == (self == BlendMode::Add || self == BlendMode::Screen),
    {
        match self {
            BlendMode::Add | BlendMode::Screen => true,
            _ => false,
        }
    }

    /// Index the shader switches on: the position of the mode in [`Self::ALL`].
    pub fn as_index(self) -> (r: u32)
        ensures
            r < 13,
            blend_modes()[r as int] == self,
    {
        match self {
            BlendMode::Normal => 0,
            BlendMode::Add => 1,
            BlendMode::Multiply => 2,
            BlendMode::Screen => 3,
            BlendMode::Overlay => 4,
            BlendMode::SoftLight => 5,
            BlendMode::HardLight => 6,
            BlendMode::Darken => 7,
            BlendMode::Lighten => 8,
            BlendMode::Difference => 9,
            BlendMode::Exclusion => 10,
            BlendMode::Color => 11,
            BlendMode::Luminosity => 12,
        }
    }

    /// The name the interface shows.
    pub fn as_str(self) -> (r: &'static str)
        ensures
            r@ == blend_name(self),
    {
        match self {
            BlendMode::Normal => "Normal",
            BlendMode::Add => "Add",
            BlendMode::Multiply => "Multiply",
            BlendMode::Screen => "Screen",
            BlendMode::Overlay => "Overlay",
            BlendMode::SoftLight => "Soft Light",
            BlendMode::HardLight => "Hard Light",
            BlendMode::Darken => "Darken",
            BlendMode::Lighten => "Lighten",
            BlendMode::Difference => "Difference",
            BlendMode::Exclusion => "Exclusion",
            BlendMode::Color => "Color",
            BlendMode::Luminosity => "Luminosity",
        }
    }
}

/// The displayed name of each blend mode.
pub open spec fn blend_name(m: BlendMode) -> Seq<char> {
    match m {
        BlendMode::Normal => "Normal"@,
        BlendMode::Add => "Add"@,
        BlendMode::Multiply => "Multiply"@,
        BlendMode::Screen => "Screen"@,
        BlendMode::Overlay => "Overlay"@,
        BlendMode::SoftLight => "Soft Light"@,
        BlendMode::HardLight => "Hard Light"@,
        BlendMode::Darken => "Darken"@,
        BlendMode::Lighten => "Lighten"@,
        BlendMode::Difference => "Difference"@,
        BlendMode::Exclusion => "Exclusion"@,
        BlendMode::Color => "Color"@,
        BlendMode::Luminosity => "Luminosity"@,
    }
}

/// The shapes a power window can take.
#[derive(Clone, Copy, Debug, PartialEq, Eq, Structural)]
pub enum WindowShape {
    Linear,
    Circle,
    Polygon,
    Curve,
    Gradient,
}

/// One row of the stack.
///
/// `look` holds the row's parameters, opacity and key: what the renderer reads
/// and the stack itself never does.
#[derive(Clone, Debug, PartialEq)]
pub struct StackRow<L> {
    pub id: RowId,
    /// Registry key of the effect, e.g. `"exposure"`. A string rather than an
    /// enum so a document naming an effect this build does not know about can
    /// still round-trip.
    pub effect: String,
    pub enabled: bool,
    pub blend: BlendMode,
    /// User-visible label. `None` means "use the effect's display name".
    pub label: Option<String>,
    /// A fixed panel rather than a row the user added. Pinned rows occupy the
    /// head of the stack and cannot be deleted or moved.
    pub pinned: bool,
    pub look: L,
}

impl<L: Default> StackRow<L> {
    /// A new row: enabled, normal blend, unlabelled, not pinned, with the
    /// default look.
    pub fn new(id: RowId, effect: &str) -> (r: Self)
        ensures
            r.id == id,
            r.effect@ == effect@,
            r.enabled,
            r.blend == BlendMode::Normal,
            r.label is None,
            !r.pinned,
    {
        StackRow {
            id,
            effect: effect.to_owned(),
            enabled: true,
            blend: BlendMode::Normal,
            label: None,
            pinned: false,
            look: L::default(),
        }
    }

    /// A fixed panel row, created with the document.
    pub fn pinned(id: RowId, effect: &str) -> (r: Self)
        ensures
            r.id == id,
            r.effect@ == effect@,
            r.enabled,
            r.blend == BlendMode::Normal,
            r.label is None,
            r.pinned,
    {
        let mut r = Self::new(id, effect);
        r.pinned = true;
        r
    }
}

/// `i` is the first position holding `id`.
pub open spec fn first_with_id<L>(rows: Seq<StackRow<L>>, id: RowId, i: int) -> bool {
    &&& 0 <= i < rows.len()
    &&& rows[i].id == id
    &&& forall|j: int| 0 <= j < i ==> rows[j].id != id
}

/// No row holds `id`.
pub open spec fn lacks_id<L>(rows: Seq<StackRow<L>>, id: RowId) -> bool {
    forall|j: int| 0 <= j < rows.len() ==> rows[j].id != id
}

/// How many pinned rows sit at the head of `rows`: the length of the longest
/// prefix of pinned rows.
pub open spec fn is_pinned_prefix<L>(rows: Seq<StackRow<L>>, n: int) -> bool {
    &&& 0 <= n <= rows.len()
    &&& forall|j: int| 0 <= j < n ==> rows[j].pinned
    &&& n < rows.len() ==> !rows[n].pinned
}

/// The position a row is moved to by [`Stack::reorder`]: the requested index
/// clamped between the pinned rows and the last row.
pub open spec fn clamp_target(to: int, floor: int, len: int) -> int {
    let hi = if len >= 1 { len - 1 } else { 0 };
    if to < floor {
        floor
    } else if to > hi {
        hi
    } else {
        to
    }
}

/// The ordered list of rows.
#[derive(Clone, Debug, PartialEq)]
pub struct Stack<L> {
    pub rows: Vec<StackRow<L>>,
}

impl<L> Stack<L> {
    /// An empty stack.
    pub fn new() -> (s: Self)
        ensures
            s.rows@.len() == 0,
    {
        Stack { rows: Vec::new() }
    }

    pub fn len(&self) -> (r: usize)
        ensures
            r == self.rows@.len(),
    {
        self.rows.len()
    }

    pub fn is_empty(&self) -> (r: bool)
        ensures
            r == (self.rows@.len() == 0),
    {
        self.rows.len() == 0
    }

    /// Add a row to the end. Ids must be unique: a duplicate would resolve to
    /// whichever row came first and leave the other untouchable.
    pub fn push(&mut self, row: StackRow<L>)
        requires
            lacks_id(old(self).rows@, row.id),
        ensures
            final(self).rows@ == old(self).rows@.push(row),
    {
        self.rows.push(row);
    }

    /// How many pinned rows sit at the head of the stack. User rows begin
    /// here, and reordering is confined to that range.
    pub fn pinned_count(&self) -> (r: usize)
        ensures
            is_pinned_prefix(self.rows@, r as int),
    {
        let mut i: usize = 0;
        while i < self.rows.len() && self.rows[i].pinned
            invariant
                i <= self.rows@.len(),
                forall|j: int| 0 <= j < i ==> self.rows@[j].pinned,
            decreases self.rows@.len() - i,
        {
            i = i + 1;
        }
        i
    }

    /// Insert a row at `index`, or at the end if `index` is past it.
    pub fn insert(&mut self, index: usize, row: StackRow<L>)
        ensures
            final(self).rows@ == old(self).rows@.insert(
                if index <= old(self).rows@.len() { index as int } else { old(self).rows@.len() as int },
                row,
            ),
    {
        let at = if index <= self.rows.len() { index } else { self.rows.len() };
        self.rows.insert(at, row);
    }

    /// Position of the first row holding `id`.
    pub fn index_of(&self, id: RowId) -> (r: Option<usize>)
        ensures
            match r {
                Some(i) => first_with_id(self.rows@, id, i as int),
                None => lacks_id(self.rows@, id),
            },
    {
        let mut i: usize = 0;
        while i < self.rows.len()
            invariant
                i <= self.rows@.len(),
                forall|j: int| 0 <= j < i ==> self.rows@[j].id != id,
            decreases self.rows@.len() - i,
        {
            if self.rows[i].id == id {
                return Some(i);
            }
            i = i + 1;
        }
        None
    }

    /// The first row running a given effect: how a fixed panel finds the row
    /// it drives.
    pub fn find_by_effect(&self, effect: &str) -> (r: Option<RowId>)
        ensures
            match r {
                Some(id) => exists|i: int|
                    0 <= i < self.rows@.len() && self.rows@[i].effect@ == effect@ && self.rows@[i].id
                        == id && forall|j: int| 0 <= j < i ==> self.rows@[j].effect@ != effect@,
                None => forall|j: int| 0 <= j < self.rows@.len() ==> self.rows@[j].effect@ != effect@,
            },
    {
        let mut i: usize = 0;
        while i < self.rows.len()
            invariant
                i <= self.rows@.len(),
                forall|j: int| 0 <= j < i ==> self.rows@[j].effect@ != effect@,
            decreases self.rows@.len() - i,
        {
            if str_eq(self.rows[i].effect.as_str(), effect) {
                return Some(self.rows[i].id);
            }
            i = i + 1;
        }
        None
    }

    /// The first row holding `id`.
    pub fn get(&self, id: RowId) -> (r: Option<&StackRow<L>>)
        ensures
            match r {
                Some(row) => exists|i: int| first_with_id(self.rows@, id, i) && *row == self.rows@[i],
                None => lacks_id(self.rows@, id),
            },
    {
        match self.index_of(id) {
            Some(i) => Some(&self.rows[i]),
            None => None,
        }
    }

    /// The first row holding `id`, for changing it in place.
    pub fn get_mut(&mut self, id: RowId) -> (r: Option<&mut StackRow<L>>)
        ensures
            match r {
                Some(row) => exists|i: int|
                    first_with_id(old(self).rows@, id, i) && *row == old(self).rows@[i]
                        && final(self).rows@ == old(self).rows@.update(i, *final(row)),
                None => lacks_id(old(self).rows@, id) && *final(self) == *old(self),
            },
    {
        match self.index_of(id) {
            Some(i) => Some(&mut self.rows[i]),
            None => None,
        }
    }

    /// Remove a row. Pinned rows refuse: they are panels, not entries.
    pub fn remove(&mut self, id: RowId) -> (r: Option<StackRow<L>>)
        ensures
            match r {
                Some(row) => exists|i: int|
                    first_with_id(old(self).rows@, id, i) && !old(self).rows@[i].pinned && row
                        == old(self).rows@[i] && final(self).rows@ == old(self).rows@.remove(i),
                None => final(self).rows@ == old(self).rows@ && (lacks_id(old(self).rows@, id)
                    || exists|i: int| first_with_id(old(self).rows@, id, i) && old(self).rows@[i].pinned),
            },
    {
        let i = match self.index_of(id) {
            Some(i) => i,
            None => return None,
        };
        if self.rows[i].pinned {
            return None;
        }
        Some(self.rows.remove(i))
    }

    /// Move a row. Pinned rows do not move, and user rows cannot be dragged
    /// above them. Returns the earliest index whose rendered output is now
    /// invalid.
    pub fn reorder(&mut self, id: RowId, to: usize) -> (r: Option<usize>)
        ensures
            match r {
                None => lacks_id(old(self).rows@, id) && final(self).rows@ == old(self).rows@,
                Some(d) => exists|from: int|
                    #![trigger first_with_id(old(self).rows@, id, from)]
                    first_with_id(old(self).rows@, id, from) && {
                        let rows = old(self).rows@;
                        if rows[from].pinned {
                            d == from && final(self).rows@ == rows
                        } else {
                            exists|floor: int|
                                is_pinned_prefix(rows, floor) && {
                                    let t = clamp_target(to as int, floor, rows.len() as int);
                                    &&& d == if from <= t { from } else { t }
                                    &&& final(self).rows@ == rows.remove(from).insert(t, rows[from])
                                }
                        }
                    },
            },
    {
        let from = match self.index_of(id) {
            Some(i) => i,
            None => return None,
        };
        if self.rows[from].pinned {
            return Some(from);
        }
        let floor = self.pinned_count();
        let hi = if self.rows.len() >= 1 { self.rows.len() - 1 } else { 0 };
        assert(floor <= hi) by {
            assert(!self.rows@[from as int].pinned);
        }
        let to = if to < floor { floor } else if to > hi { hi } else { to };
        if from == to {
            proof {
                let rows = old(self).rows@;
                assert(rows.remove(from as int).insert(to as int, rows[from as int]) =~= rows);
            }
            return Some(from);
        }
        let row = self.rows.remove(from);
        self.rows.insert(to, row);
        Some(if from <= to { from } else { to })
    }
}

/// No user row stands before a pinned one: the fixed panels occupy the head
/// of the stack.
pub open spec fn pinned_at_head<L>(rows: Seq<StackRow<L>>) -> bool {
    forall|i: int, j: int| 0 <= i < j < rows.len() && #[trigger] rows[j].pinned ==> #[trigger] rows[i].pinned
}

/// Reordering a user row keeps the fixed panels at the head, each where it
/// was, and keeps every row: the stack after the move holds exactly the rows
/// it held before.
pub proof fn lemma_reordering_keeps_the_panels_and_the_rows<L>(
    rows: Seq<StackRow<L>>,
    from: int,
    to: int,
    floor: int,
)
    requires
        pinned_at_head(rows),
        is_pinned_prefix(rows, floor),
        0 <= from < rows.len(),
        !rows[from].pinned,
    ensures
        ({
            let after = rows.remove(from).insert(clamp_target(to, floor, rows.len() as int), rows[from]);
            &&& after.len() == rows.len()
            &&& pinned_at_head(after)
            &&& forall|i: int| 0 <= i < floor ==> after[i] == rows[i]
            &&& forall|k: int| 0 <= k < rows.len() ==> after.contains(#[trigger] rows[k])
            &&& forall|k: int| 0 <= k < after.len() ==> rows.contains(#[trigger] after[k])
        }),
{
    let n = rows.len() as int;
    let t = clamp_target(to, floor, n);
    let rest = rows.remove(from);
    let after = rest.insert(t, rows[from]);
    assert(floor <= from);
    assert(floor <= t < n);
    assert forall|k: int| 0 <= k < n implies after.contains(#[trigger] rows[k]) by {
        if k == from {
            assert(after[t] == rows[k]);
        } else {
            let r = if k < from { k } else { k - 1 };
            assert(rest[r] == rows[k]);
            if r < t {
                assert(after[r] == rows[k]);
            } else {
                assert(after[r + 1] == rows[k]);
            }
        }
    }
    assert forall|k: int| 0 <= k < n implies rows.contains(#[trigger] after[k]) by {
        if k == t {
            assert(rows[from] == after[k]);
        } else {
            let r = if k < t { k } else { k - 1 };
            if r < from {
                assert(rows[r] == after[k]);
            } else {
                assert(rows[r + 1] == after[k]);
            }
        }
    }
    assert forall|i: int, j: int| 0 <= i < j < n && #[trigger] after[j].pinned implies #[trigger] after[i].pinned by {
        let rj = if j == t { from } else if j < t { if j < from { j } else { j + 1 } } else { if j - 1 < from { j - 1 } else { j } };
        assert(after[j] == rows[rj]);
        assert(rj < floor);
        assert(i < floor);
        assert(after[i] == rows[i]);
    }
}

/// Removing a user row keeps the fixed panels at the head, each where it
/// was.
pub proof fn lemma_removing_keeps_the_panels<L>(rows: Seq<StackRow<L>>, i: int, floor: int)
    requires
        pinned_at_head(rows),
        is_pinned_prefix(rows, floor),
        0 <= i < rows.len(),
        !rows[i].pinned,
    ensures
        pinned_at_head(rows.remove(i)),
        forall|k: int| 0 <= k < floor ==> rows.remove(i)[k] == rows[k],
{
    let after = rows.remove(i);
    assert(floor <= i);
    assert forall|a: int, b: int| 0 <= a < b < after.len() && #[trigger] after[b].pinned implies #[trigger] after[a].pinned by {
        let rb = if b < i { b } else { b + 1 };
        assert(after[b] == rows[rb]);
        assert(rb < floor);
        assert(after[a] == rows[a]);
    }
}

} // verus!
