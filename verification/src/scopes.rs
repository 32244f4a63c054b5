//! The measurements a session hands across the C boundary: which one was
//! asked for, what shape it is, and the counts themselves, laid end to end.
//!
//! Every scope crosses as `planes * height * width` counts, row-major, and
//! the plane order is part of the contract because the drawing depends on
//! it: red, green, blue, luma for a histogram and a waveform; hue, then
//! saturation, for a colour spread; a single plane for the rest.

use vstd::prelude::*;

verus! {

/// Bins in a histogram or a colour spread.
pub const BINS: u32 = 256;

/// Levels across one waveform row.
pub const LEVELS: u32 = 256;

/// Side of the vectorscope's square.
pub const VECTOR_SIZE: u32 = 256;

/// Side of each of the Colour Warper's square grids.
pub const GRID: u32 = 128;

/// Which measurement to read. The numbering given by [`PeScope::number`] is
/// part of the C interface: new scopes go at the end.
#[derive(Clone, Copy, Debug, PartialEq, Eq, Structural)]
pub enum PeScope {
    /// Four planes, red, green, blue and luma, of 256 levels, one row each.
    Histogram,
    /// The same frame binned in the curve's own domain. Same four planes.
    LogHistogram,
    /// Hue and saturation spread: two planes, hue then saturation, of 256
    /// bins, one row each.
    ColourSpread,
    /// Four planes, red, green, blue and luma, of one row per image column,
    /// each row 256 levels wide.
    Waveform,
    /// One plane, 256 by 256.
    Vectorscope,
    /// The Colour Warper's chromaticity cloud: one plane, 128 by 128.
    WarperChromaticity,
    /// The Colour Warper's hue/saturation cloud: one plane, 128 by 128.
    WarperHueSat,
    /// The Colour Warper's chroma/luma cloud: one plane, 128 by 128.
    WarperChromaLuma,
}

/// The number each scope goes by across the C boundary.
pub open spec fn scope_number(kind: PeScope) -> u32 {
    match kind {
        PeScope::Histogram => 0,
        PeScope::LogHistogram => 1,
        PeScope::ColourSpread => 2,
        PeScope::Waveform => 3,
        PeScope::Vectorscope => 4,
        PeScope::WarperChromaticity => 5,
        PeScope::WarperHueSat => 6,
        PeScope::WarperChromaLuma => 7,
    }
}

impl PeScope {
    /// Every scope, in the order of its number.
    pub const ALL: [PeScope; 8] = [
        PeScope::Histogram,
        PeScope::LogHistogram,
        PeScope::ColourSpread,
        PeScope::Waveform,
        PeScope::Vectorscope,
        PeScope::WarperChromaticity,
        PeScope::WarperHueSat,
        PeScope::WarperChromaLuma,
    ];

    /// The number this scope goes by across the C boundary.
    pub fn number(self) -> (n: u32)
        ensures
            n == scope_number(self),
    {
        match self {
            PeScope::Histogram => 0,
            PeScope::LogHistogram => 1,
            PeScope::ColourSpread => 2,
            PeScope::Waveform => 3,
            PeScope::Vectorscope => 4,
            PeScope::WarperChromaticity => 5,
            PeScope::WarperHueSat => 6,
            PeScope::WarperChromaLuma => 7,
        }
    }

    /// The scope a number stands for, if any does.
    pub fn from_number(n: u32) -> (r: Option<PeScope>)
        ensures
            match r {
                Some(kind) => scope_number(kind) == n,
                None => n > 7,
            },
    {
        match n {
            0 => Some(PeScope::Histogram),
            1 => Some(PeScope::LogHistogram),
            2 => Some(PeScope::ColourSpread),
            3 => Some(PeScope::Waveform),
            4 => Some(PeScope::Vectorscope),
            5 => Some(PeScope::WarperChromaticity),
            6 => Some(PeScope::WarperHueSat),
            7 => Some(PeScope::WarperChromaLuma),
            _ => None,
        }
    }
}

/// Numbering a scope and reading the number back gives the same scope, and
/// no two scopes share a number.
pub proof fn lemma_scope_numbers_round_trip(kind: PeScope, other: PeScope)
    ensures
        scope_number(kind) <= 7,
        scope_number(kind) == scope_number(other) ==> kind == other,
{
}

/// A red, green, blue and luma histogram, and how many pixels went into it.
pub struct Histogram {
    pub red: Vec<u32>,
    pub green: Vec<u32>,
    pub blue: Vec<u32>,
    pub luma: Vec<u32>,
    pub total: u32,
}

/// A hue and saturation spread, and how many pixels went into it.
pub struct ColourSpread {
    pub hue: Vec<u32>,
    pub saturation: Vec<u32>,
    pub total: u32,
}

/// A waveform: for each channel, one row of levels per image column.
pub struct Waveform {
    pub red: Vec<u32>,
    pub green: Vec<u32>,
    pub blue: Vec<u32>,
    pub luma: Vec<u32>,
    /// Image columns, one row of the plane each.
    pub columns: u32,
    /// Image rows that fed each column.
    pub rows: u32,
}

/// A vectorscope's square of counts, and how many pixels went into it.
pub struct Vectorscope {
    pub bins: Vec<u32>,
    pub total: u32,
}

/// The Colour Warper's three grids.
pub struct WarperClouds {
    pub chromaticity: Vec<u32>,
    pub hue_sat: Vec<u32>,
    pub chroma_luma: Vec<u32>,
}

/// Everything one measurement of a frame produced.
pub struct Scopes {
    pub histogram: Histogram,
    pub log_histogram: Histogram,
    pub colour: ColourSpread,
    pub waveform: Waveform,
    pub vectorscope: Vectorscope,
    pub warper: WarperClouds,
}

/// One measurement in the shape the C interface describes it: `planes`
/// slices of `height * width` counts, laid end to end. Borrowed rather than
/// copied, so that asking for the shape of a large waveform costs nothing
/// until the counts are asked for.
pub struct ScopeView<'a> {
    /// In the order [`PeScope`] documents.
    pub planes: Vec<&'a [u32]>,
    /// Row length, the fastest-moving axis.
    pub width: u32,
    /// Rows per plane.
    pub height: u32,
    /// What the counts are read against: the pixels measured, except for a
    /// waveform, where it is how many image rows fed each column.
    pub total: u32,
}

/// The planes laid end to end.
pub open spec fn flat(planes: Seq<&[u32]>) -> Seq<u32>
    decreases planes.len(),
{
    if planes.len() == 0 {
        Seq::empty()
    } else {
        flat(planes.drop_last()) + planes.last()@
    }
}

/// `p` is the largest count in `s`, or 0 when there is none.
pub open spec fn is_peak(s: Seq<u32>, p: u32) -> bool {
    &&& forall|i: int| 0 <= i < s.len() ==> s[i] <= p
    &&& s.len() == 0 ==> p == 0
    &&& s.len() > 0 ==> exists|i: int| 0 <= i < s.len() && s[i] == p
}

proof fn lemma_flat_step(planes: Seq<&[u32]>, i: int)
    requires
        0 <= i < planes.len(),
    ensures
        flat(planes.subrange(0, i + 1)) == flat(planes.subrange(0, i)) + planes[i]@,
{
    assert(planes.subrange(0, i + 1).drop_last() =~= planes.subrange(0, i));
}

impl<'a> ScopeView<'a> {
    /// How many counts there are in all.
    pub fn len(&self) -> (n: usize)
        requires
            flat(self.planes@).len() <= usize::MAX,
        ensures
            n == flat(self.planes@).len(),
    {
        let mut n: usize = 0;
        let mut i: usize = 0;
        while i < self.planes.len()
            invariant
                i <= self.planes@.len(),
                flat(self.planes@).len() <= usize::MAX,
                n == flat(self.planes@.subrange(0, i as int)).len(),
            decreases self.planes@.len() - i,
        {
            proof {
                lemma_flat_step(self.planes@, i as int);
                lemma_flat_prefix_len(self.planes@, i + 1);
            }
            n = n + self.planes[i].len();
            i = i + 1;
        }
        assert(self.planes@.subrange(0, i as int) =~= self.planes@);
        n
    }

    /// The largest count anywhere in the data, 0 when there is none.
    pub fn peak(&self) -> (p: u32)
        ensures
            is_peak(flat(self.planes@), p),
    {
        let mut best: u32 = 0;
        let mut i: usize = 0;
        while i < self.planes.len()
            invariant
                i <= self.planes@.len(),
                is_peak(flat(self.planes@.subrange(0, i as int)), best),
            decreases self.planes@.len() - i,
        {
            let plane = self.planes[i];
            let ghost before = flat(self.planes@.subrange(0, i as int));
            let mut j: usize = 0;
            while j < plane.len()
                invariant
                    j <= plane@.len(),
                    is_peak(before + plane@.subrange(0, j as int), best),
                decreases plane@.len() - j,
            {
                let ghost seen = before + plane@.subrange(0, j as int);
                let ghost next = before + plane@.subrange(0, j + 1);
                assert(next =~= seen.push(plane@[j as int]));
                if plane[j] > best {
                    best = plane[j];
                    assert(next[next.len() - 1] == best);
                } else {
                    proof {
                        if seen.len() == 0 {
                            assert(next[0] == plane@[j as int]);
                            assert(next[next.len() - 1] == best);
                        } else {
                            let w = choose|k: int| 0 <= k < seen.len() && seen[k] == best;
                            assert(next[w] == best);
                        }
                    }
                }
                j = j + 1;
            }
            proof {
                lemma_flat_step(self.planes@, i as int);
                assert(plane@.subrange(0, plane@.len() as int) =~= plane@);
            }
            i = i + 1;
        }
        assert(self.planes@.subrange(0, i as int) =~= self.planes@);
        best
    }
}

proof fn lemma_flat_prefix_len(planes: Seq<&[u32]>, i: int)
    requires
        0 <= i <= planes.len(),
    ensures
        flat(planes.subrange(0, i)).len() <= flat(planes).len(),
    decreases planes.len() - i,
{
    if i < planes.len() {
        lemma_flat_prefix_len(planes, i + 1);
        lemma_flat_step(planes, i);
    } else {
        assert(planes.subrange(0, i) =~= planes);
    }
}

/// The shape and planes of each scope, in terms of what was measured.
pub open spec fn view_of(sc: &Scopes, kind: PeScope, v: ScopeView) -> bool {
    match kind {
        PeScope::Histogram => histogram_view(&sc.histogram, v),
        PeScope::LogHistogram => histogram_view(&sc.log_histogram, v),
        PeScope::ColourSpread => v.planes@.len() == 2 && v.planes@[0]@ == sc.colour.hue@ && v.planes@[1]@
            == sc.colour.saturation@ && v.width == BINS && v.height == 1 && v.total == sc.colour.total,
        PeScope::Waveform => v.planes@.len() == 4 && v.planes@[0]@ == sc.waveform.red@ && v.planes@[1]@
            == sc.waveform.green@ && v.planes@[2]@ == sc.waveform.blue@ && v.planes@[3]@
            == sc.waveform.luma@ && v.width == LEVELS && v.height == sc.waveform.columns && v.total
            == sc.waveform.rows,
        PeScope::Vectorscope => v.planes@.len() == 1 && v.planes@[0]@ == sc.vectorscope.bins@ && v.width
            == VECTOR_SIZE && v.height == VECTOR_SIZE && v.total == sc.vectorscope.total,
        PeScope::WarperChromaticity => grid_view(sc.warper.chromaticity@, sc.histogram.total, v),
        PeScope::WarperHueSat => grid_view(sc.warper.hue_sat@, sc.histogram.total, v),
        PeScope::WarperChromaLuma => grid_view(sc.warper.chroma_luma@, sc.histogram.total, v),
    }
}

/// All the counts of one scope, its planes end to end in the documented
/// order.
pub open spec fn scope_counts(sc: &Scopes, kind: PeScope) -> Seq<u32> {
    match kind {
        PeScope::Histogram => sc.histogram.red@ + sc.histogram.green@ + sc.histogram.blue@ + sc.histogram.luma@,
        PeScope::LogHistogram => sc.log_histogram.red@ + sc.log_histogram.green@ + sc.log_histogram.blue@
            + sc.log_histogram.luma@,
        PeScope::ColourSpread => sc.colour.hue@ + sc.colour.saturation@,
        PeScope::Waveform => sc.waveform.red@ + sc.waveform.green@ + sc.waveform.blue@ + sc.waveform.luma@,
        PeScope::Vectorscope => sc.vectorscope.bins@,
        PeScope::WarperChromaticity => sc.warper.chromaticity@,
        PeScope::WarperHueSat => sc.warper.hue_sat@,
        PeScope::WarperChromaLuma => sc.warper.chroma_luma@,
    }
}

proof fn lemma_view_counts(sc: &Scopes, kind: PeScope, v: ScopeView)
    requires
        view_of(sc, kind, v),
    ensures
        flat(v.planes@) == scope_counts(sc, kind),
{
    let p = v.planes@;
    reveal_with_fuel(flat, 5);
    if p.len() == 1 {
        assert(p.drop_last().len() == 0);
        assert(flat(p) =~= scope_counts(sc, kind));
    } else if p.len() == 2 {
        assert(p.drop_last().drop_last().len() == 0);
        assert(flat(p) =~= scope_counts(sc, kind));
    } else {
        assert(p.drop_last().drop_last().drop_last().drop_last().len() == 0);
        assert(flat(p) =~= scope_counts(sc, kind));
    }
}

/// A waveform crosses the C boundary red, green, blue, luma: plane 0 of its
/// view is the red counts, plane 1 the green, plane 2 the blue and plane 3
/// the luma, and the counts copied out are the red plane's, then the
/// green's, then the blue's, then the luma's, each whole and in place.
pub proof fn lemma_waveform_is_red_green_blue_luma(sc: &Scopes, v: ScopeView)
    requires
        view_of(sc, PeScope::Waveform, v),
    ensures
        v.planes@[0]@ == sc.waveform.red@,
        v.planes@[1]@ == sc.waveform.green@,
        v.planes@[2]@ == sc.waveform.blue@,
        v.planes@[3]@ == sc.waveform.luma@,
        ({
            let w = &sc.waveform;
            let c = scope_counts(sc, PeScope::Waveform);
            let (r, g, b) = (w.red@.len() as int, w.green@.len() as int, w.blue@.len() as int);
            &&& c.len() == r + g + b + w.luma@.len()
            &&& c.subrange(0, r) == w.red@
            &&& c.subrange(r, r + g) == w.green@
            &&& c.subrange(r + g, r + g + b) == w.blue@
            &&& c.subrange(r + g + b, c.len() as int) == w.luma@
        }),
{
    let w = &sc.waveform;
    let c = scope_counts(sc, PeScope::Waveform);
    let (r, g, b) = (w.red@.len() as int, w.green@.len() as int, w.blue@.len() as int);
    assert(c.subrange(0, r) =~= w.red@);
    assert(c.subrange(r, r + g) =~= w.green@);
    assert(c.subrange(r + g, r + g + b) =~= w.blue@);
    assert(c.subrange(r + g + b, c.len() as int) =~= w.luma@);
}

/// A histogram, plain or logarithmic, crosses the C boundary red, green,
/// blue, luma: the planes of its view, and the runs of counts copied out, are
/// the red, green, blue and luma counts in that order.
pub proof fn lemma_histogram_is_red_green_blue_luma(sc: &Scopes, log: bool, v: ScopeView)
    requires
        view_of(sc, if log { PeScope::LogHistogram } else { PeScope::Histogram }, v),
    ensures
        ({
            let h = if log { &sc.log_histogram } else { &sc.histogram };
            let c = scope_counts(sc, if log { PeScope::LogHistogram } else { PeScope::Histogram });
            let (r, g, b) = (h.red@.len() as int, h.green@.len() as int, h.blue@.len() as int);
            &&& v.planes@[0]@ == h.red@ && v.planes@[1]@ == h.green@
            &&& v.planes@[2]@ == h.blue@ && v.planes@[3]@ == h.luma@
            &&& c.len() == r + g + b + h.luma@.len()
            &&& c.subrange(0, r) == h.red@
            &&& c.subrange(r, r + g) == h.green@
            &&& c.subrange(r + g, r + g + b) == h.blue@
            &&& c.subrange(r + g + b, c.len() as int) == h.luma@
        }),
{
    let h = if log { &sc.log_histogram } else { &sc.histogram };
    let c = scope_counts(sc, if log { PeScope::LogHistogram } else { PeScope::Histogram });
    let (r, g, b) = (h.red@.len() as int, h.green@.len() as int, h.blue@.len() as int);
    assert(c.subrange(0, r) =~= h.red@);
    assert(c.subrange(r, r + g) =~= h.green@);
    assert(c.subrange(r + g, r + g + b) =~= h.blue@);
    assert(c.subrange(r + g + b, c.len() as int) =~= h.luma@);
}

/// The colour spread crosses the C boundary hue first, then saturation,
/// and each warper scope hands over its own grid, read against the number of
/// pixels the histogram counted.
pub proof fn lemma_spread_and_grids_are_their_own(sc: &Scopes, kind: PeScope, v: ScopeView)
    requires
        view_of(sc, kind, v),
    ensures
        kind == PeScope::ColourSpread ==> {
            &&& v.planes@[0]@ == sc.colour.hue@ && v.planes@[1]@ == sc.colour.saturation@
            &&& scope_counts(sc, kind).subrange(0, sc.colour.hue@.len() as int) == sc.colour.hue@
            &&& scope_counts(sc, kind).subrange(sc.colour.hue@.len() as int, scope_counts(sc, kind).len() as int)
                == sc.colour.saturation@
        },
        kind == PeScope::WarperChromaticity ==> v.planes@[0]@ == sc.warper.chromaticity@ && scope_counts(sc, kind)
            == sc.warper.chromaticity@ && v.total == sc.histogram.total,
        kind == PeScope::WarperHueSat ==> v.planes@[0]@ == sc.warper.hue_sat@ && scope_counts(sc, kind)
            == sc.warper.hue_sat@ && v.total == sc.histogram.total,
        kind == PeScope::WarperChromaLuma ==> v.planes@[0]@ == sc.warper.chroma_luma@ && scope_counts(sc, kind)
            == sc.warper.chroma_luma@ && v.total == sc.histogram.total,
        kind == PeScope::Vectorscope ==> v.planes@[0]@ == sc.vectorscope.bins@ && scope_counts(sc, kind)
            == sc.vectorscope.bins@,
{
    if kind == PeScope::ColourSpread {
        let c = scope_counts(sc, kind);
        assert(c.subrange(0, sc.colour.hue@.len() as int) =~= sc.colour.hue@);
        assert(c.subrange(sc.colour.hue@.len() as int, c.len() as int) =~= sc.colour.saturation@);
    }
}

/// A histogram's four planes, one row of [`BINS`] each, read against its
/// own pixel count.
pub open spec fn histogram_view(h: &Histogram, v: ScopeView) -> bool {
    &&& v.planes@.len() == 4
    &&& v.planes@[0]@ == h.red@
    &&& v.planes@[1]@ == h.green@
    &&& v.planes@[2]@ == h.blue@
    &&& v.planes@[3]@ == h.luma@
    &&& v.width == BINS
    &&& v.height == 1
    &&& v.total == h.total
}

/// A warper grid: one square plane of [`GRID`] a side. A grid holds no
/// count of its own (black has no chromaticity and is never binned), so it
/// is read against the histogram's, which counts every pixel.
pub open spec fn grid_view(g: Seq<u32>, total: u32, v: ScopeView) -> bool {
    &&& v.planes@.len() == 1
    &&& v.planes@[0]@ == g
    &&& v.width == GRID
    &&& v.height == GRID
    &&& v.total == total
}

fn histogram_planes(h: &Histogram) -> (v: ScopeView<'_>)
    ensures
        histogram_view(h, v),
{
    ScopeView {
        planes: vec![h.red.as_slice(), h.green.as_slice(), h.blue.as_slice(), h.luma.as_slice()],
        width: BINS,
        height: 1,
        total: h.total,
    }
}

fn grid_planes(g: &Vec<u32>, total: u32) -> (v: ScopeView<'_>)
    ensures
        grid_view(g@, total, v),
{
    ScopeView { planes: vec![g.as_slice()], width: GRID, height: GRID, total }
}

/// The view of one scope of a measurement.
pub fn scope_view(sc: &Scopes, kind: PeScope) -> (v: ScopeView<'_>)
    ensures
        view_of(sc, kind, v),
{
    match kind {
        PeScope::Histogram => histogram_planes(&sc.histogram),
        PeScope::LogHistogram => histogram_planes(&sc.log_histogram),
        PeScope::ColourSpread => ScopeView {
            planes: vec![sc.colour.hue.as_slice(), sc.colour.saturation.as_slice()],
            width: BINS,
            height: 1,
            total: sc.colour.total,
        },
        PeScope::Waveform => ScopeView {
            planes: vec![
                sc.waveform.red.as_slice(),
                sc.waveform.green.as_slice(),
                sc.waveform.blue.as_slice(),
                sc.waveform.luma.as_slice(),
            ],
            width: LEVELS,
            height: sc.waveform.columns,
            total: sc.waveform.rows,
        },
        PeScope::Vectorscope => ScopeView {
            planes: vec![sc.vectorscope.bins.as_slice()],
            width: VECTOR_SIZE,
            height: VECTOR_SIZE,
            total: sc.vectorscope.total,
        },
        PeScope::WarperChromaticity => grid_planes(&sc.warper.chromaticity, sc.histogram.total),
        PeScope::WarperHueSat => grid_planes(&sc.warper.hue_sat, sc.histogram.total),
        PeScope::WarperChromaLuma => grid_planes(&sc.warper.chroma_luma, sc.histogram.total),
    }
}

/// Nothing has been measured yet, or an edit threw the measurement away.
pub const NOTHING_MEASURED: i32 = -1;

/// The caller's buffer is smaller than the scope.
pub const BUFFER_TOO_SMALL: i32 = -2;

/// Copy a scope's counts, all its planes end to end, after what `out`
/// already holds, into room for `capacity` of them. Returns how many were
/// written; [`NOTHING_MEASURED`] with no measurement; [`BUFFER_TOO_SMALL`],
/// copying nothing, when `capacity` is short of the scope. Short rather than
/// truncated, because a half-copied waveform draws a plausible picture of a
/// frame that does not exist.
pub fn scope_data(measured: Option<&Scopes>, kind: PeScope, out: &mut Vec<u32>, capacity: u32) -> (r: i32)
    ensures
        match measured {
            None => r == NOTHING_MEASURED && final(out)@ == old(out)@,
            Some(sc) => if scope_counts(sc, kind).len() > capacity {
                r == BUFFER_TOO_SMALL && final(out)@ == old(out)@
            } else {
                r == scope_counts(sc, kind).len() as i32 && final(out)@ == old(out)@ + scope_counts(sc, kind)
            },
        },
{
    let sc = match measured {
        None => return NOTHING_MEASURED,
        Some(sc) => sc,
    };
    let view = scope_view(sc, kind);
    proof {
        lemma_view_counts(sc, kind, view);
    }
    let mut wanted: usize = 0;
    let mut i: usize = 0;
    while i < view.planes.len()
        invariant
            i <= view.planes@.len(),
            wanted == flat(view.planes@.subrange(0, i as int)).len(),
            wanted <= capacity,
            measured == Some(sc),
            flat(view.planes@) == scope_counts(sc, kind),
        decreases view.planes@.len() - i,
    {
        proof {
            lemma_flat_step(view.planes@, i as int);
        }
        let plane_len = view.planes[i].len();
        if plane_len > capacity as usize - wanted {
            proof {
                lemma_flat_prefix_len(view.planes@, i + 1);
            }
            return BUFFER_TOO_SMALL;
        }
        wanted = wanted + plane_len;
        i = i + 1;
    }
    assert(view.planes@.subrange(0, i as int) =~= view.planes@);
    let ghost start = out@;
    let mut i: usize = 0;
    while i < view.planes.len()
        invariant
            i <= view.planes@.len(),
            out@ == start + flat(view.planes@.subrange(0, i as int)),
        decreases view.planes@.len() - i,
    {
        proof {
            lemma_flat_step(view.planes@, i as int);
        }
        let plane = view.planes[i];
        let mut j: usize = 0;
        let ghost here = out@;
        while j < plane.len()
            invariant
                j <= plane@.len(),
                out@ == here + plane@.subrange(0, j as int),
            decreases plane@.len() - j,
        {
            out.push(plane[j]);
            j = j + 1;
            assert(out@ =~= here + plane@.subrange(0, j as int));
        }
        assert(plane@.subrange(0, plane@.len() as int) =~= plane@);
        assert(out@ =~= start + flat(view.planes@.subrange(0, i + 1)));
        i = i + 1;
    }
    assert(view.planes@.subrange(0, i as int) =~= view.planes@);
    #[verifier::truncate]
    (wanted as i32)
}

/// How big a scope is and what to divide its counts by.
#[derive(Clone, Copy, Debug, PartialEq, Eq)]
pub struct ScopeShape {
    pub planes: u32,
    pub width: u32,
    pub height: u32,
    pub total: u32,
    /// The largest count in the data.
    pub peak: u32,
}

/// The shape of one scope of a measurement, `None` with nothing measured.
pub fn scope_shape(measured: Option<&Scopes>, kind: PeScope) -> (r: Option<ScopeShape>)
    ensures
        match measured {
            None => r is None,
            Some(sc) => r matches Some(shape) && exists|v: ScopeView|
                view_of(sc, kind, v) && shape.planes == v.planes@.len() && shape.width == v.width
                    && shape.height == v.height && shape.total == v.total && is_peak(
                    scope_counts(sc, kind),
                    shape.peak,
                ),
        },
{
    let sc = match measured {
        None => return None,
        Some(sc) => sc,
    };
    let view = scope_view(sc, kind);
    proof {
        lemma_view_counts(sc, kind, view);
    }
    let peak = view.peak();
    Some(ScopeShape {
        planes: view.planes.len() as u32,
        width: view.width,
        height: view.height,
        total: view.total,
        peak,
    })
}

/// A measurement whose every plane is the size its scope says: histograms
/// and spreads [`BINS`] long, each waveform plane a row of [`LEVELS`] per
/// column, the vectorscope and the warper grids square.
pub open spec fn well_formed(sc: &Scopes) -> bool {
    &&& sc.histogram.red@.len() == BINS && sc.histogram.green@.len() == BINS && sc.histogram.blue@.len()
        == BINS && sc.histogram.luma@.len() == BINS
    &&& sc.log_histogram.red@.len() == BINS && sc.log_histogram.green@.len() == BINS
        && sc.log_histogram.blue@.len() == BINS && sc.log_histogram.luma@.len() == BINS
    &&& sc.colour.hue@.len() == BINS && sc.colour.saturation@.len() == BINS
    &&& sc.waveform.red@.len() == sc.waveform.columns * LEVELS && sc.waveform.green@.len()
        == sc.waveform.columns * LEVELS && sc.waveform.blue@.len() == sc.waveform.columns * LEVELS
        && sc.waveform.luma@.len() == sc.waveform.columns * LEVELS
    &&& sc.vectorscope.bins@.len() == VECTOR_SIZE * VECTOR_SIZE
    &&& sc.warper.chromaticity@.len() == GRID * GRID && sc.warper.hue_sat@.len() == GRID * GRID
        && sc.warper.chroma_luma@.len() == GRID * GRID
}

/// Every scope of a well-formed measurement holds exactly
/// `planes * height * width` counts: the shape it reports is the size of
/// what it copies.
pub proof fn lemma_shape_matches_counts(sc: &Scopes, kind: PeScope, v: ScopeView)
    requires
        well_formed(sc),
        view_of(sc, kind, v),
    ensures
        scope_counts(sc, kind).len() == v.planes@.len() * v.height * v.width,
{
    let c = sc.waveform.columns as int;
    match kind {
        PeScope::Waveform => {
            assert(v.planes@.len() * v.height * v.width == 4 * (c * 256)) by (nonlinear_arith)
                requires
                    v.planes@.len() == 4,
                    v.height == c,
                    v.width == 256,
            ;
        },
        _ => {},
    }
}

} // verus!
