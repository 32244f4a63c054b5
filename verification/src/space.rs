//! The colour spaces the colour-management panel offers, by name, and the
//! two working spaces every effect chooses between.
//!
//! A space here is an identity: which gamut and transfer function it stands
//! for is colour science, done in floating point beside this crate. What is
//! decided here is which space a name refers to and which one a setting
//! falls back on.

use vstd::prelude::*;
use crate::text::{eq_ignore_ascii_case, eq_ignoring_ascii_case, lower_spec};

verus! {

/// One of the colour spaces the colour-management panel can offer.
#[derive(Clone, Copy, Debug, PartialEq, Eq, Structural)]
pub enum SpaceId {
    /// Display-referred sRGB. What almost every JPEG on disk is.
    Srgb,
    /// sRGB gamut, linear light.
    LinearSrgb,
    DisplayP3,
    Rec2020,
    /// ACES2065-1, the archival interchange space.
    Aces2065,
    /// The working linear space.
    AcesCg,
    /// The working log space.
    AcesCct,
}

/// Every space, in the order the panel lists them.
pub open spec fn all_spaces() -> Seq<SpaceId> {
    seq![
        SpaceId::Srgb,
        SpaceId::LinearSrgb,
        SpaceId::DisplayP3,
        SpaceId::Rec2020,
        SpaceId::Aces2065,
        SpaceId::AcesCg,
        SpaceId::AcesCct,
    ]
}

/// The display name of each space.
pub open spec fn space_name(s: SpaceId) -> Seq<char> {
    match s {
        SpaceId::Srgb => "sRGB"@,
        SpaceId::LinearSrgb => "Linear sRGB"@,
        SpaceId::DisplayP3 => "Display P3"@,
        SpaceId::Rec2020 => "Rec.2020"@,
        SpaceId::Aces2065 => "ACES2065-1"@,
        SpaceId::AcesCg => "ACEScg"@,
        SpaceId::AcesCct => "ACEScct"@,
    }
}

/// The first space in [`all_spaces`] whose name matches `name` ignoring ASCII
/// case, if any.
pub open spec fn lookup(name: Seq<char>) -> Option<SpaceId> {
    lookup_from(name, 0)
}

pub open spec fn lookup_from(name: Seq<char>, i: nat) -> Option<SpaceId>
    decreases 7 - i,
{
    if i >= 7 {
        None
    } else if eq_ignoring_ascii_case(space_name(all_spaces()[i as int]), name) {
        Some(all_spaces()[i as int])
    } else {
        lookup_from(name, i + 1)
    }
}

proof fn lemma_lookup_from_ignores_case(a: Seq<char>, b: Seq<char>, i: nat)
    requires
        eq_ignoring_ascii_case(a, b),
    ensures
        lookup_from(a, i) == lookup_from(b, i),
    decreases 7 - i,
{
    if i < 7 {
        let n = space_name(all_spaces()[i as int]);
        if eq_ignoring_ascii_case(n, a) {
            assert(eq_ignoring_ascii_case(n, b));
        } else if eq_ignoring_ascii_case(n, b) {
            assert(forall|k: int| 0 <= k < n.len() ==> lower_spec(n[k]) == lower_spec(b[k]) && lower_spec(b[k])
                == lower_spec(a[k]));
            assert(eq_ignoring_ascii_case(n, a));
        }
        lemma_lookup_from_ignores_case(a, b, i + 1);
    }
}

/// Looking a space up ignores ASCII case: two names that differ only in the
/// case of their letters find the same space, or both find none.
pub proof fn lemma_lookup_ignores_case(a: Seq<char>, b: Seq<char>)
    requires
        eq_ignoring_ascii_case(a, b),
    ensures
        lookup(a) == lookup(b),
{
    lemma_lookup_from_ignores_case(a, b, 0);
}

/// Every space is found by its own name.
pub proof fn lemma_every_named_space_is_findable(s: SpaceId)
    ensures
        lookup(space_name(s)) == Some(s),
{
    reveal_strlit("sRGB");
    reveal_strlit("Linear sRGB");
    reveal_strlit("Display P3");
    reveal_strlit("Rec.2020");
    reveal_strlit("ACES2065-1");
    reveal_strlit("ACEScg");
    reveal_strlit("ACEScct");
    reveal_with_fuel(lookup_from, 8);
    let n = space_name(s);
    assert(eq_ignoring_ascii_case(n, n));
    if s == SpaceId::Aces2065 {
        assert(lower_spec(space_name(SpaceId::DisplayP3)[0]) != lower_spec(n[0]));
    }
    if s == SpaceId::DisplayP3 {
        assert(lower_spec(space_name(SpaceId::Aces2065)[0]) != lower_spec(n[0]));
    }
}

impl SpaceId {
    pub const ALL: [SpaceId; 7] = [
        SpaceId::Srgb,
        SpaceId::LinearSrgb,
        SpaceId::DisplayP3,
        SpaceId::Rec2020,
        SpaceId::Aces2065,
        SpaceId::AcesCg,
        SpaceId::AcesCct,
    ];

    /// The name documents store and the panel shows.
    pub fn name(self) -> (r: &'static str)
        ensures
            r@ == space_name(self),
    {
        match self {
            SpaceId::Srgb => "sRGB",
            SpaceId::LinearSrgb => "Linear sRGB",
            SpaceId::DisplayP3 => "Display P3",
            SpaceId::Rec2020 => "Rec.2020",
            SpaceId::Aces2065 => "ACES2065-1",
            SpaceId::AcesCg => "ACEScg",
            SpaceId::AcesCct => "ACEScct",
        }
    }

    fn at(i: usize) -> (r: SpaceId)
        requires
            i < 7,
        ensures
            r == all_spaces()[i as int],
    {
        match i {
            0 => SpaceId::Srgb,
            1 => SpaceId::LinearSrgb,
            2 => SpaceId::DisplayP3,
            3 => SpaceId::Rec2020,
            4 => SpaceId::Aces2065,
            5 => SpaceId::AcesCg,
            _ => SpaceId::AcesCct,
        }
    }
}

/// Look up a colour space by its display name, ignoring ASCII case.
///
/// Documents store spaces by name, so this is the resolution step on load.
/// `None` for an unknown name; callers decide whether that is an error or a
/// fallback.
pub fn by_name(name: &str) -> (r: Option<SpaceId>)
    ensures
        r == lookup(name@),
{
    let mut i: usize = 0;
    while i < 7
        invariant
            i <= 7,
            lookup(name@) == lookup_from(name@, i as nat),
        decreases 7 - i,
    {
        let candidate = SpaceId::at(i);
        if eq_ignore_ascii_case(candidate.name(), name) {
            return Some(candidate);
        }
        i = i + 1;
    }
    None
}

/// Which of the two working spaces an operation runs in.
#[derive(Clone, Copy, Debug, PartialEq, Eq, Structural)]
pub enum WorkingSpace {
    /// Scene-linear ACEScg: anything that simulates the behaviour of light.
    Linear,
    /// ACEScct log: anything that shapes perception.
    Log,
}

impl WorkingSpace {
    /// The colour space this working space is.
    pub fn color_space(self) -> (r: SpaceId)
        ensures
            r == (match self {
                WorkingSpace::Linear => SpaceId::AcesCg,
                WorkingSpace::Log => SpaceId::AcesCct,
            }),
    {
        match self {
            WorkingSpace::Linear => SpaceId::AcesCg,
            WorkingSpace::Log => SpaceId::AcesCct,
        }
    }

    pub fn as_str(self) -> (r: &'static str)
        ensures
            r@ == (match self {
                WorkingSpace::Linear => "linear"@,
                WorkingSpace::Log => "log"@,
            }),
    {
        match self {
            WorkingSpace::Linear => "linear",
            WorkingSpace::Log => "log",
        }
    }
}

/// The colour-management configuration of a document: what the file on disk
/// is, and what is rendered for display or export.
#[derive(Clone, Copy, Debug, PartialEq, Eq, Structural)]
pub struct Pipeline {
    pub input: SpaceId,
    pub output: SpaceId,
}

impl Pipeline {
    pub fn new(input: SpaceId, output: SpaceId) -> (r: Pipeline)
        ensures
            r.input == input,
            r.output == output,
    {
        Pipeline { input, output }
    }
}

impl Default for Pipeline {
    fn default() -> (r: Pipeline)
        ensures
            r.input == SpaceId::Srgb,
            r.output == SpaceId::Srgb,
    {
        Pipeline { input: SpaceId::Srgb, output: SpaceId::Srgb }
    }
}

} // verus!
