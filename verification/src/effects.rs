//! Where effects are found: the browser's groups, the inspector's tabs and
//! sections, the tool strip, and the fixed panels every document starts with.

use vstd::prelude::*;
use crate::document::Document;
use crate::stack::{lacks_id, RowId, StackRow};
use crate::text::str_eq;

verus! {

/// Which panel an effect appears under in the inspector.
#[derive(Clone, Copy, Debug, PartialEq, Eq, Structural)]
pub enum Group {
    /// Exposure, white balance, contrast.
    Basic,
    /// Wheels, curves, HSL, qualifier.
    Color,
    /// Grain, halation, bloom, film damage.
    Film,
    /// Blur, sharpen, vignette, lens.
    Optics,
}

pub open spec fn group_name(g: Group) -> Seq<char> {
    match g {
        Group::Basic => "Basic"@,
        Group::Color => "Colour"@,
        Group::Film => "Film"@,
        Group::Optics => "Optics"@,
    }
}

impl Group {
    /// Every group, in the order the effect browser lists them.
    pub const ALL: [Group; 4] = [Group::Basic, Group::Color, Group::Film, Group::Optics];

    pub fn as_str(self) -> (r: &'static str)
        ensures
            r@ == group_name(self),
    {
        match self {
            Group::Basic => "Basic",
            Group::Color => "Colour",
            Group::Film => "Film",
            Group::Optics => "Optics",
        }
    }
}

/// What has to be true for a group of parameters to apply.
#[derive(Clone, Copy, Debug, PartialEq)]
pub enum When {
    /// A checkbox that has to be ticked.
    True,
    /// A checkbox that has to be clear.
    False,
    /// A slider that has to be off zero.
    Positive,
    /// A dropdown that has to be on one particular option.
    Is(&'static str),
    /// A curve that has actually been drawn on.
    Drawn,
}

/// A control that switches other controls off.
#[derive(Clone, Copy, Debug, PartialEq)]
pub struct Gate {
    /// The parameter that decides.
    pub by: &'static str,
    pub when: When,
    /// The parameters it decides for.
    pub params: &'static [&'static str],
}

/// What a gate tests of the parameter that decides, read off its current
/// value.
#[derive(Clone, Copy, Debug, PartialEq)]
pub enum Setting<'a> {
    /// A checkbox, ticked or not.
    Switch(bool),
    /// A slider, and whether it is off zero.
    Amount { off_zero: bool },
    /// A dropdown, on this option.
    Choice(&'a str),
    /// A curve, and whether it has been drawn on.
    Curve { drawn: bool },
    /// Anything a gate does not test.
    Other,
}

/// Whether a gate lets the controls it guards apply.
///
/// A gate over a parameter the row does not hold, or over a value it does
/// not read, keeps its controls enabled.
pub open spec fn allows(when: When, setting: Option<Setting>) -> bool {
    match (when, setting) {
        (When::True, Some(Setting::Switch(v))) => v,
        (When::False, Some(Setting::Switch(v))) => !v,
        (When::Positive, Some(Setting::Amount { off_zero })) => off_zero,
        (When::Is(option), Some(Setting::Choice(v))) => v@ == option@,
        (When::Drawn, Some(Setting::Curve { drawn })) => drawn,
        _ => true,
    }
}

/// Whether a gate lets the controls it guards apply.
pub fn gate_allows(when: When, setting: Option<Setting>) -> (r: bool)
    ensures
        r == allows(when, setting),
{
    match (when, setting) {
        (When::True, Some(Setting::Switch(v))) => v,
        (When::False, Some(Setting::Switch(v))) => !v,
        (When::Positive, Some(Setting::Amount { off_zero })) => off_zero,
        (When::Is(option), Some(Setting::Choice(v))) => str_eq(v, option),
        (When::Drawn, Some(Setting::Curve { drawn })) => drawn,
        _ => true,
    }
}

/// The first gate that guards `key`, if one does.
pub fn gate_for(gates: &[Gate], key: &str) -> (r: Option<usize>)
    ensures
        match r {
            Some(i) => i < gates@.len() && views(gates@[i as int].params@).contains(key@) && forall|j: int|
                0 <= j < i ==> !views(#[trigger] gates@[j].params@).contains(key@),
            None => forall|j: int| 0 <= j < gates@.len() ==> !views(#[trigger] gates@[j].params@).contains(key@),
        },
{
    let mut i: usize = 0;
    while i < gates.len()
        invariant
            i <= gates@.len(),
            forall|j: int| 0 <= j < i ==> !views(#[trigger] gates@[j].params@).contains(key@),
        decreases gates@.len() - i,
    {
        let guarded = gates[i].params;
        let mut k: usize = 0;
        while k < guarded.len()
            invariant
                k <= guarded@.len(),
                i < gates@.len(),
                guarded@ == gates@[i as int].params@,
                forall|j: int| 0 <= j < i ==> !views(#[trigger] gates@[j].params@).contains(key@),
                forall|m: int| 0 <= m < k ==> (#[trigger] guarded@[m])@ != key@,
            decreases guarded@.len() - k,
        {
            if str_eq(guarded[k], key) {
                assert(views(guarded@)[k as int] == key@);
                assert(views(guarded@).contains(key@));
                return Some(i);
            }
            k = k + 1;
        }
        assert forall|m: int| 0 <= m < guarded@.len() implies #[trigger] views(guarded@)[m] != key@ by {
            assert(guarded@[m]@ != key@);
        }
        i = i + 1;
    }
    None
}

/// The rows a new document starts with, pinned, in render order.
pub const PINNED_ROWS: [&'static str; 11] = [
    "white_balance",
    "exposure",
    "contrast",
    "tone",
    "presence",
    "colour",
    "colour_mixer",
    "colour_warper",
    "curves",
    "primaries",
    "log_wheels",
];

/// Effects whose defaults are visible on purpose: a look effect added to a
/// stack should show itself at once.
pub const EFFECTS_WITH_VISIBLE_DEFAULTS: [&'static str; 11] = [
    "split_tone",
    "halation",
    "bloom",
    "grain",
    "vignette",
    "film_damage",
    "radial_blur",
    "zoom_blur",
    "film_look",
    "dehaze",
    "cinematic_haze",
];

/// The keys of the pinned rows.
pub open spec fn pinned_keys() -> Seq<Seq<char>> {
    seq![
        "white_balance"@,
        "exposure"@,
        "contrast"@,
        "tone"@,
        "presence"@,
        "colour"@,
        "colour_mixer"@,
        "colour_warper"@,
        "curves"@,
        "primaries"@,
        "log_wheels"@,
    ]
}

/// The keys of the look effects.
pub open spec fn visible_keys() -> Seq<Seq<char>> {
    seq![
        "split_tone"@,
        "halation"@,
        "bloom"@,
        "grain"@,
        "vignette"@,
        "film_damage"@,
        "radial_blur"@,
        "zoom_blur"@,
        "film_look"@,
        "dehaze"@,
        "cinematic_haze"@,
    ]
}

/// The views of a list of string slices.
pub open spec fn views(s: Seq<&str>) -> Seq<Seq<char>> {
    s.map_values(|x: &str| x@)
}

fn pinned_key(i: usize) -> (r: &'static str)
    requires
        i < 11,
    ensures
        r@ == pinned_keys()[i as int],
{
    match i {
        0 => "white_balance",
        1 => "exposure",
        2 => "contrast",
        3 => "tone",
        4 => "presence",
        5 => "colour",
        6 => "colour_mixer",
        7 => "colour_warper",
        8 => "curves",
        9 => "primaries",
        _ => "log_wheels",
    }
}

/// A new document with the fixed panels already in place: one pinned row per
/// entry of [`PINNED_ROWS`], in order, with ids counting up from zero. Each
/// row's look is what `look_for` gives for its effect.
pub fn new_document<L, X: Default, F: Fn(&str) -> L>(source: &str, look_for: F) -> (d: Document<L, X>)
    requires
        forall|k: &str| look_for.requires((k,)),
    ensures
        d.source matches crate::document::Source::Path { path: p } && p@ == source@,
        d.schema_version == crate::document::SCHEMA_VERSION,
        d.stack.rows@.len() == 11,
        forall|i: int|
            #![trigger d.stack.rows@[i]]
            0 <= i < 11 ==> {
                let row = d.stack.rows@[i];
                &&& row.id == RowId(i as u64)
                &&& row.effect@ == pinned_keys()[i]
                &&& row.pinned
                &&& row.enabled
                &&& row.blend == crate::stack::BlendMode::Normal
                &&& row.label is None
                &&& exists|k: &str| k@ == pinned_keys()[i] && look_for.ensures((k,), row.look)
            },
{
    let mut doc: Document<L, X> = Document::from_path(source);
    let mut i: usize = 0;
    while i < 11
        invariant
            i <= 11,
            forall|k: &str| look_for.requires((k,)),
            doc.source matches crate::document::Source::Path { path: p } && p@ == source@,
            doc.schema_version == crate::document::SCHEMA_VERSION,
            doc.stack.rows@.len() == i,
            forall|j: int|
                #![trigger doc.stack.rows@[j]]
                0 <= j < i ==> {
                    let row = doc.stack.rows@[j];
                    &&& row.id == RowId(j as u64)
                    &&& row.effect@ == pinned_keys()[j]
                    &&& row.pinned
                    &&& row.enabled
                    &&& row.blend == crate::stack::BlendMode::Normal
                    &&& row.label is None
                    &&& exists|k: &str| k@ == pinned_keys()[j] && look_for.ensures((k,), row.look)
                },
        decreases 11 - i,
    {
        let key = pinned_key(i);
        let look = look_for(key);
        let row = StackRow {
            id: RowId(i as u64),
            effect: key.to_owned(),
            enabled: true,
            blend: crate::stack::BlendMode::Normal,
            label: None,
            pinned: true,
            look,
        };
        assert(lacks_id(doc.stack.rows@, row.id)) by {
            assert forall|j: int| 0 <= j < doc.stack.rows@.len() implies doc.stack.rows@[j].id
                != row.id by {
                assert(doc.stack.rows@[j].id == RowId(j as u64));
            }
        }
        doc.stack.push(row);
        i = i + 1;
    }
    doc
}

} // verus!
