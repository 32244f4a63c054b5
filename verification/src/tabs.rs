//! The inspector's four tabs, the five sections of the first of them, and the
//! tool strip that offers the same pages one at a time.
//!
//! Which section or tool draws a pinned row is one answer per effect, kept
//! here so no two shells can disagree about it.

use vstd::prelude::*;
use crate::effects::{pinned_keys, views, visible_keys};
use crate::text::str_eq;

verus! {

/// One of the inspector's four tabs.
#[derive(Clone, Copy, Debug, PartialEq, Eq, Structural)]
pub enum Tab {
    /// The grade: five collapsing sections.
    Colour,
    /// The stack the user built, and the shelf that adds to it.
    Effects,
    /// The crop, the straightening angle, the quarter-turns and the flips.
    Image,
    /// What the photograph is, and what it will be written as.
    File,
}

impl Default for Tab {
    fn default() -> (r: Tab)
        ensures
            r == Tab::Colour,
    {
        Tab::Colour
    }
}

pub open spec fn tab_name(t: Tab) -> Seq<char> {
    match t {
        Tab::Colour => "Colour"@,
        Tab::Effects => "Effects"@,
        Tab::Image => "Image"@,
        Tab::File => "File"@,
    }
}

impl Tab {
    /// Every tab, in the order the row shows them.
    pub const ALL: [Tab; 4] = [Tab::Colour, Tab::Effects, Tab::Image, Tab::File];

    pub fn name(self) -> (r: &'static str)
        ensures
            r@ == tab_name(self),
    {
        match self {
            Tab::Colour => "Colour",
            Tab::Effects => "Effects",
            Tab::Image => "Image",
            Tab::File => "File",
        }
    }

    /// Whether the viewer shows the whole straightened frame rather than the
    /// cropped result while this tab is open: only on the Image tab.
    pub fn shows_whole_frame(self) -> (r: bool)
        ensures
            r == (self == Tab::Image),
    {
        match self {
            Tab::Image => true,
            _ => false,
        }
    }
}

/// One collapsing section of the Colour tab.
#[derive(Clone, Copy, Debug, PartialEq, Eq, Structural)]
pub enum Section {
    Curves,
    Basic,
    ColourWarper,
    ColourWheels,
    ColourMixer,
}

pub open spec fn all_sections() -> Seq<Section> {
    seq![Section::Curves, Section::Basic, Section::ColourWarper, Section::ColourWheels, Section::ColourMixer]
}

pub open spec fn section_title(s: Section) -> Seq<char> {
    match s {
        Section::Curves => "Curves"@,
        Section::Basic => "Basic"@,
        Section::ColourWarper => "Colour Warper"@,
        Section::ColourWheels => "Primaries - Color Wheels"@,
        Section::ColourMixer => "Colour Mixer"@,
    }
}

/// The pinned effects a section draws, in the order it draws them.
pub open spec fn section_effects(s: Section) -> Seq<Seq<char>> {
    match s {
        Section::Curves => seq!["curves"@],
        Section::Basic => seq![
            "white_balance"@,
            "exposure"@,
            "contrast"@,
            "tone"@,
            "presence"@,
            "colour"@,
        ],
        Section::ColourWarper => seq!["colour_warper"@],
        Section::ColourWheels => seq!["primaries"@, "log_wheels"@],
        Section::ColourMixer => seq!["colour_mixer"@],
    }
}

/// The first of `order`, from `i` on, whose list holds `effect`.
pub open spec fn first_owner<T>(order: Seq<T>, owns: spec_fn(T) -> Seq<Seq<char>>, effect: Seq<char>, i: nat) -> Option<T>
    decreases order.len() - i,
{
    if i >= order.len() {
        None
    } else if owns(order[i as int]).contains(effect) {
        Some(order[i as int])
    } else {
        first_owner(order, owns, effect, i + 1)
    }
}

/// Whether `list` holds `effect`, by value.
fn holds(list: &[&str], effect: &str) -> (r: bool)
    ensures
        r == views(list@).contains(effect@),
{
    let mut i: usize = 0;
    while i < list.len()
        invariant
            i <= list@.len(),
            forall|j: int| 0 <= j < i ==> (#[trigger] list@[j])@ != effect@,
        decreases list@.len() - i,
    {
        if str_eq(list[i], effect) {
            assert(views(list@)[i as int] == effect@);
            return true;
        }
        i = i + 1;
    }
    assert forall|j: int| 0 <= j < list@.len() implies #[trigger] views(list@)[j] != effect@ by {
        assert(list@[j]@ != effect@);
    }
    false
}

impl Section {
    /// Every section, in the order the Colour tab draws them.
    pub const ALL: [Section; 5] = [
        Section::Curves,
        Section::Basic,
        Section::ColourWarper,
        Section::ColourWheels,
        Section::ColourMixer,
    ];

    /// What the heading says.
    pub fn title(self) -> (r: &'static str)
        ensures
            r@ == section_title(self),
    {
        match self {
            Section::Curves => "Curves",
            Section::Basic => "Basic",
            Section::ColourWarper => "Colour Warper",
            Section::ColourWheels => "Primaries - Color Wheels",
            Section::ColourMixer => "Colour Mixer",
        }
    }

    /// Whether the section is open the first time it is seen: all but the
    /// warper and the mixer.
    pub fn starts_open(self) -> (r: bool)
        ensures
            r == !(self == Section::ColourWarper || self == Section::ColourMixer),
    {
        match self {
            Section::ColourWarper | Section::ColourMixer => false,
            _ => true,
        }
    }

    /// The pinned effects this section draws, in the order it draws them.
    pub fn effects(self) -> (r: &'static [&'static str])
        ensures
            views(r@) == section_effects(self),
    {
        let r: &'static [&'static str] = match self {
            Section::Curves => &["curves"],
            Section::Basic => &["white_balance", "exposure", "contrast", "tone", "presence", "colour"],
            Section::ColourWarper => &["colour_warper"],
            Section::ColourWheels => &["primaries", "log_wheels"],
            Section::ColourMixer => &["colour_mixer"],
        };
        assert(views(r@) =~= section_effects(self));
        r
    }

    fn at(i: usize) -> (r: Section)
        requires
            i < 5,
        ensures
            r == all_sections()[i as int],
    {
        match i {
            0 => Section::Curves,
            1 => Section::Basic,
            2 => Section::ColourWarper,
            3 => Section::ColourWheels,
            _ => Section::ColourMixer,
        }
    }

    /// The section that draws an effect, if a pinned one does. `None` for an
    /// added effect, which the Effects tab draws as a row.
    pub fn of(effect: &str) -> (r: Option<Section>)
        ensures
            r == first_owner(all_sections(), |s: Section| section_effects(s), effect@, 0),
    {
        let mut i: usize = 0;
        while i < 5
            invariant
                i <= 5,
                first_owner(all_sections(), |s: Section| section_effects(s), effect@, 0)
                    == first_owner(all_sections(), |s: Section| section_effects(s), effect@, i as nat),
            decreases 5 - i,
        {
            let s = Section::at(i);
            if holds(s.effects(), effect) {
                return Some(s);
            }
            i = i + 1;
        }
        None
    }
}

/// One page of the tool strip.
#[derive(Clone, Copy, Debug, PartialEq, Eq, Structural)]
pub enum Tool {
    Basic,
    ColourWheels,
    Curves,
    ColourWarper,
    ColourMixer,
    /// Whatever the user added, and the browser that adds more.
    Effects,
    /// The crop, the straightening angle, the quarter-turns and the flips.
    Crop,
    /// What the photograph is, and what it will be written as.
    File,
}

pub open spec fn all_tools() -> Seq<Tool> {
    seq![
        Tool::Basic,
        Tool::ColourWheels,
        Tool::Curves,
        Tool::ColourWarper,
        Tool::ColourMixer,
        Tool::Effects,
        Tool::Crop,
        Tool::File,
    ]
}

pub open spec fn tool_name(t: Tool) -> Seq<char> {
    match t {
        Tool::Basic => "Basic"@,
        Tool::ColourWheels => "Colour Wheels"@,
        Tool::Curves => "Curves"@,
        Tool::ColourWarper => "Colour Warper"@,
        Tool::ColourMixer => "Colour Mixer"@,
        Tool::Effects => "Effects"@,
        Tool::Crop => "Crop"@,
        Tool::File => "File"@,
    }
}

/// The pinned effects a tool draws, in the order it draws them.
pub open spec fn tool_effects(t: Tool) -> Seq<Seq<char>> {
    match t {
        Tool::Basic => seq![
            "white_balance"@,
            "exposure"@,
            "contrast"@,
            "tone"@,
            "presence"@,
            "colour"@,
        ],
        Tool::ColourWheels => seq!["primaries"@, "log_wheels"@],
        Tool::Curves => seq!["curves"@],
        Tool::ColourWarper => seq!["colour_warper"@],
        Tool::ColourMixer => seq!["colour_mixer"@],
        Tool::Effects => Seq::empty(),
        Tool::Crop => Seq::empty(),
        Tool::File => Seq::empty(),
    }
}

impl Tool {
    /// Every tool, in the order the strip shows them.
    pub const ALL: [Tool; 8] = [
        Tool::Basic,
        Tool::ColourWheels,
        Tool::Curves,
        Tool::ColourWarper,
        Tool::ColourMixer,
        Tool::Effects,
        Tool::Crop,
        Tool::File,
    ];

    pub fn name(self) -> (r: &'static str)
        ensures
            r@ == tool_name(self),
    {
        match self {
            Tool::Basic => "Basic",
            Tool::ColourWheels => "Colour Wheels",
            Tool::Curves => "Curves",
            Tool::ColourWarper => "Colour Warper",
            Tool::ColourMixer => "Colour Mixer",
            Tool::Effects => "Effects",
            Tool::Crop => "Crop",
            Tool::File => "File",
        }
    }

    /// The pinned effects this tool draws, in the order it draws them.
    /// Effects, Crop and File draw none.
    pub fn effects(self) -> (r: &'static [&'static str])
        ensures
            views(r@) == tool_effects(self),
    {
        let r: &'static [&'static str] = match self {
            Tool::Basic => &["white_balance", "exposure", "contrast", "tone", "presence", "colour"],
            Tool::ColourWheels => &["primaries", "log_wheels"],
            Tool::Curves => &["curves"],
            Tool::ColourWarper => &["colour_warper"],
            Tool::ColourMixer => &["colour_mixer"],
            Tool::Effects => &[],
            Tool::Crop => &[],
            Tool::File => &[],
        };
        assert(views(r@) =~= tool_effects(self));
        r
    }

    fn at(i: usize) -> (r: Tool)
        requires
            i < 8,
        ensures
            r == all_tools()[i as int],
    {
        match i {
            0 => Tool::Basic,
            1 => Tool::ColourWheels,
            2 => Tool::Curves,
            3 => Tool::ColourWarper,
            4 => Tool::ColourMixer,
            5 => Tool::Effects,
            6 => Tool::Crop,
            _ => Tool::File,
        }
    }

    /// The tool that draws an effect, if a pinned one does.
    pub fn of(effect: &str) -> (r: Option<Tool>)
        ensures
            r == first_owner(all_tools(), |t: Tool| tool_effects(t), effect@, 0),
    {
        let mut i: usize = 0;
        while i < 8
            invariant
                i <= 8,
                first_owner(all_tools(), |t: Tool| tool_effects(t), effect@, 0) == first_owner(
                    all_tools(),
                    |t: Tool| tool_effects(t),
                    effect@,
                    i as nat,
                ),
            decreases 8 - i,
        {
            let t = Tool::at(i);
            if holds(t.effects(), effect) {
                return Some(t);
            }
            i = i + 1;
        }
        None
    }
}

/// Each pinned key told apart by its length and first two characters.
proof fn lemma_pinned_key_signatures()
    ensures
        pinned_keys()[0].len() == 13 && pinned_keys()[0][0] == 'w' && pinned_keys()[0][1] == 'h',
        pinned_keys()[1].len() == 8 && pinned_keys()[1][0] == 'e' && pinned_keys()[1][1] == 'x',
        pinned_keys()[2].len() == 8 && pinned_keys()[2][0] == 'c' && pinned_keys()[2][1] == 'o',
        pinned_keys()[3].len() == 4 && pinned_keys()[3][0] == 't' && pinned_keys()[3][1] == 'o',
        pinned_keys()[4].len() == 8 && pinned_keys()[4][0] == 'p' && pinned_keys()[4][1] == 'r',
        pinned_keys()[5].len() == 6 && pinned_keys()[5][0] == 'c' && pinned_keys()[5][1] == 'o',
        pinned_keys()[6].len() == 12 && pinned_keys()[6][0] == 'c' && pinned_keys()[6][1] == 'o',
        pinned_keys()[7].len() == 13 && pinned_keys()[7][0] == 'c' && pinned_keys()[7][1] == 'o',
        pinned_keys()[8].len() == 6 && pinned_keys()[8][0] == 'c' && pinned_keys()[8][1] == 'u',
        pinned_keys()[9].len() == 9 && pinned_keys()[9][0] == 'p' && pinned_keys()[9][1] == 'r',
        pinned_keys()[10].len() == 10 && pinned_keys()[10][0] == 'l' && pinned_keys()[10][1] == 'o',
{
    reveal_strlit("white_balance");
    assert("white_balance"@.len() == 13 && "white_balance"@[0] == 'w' && "white_balance"@[1] == 'h');
    reveal_strlit("exposure");
    assert("exposure"@.len() == 8 && "exposure"@[0] == 'e' && "exposure"@[1] == 'x');
    reveal_strlit("contrast");
    assert("contrast"@.len() == 8 && "contrast"@[0] == 'c' && "contrast"@[1] == 'o');
    reveal_strlit("tone");
    assert("tone"@.len() == 4 && "tone"@[0] == 't' && "tone"@[1] == 'o');
    reveal_strlit("presence");
    assert("presence"@.len() == 8 && "presence"@[0] == 'p' && "presence"@[1] == 'r');
    reveal_strlit("colour");
    assert("colour"@.len() == 6 && "colour"@[0] == 'c' && "colour"@[1] == 'o');
    reveal_strlit("colour_mixer");
    assert("colour_mixer"@.len() == 12 && "colour_mixer"@[0] == 'c' && "colour_mixer"@[1] == 'o');
    reveal_strlit("colour_warper");
    assert("colour_warper"@.len() == 13 && "colour_warper"@[0] == 'c' && "colour_warper"@[1] == 'o');
    reveal_strlit("curves");
    assert("curves"@.len() == 6 && "curves"@[0] == 'c' && "curves"@[1] == 'u');
    reveal_strlit("primaries");
    assert("primaries"@.len() == 9 && "primaries"@[0] == 'p' && "primaries"@[1] == 'r');
    reveal_strlit("log_wheels");
    assert("log_wheels"@.len() == 10 && "log_wheels"@[0] == 'l' && "log_wheels"@[1] == 'o');
}

/// No effect is pinned twice.
pub proof fn lemma_pinned_keys_are_distinct()
    ensures
        pinned_keys().no_duplicates(),
{
    lemma_pinned_key_signatures();
    let k = pinned_keys();
    assert forall|i: int, j: int| 0 <= i < k.len() && 0 <= j < k.len() && i != j implies k[i] != k[j] by {
        if k[i] == k[j] {
            assert(k[i].len() == k[j].len() && k[i][0] == k[j][0] && k[i][1] == k[j][1]);
        }
    }
}

/// Where in [`pinned_keys`] the run a section draws begins and ends.
pub open spec fn section_run(s: Section) -> (int, int) {
    match s {
        Section::Basic => (0, 6),
        Section::ColourMixer => (6, 7),
        Section::ColourWarper => (7, 8),
        Section::Curves => (8, 9),
        Section::ColourWheels => (9, 11),
    }
}

/// Where in [`pinned_keys`] the run a tool draws begins and ends; empty for
/// the three tools that draw no pinned row.
pub open spec fn tool_run(t: Tool) -> (int, int) {
    match t {
        Tool::Basic => (0, 6),
        Tool::ColourMixer => (6, 7),
        Tool::ColourWarper => (7, 8),
        Tool::Curves => (8, 9),
        Tool::ColourWheels => (9, 11),
        Tool::Effects => (0, 0),
        Tool::Crop => (0, 0),
        Tool::File => (0, 0),
    }
}

proof fn lemma_runs_partition(run: (int, int), i: int, k: Seq<char>)
    requires
        0 <= run.0 <= run.1 <= 11,
        pinned_keys().no_duplicates(),
    ensures
        0 <= i < 11 ==> (pinned_keys().subrange(run.0, run.1).contains(pinned_keys()[i]) <==> run.0 <= i < run.1),
        pinned_keys().subrange(run.0, run.1).contains(k) ==> pinned_keys().contains(k),
{
    let sub = pinned_keys().subrange(run.0, run.1);
    if 0 <= i < 11 && sub.contains(pinned_keys()[i]) {
        let j = choose|j: int| 0 <= j < sub.len() && sub[j] == pinned_keys()[i];
        assert(pinned_keys()[run.0 + j] == pinned_keys()[i]);
    }
    if 0 <= i < 11 && run.0 <= i < run.1 {
        assert(sub[i - run.0] == pinned_keys()[i]);
    }
    if sub.contains(k) {
        let j = choose|j: int| 0 <= j < sub.len() && sub[j] == k;
        assert(pinned_keys()[run.0 + j] == k);
    }
}

/// Every pinned row is drawn by exactly one section of the Colour tab (the
/// one whose run holds it), and no section draws an effect that is not a
/// pinned row.
pub proof fn lemma_sections_partition_the_pinned_rows()
    ensures
        forall|i: int, s: Section|
            0 <= i < 11 ==> (#[trigger] section_effects(s).contains(pinned_keys()[i]) <==> section_run(s).0 <= i
                < section_run(s).1),
        forall|s: Section, k: Seq<char>| #[trigger] section_effects(s).contains(k) ==> pinned_keys().contains(k),
{
    lemma_pinned_keys_are_distinct();
    assert forall|s: Section| #[trigger] section_effects(s) == pinned_keys().subrange(section_run(s).0, section_run(s).1) by {
        assert(section_effects(s) =~= pinned_keys().subrange(section_run(s).0, section_run(s).1));
    }
    assert forall|i: int, s: Section|
        0 <= i < 11 implies (#[trigger] section_effects(s).contains(pinned_keys()[i]) <==> section_run(s).0 <= i
            < section_run(s).1) by {
        lemma_runs_partition(section_run(s), i, pinned_keys()[i]);
    }
    assert forall|s: Section, k: Seq<char>| #[trigger] section_effects(s).contains(k) implies pinned_keys().contains(k) by {
        lemma_runs_partition(section_run(s), 0, k);
    }
}

/// Every pinned row is drawn by exactly one tool, no tool draws an effect
/// that is not a pinned row, and only Effects, Crop and File draw none.
pub proof fn lemma_tools_partition_the_pinned_rows()
    ensures
        forall|i: int, t: Tool|
            0 <= i < 11 ==> (#[trigger] tool_effects(t).contains(pinned_keys()[i]) <==> tool_run(t).0 <= i
                < tool_run(t).1),
        forall|t: Tool, k: Seq<char>| #[trigger] tool_effects(t).contains(k) ==> pinned_keys().contains(k),
        forall|t: Tool| #[trigger] tool_effects(t).len() == 0 <==> (t == Tool::Effects || t == Tool::Crop || t == Tool::File),
{
    lemma_pinned_keys_are_distinct();
    assert forall|t: Tool| #[trigger] tool_effects(t) == pinned_keys().subrange(tool_run(t).0, tool_run(t).1) by {
        assert(tool_effects(t) =~= pinned_keys().subrange(tool_run(t).0, tool_run(t).1));
    }
    assert forall|i: int, t: Tool|
        0 <= i < 11 implies (#[trigger] tool_effects(t).contains(pinned_keys()[i]) <==> tool_run(t).0 <= i
            < tool_run(t).1) by {
        lemma_runs_partition(tool_run(t), i, pinned_keys()[i]);
    }
    assert forall|t: Tool, k: Seq<char>| #[trigger] tool_effects(t).contains(k) implies pinned_keys().contains(k) by {
        lemma_runs_partition(tool_run(t), 0, k);
    }
}

/// Each look effect told apart by its length and first two characters.
proof fn lemma_look_key_signatures()
    ensures
        visible_keys()[0].len() == 10 && visible_keys()[0][0] == 's' && visible_keys()[0][1] == 'p',
        visible_keys()[1].len() == 8 && visible_keys()[1][0] == 'h' && visible_keys()[1][1] == 'a',
        visible_keys()[2].len() == 5 && visible_keys()[2][0] == 'b' && visible_keys()[2][1] == 'l',
        visible_keys()[3].len() == 5 && visible_keys()[3][0] == 'g' && visible_keys()[3][1] == 'r',
        visible_keys()[4].len() == 8 && visible_keys()[4][0] == 'v' && visible_keys()[4][1] == 'i',
        visible_keys()[5].len() == 11 && visible_keys()[5][0] == 'f' && visible_keys()[5][1] == 'i',
        visible_keys()[6].len() == 11 && visible_keys()[6][0] == 'r' && visible_keys()[6][1] == 'a',
        visible_keys()[7].len() == 9 && visible_keys()[7][0] == 'z' && visible_keys()[7][1] == 'o',
        visible_keys()[8].len() == 9 && visible_keys()[8][0] == 'f' && visible_keys()[8][1] == 'i',
        visible_keys()[9].len() == 6 && visible_keys()[9][0] == 'd' && visible_keys()[9][1] == 'e',
        visible_keys()[10].len() == 14 && visible_keys()[10][0] == 'c' && visible_keys()[10][1] == 'i',
{
    reveal_strlit("split_tone");
    assert("split_tone"@.len() == 10 && "split_tone"@[0] == 's' && "split_tone"@[1] == 'p');
    reveal_strlit("halation");
    assert("halation"@.len() == 8 && "halation"@[0] == 'h' && "halation"@[1] == 'a');
    reveal_strlit("bloom");
    assert("bloom"@.len() == 5 && "bloom"@[0] == 'b' && "bloom"@[1] == 'l');
    reveal_strlit("grain");
    assert("grain"@.len() == 5 && "grain"@[0] == 'g' && "grain"@[1] == 'r');
    reveal_strlit("vignette");
    assert("vignette"@.len() == 8 && "vignette"@[0] == 'v' && "vignette"@[1] == 'i');
    reveal_strlit("film_damage");
    assert("film_damage"@.len() == 11 && "film_damage"@[0] == 'f' && "film_damage"@[1] == 'i');
    reveal_strlit("radial_blur");
    assert("radial_blur"@.len() == 11 && "radial_blur"@[0] == 'r' && "radial_blur"@[1] == 'a');
    reveal_strlit("zoom_blur");
    assert("zoom_blur"@.len() == 9 && "zoom_blur"@[0] == 'z' && "zoom_blur"@[1] == 'o');
    reveal_strlit("film_look");
    assert("film_look"@.len() == 9 && "film_look"@[0] == 'f' && "film_look"@[1] == 'i');
    reveal_strlit("dehaze");
    assert("dehaze"@.len() == 6 && "dehaze"@[0] == 'd' && "dehaze"@[1] == 'e');
    reveal_strlit("cinematic_haze");
    assert("cinematic_haze"@.len() == 14 && "cinematic_haze"@[0] == 'c' && "cinematic_haze"@[1] == 'i');
}

/// No pinned row is a look effect: opening a photograph must not change it.
pub proof fn lemma_no_pinned_row_is_a_look_effect()
    ensures
        forall|i: int, j: int| 0 <= i < 11 && 0 <= j < 11 ==> #[trigger] pinned_keys()[i] != #[trigger] visible_keys()[j],
{
    lemma_pinned_key_signatures();
    lemma_look_key_signatures();
    assert forall|i: int, j: int| 0 <= i < 11 && 0 <= j < 11 implies #[trigger] pinned_keys()[i] != #[trigger] visible_keys()[j] by {
        if pinned_keys()[i] == visible_keys()[j] {
            assert(pinned_keys()[i].len() == visible_keys()[j].len());
            assert(pinned_keys()[i][0] == visible_keys()[j][0]);
            assert(pinned_keys()[i][1] == visible_keys()[j][1]);
        }
    }
}

/// The constants list exactly these keys.
pub proof fn lemma_the_key_lists_are_the_constants()
    ensures
        views(crate::effects::PINNED_ROWS@) == pinned_keys(),
        views(crate::effects::EFFECTS_WITH_VISIBLE_DEFAULTS@) == visible_keys(),
{
    assert(views(crate::effects::PINNED_ROWS@) =~= pinned_keys());
    assert(views(crate::effects::EFFECTS_WITH_VISIBLE_DEFAULTS@) =~= visible_keys());
}

} // verus!
