use kroma::effects::{Group, EFFECTS_WITH_VISIBLE_DEFAULTS, PINNED_ROWS};
use kroma::tabs::{Section, Tab, Tool};

#[test]
fn the_group_list_has_no_repeats() {
    let mut seen = Group::ALL.to_vec();
    seen.sort_by_key(|g| g.as_str());
    seen.dedup();
    assert_eq!(seen.len(), Group::ALL.len());
}

#[test]
fn groups_are_named_as_the_browser_heads_them() {
    assert_eq!(Group::ALL.map(|g| g.as_str()), ["Basic", "Colour", "Film", "Optics"]);
}

#[test]
fn all_lists_every_tab() {
    for tab in Tab::ALL {
        match tab {
            Tab::Colour | Tab::Effects | Tab::Image | Tab::File => {}
        }
    }
    assert_eq!(Tab::ALL.map(|t| t.name()), ["Colour", "Effects", "Image", "File"]);
}

#[test]
fn the_colour_tab_is_five_sections_in_the_windows_order() {
    assert_eq!(
        Section::ALL.map(|s| s.title()),
        ["Curves", "Basic", "Colour Warper", "Primaries - Color Wheels", "Colour Mixer"]
    );
}

#[test]
fn the_warper_and_the_mixer_start_shut() {
    for section in Section::ALL {
        let should = !matches!(section, Section::ColourWarper | Section::ColourMixer);
        assert_eq!(section.starts_open(), should, "{section:?}");
    }
}

#[test]
fn every_pinned_effect_belongs_to_exactly_one_section() {
    for key in PINNED_ROWS {
        let owners: Vec<Section> =
            Section::ALL.into_iter().filter(|s| s.effects().contains(&key)).collect();
        assert_eq!(owners.len(), 1, "{key} is drawn by {owners:?}");
    }
}

#[test]
fn no_section_claims_an_unpinned_effect() {
    for section in Section::ALL {
        for key in section.effects() {
            assert!(PINNED_ROWS.contains(key), "{section:?} claims {key}, which is not pinned");
        }
    }
}

#[test]
fn a_pinned_effect_finds_its_section_and_an_added_one_does_not() {
    assert_eq!(Section::of("curves"), Some(Section::Curves));
    assert_eq!(Section::of("log_wheels"), Some(Section::ColourWheels));
    assert_eq!(Section::of("halation"), None);
}

#[test]
fn only_the_image_tab_shows_the_whole_frame() {
    for tab in Tab::ALL {
        assert_eq!(tab.shows_whole_frame(), tab == Tab::Image, "{tab:?}");
    }
}

#[test]
fn the_inspector_opens_on_colour() {
    assert_eq!(Tab::default(), Tab::Colour);
}

#[test]
fn a_fresh_document_carries_eleven_rows() {
    assert_eq!(
        PINNED_ROWS.len(),
        11,
        "the pinned count changed; four comments and two Swift files quote it"
    );
}

#[test]
fn every_pinned_effect_belongs_to_exactly_one_tool() {
    for key in PINNED_ROWS {
        let homes: Vec<Tool> =
            Tool::ALL.iter().copied().filter(|t| t.effects().contains(&key)).collect();
        assert_eq!(homes.len(), 1, "{key} has {} homes", homes.len());
    }
}

#[test]
fn no_tool_claims_an_effect_that_is_not_pinned() {
    for tool in Tool::ALL {
        for key in tool.effects() {
            assert!(PINNED_ROWS.contains(key), "{tool:?} claims {key}, which is not a pinned row");
        }
    }
}

#[test]
fn only_effects_crop_and_file_own_nothing_pinned() {
    let empty: Vec<Tool> = Tool::ALL.into_iter().filter(|t| t.effects().is_empty()).collect();
    assert_eq!(
        empty,
        vec![Tool::Effects, Tool::Crop, Tool::File],
        "a tool with no pinned effects that is not one of these three is a panel that draws nothing"
    );
}

#[test]
fn the_strip_opens_on_basic() {
    assert_eq!(Tool::ALL.first().copied(), Some(Tool::Basic));
}

#[test]
fn an_effect_nobody_pinned_has_no_tool() {
    assert_eq!(Tool::of("colour_warper"), Some(Tool::ColourWarper));
    assert_eq!(Tool::of("dehaze"), None);
    assert_eq!(Tool::of("not_an_effect"), None);
}

#[test]
fn the_strip_has_no_repeats() {
    let mut seen = Tool::ALL.to_vec();
    seen.sort_by_key(|t| t.name());
    seen.dedup();
    assert_eq!(seen.len(), Tool::ALL.len());
}

#[test]
fn no_pinned_row_is_a_look_effect() {
    for key in PINNED_ROWS {
        assert!(
            !EFFECTS_WITH_VISIBLE_DEFAULTS.contains(&key),
            "{key} ships visible and must not be a fixed panel"
        );
    }
}
