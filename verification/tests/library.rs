//! The library: dates on cards, the search, the grid and its navigation.

use curvectrl::dates::{roll_dates_valid, valid_iso_date};
use curvectrl::film::{BaseMode, FilmPreset};
use curvectrl::library::{
    filtered_rolls, format_roll_card_dates, library_cell_index, library_cells, nav_target, paginate,
    parse_search_query, query_is_blank, record_roll_base_mode, record_roll_dates, record_roll_name,
    record_roll_preset, roll_date_order, sort_by_name, trim, LibraryCell, LibrarySelection,
    MonthAliases, MoveDir, Roll, SearchTerm, Thumb,
};
use curvectrl::edit_manifest::RollManifest;

fn roll(dir: &str, name: &str) -> Roll {
    Roll {
        dir: dir.to_string(),
        name: name.to_string(),
        cover: None,
        frame_count: 0,
        preset: FilmPreset::default(),
        base_mode: BaseMode::default(),
        start_date: None,
        end_date: None,
        thumb: Thumb::Loading,
    }
}

#[test]
fn valid_iso_date_accepts_real_dates() {
    assert!(valid_iso_date("2024-05-09"));
    assert!(valid_iso_date("2024-02-29")); // leap year
    assert!(valid_iso_date("2000-02-29")); // 400-year leap
    assert!(valid_iso_date("1900-12-31"));
}

#[test]
fn valid_iso_date_rejects_impossible_dates() {
    assert!(!valid_iso_date("2023-02-29")); // not a leap year
    assert!(!valid_iso_date("1900-02-29")); // 100-year non-leap
    assert!(!valid_iso_date("2024-13-01")); // month 13
    assert!(!valid_iso_date("2024-00-01")); // month 0
    assert!(!valid_iso_date("2024-04-31")); // April has 30 days
    assert!(!valid_iso_date("2024-01-00")); // day 0
}

/// The English short month table, exercising the localized-format path
/// with the fallback locale's values.
fn months_jan_to_dec() -> [&'static str; 12] {
    [
        "Jan", "Feb", "Mar", "Apr", "May", "Jun", "Jul", "Aug", "Sep", "Oct", "Nov", "Dec",
    ]
}

/// A test `MonthAliases` with the English short names plus the full/3-letter
/// aliases (which the app builds from `fl!` at startup).
fn test_aliases() -> MonthAliases {
    let localized: [String; 12] = std::array::from_fn(|i| months_jan_to_dec()[i].to_owned());
    MonthAliases::new(&localized)
}

#[test]
fn format_roll_card_dates_single_date_and_equal_range() {
    let months = months_jan_to_dec();
    assert_eq!(
        format_roll_card_dates(&months, "2026-05-03", None),
        Some("May 3 2026".to_owned())
    );
    // A one-day range collapses to the single-date form.
    assert_eq!(
        format_roll_card_dates(&months, "2026-05-03", Some("2026-05-03")),
        Some("May 3 2026".to_owned())
    );
}

#[test]
fn format_roll_card_dates_same_month_share_month_and_year() {
    let months = months_jan_to_dec();
    assert_eq!(
        format_roll_card_dates(&months, "2026-05-03", Some("2026-05-04")),
        Some("May 3 - 4 2026".to_owned())
    );
}

#[test]
fn format_roll_card_dates_same_year_keep_both_months() {
    let months = months_jan_to_dec();
    assert_eq!(
        format_roll_card_dates(&months, "2026-05-30", Some("2026-06-02")),
        Some("May 30 - Jun 2 2026".to_owned())
    );
}

#[test]
fn format_roll_card_dates_cross_year_keep_both_years() {
    let months = months_jan_to_dec();
    assert_eq!(
        format_roll_card_dates(&months, "2025-12-30", Some("2026-01-02")),
        Some("Dec 30 2025 - Jan 2 2026".to_owned())
    );
}

#[test]
fn format_roll_card_dates_rejects_malformed_input() {
    let months = months_jan_to_dec();
    assert_eq!(format_roll_card_dates(&months, "not-a-date", None), None);
    assert_eq!(
        format_roll_card_dates(&months, "2026-05-03", Some("not-a-date")),
        None
    );
    assert_eq!(format_roll_card_dates(&months, "2026-02-30", None), None);
}

#[test]
fn valid_iso_date_rejects_malformed_input() {
    assert!(!valid_iso_date("2024-5-9")); // not zero-padded
    assert!(!valid_iso_date("2024/05/09")); // wrong separator
    assert!(!valid_iso_date("may 9 2024"));
    assert!(!valid_iso_date("2024-05-09-10")); // trailing noise
    assert!(!valid_iso_date(""));
}

#[test]
fn roll_dates_require_start_before_end_when_both_set() {
    // Either date alone is always coherent.
    assert!(roll_dates_valid(None, None));
    assert!(roll_dates_valid(Some("2024-05-09"), None));
    assert!(roll_dates_valid(None, Some("2024-05-09")));
    // Equal dates are a valid single-day roll.
    assert!(roll_dates_valid(Some("2024-05-09"), Some("2024-05-09")));
    // A start before its end is the healthy case.
    assert!(roll_dates_valid(Some("2024-05-09"), Some("2024-05-11")));
    // The roll must not end before it starts.
    assert!(!roll_dates_valid(Some("2024-05-11"), Some("2024-05-09")));
    // Cross-year comparisons are plain ISO ordering, not calendar math.
    assert!(roll_dates_valid(Some("2023-12-31"), Some("2024-01-01")));
}

#[test]
fn filtered_rolls_matches_case_insensitive_substring() {
    let rolls = vec![roll("/a", "Alpha"), roll("/b", "chicago")];

    let matched = filtered_rolls(&rolls, "CHI", &test_aliases());

    assert_eq!(matched.len(), 1);
    assert_eq!(matched[0].name, "chicago");
}

#[test]
fn filtered_rolls_returns_all_on_empty_query() {
    let rolls = vec![roll("/a", "Alpha"), roll("/b", "Beta")];

    assert_eq!(filtered_rolls(&rolls, "", &test_aliases()).len(), 2);
    assert_eq!(filtered_rolls(&rolls, "   ", &test_aliases()).len(), 2);
}

#[test]
fn month_aliases_lookup_full_and_abbreviated_names() {
    let aliases = test_aliases();

    assert_eq!(aliases.lookup("may"), Some(5));
    assert_eq!(aliases.lookup("May"), Some(5));
    assert_eq!(aliases.lookup("september"), Some(9));
    assert_eq!(aliases.lookup("sep"), Some(9));
    assert_eq!(aliases.lookup("sept"), Some(9));
    assert_eq!(aliases.lookup("dec"), Some(12));
    assert_eq!(aliases.lookup("nope"), None);
}

#[test]
fn parse_search_query_classifies_year_month_and_text() {
    let aliases = test_aliases();

    let terms = parse_search_query("chi 2026", &aliases);
    assert!(matches!(&terms[0], SearchTerm::Text(t) if t == "chi"));
    assert!(matches!(
        &terms[1],
        SearchTerm::Date { text, month: None, year: Some(2026) } if text == "2026"
    ));

    let terms = parse_search_query("may", &aliases);
    assert!(matches!(
        &terms[0],
        SearchTerm::Date { text, month: Some(5), year: None } if text == "may"
    ));

    let terms = parse_search_query("may 2026", &aliases);
    assert!(matches!(
        &terms[0],
        SearchTerm::Date {
            month: Some(5),
            year: None,
            ..
        }
    ));
    assert!(matches!(
        &terms[1],
        SearchTerm::Date {
            month: None,
            year: Some(2026),
            ..
        }
    ));

    // Shorter numbers stay text (a name can contain "400", "2880", etc.).
    let terms = parse_search_query("trip  400", &aliases);
    assert!(matches!(&terms[0], SearchTerm::Text(t) if t == "trip"));
    assert!(matches!(&terms[1], SearchTerm::Text(t) if t == "400"));

    // Empty query parses to nothing (matches everything).
    assert!(parse_search_query("", &aliases).is_empty());
    assert!(parse_search_query("   ", &aliases).is_empty());
}

#[test]
fn search_matches_year_only() {
    let aliases = test_aliases();
    let mut dated = roll("/a", "Archives");
    dated.start_date = Some("2024-06-01".into());
    let mut other = roll("/b", "Older");
    other.start_date = Some("2023-12-31".into());
    let undated = roll("/c", "No-roll");
    let rolls = [dated, other, undated];

    let matched = filtered_rolls(&rolls, "2024", &aliases);

    assert_eq!(matched.len(), 1);
    assert_eq!(matched[0].name, "Archives");
}

#[test]
fn search_matches_month_only() {
    let aliases = test_aliases();
    let mut may_roll = roll("/a", "Spring");
    may_roll.start_date = Some("2024-05-10".into());
    let mut june_roll = roll("/b", "Summer");
    june_roll.start_date = Some("2024-06-03".into());
    let rolls = [may_roll, june_roll];

    let matched = filtered_rolls(&rolls, "may", &aliases);

    assert_eq!(matched.len(), 1);
    assert_eq!(matched[0].name, "Spring");
}

#[test]
fn search_matches_month_and_year() {
    let aliases = test_aliases();
    let mut may26 = roll("/a", "May2026");
    may26.start_date = Some("2026-05-03".into());
    let mut may25 = roll("/b", "May2025");
    may25.start_date = Some("2025-05-09".into());
    let mut mar26 = roll("/c", "Mar2026");
    mar26.start_date = Some("2026-03-15".into());
    let rolls = [may26, may25, mar26];

    // Only the May 2026 roll satisfies both independent tokens.
    let matched = filtered_rolls(&rolls, "may 2026", &aliases);

    assert_eq!(matched.len(), 1);
    assert_eq!(matched[0].name, "May2026");
}

#[test]
fn search_matches_name_plus_year() {
    let aliases = test_aliases();
    let mut chicago = roll("/a", "chicago trip");
    chicago.start_date = Some("2026-05-03".into());
    let mut orlando = roll("/b", "orlando trip");
    orlando.start_date = Some("2026-06-01".into());
    let rolls = [chicago, orlando];

    let matched = filtered_rolls(&rolls, "chi 2026", &aliases);

    assert_eq!(matched.len(), 1);
    assert_eq!(matched[0].name, "chicago trip");
}

#[test]
fn search_matches_end_date() {
    let aliases = test_aliases();
    let mut spanning = roll("/a", "Trip");
    spanning.start_date = Some("2026-05-30".into());
    spanning.end_date = Some("2026-06-02".into());
    let rolls = [spanning.clone()];

    // A range spans both months: it answers both "may" and "june", and the
    // "june 2026" query via the end date alone.
    assert_eq!(filtered_rolls(&rolls, "may", &aliases).len(), 1);
    assert_eq!(filtered_rolls(&rolls, "june", &aliases).len(), 1);
    assert_eq!(filtered_rolls(&rolls, "june 2026", &aliases).len(), 1);
}

#[test]
fn search_tokens_are_and_composed() {
    let aliases = test_aliases();
    let mut dated = roll("/a", "Trip");
    dated.start_date = Some("2026-05-03".into());
    let rolls = [dated.clone()];

    // Both tokens must match the same roll: a date AND a name term.
    assert_eq!(filtered_rolls(&rolls, "trip may 2026", &aliases).len(), 1);
    assert!(filtered_rolls(&rolls, "trip june", &aliases).is_empty());
    // A contradiction (two years) matches nothing.
    assert!(filtered_rolls(&rolls, "2026 2025", &aliases).is_empty());
}

#[test]
fn search_month_like_name_wins_via_name() {
    let aliases = test_aliases();
    // A roll named "Mayfield" dated in June still matches "may" — the name
    // substring counts alongside any date interpretation.
    let mut mayfield = roll("/a", "Mayfield");
    mayfield.start_date = Some("2026-06-03".into());
    let rolls = [mayfield];

    let matched = filtered_rolls(&rolls, "may", &aliases);

    assert_eq!(matched.len(), 1);
    assert_eq!(matched[0].name, "Mayfield");
}

#[test]
fn search_digit_in_name_matches_via_name() {
    let aliases = test_aliases();
    // A roll literally named "Trip 2026" (undated) matches the year token
    // through its name even with no committed date.
    let undated = roll("/a", "Trip 2026");
    let rolls = [undated];

    let matched = filtered_rolls(&rolls, "2026", &aliases);

    assert_eq!(matched.len(), 1);
    assert_eq!(matched[0].name, "Trip 2026");
}

#[test]
fn library_cells_keep_the_add_tile_first() {
    let rolls = vec![roll("/a", "Alpha"), roll("/b", "Beta")];

    let cells = library_cells(&rolls, "", &test_aliases());

    assert_eq!(cells.len(), 3);
    assert!(matches!(cells[0], LibraryCell::AddRoll));
    // Rolls follow in filtered order.
    assert!(matches!(cells[1], LibraryCell::Roll(r) if r.name == "Alpha"));
    assert!(matches!(cells[2], LibraryCell::Roll(r) if r.name == "Beta"));
    // A whitespace-only query is an inactive search: the add tile stays.
    assert_eq!(library_cells(&rolls, "   ", &test_aliases()).len(), 3);
}

#[test]
fn library_cells_hide_the_add_tile_while_searching() {
    let rolls = vec![roll("/a", "Alpha"), roll("/b", "Beta")];

    // A non-empty query drops the Add Roll tile: only matches remain.
    let cells = library_cells(&rolls, "beta", &test_aliases());
    assert_eq!(cells.len(), 1);
    assert!(matches!(cells[0], LibraryCell::Roll(r) if r.name == "Beta"));

    // A query matching nothing yields an entirely empty cell set.
    let cells = library_cells(&rolls, "zzz", &test_aliases());
    assert!(cells.is_empty());
    // No rolls at all: still the add tile while idle.
    assert_eq!(library_cells(&[], "", &test_aliases()).len(), 1);
}

#[test]
fn library_cells_put_undated_first_then_newest_dated_rolls() {
    let mut newest = roll("/a", "Started");
    newest.start_date = Some("2024-06-01".into());
    let mut older = roll("/b", "Winter");
    older.start_date = Some("2023-12-31".into());
    let mut same_date_zeta = roll("/c", "Zulu");
    same_date_zeta.start_date = Some("2024-05-09".into());
    let mut same_date_alpha = roll("/d", "Alpha");
    same_date_alpha.start_date = Some("2024-05-09".into());
    let undated = roll("/e", "No-roll");

    let mixed = [
        same_date_alpha.clone(),
        older.clone(),
        same_date_zeta.clone(),
        newest.clone(),
        undated.clone(),
    ];
    let cells = library_cells(&mixed, "", &test_aliases());

    // Add Roll cell 0, then undated roll, then dated newest-first, with
    // same-day rolls tied by name.
    assert!(matches!(cells[0], LibraryCell::AddRoll));
    assert!(matches!(cells[1], LibraryCell::Roll(r) if r.name == "No-roll"));
    assert!(matches!(cells[2], LibraryCell::Roll(r) if r.name == "Started"));
    assert!(matches!(cells[3], LibraryCell::Roll(r) if r.name == "Alpha"));
    assert!(matches!(cells[4], LibraryCell::Roll(r) if r.name == "Zulu"));
    assert!(matches!(cells[5], LibraryCell::Roll(r) if r.name == "Winter"));

    // The sort is derived: committing a date to the undated roll reorders
    // it on the next render without touching the backing slice.
    let mut undated = undated.clone();
    undated.start_date = Some("2025-01-01".into());
    let reordered = [newest.clone(), undated.clone(), same_date_alpha];
    let cells = library_cells(&reordered, "", &test_aliases());
    assert!(matches!(cells[1], LibraryCell::Roll(r) if r.name == "No-roll"));
    assert!(matches!(cells[2], LibraryCell::Roll(r) if r.name == "Started"));
}

#[test]
fn library_cell_index_finds_add_and_roll_slots() {
    let rolls = vec![roll("/a", "Alpha"), roll("/b", "Beta")];
    let cells = library_cells(&rolls, "", &test_aliases());

    assert_eq!(
        library_cell_index(Some(&LibrarySelection::AddRoll), &cells),
        Some(0)
    );
    assert_eq!(
        library_cell_index(Some(&LibrarySelection::Roll("/b".to_string())), &cells),
        Some(2)
    );
    // No selection, or one not in the (filtered) set, yields None.
    assert_eq!(library_cell_index(None, &cells), None);
    assert_eq!(
        library_cell_index(Some(&LibrarySelection::Roll("/x".to_string())), &cells),
        None
    );
}

#[test]
fn nav_can_land_on_and_leave_the_add_tile() {
    let rolls = vec![roll("/a", "Alpha"), roll("/b", "Beta")];
    let cells = library_cells(&rolls, "", &test_aliases());

    // From nothing, Down selects cell 0 (the add tile).
    let target = nav_target(None, cells.len(), 2, MoveDir::Down).unwrap();
    assert_eq!(target, 0);
    assert!(matches!(&cells[target], LibraryCell::AddRoll));

    // From the add tile, Right moves to the first roll (cell 1).
    let target = nav_target(Some(0), cells.len(), 2, MoveDir::Right).unwrap();
    assert_eq!(target, 1);
    assert!(matches!(&cells[target], LibraryCell::Roll(r) if r.name == "Alpha"));

    // From cell 1, Left returns to the add tile.
    let target = nav_target(Some(1), cells.len(), 2, MoveDir::Left).unwrap();
    assert_eq!(target, 0);
    assert!(matches!(&cells[target], LibraryCell::AddRoll));
    // Left on the add tile does not wrap.
    assert_eq!(nav_target(Some(0), cells.len(), 2, MoveDir::Left), Some(0));
}

#[test]
fn nav_target_steps_within_the_row() {
    assert_eq!(nav_target(Some(1), 8, 3, MoveDir::Left), Some(0));
    assert_eq!(nav_target(Some(6), 8, 3, MoveDir::Right), Some(7));
    // No wrap at the last item.
    assert_eq!(nav_target(Some(7), 8, 3, MoveDir::Right), Some(7));
}

#[test]
fn nav_target_jumps_full_rows_vertically() {
    assert_eq!(nav_target(Some(4), 8, 3, MoveDir::Up), Some(1));
    assert_eq!(nav_target(Some(4), 8, 3, MoveDir::Down), Some(7));
}

#[test]
fn nav_target_clamps_to_grid_edges() {
    // First row: Up clamps to the top item.
    assert_eq!(nav_target(Some(1), 8, 3, MoveDir::Up), Some(0));
    // Last row: Down clamps to the last item.
    assert_eq!(nav_target(Some(7), 8, 3, MoveDir::Down), Some(7));
}

#[test]
fn nav_target_selects_the_first_item_from_no_selection() {
    assert_eq!(nav_target(None, 4, 3, MoveDir::Down), Some(0));
}

#[test]
fn nav_target_handles_a_single_column_grid() {
    assert_eq!(nav_target(Some(1), 4, 1, MoveDir::Up), Some(0));
    assert_eq!(nav_target(Some(1), 4, 1, MoveDir::Down), Some(2));
}

#[test]
fn nav_target_empty_list_has_no_target() {
    assert_eq!(nav_target(Some(0), 0, 3, MoveDir::Left), None);
}

#[test]
fn paginate_steps_left_and_right_within_visible_set() {
    assert_eq!(paginate(1, 5, MoveDir::Left), Some(0));
    assert_eq!(paginate(1, 5, MoveDir::Right), Some(2));
}

#[test]
fn paginate_clamps_at_both_ends() {
    assert_eq!(paginate(0, 5, MoveDir::Left), Some(0));
    assert_eq!(paginate(4, 5, MoveDir::Right), Some(4));
}

#[test]
fn paginate_never_moves_vertically() {
    assert_eq!(paginate(2, 5, MoveDir::Up), None);
    assert_eq!(paginate(2, 5, MoveDir::Down), None);
}

#[test]
fn paginate_empty_list_has_no_target() {
    assert_eq!(paginate(0, 0, MoveDir::Right), None);
}

#[test]
fn default_choices_are_not_recorded() {
    assert!(record_roll_preset(RollManifest::default(), FilmPreset::Positive).is_none());
    assert!(record_roll_base_mode(RollManifest::default(), BaseMode::Preset).is_none());
    let preset = record_roll_preset(RollManifest::default(), FilmPreset::TriX).unwrap();
    assert_eq!(preset.preset(), FilmPreset::TriX);
    let mode = record_roll_base_mode(RollManifest::default(), BaseMode::AutoPerFrame).unwrap();
    assert_eq!(mode.base_mode(), BaseMode::AutoPerFrame);
}

#[test]
fn recorded_dates_and_names_can_be_cleared() {
    let dated = record_roll_dates(
        RollManifest::default(),
        Some("2024-05-09".to_owned()),
        Some("2024-05-11".to_owned()),
    );
    assert_eq!(dated.start_date(), Some("2024-05-09"));
    assert_eq!(dated.end_date(), Some("2024-05-11"));
    let undated = record_roll_dates(dated, None, None);
    assert_eq!(undated.start_date(), None);
    assert_eq!(undated.end_date(), None);
    let named = record_roll_name(undated, Some("Chicago".to_owned()));
    assert_eq!(named.name(), Some("Chicago"));
    assert_eq!(record_roll_name(named, None).name(), None);
}

#[test]
fn white_space_of_any_kind_separates_search_words() {
    let aliases = test_aliases();
    assert_eq!(parse_search_query("\tchi\u{2003}may\n", &aliases).len(), 2);
    assert!(query_is_blank("\u{2003} \t"));
    assert!(!query_is_blank("x"));
    assert_eq!(trim("  \u{2003}a b\n"), "a b");
    assert_eq!(trim(" \t "), "");
}

#[test]
fn white_space_is_the_unicode_property() {
    let mut spaces = vec!['\u{20}', '\u{85}', '\u{a0}', '\u{1680}'];
    spaces.extend('\u{9}'..='\u{d}');
    spaces.extend('\u{2000}'..='\u{200a}');
    spaces.extend(['\u{2028}', '\u{2029}', '\u{202f}', '\u{205f}', '\u{3000}']);
    for c in '\0'..=char::MAX {
        assert_eq!(query_is_blank(c.encode_utf8(&mut [0; 4])), spaces.contains(&c), "{c:?}");
    }
}

#[test]
fn a_query_of_two_parts_finds_what_both_find() {
    let aliases = test_aliases();
    let mut dated = roll("/a", "Trip to Mayfield");
    dated.start_date = Some("2026-05-03".into());
    let rolls = [dated, roll("/b", "Trip"), roll("/c", "Mayfield 2026")];
    let found = |query: &str| -> Vec<String> {
        filtered_rolls(&rolls, query, &aliases).iter().map(|r| r.dir.clone()).collect()
    };
    for first in ["trip", "may", "2026", "", "mayfield 2026"] {
        for second in ["trip", "2026", "field", "nope", "  "] {
            let one = found(first);
            let other = found(second);
            let both: Vec<String> = one.into_iter().filter(|dir| other.contains(dir)).collect();
            assert_eq!(found(&format!("{first} {second}")), both);
            assert_eq!(found(&format!("{first}\u{3000}{second}")), both);
        }
    }
}

#[test]
fn search_lowers_letters_beyond_ascii() {
    let rolls = [roll("/a", "ÄRGER")];
    assert_eq!(filtered_rolls(&rolls, "ärger", &test_aliases()).len(), 1);
    assert_eq!(filtered_rolls(&rolls, "ÄRG", &test_aliases()).len(), 1);
}

#[test]
fn localized_month_names_are_searched_too() {
    let mut names: Vec<String> = months_jan_to_dec().iter().map(|m| m.to_string()).collect();
    names[4] = "Mai".to_owned();
    let localized: [String; 12] = names.try_into().unwrap();
    let aliases = MonthAliases::new(&localized);
    assert_eq!(aliases.lookup("MAI"), Some(5));
    assert_eq!(aliases.lookup("may"), Some(5));
    assert_eq!(aliases.lookup("sept"), Some(9));
}

#[test]
fn name_sorting_is_stable() {
    let sorted = sort_by_name(vec![
        roll("/3", "b"),
        roll("/1", "a"),
        roll("/4", "b"),
        roll("/2", "a"),
    ]);
    let dirs: Vec<&str> = sorted.iter().map(|r| r.dir.as_str()).collect();
    assert_eq!(dirs, vec!["/1", "/2", "/3", "/4"]);
}

#[test]
fn undated_rolls_come_before_dated_ones() {
    let undated = roll("/a", "z");
    let mut dated = roll("/b", "a");
    dated.start_date = Some("2024-05-09".to_owned());
    assert!(roll_date_order(&undated, &dated));
    assert!(!roll_date_order(&dated, &undated));
}
