use keyboard_palette::color::Rgb;
use keyboard_palette::keyboard_color_button::KeyboardColorButton;
use keyboard_palette::layout::GridPosition;
use keyboard_palette::palette::{Effect, Event};
use keyboard_palette::swatch::{Swatch, SwatchId, Symbol};
use keyboard_palette::sync::{DeviceError, DeviceOperation, Notice};

const WHITE: Rgb = Rgb { r: 255, g: 255, b: 255 };
const BLUE: Rgb = Rgb { r: 0, g: 0, b: 255 };
const RED: Rgb = Rgb { r: 255, g: 0, b: 0 };
const YELLOW: Rgb = Rgb { r: 255, g: 255, b: 0 };
const GREEN: Rgb = Rgb { r: 0, g: 255, b: 0 };
const TEAL: Rgb = Rgb { r: 0, g: 128, b: 128 };

fn button_on(board: usize) -> KeyboardColorButton {
    let (button, effects) = KeyboardColorButton::new(Ok(Rgb::new(10, 20, 30)), board);
    assert!(effects.is_empty());
    button
}

fn ids(button: &KeyboardColorButton) -> Vec<u64> {
    button.inner().circles().iter().map(|swatch| swatch.id.0).collect()
}

fn colors(button: &KeyboardColorButton) -> Vec<Rgb> {
    button.inner().circles().iter().map(|swatch| swatch.color).collect()
}

fn marked(button: &KeyboardColorButton) -> Vec<u64> {
    button
        .inner()
        .circles()
        .iter()
        .filter(|swatch| swatch.symbol == Symbol::Selected)
        .map(|swatch| swatch.id.0)
        .collect()
}

fn current(button: &KeyboardColorButton) -> Option<u64> {
    button.inner().current_circle().map(|id| id.0)
}

/// A palette of three swatches A, B, C (identities 0, 1, 2) with B current.
fn three_with_middle_current() -> KeyboardColorButton {
    let mut button = button_on(0);
    button.circle_clicked(SwatchId(4));
    button.remove_clicked();
    button.remove_clicked();
    assert_eq!(ids(&button), vec![0, 1, 2]);
    button.circle_clicked(SwatchId(1));
    button
}

fn assert_valid(button: &KeyboardColorButton) {
    let all = ids(button);
    assert!(!all.is_empty());
    for (i, id) in all.iter().enumerate() {
        assert!(!all[..i].contains(id));
    }
    match current(button) {
        Some(id) => {
            assert!(all.contains(&id));
            assert_eq!(marked(button), vec![id]);
        }
        None => assert!(marked(button).is_empty()),
    }
    assert_eq!(button.remove_visible(), all.len() > 1);
}

#[test]
fn new_seeds_the_default_swatches() {
    let (button, effects) = KeyboardColorButton::new(Ok(Rgb::new(10, 20, 30)), 3);
    assert!(effects.is_empty());
    assert_eq!(colors(&button), vec![WHITE, BLUE, RED, YELLOW, GREEN]);
    assert_eq!(ids(&button), vec![0, 1, 2, 3, 4]);
    assert!(marked(&button).is_empty());
    assert_eq!(current(&button), None);
    assert_eq!(button.rgb(), Rgb::new(10, 20, 30));
    assert_eq!(button.daemon_board(), 3);
    assert_eq!(button.inner().daemon_board(), 3);
    assert_eq!(button.inner().rgb(), Rgb::new(10, 20, 30));
    assert!(button.remove_visible());
    assert_valid(&button);
}

#[test]
fn new_does_not_select_a_swatch_of_the_reported_color() {
    let (button, effects) = KeyboardColorButton::new(Ok(BLUE), 0);
    assert!(effects.is_empty());
    assert_eq!(button.rgb(), BLUE);
    assert_eq!(current(&button), None);
    assert!(marked(&button).is_empty());
    assert_eq!(ids(&button).len(), 5);
}

#[test]
fn new_after_a_failed_read_publishes_black_and_reports() {
    let error = DeviceError { message: String::from("no keyboard") };
    let (button, effects) = KeyboardColorButton::new(Err(error), 1);
    assert_eq!(button.rgb(), Rgb::new(0, 0, 0));
    assert_eq!(
        effects,
        vec![Effect::Report(Notice {
            operation: DeviceOperation::Read,
            message: String::from("no keyboard"),
        })]
    );
    assert_eq!(colors(&button), vec![WHITE, BLUE, RED, YELLOW, GREEN]);
    assert_eq!(current(&button), None);
}

#[test]
fn click_selects_publishes_and_writes() {
    let mut button = button_on(7);
    let effects = button.circle_clicked(SwatchId(2));
    assert_eq!(
        effects,
        vec![Effect::ColorChanged(RED), Effect::Write { board: 7, color: RED }]
    );
    assert_eq!(current(&button), Some(2));
    assert_eq!(marked(&button), vec![2]);
    assert_eq!(button.rgb(), RED);
    assert_eq!(ids(&button), vec![0, 1, 2, 3, 4]);
    assert_eq!(colors(&button), vec![WHITE, BLUE, RED, YELLOW, GREEN]);
    assert_valid(&button);
}

#[test]
fn second_click_moves_the_mark() {
    let mut button = button_on(0);
    button.circle_clicked(SwatchId(2));
    let effects = button.circle_clicked(SwatchId(0));
    assert_eq!(
        effects,
        vec![Effect::ColorChanged(WHITE), Effect::Write { board: 0, color: WHITE }]
    );
    assert_eq!(current(&button), Some(0));
    assert_eq!(marked(&button), vec![0]);
    assert_eq!(button.rgb(), WHITE);
}

#[test]
fn click_on_the_current_swatch_writes_again() {
    let mut button = button_on(5);
    button.circle_clicked(SwatchId(3));
    let effects = button.circle_clicked(SwatchId(3));
    assert_eq!(
        effects,
        vec![Effect::ColorChanged(YELLOW), Effect::Write { board: 5, color: YELLOW }]
    );
    assert_eq!(current(&button), Some(3));
    assert_eq!(marked(&button), vec![3]);
}

#[test]
fn click_on_an_unknown_swatch_changes_nothing() {
    let mut button = button_on(0);
    button.circle_clicked(SwatchId(1));
    let effects = button.circle_clicked(SwatchId(99));
    assert!(effects.is_empty());
    assert_eq!(current(&button), Some(1));
    assert_eq!(marked(&button), vec![1]);
    assert_eq!(button.rgb(), BLUE);
    assert_eq!(ids(&button), vec![0, 1, 2, 3, 4]);
}

#[test]
fn position_finds_swatches_by_identity() {
    let mut button = button_on(0);
    assert_eq!(button.position(SwatchId(0)), Some(0));
    assert_eq!(button.position(SwatchId(4)), Some(4));
    assert_eq!(button.position(SwatchId(5)), None);
    button.circle_clicked(SwatchId(1));
    button.remove_clicked();
    assert_eq!(button.position(SwatchId(1)), None);
    assert_eq!(button.position(SwatchId(2)), Some(1));
}

#[test]
fn removing_the_middle_swatch_selects_the_one_before() {
    let mut button = three_with_middle_current();
    assert_eq!(colors(&button), vec![WHITE, BLUE, RED]);
    button.remove_clicked();
    assert_eq!(ids(&button), vec![0, 2]);
    assert_eq!(colors(&button), vec![WHITE, RED]);
    assert_eq!(current(&button), Some(0));
    assert_eq!(marked(&button), vec![0]);
    assert_valid(&button);
}

#[test]
fn removing_the_first_swatch_selects_the_new_first() {
    let mut button = three_with_middle_current();
    button.circle_clicked(SwatchId(0));
    button.remove_clicked();
    assert_eq!(ids(&button), vec![1, 2]);
    assert_eq!(colors(&button), vec![BLUE, RED]);
    assert_eq!(current(&button), Some(1));
    assert_eq!(marked(&button), vec![1]);
    assert_valid(&button);
}

#[test]
fn removing_the_last_swatch_selects_the_one_before() {
    let mut button = three_with_middle_current();
    button.circle_clicked(SwatchId(2));
    button.remove_clicked();
    assert_eq!(ids(&button), vec![0, 1]);
    assert_eq!(current(&button), Some(1));
    assert_eq!(marked(&button), vec![1]);
}

#[test]
fn repeated_removal_from_the_front_stays_at_the_front() {
    let mut button = button_on(0);
    button.circle_clicked(SwatchId(0));
    button.remove_clicked();
    assert_eq!(ids(&button), vec![1, 2, 3, 4]);
    assert_eq!(current(&button), Some(1));
    button.remove_clicked();
    assert_eq!(ids(&button), vec![2, 3, 4]);
    assert_eq!(current(&button), Some(2));
    button.remove_clicked();
    assert_eq!(ids(&button), vec![3, 4]);
    assert_eq!(current(&button), Some(3));
}

#[test]
fn removal_writes_nothing_and_keeps_the_published_color() {
    let mut button = button_on(0);
    button.circle_clicked(SwatchId(2));
    let effects = button.apply(Event::RemoveSwatch);
    assert!(effects.is_empty());
    assert_eq!(button.rgb(), RED);
    assert_eq!(current(&button), Some(1));
}

#[test]
fn removal_without_a_current_swatch_changes_nothing() {
    let mut button = button_on(0);
    button.remove_clicked();
    assert_eq!(ids(&button), vec![0, 1, 2, 3, 4]);
    assert_eq!(current(&button), None);
    assert!(marked(&button).is_empty());
    assert!(button.apply(Event::RemoveSwatch).is_empty());
    assert_eq!(ids(&button), vec![0, 1, 2, 3, 4]);
}

#[test]
fn remove_is_hidden_at_one_swatch_and_shown_again_after_add() {
    let mut button = button_on(0);
    button.circle_clicked(SwatchId(4));
    for left in [4usize, 3, 2] {
        button.remove_clicked();
        assert_eq!(ids(&button).len(), left);
        assert!(button.remove_visible());
        assert!(button.snapshot().remove_visible);
    }
    button.remove_clicked();
    assert_eq!(ids(&button), vec![0]);
    assert!(!button.remove_visible());
    assert!(!button.snapshot().remove_visible);
    button.add_clicked(Some(TEAL));
    assert_eq!(ids(&button).len(), 2);
    assert!(button.remove_visible());
    assert!(button.snapshot().remove_visible);
}

#[test]
fn the_only_swatch_left_is_never_removed() {
    let mut button = button_on(0);
    button.circle_clicked(SwatchId(4));
    for _ in 0..4 {
        button.remove_clicked();
    }
    assert_eq!(ids(&button), vec![0]);
    assert_eq!(current(&button), Some(0));
    button.remove_clicked();
    assert_eq!(ids(&button), vec![0]);
    assert_eq!(colors(&button), vec![WHITE]);
    assert_eq!(current(&button), Some(0));
    assert_eq!(marked(&button), vec![0]);
    assert_valid(&button);
}

#[test]
fn add_appends_an_unmarked_swatch_and_keeps_the_current_one() {
    let mut button = button_on(0);
    button.circle_clicked(SwatchId(1));
    let effects = button.add_clicked(Some(TEAL));
    assert!(effects.is_empty());
    assert_eq!(colors(&button), vec![WHITE, BLUE, RED, YELLOW, GREEN, TEAL]);
    assert_eq!(ids(&button), vec![0, 1, 2, 3, 4, 5]);
    assert_eq!(current(&button), Some(1));
    assert_eq!(marked(&button), vec![1]);
    assert_eq!(button.rgb(), BLUE);
    assert_eq!(
        button.inner().circles()[5],
        Swatch { color: TEAL, id: SwatchId(5), symbol: Symbol::Unmarked }
    );
    assert_valid(&button);
}

#[test]
fn add_without_a_current_swatch_leaves_none_current() {
    let mut button = button_on(0);
    button.add_color(TEAL);
    assert_eq!(colors(&button), vec![WHITE, BLUE, RED, YELLOW, GREEN, TEAL]);
    assert_eq!(current(&button), None);
    assert!(marked(&button).is_empty());
    assert_eq!(button.rgb(), Rgb::new(10, 20, 30));
}

#[test]
fn add_of_a_color_already_there_appends_it_again() {
    let mut button = button_on(0);
    button.add_clicked(Some(RED));
    assert_eq!(colors(&button), vec![WHITE, BLUE, RED, YELLOW, GREEN, RED]);
    assert_eq!(ids(&button), vec![0, 1, 2, 3, 4, 5]);
}

#[test]
fn a_new_swatch_gets_the_smallest_free_identity() {
    let mut button = button_on(0);
    button.circle_clicked(SwatchId(2));
    button.remove_clicked();
    assert_eq!(ids(&button), vec![0, 1, 3, 4]);
    button.add_color(TEAL);
    assert_eq!(ids(&button), vec![0, 1, 3, 4, 2]);
    assert_eq!(colors(&button), vec![WHITE, BLUE, YELLOW, GREEN, TEAL]);
    assert_eq!(current(&button), Some(1));
    button.add_color(RED);
    assert_eq!(ids(&button), vec![0, 1, 3, 4, 2, 5]);
    assert_valid(&button);
}

#[test]
fn cancelled_add_writes_the_current_color_once() {
    let mut button = button_on(9);
    button.circle_clicked(SwatchId(1));
    let effects = button.add_clicked(None);
    assert_eq!(effects, vec![Effect::Write { board: 9, color: Rgb::new(0, 0, 255) }]);
    assert_eq!(colors(&button), vec![WHITE, BLUE, RED, YELLOW, GREEN]);
    assert_eq!(ids(&button), vec![0, 1, 2, 3, 4]);
    assert_eq!(current(&button), Some(1));
    assert_eq!(marked(&button), vec![1]);
}

#[test]
fn cancelled_add_without_a_current_swatch_does_nothing() {
    let mut button = button_on(9);
    let effects = button.add_clicked(None);
    assert!(effects.is_empty());
    assert_eq!(ids(&button), vec![0, 1, 2, 3, 4]);
    assert_eq!(current(&button), None);
}

#[test]
fn edit_replaces_the_color_in_place_and_writes_nothing() {
    let mut button = button_on(2);
    button.circle_clicked(SwatchId(3));
    assert_eq!(button.current_color(), Some(YELLOW));
    let effects = button.edit_clicked(Some(TEAL));
    assert!(effects.is_empty());
    assert_eq!(colors(&button), vec![WHITE, BLUE, RED, TEAL, GREEN]);
    assert_eq!(ids(&button), vec![0, 1, 2, 3, 4]);
    assert_eq!(current(&button), Some(3));
    assert_eq!(marked(&button), vec![3]);
    assert_eq!(button.rgb(), YELLOW);
    assert_eq!(button.current_color(), Some(TEAL));
    assert_valid(&button);
}

#[test]
fn cancelled_edit_writes_the_current_color_once() {
    let mut button = button_on(2);
    button.circle_clicked(SwatchId(4));
    let effects = button.edit_clicked(None);
    assert_eq!(effects, vec![Effect::Write { board: 2, color: GREEN }]);
    assert_eq!(colors(&button), vec![WHITE, BLUE, RED, YELLOW, GREEN]);
    assert_eq!(current(&button), Some(4));
}

#[test]
fn cancelled_edit_after_an_edit_writes_the_edited_color() {
    let mut button = button_on(2);
    button.circle_clicked(SwatchId(0));
    button.edit_clicked(Some(TEAL));
    let effects = button.edit_clicked(None);
    assert_eq!(effects, vec![Effect::Write { board: 2, color: TEAL }]);
}

#[test]
fn edit_without_a_current_swatch_does_nothing() {
    let mut button = button_on(2);
    assert_eq!(button.current_color(), None);
    assert!(button.edit_clicked(Some(TEAL)).is_empty());
    assert!(button.edit_clicked(None).is_empty());
    assert_eq!(colors(&button), vec![WHITE, BLUE, RED, YELLOW, GREEN]);
    assert_eq!(current(&button), None);
}

#[test]
fn failed_write_keeps_the_selection_and_is_reported() {
    let mut button = button_on(0);
    let effects = button.apply(Event::SelectSwatch(SwatchId(2)));
    assert_eq!(
        effects,
        vec![Effect::ColorChanged(RED), Effect::Write { board: 0, color: RED }]
    );
    let error = DeviceError { message: String::from("write refused") };
    let effects = button.apply(Event::WriteFinished(Err(error)));
    assert_eq!(
        effects,
        vec![Effect::Report(Notice {
            operation: DeviceOperation::Write,
            message: String::from("write refused"),
        })]
    );
    assert_eq!(current(&button), Some(2));
    assert_eq!(marked(&button), vec![2]);
    assert_eq!(button.rgb(), RED);
    assert_eq!(ids(&button), vec![0, 1, 2, 3, 4]);
    let effects = button.apply(Event::SelectSwatch(SwatchId(3)));
    assert_eq!(
        effects,
        vec![Effect::ColorChanged(YELLOW), Effect::Write { board: 0, color: YELLOW }]
    );
    assert_eq!(current(&button), Some(3));
}

#[test]
fn finished_write_reports_nothing() {
    let mut button = button_on(0);
    button.circle_clicked(SwatchId(2));
    assert!(button.write_finished(Ok(())).is_empty());
    assert!(button.apply(Event::WriteFinished(Ok(()))).is_empty());
    assert_eq!(current(&button), Some(2));
}

#[test]
fn apply_does_what_the_click_handlers_do() {
    let mut by_event = button_on(4);
    let mut by_call = button_on(4);
    assert_eq!(
        by_event.apply(Event::SelectSwatch(SwatchId(1))),
        by_call.circle_clicked(SwatchId(1))
    );
    assert_eq!(by_event.apply(Event::AddSwatch(Some(TEAL))), by_call.add_clicked(Some(TEAL)));
    assert_eq!(by_event.apply(Event::AddSwatch(None)), by_call.add_clicked(None));
    assert_eq!(by_event.apply(Event::EditSwatch(Some(RED))), by_call.edit_clicked(Some(RED)));
    assert_eq!(by_event.apply(Event::EditSwatch(None)), by_call.edit_clicked(None));
    assert!(by_event.apply(Event::RemoveSwatch).is_empty());
    by_call.remove_clicked();
    assert_eq!(ids(&by_event), ids(&by_call));
    assert_eq!(colors(&by_event), colors(&by_call));
    assert_eq!(current(&by_event), current(&by_call));
    assert_eq!(marked(&by_event), marked(&by_call));
    assert_eq!(by_event.rgb(), by_call.rgb());
    assert_eq!(ids(&by_event), vec![0, 2, 3, 4, 5]);
    assert_eq!(colors(&by_event), vec![WHITE, RED, YELLOW, GREEN, TEAL]);
    assert_eq!(current(&by_event), Some(0));
}

#[test]
fn every_sequence_of_events_keeps_the_palette_valid() {
    let mut button = button_on(0);
    let mut seed: u32 = 12345;
    for _ in 0..2000 {
        seed = seed.wrapping_mul(1103515245).wrapping_add(12345);
        let pick = (seed >> 16) % 8;
        let argument = u64::from((seed >> 8) % 9);
        let channel = (seed >> 4) as u8;
        let event = match pick {
            0 | 1 => Event::SelectSwatch(SwatchId(argument)),
            2 => Event::AddSwatch(Some(Rgb::new(channel, 0, 255 - channel))),
            3 => Event::AddSwatch(None),
            4 | 5 => Event::RemoveSwatch,
            6 => Event::EditSwatch(Some(Rgb::new(0, channel, 0))),
            _ => Event::EditSwatch(None),
        };
        button.apply(event);
        assert_valid(&button);
    }
}

#[test]
fn snapshot_shows_swatches_current_cells_and_remove() {
    let mut button = three_with_middle_current();
    let shown = button.snapshot();
    assert_eq!(
        shown.swatches,
        vec![
            Swatch { color: WHITE, id: SwatchId(0), symbol: Symbol::Unmarked },
            Swatch { color: BLUE, id: SwatchId(1), symbol: Symbol::Selected },
            Swatch { color: RED, id: SwatchId(2), symbol: Symbol::Unmarked },
        ]
    );
    assert_eq!(shown.current, Some(SwatchId(1)));
    assert_eq!(
        shown.cells,
        vec![
            GridPosition { col: 0, row: 0 },
            GridPosition { col: 1, row: 0 },
            GridPosition { col: 2, row: 0 },
            GridPosition { col: 0, row: 1 },
        ]
    );
    assert!(shown.remove_visible);
    button.remove_clicked();
    let shown = button.snapshot();
    assert_eq!(shown.swatches.len(), 2);
    assert_eq!(shown.cells.len(), 3);
    assert_eq!(shown.current, Some(SwatchId(0)));
}

#[test]
fn populate_grid_places_the_add_entry_last() {
    let mut button = button_on(0);
    assert_eq!(
        button.populate_grid(),
        vec![
            GridPosition { col: 0, row: 0 },
            GridPosition { col: 1, row: 0 },
            GridPosition { col: 2, row: 0 },
            GridPosition { col: 0, row: 1 },
            GridPosition { col: 1, row: 1 },
            GridPosition { col: 2, row: 1 },
        ]
    );
    button.add_color(TEAL);
    let cells = button.populate_grid();
    assert_eq!(cells.len(), 7);
    assert_eq!(cells[6], GridPosition { col: 0, row: 2 });
}
