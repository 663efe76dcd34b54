use combat_tracker::roster::Combatant;
use combat_tracker::tracker::{parse_combatant, Action, App, Key, Mode};

fn fighter(name: &str, initiative: i32, hp: i32) -> Combatant {
    Combatant { name: name.to_string(), initiative, hp }
}

fn session(roster: Vec<Combatant>, turn: usize, target: usize, mode: Mode) -> App {
    App {
        combatants: roster,
        current_turn: turn,
        selected_target: target,
        mode,
        input_buffer: String::new(),
        should_quit: false,
    }
}

fn names(app: &App) -> Vec<String> {
    app.combatants.iter().map(|c| c.name.clone()).collect()
}

fn press(app: &mut App, keys: &[Key]) {
    for k in keys {
        assert!(app.fits(*k));
        app.handle_key(*k);
    }
}

fn type_text(app: &mut App, text: &str) {
    for c in text.chars() {
        app.handle_key(Key::Char(c));
    }
}

#[test]
fn new_seats_seed_by_initiative() {
    let app = App::new();
    assert_eq!(names(&app), vec!["Sam", "Gollum", "Frodo"]);
    let ini: Vec<i32> = app.combatants.iter().map(|c| c.initiative).collect();
    assert_eq!(ini, vec![16, 11, 8]);
    let hp: Vec<i32> = app.combatants.iter().map(|c| c.hp).collect();
    assert_eq!(hp, vec![35, 20, 30]);
    assert_eq!(app.current_turn, 0);
    assert_eq!(app.mode, Mode::Tracker);
    assert!(!app.should_quit);
}

#[test]
fn down_n_times_returns_to_start() {
    let mut app = App::new();
    app.current_turn = 1;
    press(&mut app, &[Key::Down]);
    assert_eq!(app.current_turn, 2);
    press(&mut app, &[Key::Down]);
    assert_eq!(app.current_turn, 0);
    press(&mut app, &[Key::Down]);
    assert_eq!(app.current_turn, 1);
}

#[test]
fn up_from_first_goes_to_last() {
    let mut app = App::new();
    press(&mut app, &[Key::Up]);
    assert_eq!(app.current_turn, 2);
}

#[test]
fn selector_wraps_both_ways() {
    let mut app = App::new();
    press(&mut app, &[Key::Char('d'), Key::Up]);
    assert_eq!(app.selected_target, 2);
    press(&mut app, &[Key::Down]);
    assert_eq!(app.selected_target, 0);
}

#[test]
fn removal_clamps_turn_cursor() {
    let roster = vec![fighter("A", 3, 1), fighter("B", 2, 1), fighter("C", 1, 1)];
    let mut app = session(roster, 2, 2, Mode::SelectingCombatant { action: Action::Remove });
    press(&mut app, &[Key::Enter]);
    assert_eq!(names(&app), vec!["A", "B"]);
    assert_eq!(app.current_turn, 1);
    assert_eq!(app.mode, Mode::Tracker);
    assert_eq!(app.selected_target, 0);
}

#[test]
fn removal_before_cursor_keeps_index() {
    let mut app = App::new();
    app.current_turn = 1;
    press(&mut app, &[Key::Char('r'), Key::Enter]);
    assert_eq!(names(&app), vec!["Gollum", "Frodo"]);
    assert_eq!(app.current_turn, 1);
}

#[test]
fn removing_last_combatant_goes_to_adding() {
    let mut app = session(
        vec![fighter("Solo", 1, 1)],
        0,
        0,
        Mode::SelectingCombatant { action: Action::Remove },
    );
    press(&mut app, &[Key::Enter]);
    assert!(app.combatants.is_empty());
    assert_eq!(app.mode, Mode::AddingCombatant);
    assert_eq!(app.input_buffer, "");
}

#[test]
fn navigation_on_empty_roster_is_ignored() {
    let mut app = session(vec![], 0, 0, Mode::Tracker);
    press(&mut app, &[Key::Down, Key::Up]);
    assert_eq!(app.current_turn, 0);
    press(&mut app, &[Key::Char('d')]);
    assert_eq!(app.mode, Mode::AddingCombatant);
}

#[test]
fn add_parses_three_fields() {
    let mut app = App::new();
    press(&mut app, &[Key::Char('a')]);
    assert_eq!(app.mode, Mode::AddingCombatant);
    type_text(&mut app, "Boromir, 12, 40");
    press(&mut app, &[Key::Enter]);
    assert_eq!(app.combatants.len(), 4);
    let c = &app.combatants[3];
    assert_eq!(c.name, "Boromir");
    assert_eq!(c.initiative, 12);
    assert_eq!(c.hp, 40);
    assert_eq!(app.mode, Mode::Tracker);
    assert_eq!(app.input_buffer, "");
}

#[test]
fn add_with_two_fields_adds_nothing() {
    let mut app = App::new();
    press(&mut app, &[Key::Char('a')]);
    type_text(&mut app, "bad,data");
    press(&mut app, &[Key::Enter]);
    assert_eq!(app.combatants.len(), 3);
    assert_eq!(app.mode, Mode::Tracker);
    assert_eq!(app.input_buffer, "");
}

#[test]
fn add_with_four_fields_adds_nothing() {
    assert!(parse_combatant("a,1,2,3").is_none());
    assert!(parse_combatant("").is_none());
}

#[test]
fn bad_number_reads_as_zero() {
    let c = parse_combatant("Legolas, oops, 25").unwrap();
    assert_eq!(c.name, "Legolas");
    assert_eq!(c.initiative, 0);
    assert_eq!(c.hp, 25);
}

#[test]
fn add_trims_fields_and_reads_signs() {
    let c = parse_combatant("  Gimli\t,+7 ,  -3").unwrap();
    assert_eq!(c.name, "Gimli");
    assert_eq!(c.initiative, 7);
    assert_eq!(c.hp, -3);
}

#[test]
fn add_does_not_resort() {
    let mut app = App::new();
    press(&mut app, &[Key::Char('a')]);
    type_text(&mut app, "Gandalf, 30, 50");
    press(&mut app, &[Key::Enter]);
    assert_eq!(names(&app), vec!["Sam", "Gollum", "Frodo", "Gandalf"]);
}

#[test]
fn backspace_edits_buffer() {
    let mut app = App::new();
    press(&mut app, &[Key::Char('a'), Key::Backspace]);
    assert_eq!(app.input_buffer, "");
    type_text(&mut app, "xyz");
    press(&mut app, &[Key::Backspace]);
    assert_eq!(app.input_buffer, "xy");
}

#[test]
fn damage_then_heal_restores_hp() {
    let mut app = App::new();
    press(&mut app, &[Key::Char('d'), Key::Down, Key::Enter]);
    assert_eq!(app.mode, Mode::InputValue { action: Action::DealDamage });
    type_text(&mut app, "5");
    press(&mut app, &[Key::Enter]);
    assert_eq!(app.combatants[1].hp, 15);
    assert_eq!(app.selected_target, 0);
    press(&mut app, &[Key::Char('h'), Key::Down, Key::Enter]);
    type_text(&mut app, "5");
    press(&mut app, &[Key::Enter]);
    assert_eq!(app.combatants[1].hp, 20);
}

#[test]
fn damage_may_go_below_zero() {
    let mut app = App::new();
    press(&mut app, &[Key::Char('d'), Key::Enter]);
    type_text(&mut app, " 40 ");
    press(&mut app, &[Key::Enter]);
    assert_eq!(app.combatants[0].hp, -5);
}

#[test]
fn bad_amount_reads_as_zero() {
    let mut app = App::new();
    press(&mut app, &[Key::Char('h'), Key::Enter]);
    type_text(&mut app, "lots");
    press(&mut app, &[Key::Enter]);
    assert_eq!(app.combatants[0].hp, 35);
    assert_eq!(app.mode, Mode::Tracker);
}

#[test]
fn edit_name_keeps_raw_text() {
    let mut app = App::new();
    press(&mut app, &[Key::Char('e'), Key::Down, Key::Down, Key::Enter]);
    type_text(&mut app, " Mr. Frodo ");
    press(&mut app, &[Key::Enter]);
    assert_eq!(app.combatants[2].name, " Mr. Frodo ");
}

#[test]
fn edit_initiative_does_not_resort() {
    let mut app = App::new();
    press(&mut app, &[Key::Char('i'), Key::Down, Key::Down, Key::Enter]);
    type_text(&mut app, "99");
    press(&mut app, &[Key::Enter]);
    assert_eq!(app.combatants[2].initiative, 99);
    assert_eq!(names(&app), vec!["Sam", "Gollum", "Frodo"]);
}

#[test]
fn overflowing_damage_is_refused() {
    let mut app = session(
        vec![fighter("Tough", 1, -2147483600)],
        0,
        0,
        Mode::InputValue { action: Action::DealDamage },
    );
    type_text(&mut app, "100");
    assert!(!app.fits(Key::Enter));
    assert!(app.fits(Key::Backspace));
}

#[test]
fn escape_from_every_mode_cancels() {
    let mut app = App::new();
    press(&mut app, &[Key::Char('a')]);
    type_text(&mut app, "half");
    press(&mut app, &[Key::Esc]);
    assert_eq!(app.mode, Mode::Tracker);
    assert_eq!(app.input_buffer, "");

    press(&mut app, &[Key::Char('d'), Key::Down, Key::Esc]);
    assert_eq!(app.mode, Mode::Tracker);
    assert_eq!(app.selected_target, 0);

    press(&mut app, &[Key::Char('h'), Key::Down, Key::Enter]);
    type_text(&mut app, "12");
    press(&mut app, &[Key::Esc]);
    assert_eq!(app.mode, Mode::Tracker);
    assert_eq!(app.selected_target, 0);
    assert_eq!(app.input_buffer, "");
    let hp: Vec<i32> = app.combatants.iter().map(|c| c.hp).collect();
    assert_eq!(hp, vec![35, 20, 30]);
    assert_eq!(names(&app), vec!["Sam", "Gollum", "Frodo"]);
}

#[test]
fn quit_and_unknown_keys() {
    let mut app = App::new();
    press(&mut app, &[Key::Char('z'), Key::Other, Key::Enter]);
    assert_eq!(app.mode, Mode::Tracker);
    assert!(!app.should_quit);
    press(&mut app, &[Key::Char('q')]);
    assert!(app.should_quit);
}

#[test]
fn render_tracker() {
    let mut app = App::new();
    assert_eq!(app.render(), ">Sam: 16 | 35\nGollum: 11 | 20\nFrodo: 8 | 30");
    press(&mut app, &[Key::Down]);
    assert_eq!(app.render(), "Sam: 16 | 35\n>Gollum: 11 | 20\nFrodo: 8 | 30");
}

#[test]
fn render_negative_hp() {
    let app = session(vec![fighter("Orc", -4, -120)], 0, 0, Mode::Tracker);
    assert_eq!(app.render(), ">Orc: -4 | -120");
}

#[test]
fn render_other_modes() {
    let mut app = App::new();
    press(&mut app, &[Key::Char('a')]);
    type_text(&mut app, "Bo");
    assert_eq!(app.render(), "Enter name,initiative, hp: Bo");
    press(&mut app, &[Key::Esc, Key::Char('h'), Key::Down]);
    assert_eq!(app.render(), "Select target to heal:\nSam\n>Gollum\nFrodo");
    press(&mut app, &[Key::Enter]);
    type_text(&mut app, "7");
    assert_eq!(app.render(), "Heal amount: 7");
}

#[test]
fn render_empty_roster() {
    let app = session(vec![], 0, 0, Mode::Tracker);
    assert_eq!(app.render(), "");
}
