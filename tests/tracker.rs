use chrono::{Datelike, NaiveDate};
use dijo::app::{App, Effect, MessageKind};
use dijo::calendar::{Absolute, Cursor};
use dijo::command::{Command, CommandLineError};
use dijo::habit::{Bit, Count, CustomBool, Float, GoalKind, Habit, TrackEvent, ViewMode};

fn day(y: i32, m: u32, d: u32) -> i32 {
    NaiveDate::from_ymd_opt(y, m, d).unwrap().num_days_from_ce()
}

fn app_with(names: &[&str]) -> App {
    let mut app = App::new();
    for n in names {
        app.add_goal(&n.to_string(), Some(GoalKind::Count(5)), false);
    }
    app
}

#[test]
fn counter_scenario_pushups() {
    let today = day(2024, 3, 10);
    let mut c = Count::new("pushups", 20, false);
    c.modify(today, TrackEvent::Increment);
    c.modify(today, TrackEvent::Increment);
    assert_eq!(c.get_by_date(today), Some(2));
    assert_eq!(c.remaining(today), 18);
    assert!(!c.reached_goal(today));
}

#[test]
fn focus_right_clamps_at_last_visible() {
    let mut app = app_with(&["a", "b", "c"]);
    for _ in 0..6 {
        app.set_focus(Absolute::Right);
    }
    assert_eq!(app.focus, 2);
    app.set_focus(Absolute::Left);
    assert_eq!(app.focus, 1);
}

#[test]
fn focus_down_clamps_to_last_and_up_to_first() {
    let mut app = app_with(&["a", "b", "c", "d", "e"]);
    app.set_focus(Absolute::Down);
    assert_eq!(app.focus, 3);
    app.set_focus(Absolute::Down);
    assert_eq!(app.focus, 4);
    app.set_focus(Absolute::Up);
    assert_eq!(app.focus, 1);
    app.set_focus(Absolute::Up);
    assert_eq!(app.focus, 0);
}

#[test]
fn focus_with_no_visible_goal_is_zero() {
    let mut app = app_with(&["a"]);
    app.hide_by_name("a");
    app.set_focus(Absolute::Right);
    assert_eq!(app.focus, 0);
}

#[test]
fn delete_only_goal_resets_focus_and_status() {
    let today = day(2024, 3, 10);
    let mut app = app_with(&["a"]);
    app.focus = 3;
    app.parse_command_on(Ok(Command::Delete("a".to_string())), today);
    assert_eq!(app.focus, 0);
    assert!(app.habits.is_empty());
    app.cursor = Cursor::at(today);
    let s = app.status_at(today);
    assert_eq!(s.0, "0 completed, 0 remaining, 0 hidden --Day--");
    assert_eq!(s.1, "10/Mar/24");
}

#[test]
fn delete_missing_goal_is_an_error() {
    let mut app = app_with(&["a"]);
    app.delete_by_name("b");
    assert_eq!(app.habits.len(), 1);
    assert_eq!(app.message.kind, MessageKind::Error);
    assert_eq!(app.message.msg, "Could not delete habit `b`");
}

#[test]
fn status_sums_targets_and_counts_hidden() {
    let today = day(2024, 3, 10);
    let mut app = App::new();
    app.add_goal(&"run".to_string(), Some(GoalKind::Bit), false);
    app.add_goal(&"read".to_string(), Some(GoalKind::Count(10)), true);
    app.parse_command_on(Ok(Command::TrackUp("read".to_string())), today);
    app.parse_command_on(Ok(Command::TrackUp("read".to_string())), today);
    app.parse_command_on(Ok(Command::TrackUp("read".to_string())), today);
    app.hide_by_name("run");
    app.cursor = Cursor::at(day(2024, 3, 9));
    let s = app.status_at(today);
    assert_eq!(s.0, "3 completed, 8 remaining, 1 hidden --Day--");
    assert_eq!(s.1, "2024-03-09 (1 day ago)");
    app.cursor = Cursor::at(day(2024, 3, 7));
    assert_eq!(app.status_at(today).1, "2024-03-07 (3 days ago)");
}

#[test]
fn backfill_twice_is_backfill_once() {
    let today = day(2024, 3, 10);
    let mut a = Habit::Count(Count::new("x", 3, false));
    if let Habit::Count(c) = &mut a {
        c.insert_entry(today - 5, 2);
        c.insert_entry(today - 2, 1);
    }
    a.backfill_until(today);
    let once = match &a {
        Habit::Count(c) => c.stats.clone(),
        _ => unreachable!(),
    };
    a.backfill_until(today);
    let twice = match &a {
        Habit::Count(c) => c.stats.clone(),
        _ => unreachable!(),
    };
    assert_eq!(once, twice);
    assert_eq!(once.len(), 6);
}

#[test]
fn backfill_fills_every_day_up_to_today() {
    let today = day(2024, 3, 10);
    let mut b = Bit::new("walk", false);
    b.insert_entry(today - 4, CustomBool(true));
    let mut h = Habit::Bit(b);
    h.backfill_until(today);
    let Habit::Bit(b) = &h else { unreachable!() };
    for d in today - 4..=today {
        assert!(b.get_by_date(d).is_some());
    }
    assert_eq!(b.get_by_date(today - 4), Some(CustomBool(true)));
    assert_eq!(b.get_by_date(today - 3), Some(CustomBool(false)));
    assert_eq!(b.get_by_date(today - 5), None);
    assert_eq!(b.get_by_date(today + 1), None);
}

#[test]
fn backfill_of_empty_history_adds_nothing() {
    let mut h = Habit::Count(Count::new("x", 3, false));
    h.backfill_until(day(2024, 3, 10));
    let Habit::Count(c) = &h else { unreachable!() };
    assert!(c.stats.is_empty());
}

#[test]
fn backfill_by_name_reports() {
    let today = day(2024, 3, 10);
    let mut app = app_with(&["a", "b"]);
    app.backfill_by_name_until("zzz", today);
    assert_eq!(app.message.kind, MessageKind::Error);
    assert_eq!(app.message.msg, "Could not backfill habit `zzz`");
    app.backfill_by_name_until("a", today);
    assert_eq!(app.message.msg, "Habit was backfilled: `a`");
    app.backfill_by_name_until("all", today);
    assert_eq!(app.message.msg, "All habits were backfilled");
}

#[test]
fn bit_steps() {
    let d = day(2024, 3, 10);
    let mut b = Bit::new("b", false);
    b.modify(d, TrackEvent::Decrement);
    assert_eq!(b.get_by_date(d), None);
    b.modify(d, TrackEvent::Increment);
    assert_eq!(b.get_by_date(d), Some(CustomBool(true)));
    assert!(b.reached_goal(d));
    assert_eq!(b.remaining(d), 0);
    b.modify(d, TrackEvent::Decrement);
    assert_eq!(b.get_by_date(d), Some(CustomBool(false)));
    assert_eq!(b.remaining(d), 1);
    b.modify(d, TrackEvent::Decrement);
    assert_eq!(b.get_by_date(d), None);
    b.modify(d, TrackEvent::Increment);
    b.modify(d, TrackEvent::Increment);
    assert_eq!(b.get_by_date(d), Some(CustomBool(false)));
}

#[test]
fn counter_stays_at_zero() {
    let d = day(2024, 3, 10);
    let mut c = Count::new("c", 2, false);
    c.modify(d, TrackEvent::Decrement);
    assert_eq!(c.get_by_date(d), None);
    c.insert_entry(d, 1);
    c.modify(d, TrackEvent::Decrement);
    assert_eq!(c.get_by_date(d), Some(0));
    c.modify(d, TrackEvent::Decrement);
    c.modify(d, TrackEvent::Decrement);
    assert_eq!(c.get_by_date(d), Some(0));
    c.insert_entry(d, u32::MAX);
    c.modify(d, TrackEvent::Increment);
    assert_eq!(c.get_by_date(d), Some(u32::MAX));
}

#[test]
fn float_steps_by_one_unit() {
    let d = day(2024, 3, 10);
    let mut f = Float::new("water", 15, 1, false);
    f.modify(d, TrackEvent::Increment);
    f.modify(d, TrackEvent::Increment);
    assert_eq!(f.get_by_date(d), Some(2));
    assert_eq!(f.remaining(d), 13);
    f.insert_entry(d, 15);
    assert!(f.reached_goal(d));
}

#[test]
fn add_twice_keeps_count() {
    let mut app = App::new();
    app.parse_command_on(Ok(Command::Add("run".to_string(), None, false)), 0);
    assert_eq!(app.habits.len(), 1);
    assert_eq!(app.habits[0].kind(), GoalKind::Count(0));
    app.parse_command_on(Ok(Command::Add("run".to_string(), Some(GoalKind::Bit), true)), 0);
    assert_eq!(app.habits.len(), 1);
    assert_eq!(app.message.kind, MessageKind::Error);
    assert_eq!(app.message.msg, "Habit `run` already exist");
}

#[test]
fn rename_round_trip() {
    let mut app = app_with(&["a", "c"]);
    app.rename_by_name("a", "b");
    assert_eq!(app.list_habits(), vec!["b".to_string(), "c".to_string()]);
    assert_eq!(app.message.kind, MessageKind::Info);
    assert_eq!(app.message.msg, "`a` renamed to `b`");
    app.rename_by_name("b", "a");
    assert_eq!(app.list_habits(), vec!["a".to_string(), "c".to_string()]);
    assert_eq!(app.message.kind, MessageKind::Info);
}

#[test]
fn rename_errors() {
    let mut app = app_with(&["a", "c"]);
    app.rename_by_name("x", "y");
    assert_eq!(app.message.kind, MessageKind::Error);
    assert_eq!(app.message.msg, "Could not rename habit `x`: not found");
    app.rename_by_name("a", "c");
    assert_eq!(app.message.msg, "Could not rename habit `a`: `c` already exists");
    assert_eq!(app.list_habits(), vec!["a".to_string(), "c".to_string()]);
}

#[test]
fn track_touches_auto_goals_only() {
    let d = day(2024, 3, 10);
    let mut app = App::new();
    app.add_goal(&"m".to_string(), Some(GoalKind::Count(3)), false);
    app.track_on(&"m".to_string(), TrackEvent::Increment, d);
    match &app.habits[0] {
        Habit::Count(c) => assert_eq!(c.get_by_date(d), None),
        _ => unreachable!(),
    }
    app.add_goal(&"a".to_string(), Some(GoalKind::Count(3)), true);
    app.track_on(&"a".to_string(), TrackEvent::Increment, d);
    match &app.habits[1] {
        Habit::Count(c) => assert_eq!(c.get_by_date(d), Some(1)),
        _ => unreachable!(),
    }
}

#[test]
fn store_split_and_rebuild() {
    let mut app = App::new();
    app.add_goal(&"a".to_string(), Some(GoalKind::Bit), true);
    app.add_goal(&"m".to_string(), Some(GoalKind::Count(2)), false);
    app.add_goal(&"f".to_string(), Some(GoalKind::Float(10, 1)), true);
    let (manual, auto) = app.provenance_split();
    assert_eq!(manual, vec![1]);
    assert_eq!(auto, vec![0, 2]);
    let back = App::from_stores(vec![Habit::create("m", GoalKind::Count(2), false)], vec![
        Habit::create("a", GoalKind::Bit, true),
        Habit::create("f", GoalKind::Float(10, 1), true),
    ]);
    assert_eq!(back.list_habits(), vec!["m".to_string(), "a".to_string(), "f".to_string()]);
    let empty = App::from_stores(vec![], vec![]);
    assert!(empty.habits.is_empty());
}

#[test]
fn month_steps_clamp_to_month_end() {
    let mut app = app_with(&["a"]);
    app.cursor = Cursor::at(day(2024, 1, 31));
    let mut inner = app.habits[0].inner_data();
    inner.cursor = Cursor::at(day(2023, 1, 31));
    app.habits[0].set_inner_data(inner);
    app.sift_forward();
    assert_eq!(app.cursor.day, day(2024, 2, 29));
    assert_eq!(app.habits[0].inner_data().cursor.day, day(2023, 2, 28));
    app.sift_backward();
    assert_eq!(app.cursor.day, day(2024, 1, 29));
}

#[test]
fn move_cursor_steps_days_and_weeks() {
    let mut app = app_with(&["a"]);
    app.cursor = Cursor::at(100);
    app.habits[0].set_cursor(Cursor::at(100));
    app.move_cursor(Absolute::Down);
    assert_eq!(app.cursor.day, 107);
    app.move_cursor(Absolute::Left);
    assert_eq!(app.cursor.day, 106);
    assert_eq!(app.habits[0].inner_data().cursor.day, 106);
    let mut c = Cursor::at(i32::MAX);
    c.small_seek(Absolute::Right);
    assert_eq!(c.day, i32::MAX);
}

#[test]
fn modes_and_visibility() {
    let mut app = app_with(&["a", "b"]);
    assert_eq!(app.get_mode(), ViewMode::Day);
    app.set_mode(ViewMode::Month);
    assert_eq!(app.get_mode(), ViewMode::Month);
    app.hide_by_name("b");
    assert!(!app.habits[1].is_visible());
    assert_eq!(app.message.msg, "Habit was hidden: `b`");
    app.unhide_by_name("b");
    assert!(app.habits[1].is_visible());
    app.unhide_by_name("q");
    assert_eq!(app.message.msg, "Habit not found: `q`");
    assert_eq!(App::new().get_mode(), ViewMode::Day);
}

#[test]
fn commands_and_errors() {
    let mut app = App::new();
    assert_eq!(app.parse_command_on(Ok(Command::Write), 0), Effect::Save);
    assert_eq!(app.parse_command_on(Ok(Command::Quit), 0), Effect::SaveAndQuit);
    assert_eq!(app.parse_command_on(Ok(Command::Blank), 0), Effect::Nothing);
    app.parse_command_on(Ok(Command::Help(Some("bf".to_string()))), 0);
    assert_eq!(app.message.msg, "backfill <habit-name>    (alias: bf)");
    app.parse_command_on(Ok(Command::Help(None)), 0);
    assert_eq!(app.message.msg, "help <command>|commands|keys");
    app.parse_command_on(Err(CommandLineError::InvalidArg(12)), 0);
    assert_eq!(app.message.kind, MessageKind::Error);
    assert_eq!(app.message.msg, "Invalid argument at position 12");
    app.parse_command_on(Err(CommandLineError::NotEnoughArgs("add".to_string(), 1)), 0);
    assert_eq!(app.message.msg, "Command `add` requires atleast 1 argument(s)!");
    app.clear_message();
    assert_eq!(app.message.msg, "");
    assert_eq!(app.message.kind, MessageKind::Info);
}

#[test]
fn custom_bool_from_bool() {
    assert_eq!(CustomBool::from(true), CustomBool(true));
}

#[test]
fn grid_size_counts_rows() {
    assert_eq!(App::new().max_size(), (75, 2));
    assert_eq!(app_with(&["a", "b", "c"]).max_size(), (75, 10));
    assert_eq!(app_with(&["a", "b", "c", "d"]).max_size(), (75, 18));
}

#[test]
fn reload_auto_replaces_auto_goals_only() {
    let mut app = App::new();
    app.add_goal(&"a1".to_string(), Some(GoalKind::Bit), true);
    app.add_goal(&"m".to_string(), Some(GoalKind::Count(2)), false);
    app.add_goal(&"a2".to_string(), Some(GoalKind::Bit), true);
    app.reload_auto(vec![Habit::create("a3", GoalKind::Count(1), true)]);
    assert_eq!(app.list_habits(), vec!["m".to_string(), "a3".to_string()]);
}

#[test]
fn delete_of_missing_goal_keeps_focus() {
    let mut app = app_with(&["a", "b"]);
    app.focus = 1;
    app.parse_command_on(Ok(Command::Delete("zz".to_string())), 0);
    assert_eq!(app.focus, 1);
    assert_eq!(app.habits.len(), 2);
}

#[test]
fn focus_counts_visible_goals_only() {
    let today = day(2024, 3, 10);
    let mut app = app_with(&["a", "b"]);
    app.hide_by_name("a");
    app.focus = 0;
    app.set_mode(ViewMode::Week);
    assert_eq!(app.habits[0].view_mode(), ViewMode::Day);
    assert_eq!(app.habits[1].view_mode(), ViewMode::Week);
    assert_eq!(app.get_mode(), ViewMode::Week);
    app.cursor = Cursor::at(today);
    assert_eq!(app.status_at(today).0, "0 completed, 10 remaining, 1 hidden --Week--");
    app.focus = 1;
    assert_eq!(app.get_mode(), ViewMode::Day);
}

#[test]
fn focus_stay_keeps_focus_without_visible_goals() {
    let mut app = app_with(&["a", "b", "c"]);
    app.focus = 2;
    app.hide_by_name("a");
    app.hide_by_name("b");
    app.hide_by_name("c");
    app.set_focus(Absolute::Stay);
    assert_eq!(app.focus, 2);
    app.set_focus(Absolute::Left);
    assert_eq!(app.focus, 0);
}

#[test]
fn bit_reached_only_on_true() {
    let d = day(2024, 3, 10);
    let mut b = Bit::new("b", false);
    b.goal = CustomBool(false);
    assert!(!b.reached_goal(d));
    b.insert_entry(d, CustomBool(false));
    assert!(!b.reached_goal(d));
    b.insert_entry(d, CustomBool(true));
    assert!(b.reached_goal(d));
    assert!(Habit::Bit(b).reached_goal(d));
}

#[test]
fn help_for_keys() {
    let mut app = App::new();
    app.parse_command_on(Ok(Command::Help(Some("keys".to_string()))), 0);
    assert_eq!(app.message.msg, "TODO");
    app.parse_command_on(Ok(Command::Help(Some("nope".to_string()))), 0);
    assert_eq!(app.message.msg, "unknown command or help topic.");
}

#[test]
fn clock_reading_calls_apply_their_command() {
    let mut app = app_with(&["a"]);
    app.backfill_by_name("zz");
    assert_eq!(app.message.kind, MessageKind::Error);
    app.parse_command(Ok(Command::Add("a".to_string(), None, false)));
    assert_eq!(app.habits.len(), 1);
    assert_eq!(app.message.msg, "Habit `a` already exist");
    let s = app.status();
    assert!(s.0.ends_with("0 hidden --Day--"));
}
