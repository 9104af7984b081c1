use rscan::action::Action;
use rscan::cli::Cli;
use rscan::message::{Key, Message};
use rscan::state::{map_key_event_to_action, AppState};
use rscan::tui::{centering_percentages, loop_step, stop_step, LoopEvent, LoopStep, StopStep};
use rscan::table::{
    add_row_to_table, create_module_separator, create_module_table, create_styled_table,
    error_cell, header_cell, labeled_row, normal_cell, Alignment, Cell, CellStyle, Row, Table,
    TableFormat,
};

#[test]
fn cells_carry_their_style() {
    let h = header_cell("Title");
    assert_eq!(h.content, "Title");
    assert_eq!(h.style, CellStyle::Header);
    assert_eq!(h.align, Alignment::Left);
    assert_eq!(h.hspan, 1);
    let n = normal_cell("text");
    assert_eq!(n, Cell { content: "text".to_string(), style: CellStyle::Normal, align: Alignment::Left, hspan: 1 });
    let e = error_cell("bad");
    assert_eq!(e.style, CellStyle::Error);
    assert_eq!(e.content, "bad");
}

#[test]
fn span_of_zero_counts_as_one() {
    assert_eq!(Cell::new("x").with_hspan(0).hspan, 1);
    assert_eq!(Cell::new("x").with_hspan(1).hspan, 1);
    assert_eq!(Cell::new("x").with_hspan(3).hspan, 3);
    assert_eq!(Cell::new_align("x", Alignment::Right).align, Alignment::Right);
}

#[test]
fn rows_are_built_from_cells() {
    let separator = create_module_separator("Gateway");
    assert_eq!(separator.cells, vec![header_cell("Gateway")]);
    let row = labeled_row("IP Address", "10.0.0.1");
    assert_eq!(row.cells, vec![header_cell("IP Address"), normal_cell("10.0.0.1")]);
    assert_eq!(row.len(), 2);
    let texts = Row::from_texts(&vec!["a", "", "c"]);
    assert_eq!(texts.cells, vec![normal_cell("a"), normal_cell(""), normal_cell("c")]);
    assert_eq!(Row::from_texts(&vec![]).len(), 0);
}

#[test]
fn tables_collect_rows_in_order() {
    let mut table = create_module_table();
    assert_eq!(table.format, TableFormat::NoBorderLineSeparator);
    assert_eq!(table.titles, None);
    assert_eq!(table.len(), 0);
    add_row_to_table(&mut table, labeled_row("a", "1"));
    add_row_to_table(&mut table, labeled_row("b", "2"));
    assert_eq!(table.rows, vec![labeled_row("a", "1"), labeled_row("b", "2")]);
    assert_eq!(table.format, TableFormat::NoBorderLineSeparator);
    let mut plain = Table::new();
    assert_eq!(plain.format, TableFormat::Default);
    plain.set_titles(Row::from_texts(&vec!["x"]));
    plain.add_row(Row::from_texts(&vec!["y"]));
    plain.set_format(TableFormat::NoBorderLineSeparator);
    assert_eq!(plain.titles, Some(Row::from_texts(&vec!["x"])));
    assert_eq!(plain.rows, vec![Row::from_texts(&vec!["y"])]);
    assert_eq!(plain.format, TableFormat::NoBorderLineSeparator);
}

#[test]
fn styled_table_has_a_centred_title() {
    let table = create_styled_table("DNS Server", 2);
    let title = Cell { content: "DNS Server".to_string(), style: CellStyle::Normal, align: Alignment::Center, hspan: 2 };
    assert_eq!(table.titles, Some(Row::new(vec![title])));
    assert!(table.rows.is_empty());
    assert_eq!(table.format, TableFormat::Default);
    assert_eq!(create_styled_table("x", 0).titles.unwrap().cells[0].hspan, 1);
}

#[test]
fn keys_map_to_actions() {
    assert_eq!(map_key_event_to_action(Key::Char('q')), Some(Action::Quit));
    assert_eq!(map_key_event_to_action(Key::Char('Q')), Some(Action::Nothing));
    assert_eq!(map_key_event_to_action(Key::Char('x')), Some(Action::Nothing));
    assert_eq!(map_key_event_to_action(Key::Other), Some(Action::Nothing));
}

#[test]
fn messages_map_to_actions() {
    let state = AppState::new();
    assert_eq!(state.handle_event(&Message::Quit), Some(Action::Quit));
    assert_eq!(state.handle_event(&Message::Tick), Some(Action::Tick));
    assert_eq!(state.handle_event(&Message::Init), Some(Action::Render));
    assert_eq!(state.handle_event(&Message::Render), Some(Action::Render));
    assert_eq!(state.handle_event(&Message::Key(Key::Char('q'))), Some(Action::Quit));
    assert_eq!(state.handle_event(&Message::Key(Key::Other)), Some(Action::Nothing));
    assert_eq!(state.handle_event(&Message::Error), None);
    assert_eq!(state.handle_event(&Message::Closed), None);
    assert_eq!(state.handle_event(&Message::FocusGained), None);
    assert_eq!(state.handle_event(&Message::FocusLost), None);
    assert_eq!(state.handle_event(&Message::Paste("q".to_string())), None);
    assert_eq!(state.handle_event(&Message::Mouse(1, 2)), None);
    assert_eq!(state.handle_event(&Message::Resize(80, 24)), None);
}

#[test]
fn only_quit_changes_the_state() {
    let mut state = AppState::new();
    assert!(!state.should_quit);
    for action in [Action::Tick, Action::Increment, Action::Decrement, Action::Render, Action::Nothing] {
        assert_eq!(state.update(action), None);
        assert!(!state.should_quit);
    }
    assert_eq!(state.update(Action::Quit), None);
    assert!(state.should_quit);
    assert_eq!(state.update(Action::Tick), None);
    assert!(state.should_quit);
}

#[test]
fn step_handles_a_message_to_the_end() {
    let mut state = AppState::new();
    state.step(&Message::Tick);
    assert!(!state.should_quit);
    state.step(&Message::Key(Key::Char('a')));
    assert!(!state.should_quit);
    state.step(&Message::Resize(1, 1));
    assert!(!state.should_quit);
    state.step(&Message::Key(Key::Char('q')));
    assert!(state.should_quit);
    let mut other = AppState::new();
    other.step(&Message::Quit);
    assert!(other.should_quit);
}

#[test]
fn cli_defaults() {
    let cli = Cli::default();
    assert_eq!(cli.config_dir, "~/.config/rscantui");
    assert_eq!(cli.log_dir, "~/.local/share/rscantui/logs");
    assert_eq!(cli.data_dir, "~/.rscantui");
    assert_eq!(cli.framerate, 30);
    assert_eq!(cli.tick_rate, 10);
}

#[test]
fn event_loop_steps() {
    assert_eq!(loop_step(LoopEvent::Started), LoopStep::Send(Message::Init));
    assert_eq!(loop_step(LoopEvent::Cancelled), LoopStep::Stop);
    assert_eq!(loop_step(LoopEvent::Input(Message::Resize(3, 4))), LoopStep::Send(Message::Resize(3, 4)));
    assert_eq!(loop_step(LoopEvent::InputFailed), LoopStep::Send(Message::Error));
    assert_eq!(loop_step(LoopEvent::InputClosed), LoopStep::Skip);
    assert_eq!(loop_step(LoopEvent::TickDue), LoopStep::Send(Message::Tick));
    assert_eq!(loop_step(LoopEvent::RenderDue), LoopStep::Send(Message::Render));
}

#[test]
fn stop_aborts_after_fifty_and_gives_up_after_a_hundred() {
    assert_eq!(stop_step(0), StopStep { abort: false, give_up: false });
    assert_eq!(stop_step(50), StopStep { abort: false, give_up: false });
    assert_eq!(stop_step(51), StopStep { abort: true, give_up: false });
    assert_eq!(stop_step(100), StopStep { abort: true, give_up: false });
    assert_eq!(stop_step(101), StopStep { abort: true, give_up: true });
}

#[test]
fn centering_splits_what_is_left_in_two() {
    assert_eq!(centering_percentages(80), (10, 80, 10));
    assert_eq!(centering_percentages(100), (0, 100, 0));
    assert_eq!(centering_percentages(0), (50, 0, 50));
    assert_eq!(centering_percentages(51), (24, 51, 24));
}
