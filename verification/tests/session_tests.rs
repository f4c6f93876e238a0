use gridedit::marks::CellMark;
use gridedit::session::{Action, App, Key, KeyPress, Mode, StatusMessage};

fn plain(code: Key) -> KeyPress {
    KeyPress { code, ctrl: false, shift: false }
}

fn shifted(code: Key) -> KeyPress {
    KeyPress { code, ctrl: false, shift: true }
}

fn ctrl(code: Key) -> KeyPress {
    KeyPress { code, ctrl: true, shift: false }
}

fn fresh_session() -> App {
    App::new(umya_spreadsheet::new_file())
}

#[test]
fn fresh_document_has_one_sheet_and_no_used_cells() {
    let mut app = fresh_session();
    assert_eq!(app.get_sheet_names().len(), 1);
    assert_eq!(app.cursor, (1, 1));
    assert_eq!(app.mode, Mode::View);
    app.jump_to_end();
    assert_eq!(app.cursor, (1, 1));
}

#[test]
fn movement_clamps_to_document_bounds() {
    let mut app = fresh_session();
    app.move_cursor(-5, -5, false);
    assert_eq!(app.cursor, (1, 1));
    app.move_cursor(0, 100_000, false);
    assert_eq!(app.cursor, (65536, 1));
    app.move_cursor(100_000, 0, false);
    assert_eq!(app.cursor, (65536, 256));
    app.move_cursor(5, 5, false);
    assert_eq!(app.cursor, (65536, 256));
}

#[test]
fn extend_then_collapse_gives_single_cell_at_cursor() {
    let mut app = fresh_session();
    app.move_cursor(2, 3, false);
    app.move_cursor(1, 1, true);
    app.move_cursor(1, 0, true);
    assert!(!app.selection.is_single());
    assert_eq!(app.selection.start, (4, 3));
    app.move_cursor(0, 1, false);
    assert!(app.selection.is_single());
    assert_eq!(app.selection.start, app.cursor);
    assert_eq!(app.selection.end, app.cursor);
}

#[test]
fn scroll_follows_cursor_by_the_overshoot() {
    let mut app = fresh_session();
    app.set_viewport_size(5, 4);
    for _ in 0..7 {
        app.on_key(plain(Key::Down));
    }
    assert_eq!(app.cursor.0, 8);
    assert_eq!(app.scroll.0, 3);
    app.jump_to_start();
    assert_eq!(app.scroll, (0, 0));
}

#[test]
fn column_width_shrinks_by_steps_down_to_the_minimum() {
    let mut app = fresh_session();
    app.move_cursor(2, 0, false);
    assert_eq!(app.cursor.1, 3);
    assert_eq!(app.get_column_width(3), 10);
    app.shrink_column();
    assert_eq!(app.get_column_width(3), 8);
    app.shrink_column();
    assert_eq!(app.get_column_width(3), 6);
    app.shrink_column();
    assert_eq!(app.get_column_width(3), 4);
    app.shrink_column();
    assert_eq!(app.get_column_width(3), 3);
    assert_eq!(app.status_message, Some(StatusMessage::ColumnAtMinimum(3)));
    app.shrink_column();
    assert_eq!(app.get_column_width(3), 3);
    assert_eq!(app.get_column_width(4), 10);
}

#[test]
fn column_width_widens_up_to_the_maximum() {
    let mut app = fresh_session();
    for _ in 0..25 {
        app.widen_column();
    }
    assert_eq!(app.get_column_width(1), 50);
    assert_eq!(app.status_message, Some(StatusMessage::ColumnAtMaximum(50)));
}

#[test]
fn viewport_columns_accumulate_widths_greedily() {
    let app = fresh_session();
    assert_eq!(app.compute_viewport_cols(22), 2);
    assert_eq!(app.compute_viewport_cols(21), 1);
    assert_eq!(app.compute_viewport_cols(33), 3);
    assert_eq!(app.compute_viewport_cols(5), 1);
    assert_eq!(app.compute_viewport_rows(0), 1);
    assert_eq!(app.compute_viewport_rows(12), 12);
}

#[test]
fn copy_then_paste_reproduces_the_rectangle() {
    let mut app = fresh_session();
    {
        let sheet = app.book.sheet_mut(0).unwrap();
        sheet.cell_mut((1, 1)).set_value("a1");
        sheet.cell_mut((2, 1)).set_value("b1");
        sheet.cell_mut((1, 2)).set_value("a2");
        sheet.cell_mut((2, 2)).set_value("b2");
    }
    app.move_cursor(1, 1, true);
    app.copy_selection();
    assert_eq!(app.status_message, Some(StatusMessage::Copied(4)));
    app.move_cursor(3, 3, false);
    assert_eq!(app.cursor, (5, 5));
    app.paste_clipboard();
    assert_eq!(app.status_message, Some(StatusMessage::Pasted(2, 2)));
    let sheet = app.book.sheet(0).unwrap();
    assert_eq!(sheet.cell_value((5, 5)).value(), "a1");
    assert_eq!(sheet.cell_value((6, 5)).value(), "b1");
    assert_eq!(sheet.cell_value((5, 6)).value(), "a2");
    assert_eq!(sheet.cell_value((6, 6)).value(), "b2");
}

#[test]
fn paste_past_the_edge_clips_and_touches_nothing_else() {
    let mut app = fresh_session();
    {
        let sheet = app.book.sheet_mut(0).unwrap();
        sheet.cell_mut((1, 1)).set_value("top");
        sheet.cell_mut((1, 2)).set_value("bottom");
    }
    app.move_cursor(0, 1, true);
    app.copy_selection();
    app.move_cursor(0, 100_000, false);
    assert_eq!(app.cursor, (65536, 1));
    app.paste_clipboard();
    assert_eq!(app.status_message, Some(StatusMessage::Pasted(2, 1)));
    let sheet = app.book.sheet(0).unwrap();
    assert_eq!(sheet.cell_value((1, 65536)).value(), "top");
    assert_eq!(sheet.highest_column_and_row().1, 65536);
}

#[test]
fn paste_with_empty_clipboard_reports_and_changes_nothing() {
    let mut app = fresh_session();
    app.paste_clipboard();
    assert_eq!(app.status_message, Some(StatusMessage::ClipboardEmpty));
    assert_eq!(app.book.sheet(0).unwrap().highest_column_and_row(), (0, 0));
}

#[test]
fn marking_a_block_and_clearing_it_leaves_no_residue() {
    let mut app = fresh_session();
    app.move_cursor(1, 1, true);
    app.set_mark_for_selection(CellMark::YellowBg);
    assert_eq!(app.status_message, Some(StatusMessage::Marked(4, CellMark::YellowBg)));
    for row in 1..=2 {
        for col in 1..=2 {
            assert_eq!(app.get_cell_mark(row, col), CellMark::YellowBg);
        }
    }
    app.set_mark_for_selection(CellMark::Unmarked);
    assert_eq!(app.status_message, Some(StatusMessage::Marked(4, CellMark::Unmarked)));
    for row in 1..=2 {
        for col in 1..=2 {
            assert_eq!(app.get_cell_mark(row, col), CellMark::Unmarked);
        }
    }
    let sheet = app.book.sheet(0).unwrap();
    for row in 1..=2u32 {
        for col in 1..=2u32 {
            let cell = sheet.cell((col, row)).unwrap();
            let bg = cell
                .style()
                .fill()
                .and_then(|f| f.pattern_fill())
                .and_then(|pf| pf.foreground_color())
                .map(|c| c.argb_str())
                .unwrap_or_default();
            assert_eq!(bg, "");
            let font = cell.style().font().map(|f| f.color().argb_str()).unwrap_or_default();
            assert_eq!(font, "FF000001");
        }
    }
    let reloaded = App::new(app.book);
    for row in 1..=2 {
        for col in 1..=2 {
            assert_eq!(reloaded.get_cell_mark(row, col), CellMark::Unmarked);
        }
    }
}

#[test]
fn marks_survive_a_reload_through_the_styles() {
    let mut app = fresh_session();
    app.set_mark_for_selection(CellMark::YellowBg);
    app.move_cursor(0, 1, false);
    app.set_mark_for_selection(CellMark::RedText);
    let reloaded = App::new(app.book);
    assert_eq!(reloaded.get_cell_mark(1, 1), CellMark::YellowBg);
    assert_eq!(reloaded.get_cell_mark(2, 1), CellMark::RedText);
    assert_eq!(reloaded.get_cell_mark(3, 1), CellMark::Unmarked);
}

#[test]
fn naturally_colored_cells_load_as_marks() {
    let mut book = umya_spreadsheet::new_file();
    {
        let sheet = book.sheet_mut(0).unwrap();
        let style = sheet.cell_mut((1, 1)).style_mut();
        let mut color = umya_spreadsheet::Color::default();
        color.set_argb_str("FFFF0000");
        style.font_mut().set_color(color);
        sheet.cell_mut((2, 2)).style_mut().set_background_color_solid("FFFFFF00");
    }
    let app = App::new(book);
    assert_eq!(app.get_cell_mark(1, 1), CellMark::RedText);
    assert_eq!(app.get_cell_mark(2, 2), CellMark::YellowBg);
}

#[test]
fn formula_with_empty_cached_result_shows_placeholder() {
    let mut app = fresh_session();
    {
        let sheet = app.book.sheet_mut(0).unwrap();
        sheet.cell_mut((1, 1)).set_formula("A2+1");
    }
    assert!(app.is_formula_cell(1, 1));
    assert_eq!(app.get_cell_display(1, 1), "=...");
    app.enter_edit_mode();
    assert_eq!(app.mode, Mode::View);
    assert_eq!(
        app.status_message,
        Some(StatusMessage::FormulaReadOnly(String::from("A2+1")))
    );
    let sheet = app.book.sheet(0).unwrap();
    assert_eq!(sheet.cell_value((1, 1)).value(), "");
    assert_eq!(sheet.cell_value((1, 1)).formula(), "A2+1");
}

#[test]
fn formula_with_cached_result_shows_the_result() {
    let mut app = fresh_session();
    {
        let sheet = app.book.sheet_mut(0).unwrap();
        let cell = sheet.cell_mut((1, 1));
        cell.set_value("42");
        cell.set_formula("A2+1");
    }
    assert!(app.is_formula_cell(1, 1));
    assert_eq!(app.get_cell_display(1, 1), "42");
}

#[test]
fn long_values_truncate_to_the_column_width() {
    let mut app = fresh_session();
    {
        let sheet = app.book.sheet_mut(0).unwrap();
        sheet.cell_mut((1, 1)).set_value("0123456789ABC");
    }
    assert_eq!(app.get_cell_display(1, 1), "012345678~");
}

#[test]
fn date_formatted_values_display_in_canonical_form() {
    let mut app = fresh_session();
    {
        let sheet = app.book.sheet_mut(0).unwrap();
        let cell = sheet.cell_mut((1, 1));
        cell.set_value("45000");
        cell.style_mut().number_format_mut().set_format_code("m/d/yy");
    }
    assert_eq!(app.get_cell_display(1, 1), "2023-03-15");
}

#[test]
fn numeric_formats_apply_to_the_value() {
    let mut app = fresh_session();
    {
        let sheet = app.book.sheet_mut(0).unwrap();
        let cell = sheet.cell_mut((1, 1));
        cell.set_value("3.14159");
        cell.style_mut().number_format_mut().set_format_code("0.00");
    }
    assert_eq!(app.get_cell_display(1, 1), "3.14");
}

#[test]
fn wild_format_codes_fall_back_to_the_raw_value() {
    let mut app = fresh_session();
    {
        let sheet = app.book.sheet_mut(0).unwrap();
        let cell = sheet.cell_mut((1, 1));
        cell.set_value("5");
        cell.style_mut().number_format_mut().set_format_code("\"abc\"");
    }
    assert_eq!(app.get_cell_display(1, 1), "5");
}

#[test]
fn out_of_range_day_numbers_fall_back_to_the_raw_value() {
    let mut app = fresh_session();
    {
        let sheet = app.book.sheet_mut(0).unwrap();
        let cell = sheet.cell_mut((1, 1));
        cell.set_value("99999999");
        cell.style_mut().number_format_mut().set_format_code("yyyy/mm/dd");
    }
    assert_eq!(app.get_cell_display(1, 1), "99999999");
}

#[test]
fn multi_section_numeric_formats_apply() {
    let mut app = fresh_session();
    {
        let sheet = app.book.sheet_mut(0).unwrap();
        let cell = sheet.cell_mut((1, 1));
        cell.set_value("5");
        cell.style_mut().number_format_mut().set_format_code("0.00;-0.00");
    }
    assert_eq!(app.get_cell_display(1, 1), "5.00");
}

#[test]
fn general_format_displays_the_raw_value() {
    let mut app = fresh_session();
    {
        let sheet = app.book.sheet_mut(0).unwrap();
        sheet.cell_mut((1, 1)).set_value("hello");
    }
    assert_eq!(app.get_cell_display(1, 1), "hello");
}

#[test]
fn editing_commits_text_and_advances_down() {
    let mut app = fresh_session();
    app.on_key(plain(Key::F(2)));
    assert_eq!(app.mode, Mode::Edit);
    app.on_key(plain(Key::Char('h')));
    app.on_key(plain(Key::Char('i')));
    app.on_key(plain(Key::Char('!')));
    app.on_key(plain(Key::Backspace));
    app.on_key(plain(Key::Enter));
    assert_eq!(app.mode, Mode::View);
    assert_eq!(app.cursor, (2, 1));
    assert_eq!(app.book.sheet(0).unwrap().cell_value((1, 1)).value(), "hi");
}

#[test]
fn editing_with_tab_advances_right_and_replaces_formulas() {
    let mut app = fresh_session();
    {
        let sheet = app.book.sheet_mut(0).unwrap();
        sheet.cell_mut((1, 1)).set_value("old");
    }
    app.on_key(plain(Key::F(2)));
    assert_eq!(app.mode, Mode::Edit);
    app.on_key(plain(Key::Backspace));
    app.on_key(plain(Key::Backspace));
    app.on_key(plain(Key::Backspace));
    app.on_key(plain(Key::Char('x')));
    app.on_key(plain(Key::Tab));
    assert_eq!(app.mode, Mode::View);
    assert_eq!(app.cursor, (1, 2));
    assert_eq!(app.book.sheet(0).unwrap().cell_value((1, 1)).value(), "x");
}

#[test]
fn edit_cancel_discards_the_buffer() {
    let mut app = fresh_session();
    app.on_key(plain(Key::F(2)));
    app.on_key(plain(Key::Char('z')));
    app.on_key(plain(Key::Esc));
    assert_eq!(app.mode, Mode::View);
    assert_eq!(app.book.sheet(0).unwrap().highest_column_and_row(), (0, 0));
}

#[test]
fn sheet_picker_cycles_and_confirms() {
    let mut book = umya_spreadsheet::new_file();
    book.new_sheet("Second").unwrap();
    book.new_sheet("Third").unwrap();
    let mut app = App::new(book);
    let names = app.get_sheet_names();
    assert_eq!(names.len(), 3);
    assert_eq!(names[0], "Sheet1");
    assert_eq!(names[1], "Second");
    assert_eq!(names[2], "Third");
    app.on_key(plain(Key::F(4)));
    assert_eq!(app.mode, Mode::SheetSelect);
    assert_eq!(app.sheet_select_index, 0);
    app.on_key(plain(Key::Down));
    assert_eq!(app.sheet_select_index, 1);
    app.on_key(plain(Key::Up));
    app.on_key(plain(Key::Up));
    assert_eq!(app.sheet_select_index, 2);
    app.on_key(plain(Key::Enter));
    assert_eq!(app.mode, Mode::View);
    assert_eq!(app.current_sheet_index, 2);
}

#[test]
fn sheet_picker_cancel_keeps_the_active_sheet() {
    let mut book = umya_spreadsheet::new_file();
    book.new_sheet("Second").unwrap();
    let mut app = App::new(book);
    app.on_key(plain(Key::F(4)));
    app.on_key(plain(Key::Down));
    app.on_key(plain(Key::Esc));
    assert_eq!(app.mode, Mode::View);
    assert_eq!(app.current_sheet_index, 0);
}

#[test]
fn page_keys_cycle_the_active_sheet() {
    let mut book = umya_spreadsheet::new_file();
    book.new_sheet("Second").unwrap();
    let mut app = App::new(book);
    app.on_key(plain(Key::PageDown));
    assert_eq!(app.current_sheet_index, 1);
    app.on_key(plain(Key::PageDown));
    assert_eq!(app.current_sheet_index, 0);
    app.on_key(plain(Key::PageUp));
    assert_eq!(app.current_sheet_index, 1);
}

#[test]
fn quit_and_save_keys_report_their_actions() {
    let mut app = fresh_session();
    let a = app.on_key(ctrl(Key::Char('s')));
    assert_eq!(a, Action::Save);
    assert!(!app.should_quit);
    let a = app.on_key(ctrl(Key::Char('w')));
    assert_eq!(a, Action::Nothing);
    assert!(app.should_quit);
}

#[test]
fn wasd_and_shift_extend_selection() {
    let mut app = fresh_session();
    app.on_key(plain(Key::Char('s')));
    app.on_key(plain(Key::Char('d')));
    assert_eq!(app.cursor, (2, 2));
    app.on_key(shifted(Key::Char('s')));
    app.on_key(shifted(Key::Char('d')));
    assert_eq!(app.cursor, (3, 3));
    assert_eq!(app.selection.start, (2, 2));
    assert_eq!(app.selection.end, (3, 3));
    app.on_key(plain(Key::Esc));
    assert!(app.selection.is_single());
    assert_eq!(app.selection.start, (3, 3));
}

#[test]
fn home_and_end_jump_within_the_row() {
    let mut app = fresh_session();
    {
        let sheet = app.book.sheet_mut(0).unwrap();
        sheet.cell_mut((7, 4)).set_value("x");
    }
    app.on_key(plain(Key::Down));
    app.on_key(plain(Key::End));
    assert_eq!(app.cursor, (2, 7));
    app.on_key(plain(Key::Home));
    assert_eq!(app.cursor, (2, 1));
    app.on_key(ctrl(Key::End));
    assert_eq!(app.cursor, (4, 7));
    app.on_key(ctrl(Key::Home));
    assert_eq!(app.cursor, (1, 1));
}

#[test]
fn mark_keys_apply_each_variant() {
    let mut app = fresh_session();
    app.on_key(plain(Key::Char('3')));
    assert_eq!(app.get_cell_mark(1, 1), CellMark::RedText);
    app.on_key(plain(Key::Char('4')));
    assert_eq!(app.get_cell_mark(1, 1), CellMark::GreenText);
    app.on_key(plain(Key::Char('5')));
    assert_eq!(app.get_cell_mark(1, 1), CellMark::BlueBg);
    app.on_key(plain(Key::Char('6')));
    assert_eq!(app.get_cell_mark(1, 1), CellMark::MagentaText);
    app.on_key(plain(Key::Char('2')));
    assert_eq!(app.get_cell_mark(1, 1), CellMark::YellowBg);
    app.on_key(plain(Key::Char('1')));
    assert_eq!(app.get_cell_mark(1, 1), CellMark::Unmarked);
}

#[test]
fn width_keys_widen_and_shrink_the_cursor_column() {
    let mut app = fresh_session();
    app.on_key(plain(Key::Char('e')));
    assert_eq!(app.get_column_width(1), 12);
    app.on_key(plain(Key::Char('r')));
    app.on_key(plain(Key::Char('r')));
    assert_eq!(app.get_column_width(1), 8);
}

#[test]
fn paste_past_the_right_edge_clips_columns() {
    let mut app = fresh_session();
    {
        let sheet = app.book.sheet_mut(0).unwrap();
        sheet.cell_mut((1, 1)).set_value("left");
        sheet.cell_mut((2, 1)).set_value("right");
    }
    app.move_cursor(1, 0, true);
    app.copy_selection();
    app.move_cursor(1000, 0, false);
    assert_eq!(app.cursor, (1, 256));
    app.paste_clipboard();
    assert_eq!(app.status_message, Some(StatusMessage::Pasted(1, 2)));
    let sheet = app.book.sheet(0).unwrap();
    assert_eq!(sheet.cell_value((256, 1)).value(), "left");
    assert_eq!(sheet.highest_column_and_row().0, 256);
}
