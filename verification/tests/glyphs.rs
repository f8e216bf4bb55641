use glyph_outline::bbox::PathError;
use glyph_outline::command::{PathCommand, CommandKind, Position};
use glyph_outline::chars::{
    contains_char, file_stem, first_char, glyph_character, is_ascii_char, to_lower, to_upper,
};
use glyph_outline::glyph::{copy_path, make_sheet, Glyph, GlyphTable, RecordError};
use glyph_outline::rect::{Rect, COORD_LIMIT};

fn square(width: i64, height: i64) -> Vec<PathCommand> {
    vec![
        PathCommand { kind: CommandKind::Move, position: Position::Absolute, params: vec![0, 0] },
        PathCommand { kind: CommandKind::Line, position: Position::Absolute, params: vec![width, 0] },
        PathCommand { kind: CommandKind::Line, position: Position::Relative, params: vec![0, height] },
        PathCommand { kind: CommandKind::Close, position: Position::Absolute, params: vec![] },
    ]
}

fn offsets_only() -> Vec<PathCommand> {
    vec![PathCommand { kind: CommandKind::Line, position: Position::Relative, params: vec![1, 1] }]
}

#[test]
fn case_folding_touches_letters_only() {
    assert_eq!(to_lower('A'), 'a');
    assert_eq!(to_lower('Z'), 'z');
    assert_eq!(to_lower('q'), 'q');
    assert_eq!(to_lower('@'), '@');
    assert_eq!(to_lower('['), '[');
    assert_eq!(to_lower('É'), 'É');
    assert_eq!(to_upper('a'), 'A');
    assert_eq!(to_upper('z'), 'Z');
    assert_eq!(to_upper('Q'), 'Q');
    assert_eq!(to_upper('`'), '`');
    assert_eq!(to_upper('{'), '{');
    assert_eq!(to_upper('1'), '1');
    assert_eq!(to_upper('é'), 'é');
}

#[test]
fn ascii_ends_at_127() {
    assert!(is_ascii_char('\u{0}'));
    assert!(is_ascii_char('\u{7f}'));
    assert!(!is_ascii_char('\u{80}'));
    assert!(!is_ascii_char('é'));
}

#[test]
fn first_character_of_a_text() {
    assert_eq!(first_char("abc"), Some('a'));
    assert_eq!(first_char("é"), Some('é'));
    assert_eq!(first_char(""), None);
}

#[test]
fn glyph_names_are_decoded() {
    assert_eq!(glyph_character("A"), Some('A'));
    assert_eq!(glyph_character("&lt;"), Some('<'));
    assert_eq!(glyph_character("&#x41;"), Some('A'));
    assert_eq!(glyph_character("&#66;x"), Some('B'));
    assert_eq!(glyph_character("&eacute;"), Some('é'));
    assert_eq!(glyph_character(""), None);
}

#[test]
fn file_stems() {
    assert_eq!(file_stem('/'), "slash");
    assert_eq!(file_stem('A'), "A");
    assert_eq!(file_stem('b'), "b");
    assert_eq!(file_stem('\\'), "\\");
}

#[test]
fn membership_in_a_letter_list() {
    assert!(contains_char(&vec!['a', 'b'], 'b'));
    assert!(!contains_char(&vec!['a', 'b'], 'c'));
    assert!(!contains_char(&vec![], 'a'));
}

#[test]
fn new_table_is_empty() {
    let table = GlyphTable::new();
    assert!(table.letters().is_empty());
    assert!(table.get('A').is_none());
    assert!(table.get('é').is_none());
    assert_eq!(table.reference_rect().unwrap().map(|r| (r.min, r.max)), None);
}

#[test]
fn letters_are_folded_and_listed_once() {
    let mut table = GlyphTable::new();
    table.insert('B', 10, square(1, 1));
    table.insert('a', 10, square(1, 1));
    table.insert('b', 10, square(1, 1));
    table.insert('A', 10, square(1, 1));
    table.insert('/', 10, square(1, 1));
    table.insert('B', 10, square(1, 1));
    assert_eq!(table.letters(), vec!['b', 'a', '/']);
}

#[test]
fn later_record_replaces_earlier() {
    let mut table = GlyphTable::new();
    table.insert('A', 10, square(1, 1));
    table.insert('A', 12, square(2, 2));
    let glyph = table.get('A').unwrap();
    assert_eq!(glyph.advance, 12);
    assert_eq!(glyph.commands[1].params, vec![2, 0]);
    assert!(table.get('a').is_none());
}

#[test]
fn characters_outside_ascii_are_not_recorded() {
    let mut table = GlyphTable::new();
    table.insert('e', 10, square(1, 1));
    table.insert('é', 10, square(1, 1));
    table.insert('É', 10, square(1, 1));
    assert_eq!(table.letters(), vec!['e']);
    assert!(table.get('é').is_none());
    assert!(table.get('É').is_none());
    assert!(table.process_glyph('é', Rect { min: (0, 0), max: (1, 1) }).unwrap().is_empty());
}

#[test]
fn glyphs_are_recorded_by_decoded_name() {
    let mut table = GlyphTable::new();
    assert_eq!(table.record_glyph("&#x42;", 7.0f32.to_bits(), "M0,0 L3,0 l0,3 z"), Ok(()));
    assert_eq!(table.record_glyph("&eacute;", 7.0f32.to_bits(), "M0,0"), Ok(()));
    assert_eq!(table.record_glyph("&amp;", 9.5f32.to_bits(), "M1,1"), Ok(()));
    assert_eq!(table.letters(), vec!['b', '&']);
    let glyph = table.get('B').unwrap();
    assert_eq!(glyph.advance, 448);
    assert_eq!(glyph.commands.len(), 4);
    assert_eq!(glyph.commands[1].params, vec![192, 0]);
    assert_eq!(glyph.commands[2].position, Position::Relative);
    assert_eq!(table.get('&').unwrap().advance, 608);
}

#[test]
fn refused_glyphs_leave_the_table_alone() {
    let mut table = GlyphTable::new();
    assert_eq!(table.record_glyph("", 7.0f32.to_bits(), "M0,0"), Err(RecordError::Unnamed));
    assert_eq!(table.record_glyph("A", 7.0f32.to_bits(), "M0,0 ?"), Err(RecordError::Malformed));
    assert_eq!(table.record_glyph("A", f32::INFINITY.to_bits(), "M0,0"), Err(RecordError::OutOfRange));
    assert_eq!(table.record_glyph("A", f32::NAN.to_bits(), "M0,0"), Err(RecordError::OutOfRange));
    assert_eq!(table.record_glyph("A", 7.0f32.to_bits(), "M1e30,0"), Err(RecordError::OutOfRange));
    assert!(table.letters().is_empty());
    assert!(table.get('A').is_none());
}

#[test]
fn glyphs_outside_ascii_are_passed_over_unread() {
    let mut table = GlyphTable::new();
    assert_eq!(table.record_glyph("&eacute;", f32::NAN.to_bits(), "not a path"), Ok(()));
    assert_eq!(table.record_glyph("\u{e9}", 1.0f32.to_bits(), "M0,0"), Ok(()));
    assert!(table.letters().is_empty());
    assert!(table.get('e').is_none());
}

#[test]
fn recorded_font_gives_sheets_in_one_frame() {
    let mut table = GlyphTable::new();
    assert_eq!(table.record_glyph("b", 8.0f32.to_bits(), "M0,0 l2,2"), Ok(()));
    assert_eq!(table.record_glyph("B", 10.0f32.to_bits(), "M0,0 L20,30"), Ok(()));
    let sheets = table.process().unwrap().unwrap();
    assert_eq!(sheets.len(), 2);
    assert_eq!(sheets[0].character, 'B');
    assert_eq!(sheets[0].view_width, 1280);
    assert_eq!(sheets[0].view_height, 1920);
    assert_eq!(sheets[0].commands[0].params, vec![320, 1920]);
    assert_eq!(sheets[0].commands[1].params, vec![1600, 0]);
    assert_eq!(sheets[1].character, 'b');
    assert_eq!(sheets[1].commands[0].params, vec![384, 1920]);
    assert_eq!(sheets[1].commands[1].params, vec![128, -128]);
}

#[test]
fn reference_is_the_last_capital() {
    let mut table = GlyphTable::new();
    table.insert('Z', 10, square(14, 3));
    table.insert('A', 10, square(10, 30));
    table.insert('a', 10, square(99, 99));
    table.insert('~', 10, square(77, 77));
    let r = table.reference_rect().unwrap().unwrap();
    assert_eq!(r.min, (0, 0));
    assert_eq!(r.max, (14, 3));
    assert_eq!(r.width(), 14);
}

#[test]
fn reference_needs_a_capital() {
    let mut table = GlyphTable::new();
    table.insert('a', 10, square(1, 1));
    table.insert('@', 10, square(1, 1));
    table.insert('[', 10, square(1, 1));
    assert!(table.reference_rect().unwrap().is_none());
}

#[test]
fn reference_fails_on_any_capital_that_cannot_be_measured() {
    let mut table = GlyphTable::new();
    table.insert('C', 10, offsets_only());
    table.insert('Z', 10, square(14, 3));
    assert_eq!(table.reference_rect().unwrap_err(), PathError::RelativeBeforeAbsolute);
    let mut table = GlyphTable::new();
    table.insert('c', 10, offsets_only());
    table.insert('Z', 10, square(14, 3));
    assert!(table.reference_rect().is_ok());
}

#[test]
fn capital_alone_gives_one_sheet_with_background() {
    let mut table = GlyphTable::new();
    table.insert('B', 10, square(4, 6));
    let rect = Rect { min: (0, 0), max: (20, 30) };
    let sheets = table.process_glyph('b', rect).unwrap();
    assert_eq!(sheets.len(), 1);
    assert_eq!(sheets[0].character, 'B');
    assert!(sheets[0].background);
    assert_eq!(sheets[0].view_width, 20);
    assert_eq!(sheets[0].view_height, 30);
    assert_eq!(sheets[0].commands[0].params, vec![5, 30]);
    assert_eq!(sheets[0].commands[1].params, vec![9, 30]);
    assert_eq!(sheets[0].commands[2].params, vec![0, -6]);
    assert_eq!(table.get('B').unwrap().commands[0].params, vec![0, 0]);
}

#[test]
fn both_forms_give_two_sheets() {
    let mut table = GlyphTable::new();
    table.insert('b', 8, square(2, 2));
    table.insert('B', 10, square(4, 6));
    let rect = Rect { min: (0, 0), max: (20, 30) };
    let sheets = table.process_glyph('b', rect).unwrap();
    assert_eq!(sheets.len(), 2);
    assert_eq!(sheets[0].character, 'B');
    assert!(sheets[0].background);
    assert_eq!(sheets[1].character, 'b');
    assert!(!sheets[1].background);
    assert_eq!(sheets[1].commands[1].params, vec![8, 30]);
    assert_eq!(sheets[1].view_width, 20);
}

#[test]
fn lower_case_alone_gives_no_sheet() {
    let mut table = GlyphTable::new();
    table.insert('b', 8, square(2, 2));
    let rect = Rect { min: (0, 0), max: (20, 30) };
    assert!(table.process_glyph('b', rect).unwrap().is_empty());
}

#[test]
fn caseless_character_gives_one_sheet() {
    let mut table = GlyphTable::new();
    table.insert('/', 8, square(2, 2));
    let rect = Rect { min: (0, 0), max: (20, 30) };
    let sheets = table.process_glyph('/', rect).unwrap();
    assert_eq!(sheets.len(), 1);
    assert_eq!(sheets[0].character, '/');
    assert!(sheets[0].background);
}

#[test]
fn capital_asked_directly_gives_one_sheet() {
    let mut table = GlyphTable::new();
    table.insert('b', 8, square(2, 2));
    table.insert('B', 10, square(4, 6));
    let rect = Rect { min: (0, 0), max: (20, 30) };
    let sheets = table.process_glyph('B', rect).unwrap();
    assert_eq!(sheets.len(), 1);
    assert_eq!(sheets[0].character, 'B');
}

#[test]
fn sheet_outside_the_range_is_an_error() {
    let mut table = GlyphTable::new();
    table.insert('B', COORD_LIMIT + 1, square(4, 6));
    let rect = Rect { min: (0, 0), max: (20, 30) };
    assert_eq!(table.process_glyph('b', rect).unwrap_err(), PathError::OutOfRange);
    let glyph = Glyph { advance: 10, commands: square(COORD_LIMIT + 5, 1) };
    assert_eq!(make_sheet(&glyph, 'B', rect, true).unwrap_err(), PathError::OutOfRange);
}

#[test]
fn copies_keep_every_field() {
    let path = square(3, 4);
    let copy = copy_path(&path);
    assert_eq!(copy.len(), 4);
    assert_eq!(copy[2].kind, CommandKind::Line);
    assert_eq!(copy[2].position, Position::Relative);
    assert_eq!(copy[2].params, vec![0, 4]);
    assert_eq!(copy[3].kind, CommandKind::Close);
}

#[test]
fn export_follows_the_order_of_first_records() {
    let mut table = GlyphTable::new();
    table.insert('b', 8, square(2, 2));
    table.insert('A', 10, square(4, 6));
    table.insert('B', 12, square(4, 6));
    table.insert('c', 8, square(2, 2));
    table.insert('/', 6, square(1, 1));
    let rect = Rect { min: (0, 0), max: (20, 30) };
    let sheets = table.export(rect).unwrap();
    let names: Vec<(char, bool)> = sheets.iter().map(|s| (s.character, s.background)).collect();
    assert_eq!(names, vec![('B', true), ('b', false), ('A', true), ('/', true)]);
    assert_eq!(sheets[0].commands[0].params, vec![4, 30]);
    assert_eq!(sheets[1].commands[0].params, vec![6, 30]);
    assert_eq!(sheets[3].commands[0].params, vec![7, 30]);
}

#[test]
fn export_of_an_empty_table_is_empty() {
    let table = GlyphTable::new();
    assert!(table.export(Rect { min: (0, 0), max: (1, 1) }).unwrap().is_empty());
}

#[test]
fn export_stops_at_the_first_error() {
    let mut table = GlyphTable::new();
    table.insert('A', 10, square(4, 6));
    table.insert('B', COORD_LIMIT + 1, square(4, 6));
    let rect = Rect { min: (0, 0), max: (20, 30) };
    assert_eq!(table.export(rect).unwrap_err(), PathError::OutOfRange);
}

#[test]
fn process_uses_the_last_capital_as_frame() {
    let mut table = GlyphTable::new();
    table.insert('a', 4, square(2, 2));
    table.insert('A', 10, square(10, 8));
    table.insert('Z', 14, square(14, 20));
    let sheets = table.process().unwrap().unwrap();
    assert_eq!(sheets.len(), 3);
    assert_eq!(sheets[0].character, 'A');
    assert_eq!(sheets[1].character, 'a');
    assert_eq!(sheets[2].character, 'Z');
    for sheet in &sheets {
        assert_eq!(sheet.view_width, 14);
        assert_eq!(sheet.view_height, 20);
    }
    assert_eq!(sheets[0].commands[0].params, vec![2, 20]);
    assert_eq!(sheets[0].commands[1].params, vec![12, 20]);
    assert_eq!(sheets[0].commands[2].params, vec![0, -8]);
    assert_eq!(sheets[1].commands[0].params, vec![5, 20]);
    assert_eq!(sheets[2].commands[1].params, vec![14, 20]);
}

#[test]
fn process_without_a_capital_gives_nothing() {
    let mut table = GlyphTable::new();
    table.insert('a', 4, square(2, 2));
    table.insert('1', 4, square(2, 2));
    assert!(table.process().unwrap().is_none());
}

#[test]
fn process_fails_on_an_offset_before_any_absolute_point() {
    let mut table = GlyphTable::new();
    table.insert('A', 4, offsets_only());
    assert_eq!(table.process().unwrap_err(), PathError::RelativeBeforeAbsolute);
}
