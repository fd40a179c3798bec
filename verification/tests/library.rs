use font_fallback_test::config::{font_list, parse_config, sample_text, ConfigError};
use font_fallback_test::fontlink::{
    next_enum_action, EnumAction, EnumOutcome, MAX_DATA_CAPACITY, MAX_NAME_CAPACITY, fold_name_string, link_text_for, replace_nul_separators, FontLinkTable};
use font_fallback_test::fonts::{font_by_name_request, log_font_request, FACE_NAME_LEN};
use font_fallback_test::items::{build_font_items, system_font_names};
use font_fallback_test::layout::{
    client_size_from_lparam, list_columns, plan_row, row_layout_fits, status_bar_parts,
    status_bar_texts, window_layout, can_lay_out_window, CellFont, Rect, TextAlign,
    INITIAL_COLUMN_WIDTHS, LINK_INFO_COLOR, LINKED_COLOR, NAME_COLOR, PREVIEW_COLOR,
    ROW_BACKGROUND, UNLINKED_COLOR,
};
use font_fallback_test::wide::{from_wide_string, to_wide_string, wide_from_le_bytes};

fn wide(s: &str) -> Vec<u16> {
    let mut v: Vec<u16> = s.encode_utf16().collect();
    v.push(0);
    v
}

fn le_bytes(s: &str) -> Vec<u8> {
    s.encode_utf16().flat_map(|u| u.to_le_bytes()).collect()
}

#[test]
fn to_wide_string_ascii() {
    assert_eq!(to_wide_string("Arial"), vec![65, 114, 105, 97, 108, 0]);
}

#[test]
fn to_wide_string_empty() {
    assert_eq!(to_wide_string(""), vec![0]);
}

#[test]
fn to_wide_string_cjk_and_surrogates() {
    assert_eq!(to_wide_string("微软"), vec![0x5FAE, 0x8F6F, 0]);
    assert_eq!(to_wide_string("a😀"), vec![0x61, 0xD83D, 0xDE00, 0]);
    assert_eq!(to_wide_string("\u{10FFFF}"), vec![0xDBFF, 0xDFFF, 0]);
}

#[test]
fn to_wide_string_matches_std() {
    for s in ["Segoe UI", "微軟正黑體 Bold", "✅=有配置 ❌=无配置", "x\u{0}y", "🔤 字体"] {
        assert_eq!(to_wide_string(s), wide(s));
    }
}

#[test]
fn from_wide_string_strips_one_nul() {
    assert_eq!(from_wide_string(&[72, 105, 0]), "Hi");
    assert_eq!(from_wide_string(&[72, 105]), "Hi");
    assert_eq!(from_wide_string(&[72, 0, 0]), "H\u{0}");
    assert_eq!(from_wide_string(&[]), "");
    assert_eq!(from_wide_string(&[0]), "");
}

#[test]
fn from_wide_string_pairs_and_lone_surrogates() {
    assert_eq!(from_wide_string(&[0xD83D, 0xDE00]), "😀");
    assert_eq!(from_wide_string(&[0xD83D, 0x41]), "\u{FFFD}A");
    assert_eq!(from_wide_string(&[0xDE00, 0xD83D]), "\u{FFFD}\u{FFFD}");
    assert_eq!(from_wide_string(&[0x41, 0xD83D, 0]), "A\u{FFFD}");
    assert_eq!(from_wide_string(&[0xD800, 0xD800, 0xDC00]), "\u{FFFD}\u{10000}");
}

#[test]
fn from_wide_string_matches_std_lossy() {
    let samples: Vec<Vec<u16>> = vec![
        vec![0xD800],
        vec![0xDBFF, 0xDFFF, 0xDC00],
        vec![0x61, 0xDC00, 0x62],
        vec![0xFFFF, 0xD7FF, 0xE000],
    ];
    for s in samples {
        assert_eq!(from_wide_string(&s), String::from_utf16_lossy(&s));
    }
}

#[test]
fn wide_round_trip() {
    for s in ["", "Tahoma", "微软雅黑 Bold", "a\u{0}b", "😀🔤", "MingLiU_HKSCS-ExtB"] {
        assert_eq!(from_wide_string(&to_wide_string(s)), s);
    }
}

#[test]
fn wide_from_le_bytes_pairs() {
    assert_eq!(wide_from_le_bytes(&[0x41, 0x00, 0xAE, 0x5F]), vec![0x41, 0x5FAE]);
    assert_eq!(wide_from_le_bytes(&[0x34, 0x12, 0xFF]), vec![0x1234]);
    assert_eq!(wide_from_le_bytes(&[0x7F]), Vec::<u16>::new());
    assert_eq!(wide_from_le_bytes(&[]), Vec::<u16>::new());
}

#[test]
fn table_insert_get() {
    let mut t = FontLinkTable::new();
    assert!(!t.contains_key("Arial"));
    assert_eq!(t.get("Arial"), None);
    t.insert("Arial".to_string(), "a".to_string());
    t.insert("Tahoma".to_string(), "b".to_string());
    t.insert("Arial".to_string(), "c".to_string());
    assert!(t.contains_key("Arial"));
    assert_eq!(t.get("Arial").map(|s| s.as_str()), Some("c"));
    assert_eq!(t.get("Tahoma").map(|s| s.as_str()), Some("b"));
    assert!(t.contains_key("arial"));
    assert!(!t.contains_key("Arial Black"));
}

#[test]
fn record_multi_sz_value() {
    let mut t = FontLinkTable::new();
    let mut name = wide("Segoe UI");
    name.extend_from_slice(&[0x58, 0x58]);
    let data = le_bytes("TAHOMA.TTF,Tahoma\0SIMSUN.TTC,SimSun\0\0");
    let mut buffer = data.clone();
    buffer.extend_from_slice(&[0xAA, 0xBB, 0xCC]);
    t.record_registry_value(name, 8, true, buffer, data.len());
    assert_eq!(
        t.get("Segoe UI").map(|s| s.as_str()),
        Some("TAHOMA.TTF,Tahoma\0SIMSUN.TTC,SimSun\0")
    );
}

#[test]
fn record_other_value_types_ignored() {
    let mut t = FontLinkTable::new();
    t.record_registry_value(wide("Arial"), 5, false, le_bytes("x\0\0"), 6);
    assert!(!t.contains_key("Arial"));
}

#[test]
fn record_with_lengths_beyond_buffer() {
    let mut t = FontLinkTable::new();
    t.record_registry_value(wide("Arial"), 300, true, le_bytes("x\0"), 9000);
    assert_eq!(t.get("Arial").map(|s| s.as_str()), Some("x"));
}

#[test]
fn replace_nul_with_bars() {
    assert_eq!(replace_nul_separators("a\0b\0"), "a | b | ");
    assert_eq!(replace_nul_separators(""), "");
    assert_eq!(replace_nul_separators("no separators"), "no separators");
}

#[test]
fn short_link_text_kept() {
    assert_eq!(link_text_for("A.TTF,A\0B.TTF,B\0"), "A.TTF,A | B.TTF,B | ");
    let exactly = "x".repeat(100);
    assert_eq!(link_text_for(&exactly), exactly);
}

#[test]
fn long_link_text_cut_at_hundred_bytes() {
    let long = "y".repeat(150);
    let shown = link_text_for(&long);
    assert_eq!(shown, format!("{}...", "y".repeat(100)));
    assert_eq!(shown.len(), 103);
    let with_nul = format!("{}\0{}", "z".repeat(98), "w".repeat(10));
    assert_eq!(link_text_for(&with_nul), format!("{} |...", "z".repeat(98)));
}

#[test]
fn link_text_cut_after_multibyte_char() {
    let s = format!("a{}", "微".repeat(40));
    assert_eq!(link_text_for(&s), format!("a{}...", "微".repeat(33)));
}

#[test]
fn link_text_cut_at_last_boundary_before_hundred_bytes() {
    assert_eq!(link_text_for(&"微".repeat(40)), format!("{}...", "微".repeat(33)));
    let s = format!("ab{}", "微".repeat(40));
    assert_eq!(link_text_for(&s), format!("ab{}...", "微".repeat(32)));
    let emoji = format!("{}{}", "x".repeat(98), "😀😀");
    assert_eq!(link_text_for(&emoji), format!("{}...", "x".repeat(98)));
}

#[test]
fn system_font_list() {
    let names = system_font_names();
    assert_eq!(names.len(), 53);
    assert_eq!(names[0], "Arial");
    assert_eq!(names[42], "Segoe UI");
    assert_eq!(names[52], "微软雅黑 Bold");
}

#[test]
fn items_from_table() {
    let mut t = FontLinkTable::new();
    t.insert("Tahoma".to_string(), "MSGOTHIC.TTC,MS UI Gothic\0".to_string());
    let names = vec!["Arial", "Tahoma"];
    let items = build_font_items(&names, &t);
    assert_eq!(items.len(), 2);
    assert_eq!(items[0].name, "Arial");
    assert!(!items[0].has_fontlink);
    assert_eq!(items[0].link_text, "(无配置)");
    assert_eq!(items[1].name, "Tahoma");
    assert!(items[1].has_fontlink);
    assert_eq!(items[1].link_text, "MSGOTHIC.TTC,MS UI Gothic | ");
}

#[test]
fn items_for_all_system_fonts() {
    let mut t = FontLinkTable::new();
    t.insert("Segoe UI".to_string(), "x".repeat(120));
    let names = system_font_names();
    let items = build_font_items(&names, &t);
    assert_eq!(items.len(), names.len());
    for (item, name) in items.iter().zip(names.iter()) {
        assert_eq!(item.name, *name);
        assert_eq!(item.has_fontlink, *name == "Segoe UI");
    }
    assert_eq!(items[42].link_text, format!("{}...", "x".repeat(100)));
}

#[test]
fn items_with_cjk_link_list() {
    let mut t = FontLinkTable::new();
    let mut data: Vec<u8> = le_bytes(&"微".repeat(40));
    data.extend_from_slice(&[0, 0, 0, 0]);
    let len = data.len();
    t.record_registry_value(wide("SimSun"), 6, true, data, len);
    let items = build_font_items(&vec!["SimSun", "Arial"], &t);
    assert!(items[0].has_fontlink);
    assert_eq!(items[0].link_text, format!("{}...", "微".repeat(33)));
    assert!(!items[1].has_fontlink);
    assert_eq!(items[1].link_text, "(无配置)");
}

#[test]
fn names_match_without_regard_to_ascii_case() {
    let mut t = FontLinkTable::new();
    t.record_registry_value(wide("SIMSUN"), 6, true, le_bytes("A.TTF,A\0\0"), 18);
    assert!(t.contains_key("SimSun"));
    assert!(t.contains_key("simsun"));
    assert_eq!(t.get("SimSun").map(|s| s.as_str()), Some("A.TTF,A\0"));
    let items = build_font_items(&vec!["SimSun"], &t);
    assert!(items[0].has_fontlink);
    t.insert("simsun".to_string(), "B".to_string());
    assert_eq!(t.get("SIMSUN").map(|s| s.as_str()), Some("B"));
    assert!(!t.contains_key("SimSun-ExtB"));
    assert_eq!(fold_name_string("Microsoft YaHei UI"), "MICROSOFT YAHEI UI");
    assert_eq!(fold_name_string("微软雅黑 Bold"), "微软雅黑 BOLD");
}

#[test]
fn font_request_by_name() {
    let r = font_by_name_request(-16, "Segoe UI", 600, false);
    assert_eq!(r.height, -16);
    assert_eq!(r.weight, 600);
    assert_eq!(r.italic, 0);
    assert_eq!(r.face_name, wide("Segoe UI"));
    assert_eq!(font_by_name_request(-12, "Segoe UI", 400, true).italic, 1);
}

#[test]
fn log_font_face_name_short() {
    let r = log_font_request(-16, "SimSun", 400);
    assert_eq!(r.height, -16);
    assert_eq!(r.weight, 400);
    assert_eq!(r.face_name.len(), FACE_NAME_LEN);
    let mut expected = wide("SimSun");
    expected.resize(32, 0);
    assert_eq!(r.face_name, expected);
}

#[test]
fn log_font_face_name_cut_to_31_units() {
    let name = "Microsoft JhengHei UI Light Extra Long Name";
    let r = log_font_request(-16, name, 400);
    let units: Vec<u16> = name.encode_utf16().collect();
    assert_eq!(&r.face_name[..31], &units[..31]);
    assert_eq!(r.face_name[31], 0);
    let thirty_one = "a".repeat(31);
    let r = log_font_request(0, &thirty_one, 0);
    assert_eq!(&r.face_name[..31], &"a".repeat(31).encode_utf16().collect::<Vec<u16>>()[..]);
    assert_eq!(r.face_name[31], 0);
}

#[test]
fn window_layout_values() {
    assert!(can_lay_out_window(1184, 761, 23));
    let l = window_layout(1184, 761, 23);
    assert_eq!((l.header.x, l.header.y, l.header.width, l.header.height), (0, 0, 1184, 40));
    assert_eq!((l.list.x, l.list.y, l.list.width, l.list.height), (5, 45, 1174, 688));
    assert!(!can_lay_out_window(i32::MIN, 0, 0));
    assert!(!can_lay_out_window(100, i32::MIN + 10, 20));
}

#[test]
fn lparam_words() {
    assert_eq!(client_size_from_lparam(0x02F9_04A0), (0x04A0, 0x02F9));
    assert_eq!(client_size_from_lparam(-1), (0xFFFF, 0xFFFF));
    assert_eq!(client_size_from_lparam(0), (0, 0));
}

#[test]
fn columns_and_status_bar() {
    let cols = list_columns();
    assert_eq!(cols.len(), 4);
    let widths: Vec<i32> = cols.iter().map(|c| c.width).collect();
    assert_eq!(widths, INITIAL_COLUMN_WIDTHS.to_vec());
    assert_eq!(widths, vec![200, 300, 80, 400]);
    assert_eq!(cols[0].title, "字体名称");
    assert_eq!(cols[3].title, "FontLink配置");
    for (k, c) in cols.iter().enumerate() {
        assert_eq!(c.sub_item, k as i32);
    }
    assert_eq!(status_bar_parts(), vec![200, 400, -1]);
    assert_eq!(status_bar_texts()[2], "✅=有配置 ❌=无配置");
}

fn sample_items() -> Vec<font_fallback_test::items::FontItem> {
    let mut t = FontLinkTable::new();
    t.insert("Tahoma".to_string(), "SIMSUN.TTC,SimSun\0".to_string());
    build_font_items(&vec!["Arial", "Tahoma"], &t)
}

#[test]
fn row_out_of_range() {
    let items = sample_items();
    let rect = Rect { left: 0, top: 0, right: 10, bottom: 10 };
    assert!(plan_row(&items, 2, rect, false, &INITIAL_COLUMN_WIDTHS, 1, 2, &vec![], "s").is_none());
    assert!(plan_row(&items, u32::MAX, rect, false, &INITIAL_COLUMN_WIDTHS, 1, 2, &vec![], "s").is_none());
}

#[test]
fn row_unselected() {
    let items = sample_items();
    let rect = Rect { left: 10, top: 30, right: 990, bottom: 54 };
    let previews = vec!["Arial".to_string(), "Tahoma".to_string()];
    let p = plan_row(&items, 1, rect, false, &INITIAL_COLUMN_WIDTHS, 0x123, 0x456, &previews, "包罗万象化春外，最美全年天地中").unwrap();
    assert_eq!((p.width, p.height, p.background), (980, 24, ROW_BACKGROUND));
    assert_eq!(p.cells.len(), 4);
    let rects: Vec<(i32, i32, i32, i32)> =
        p.cells.iter().map(|c| (c.rect.left, c.rect.top, c.rect.right, c.rect.bottom)).collect();
    assert_eq!(rects, vec![(4, 2, 195, 22), (204, 2, 495, 22), (504, 2, 575, 22), (584, 2, 975, 22)]);
    let colors: Vec<u32> = p.cells.iter().map(|c| c.color).collect();
    assert_eq!(colors, vec![NAME_COLOR, PREVIEW_COLOR, LINKED_COLOR, LINK_INFO_COLOR]);
    assert_eq!(p.cells[0].text, wide("Tahoma"));
    assert_eq!(p.cells[1].text, wide("包罗万象化春外，最美全年天地中"));
    assert_eq!(p.cells[2].text, wide("✅"));
    assert_eq!(p.cells[3].text, wide("SIMSUN.TTC,SimSun | "));
    assert!(matches!(p.cells[0].font, CellFont::List));
    assert!(matches!(p.cells[1].font, CellFont::Preview(1)));
    assert!(matches!(p.cells[3].font, CellFont::List));
    assert!(p.cells[2].align == TextAlign::Center);
    assert!(p.cells[0].align == TextAlign::LeftEllipsis);
}

#[test]
fn row_selected_and_unlinked() {
    let items = sample_items();
    let rect = Rect { left: 0, top: 0, right: 500, bottom: 20 };
    let p = plan_row(&items, 0, rect, true, &INITIAL_COLUMN_WIDTHS, 0x123, 0x456, &vec![], "Sample").unwrap();
    assert_eq!(p.background, 0x123);
    assert!(p.cells.iter().all(|c| c.color == 0x456));
    assert_eq!(p.cells[2].text, wide("❌"));
    assert_eq!(p.cells[3].text, wide("(无配置)"));
    assert!(matches!(p.cells[1].font, CellFont::List));
    let q = plan_row(&items, 0, rect, false, &INITIAL_COLUMN_WIDTHS, 0x123, 0x456, &vec![], "Sample").unwrap();
    assert_eq!(q.cells[2].color, UNLINKED_COLOR);
}

#[test]
fn row_fit_check() {
    let rect = Rect { left: 0, top: 0, right: 100, bottom: 20 };
    assert!(row_layout_fits(rect, &INITIAL_COLUMN_WIDTHS));
    assert!(!row_layout_fits(rect, &[i32::MAX, 1, 1, 1]));
    assert!(!row_layout_fits(rect, &[i32::MIN, 0, 0, 0]));
    assert!(!row_layout_fits(Rect { left: i32::MIN, top: 0, right: 1, bottom: 0 }, &INITIAL_COLUMN_WIDTHS));
    assert!(row_layout_fits(rect, &[0, 0, 0, 0]));
}

#[test]
fn wide_buffer_has_only_the_terminating_nul() {
    for s in ["Arial", "微软雅黑 Bold", "😀x"] {
        let w = to_wide_string(s);
        assert_eq!(w.iter().position(|&u| u == 0), Some(w.len() - 1));
    }
}

#[test]
fn recorded_font_is_shown_linked() {
    let mut t = FontLinkTable::new();
    t.record_registry_value(wide("Arial"), 5, true, le_bytes("A.TTF,A\0\0"), 18);
    let items = build_font_items(&vec!["Arial", "Tahoma"], &t);
    assert!(items[0].has_fontlink);
    assert_eq!(items[0].link_text, "A.TTF,A | ");
    assert!(!items[1].has_fontlink);
}

#[test]
fn table_read_after_write() {
    let mut t = FontLinkTable::new();
    t.insert("Arial".to_string(), "one".to_string());
    t.insert("Tahoma".to_string(), "two".to_string());
    t.insert("Arial".to_string(), "three".to_string());
    assert_eq!(t.get("Arial").map(|s| s.as_str()), Some("three"));
    assert_eq!(t.get("Tahoma").map(|s| s.as_str()), Some("two"));
}

#[test]
fn neighbouring_cells_nine_pixels_apart() {
    let items = sample_items();
    let rect = Rect { left: 0, top: 0, right: 1000, bottom: 30 };
    let widths = [120, 0, 55, 10];
    let p = plan_row(&items, 0, rect, false, &widths, 0, 0, &vec![], "x").unwrap();
    for k in 0..3 {
        assert_eq!(p.cells[k + 1].rect.left, p.cells[k].rect.right + 9);
    }
}

#[test]
fn row_draws_given_sample_text() {
    let items = sample_items();
    let rect = Rect { left: 0, top: 0, right: 500, bottom: 20 };
    let p = plan_row(&items, 0, rect, false, &INITIAL_COLUMN_WIDTHS, 0, 0, &vec![], "The quick fox").unwrap();
    assert_eq!(p.cells[1].text, wide("The quick fox"));
}

#[test]
fn config_empty_file() {
    let c = parse_config(b"").unwrap();
    assert!(c.test_text.is_none());
    assert!(c.fonts.is_none());
    assert_eq!(sample_text(&c), "包罗万象化春外，最美全年天地中");
    assert_eq!(font_list(&c), system_font_names());
}

#[test]
fn config_reads_both_settings() {
    let text = "# settings\r\n  test_text = \"天地 \\\"玄黄\\\"\"  # sample\r\nfonts = [ \"Arial\", \"微软雅黑\" , ]\n\n[ui]\nfonts = 3\n";
    let c = parse_config(text.as_bytes()).unwrap();
    assert_eq!(c.test_text.as_deref(), Some("天地 \"玄黄\""));
    assert_eq!(c.fonts.clone().unwrap(), vec!["Arial".to_string(), "微软雅黑".to_string()]);
    assert_eq!(sample_text(&c), "天地 \"玄黄\"");
    assert_eq!(font_list(&c), vec!["Arial", "微软雅黑"]);
}

#[test]
fn config_escapes_and_other_keys() {
    let c = parse_config(b"width = 1200\ntest_text=\"a\\tb\\nc\\\\\"\nfonts=[]").unwrap();
    assert_eq!(c.test_text.as_deref(), Some("a\tb\nc\\"));
    assert_eq!(c.fonts.unwrap().len(), 0);
}

#[test]
fn config_errors() {
    assert!(matches!(parse_config(b"test_text = 5"), Err(ConfigError::InvalidValue)));
    assert!(matches!(parse_config(b"test_text = \"open"), Err(ConfigError::InvalidValue)));
    assert!(matches!(parse_config(b"test_text = \"a\" b"), Err(ConfigError::InvalidValue)));
    assert!(matches!(parse_config(b"test_text = \"\\q\""), Err(ConfigError::InvalidValue)));
    assert!(matches!(parse_config(b"fonts = [\"a\" \"b\"]"), Err(ConfigError::InvalidValue)));
    assert!(matches!(parse_config(b"fonts = [\"a\",,]"), Err(ConfigError::InvalidValue)));
    assert!(matches!(parse_config(b"fonts = [\"a\""), Err(ConfigError::InvalidValue)));
    assert!(matches!(parse_config(b"fonts = []\nfonts = []"), Err(ConfigError::DuplicateKey)));
    assert!(matches!(parse_config(b"test_text = \"\xff\""), Err(ConfigError::InvalidUtf8)));
    assert!(matches!(parse_config(b"fonts = [\"ok\", \"\xc3\"]"), Err(ConfigError::InvalidUtf8)));
}

#[test]
fn config_lines_in_tables_ignored() {
    let c = parse_config(b"[fonts]\ntest_text = 5\nfonts = nonsense").unwrap();
    assert!(c.test_text.is_none() && c.fonts.is_none());
    let c = parse_config(b"fontsx = 1\ntest_text2 = [\n\"just a line\"").unwrap();
    assert!(c.test_text.is_none() && c.fonts.is_none());
}

#[test]
fn names_match_beyond_ascii_case() {
    let mut t = FontLinkTable::new();
    t.record_registry_value(wide("\u{C9}"), 1, true, le_bytes("X.TTF,X\0\0"), 18);
    assert!(t.contains_key("\u{E9}"));
    let items = build_font_items(&vec!["\u{E9}"], &t);
    assert!(items[0].has_fontlink);
    assert_eq!(fold_name_string("\u{E9}t\u{E9}"), "\u{C9}T\u{C9}");
    assert_eq!(fold_name_string("Stra\u{DF}e"), "STRA\u{DF}E");
    assert_eq!(fold_name_string("\u{3B1}\u{3B2}"), "\u{391}\u{392}");
    assert!(!t.contains_key("E"));
}

#[test]
fn enumeration_steps() {
    assert!(next_enum_action(EnumOutcome::Read, 256, 8192) == EnumAction::Record);
    assert!(next_enum_action(EnumOutcome::Finished, 256, 8192) == EnumAction::Stop);
    assert!(
        next_enum_action(EnumOutcome::MoreData, 256, 8192)
            == EnumAction::Retry { name_capacity: 512, data_capacity: 16384 }
    );
    assert!(
        next_enum_action(EnumOutcome::MoreData, MAX_NAME_CAPACITY, 0x0C_0000)
            == EnumAction::Retry { name_capacity: MAX_NAME_CAPACITY, data_capacity: MAX_DATA_CAPACITY }
    );
    assert!(
        next_enum_action(EnumOutcome::MoreData, MAX_NAME_CAPACITY, MAX_DATA_CAPACITY) == EnumAction::Skip
    );
}

#[test]
fn config_with_byte_order_mark() {
    let c = parse_config(b"\xEF\xBB\xBFtest_text = \"BOM\"\n").unwrap();
    assert_eq!(c.test_text.as_deref(), Some("BOM"));
    let c = parse_config(b"\xEF\xBB\xBF").unwrap();
    assert!(c.test_text.is_none());
}

#[test]
fn config_multiline_array() {
    let text = "fonts = [\n  \"Arial\",  # western\n\n  \"SimSun\", # cjk\r\n]  # end\ntest_text = \"t\"\n";
    let c = parse_config(text.as_bytes()).unwrap();
    assert_eq!(c.fonts.unwrap(), vec!["Arial".to_string(), "SimSun".to_string()]);
    assert_eq!(c.test_text.as_deref(), Some("t"));
    assert!(matches!(parse_config(b"fonts = [\n\"a\"\n"), Err(ConfigError::InvalidValue)));
    assert!(matches!(parse_config(b"fonts = [\"a\nb\"]"), Err(ConfigError::InvalidValue)));
    assert!(matches!(parse_config(b"fonts = [\n]\nfonts = []"), Err(ConfigError::DuplicateKey)));
}
