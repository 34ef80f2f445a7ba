use kitmap::commands::preview::{asset_path, content_type, has_data};
use kitmap::commands::reset::{confirms, reset};
use kitmap::db::init_test_db;
use kitmap::db::models::{KeyEvent, Timestamp};
use kitmap::db::EventStore;
use kitmap::stats::calculator::StatsCalculator;
use kitmap::stats::ratio::Ratio;
use kitmap::text::{comes_before, ends_with, same_text, starts_with};
use kitmap::ui::heatmap::{
    center, get_display_name, get_heat_char, get_heat_color, get_key_width, AsciiHeatmap,
    HeatColor,
};
use kitmap::ui::keyboard::{draw, keyboard_row, legend_entry};

fn store_with(presses: &[(&str, usize)]) -> EventStore {
    let mut db = init_test_db();
    for (name, times) in presses {
        for _ in 0..*times {
            let at = Timestamp {
                rfc3339: "2024-01-01T12:00:00+00:00".to_string(),
                unix_millis: 0,
                hour: 12,
                day_of_week: 0,
            };
            KeyEvent::at(name.to_string(), name.to_string(), false, at).save(&mut db).unwrap();
        }
    }
    db
}

fn heatmap_of(presses: &[(&str, usize)]) -> AsciiHeatmap {
    AsciiHeatmap::new(&StatsCalculator::new(store_with(presses)).calculate_all())
}

#[test]
fn display_names() {
    assert_eq!(get_display_name("Escape"), "ESC");
    assert_eq!(get_display_name("Backspace"), "⌫");
    assert_eq!(get_display_name("Tab"), "TAB");
    assert_eq!(get_display_name("CapsLock"), "CAPS");
    assert_eq!(get_display_name("Return"), "⏎");
    assert_eq!(get_display_name("Enter"), "⏎");
    assert_eq!(get_display_name("ShiftLeft"), "⇧");
    assert_eq!(get_display_name("ShiftRight"), "⇧");
    assert_eq!(get_display_name("ControlLeft"), "CTRL");
    assert_eq!(get_display_name("ControlRight"), "CTRL");
    assert_eq!(get_display_name("MetaLeft"), "⌘");
    assert_eq!(get_display_name("MetaRight"), "⌘");
    assert_eq!(get_display_name("Alt"), "ALT");
    assert_eq!(get_display_name("AltGr"), "ALT");
    assert_eq!(get_display_name("Space"), "SPACE");
    assert_eq!(get_display_name("UpArrow"), "↑");
    assert_eq!(get_display_name("DownArrow"), "↓");
    assert_eq!(get_display_name("LeftArrow"), "←");
    assert_eq!(get_display_name("RightArrow"), "→");
    assert_eq!(get_display_name("q"), "q");
    assert_eq!(get_display_name("escape"), "escape");
    assert_eq!(get_display_name(""), "");
}

#[test]
fn key_widths() {
    assert_eq!(get_key_width("Backspace"), 8);
    assert_eq!(get_key_width("Tab"), 5);
    assert_eq!(get_key_width("CapsLock"), 6);
    assert_eq!(get_key_width("Return"), 8);
    assert_eq!(get_key_width("Enter"), 8);
    assert_eq!(get_key_width("ShiftLeft"), 8);
    assert_eq!(get_key_width("ShiftRight"), 10);
    assert_eq!(get_key_width("Space"), 30);
    assert_eq!(get_key_width("ControlLeft"), 6);
    assert_eq!(get_key_width("ControlRight"), 6);
    assert_eq!(get_key_width("MetaLeft"), 5);
    assert_eq!(get_key_width("MetaRight"), 5);
    assert_eq!(get_key_width("Alt"), 5);
    assert_eq!(get_key_width("AltGr"), 5);
    assert_eq!(get_key_width("Escape"), 4);
    assert_eq!(get_key_width("F1"), 3);
    assert_eq!(get_key_width("F12"), 3);
    assert_eq!(get_key_width("F"), 3);
    assert_eq!(get_key_width("Fé"), 3);
    assert_eq!(get_key_width("Féa"), 4);
    assert_eq!(get_key_width("F123"), 4);
    assert_eq!(get_key_width("q"), 4);
    assert_eq!(get_key_width(""), 4);
}

#[test]
fn heat_colours_follow_the_scale() {
    let orange = HeatColor::Rgb { r: 255, g: 165, b: 0 };
    let hot = HeatColor::Rgb { r: 255, g: 0, b: 255 };
    assert_eq!(get_heat_color(0, 100), HeatColor::DarkGrey);
    assert_eq!(get_heat_color(1, 100), HeatColor::Blue);
    assert_eq!(get_heat_color(9, 100), HeatColor::Blue);
    assert_eq!(get_heat_color(10, 100), HeatColor::Cyan);
    assert_eq!(get_heat_color(24, 100), HeatColor::Cyan);
    assert_eq!(get_heat_color(25, 100), HeatColor::Green);
    assert_eq!(get_heat_color(39, 100), HeatColor::Green);
    assert_eq!(get_heat_color(40, 100), HeatColor::Yellow);
    assert_eq!(get_heat_color(54, 100), HeatColor::Yellow);
    assert_eq!(get_heat_color(55, 100), orange);
    assert_eq!(get_heat_color(69, 100), orange);
    assert_eq!(get_heat_color(70, 100), HeatColor::Red);
    assert_eq!(get_heat_color(84, 100), HeatColor::Red);
    assert_eq!(get_heat_color(85, 100), hot);
    assert_eq!(get_heat_color(100, 100), hot);
    assert_eq!(get_heat_color(1, 1), hot);
    assert_eq!(get_heat_color(i64::MAX, i64::MAX), hot);
    assert_eq!(get_heat_color(1, i64::MAX), HeatColor::Blue);
}

#[test]
fn heat_characters_follow_the_scale() {
    assert_eq!(get_heat_char(0, 8), '░');
    assert_eq!(get_heat_char(1, 8), '▒');
    assert_eq!(get_heat_char(2, 8), '▓');
    assert_eq!(get_heat_char(3, 8), '▓');
    assert_eq!(get_heat_char(4, 8), '█');
    assert_eq!(get_heat_char(8, 8), '█');
}

#[test]
fn centring_pads_both_sides() {
    assert_eq!(center("ab", 6), "  ab  ");
    assert_eq!(center("ab", 5), " ab  ");
    assert_eq!(center("abc", 4), "abc ");
    assert_eq!(center("abc", 3), "abc");
    assert_eq!(center("abcd", 2), "abcd");
    assert_eq!(center("⌫", 8), format!("{:^8}", "⌫"));
    assert_eq!(center("", 3), "   ");
    assert_eq!(center("x", 0), "x");
}

#[test]
fn heatmap_counts_by_exact_name_first() {
    let map = heatmap_of(&[("q", 3), ("Q", 5), ("Space", 2)]);
    assert!(map.has_positive_scale());
    assert_eq!(map.get_count("q"), 3);
    assert_eq!(map.get_count("Q"), 5);
    assert_eq!(map.get_count("Space"), 2);
    assert_eq!(map.get_count("w"), 0);
}

#[test]
fn heatmap_counts_set_letter_case_aside() {
    let map = heatmap_of(&[("Q", 5), ("space", 2), ("ESCAPE", 7)]);
    assert_eq!(map.get_count("q"), 5);
    assert_eq!(map.get_count("Space"), 2);
    assert_eq!(map.get_count("SPACE"), 2);
    assert_eq!(map.get_count("Escape"), 7);
    assert_eq!(map.get_count("Esc"), 0);
}

#[test]
fn heatmap_takes_the_first_loose_match_in_ranking_order() {
    let map = heatmap_of(&[("tab", 1), ("TAB", 4), ("tAb", 2)]);
    assert_eq!(map.get_count("Tab"), 4);
}

#[test]
fn heatmap_matches_by_uppercase_alone() {
    let map = heatmap_of(&[("SS", 3)]);
    assert_eq!(map.get_count("ß"), 3);
}

#[test]
fn heatmap_matches_by_lowercase_alone() {
    let map = heatmap_of(&[("\u{212a}", 6)]);
    assert_eq!(map.get_count("k"), 6);
    assert_eq!(map.get_count("K"), 6);
    assert_eq!(map.get_count("j"), 0);
}

#[test]
fn rendered_heatmap_frames_six_rows_and_a_legend() {
    let map = heatmap_of(&[("Space", 10), ("a", 3), ("F5", 1)]);
    let output = map.render();
    let lines: Vec<&str> = output.split('\n').collect();
    assert_eq!(lines.len(), 21);
    assert_eq!(lines[0], "");
    assert_eq!(lines[1], draw(&Vec::new(), &Vec::new()).split('\n').nth(1).unwrap());
    assert!(lines[1].starts_with('┌') && lines[1].ends_with('┐'));
    assert_eq!(lines[1].chars().count(), 80);
    assert!(lines[2].contains("KEYBOARD HEATMAP"));
    assert!(lines[3].starts_with('├'));
    for row in 0..6 {
        let keys = keyboard_row(row);
        let line = lines[5 + 2 * row];
        assert!(line.starts_with("│  "));
        let mut rest = line;
        for key in keys {
            let cell = center(get_display_name(key), get_key_width(key));
            let at = rest.find(&cell).unwrap();
            rest = &rest[at + cell.len()..];
        }
        assert!(lines[6 + 2 * row].starts_with('│') && lines[6 + 2 * row].ends_with('│'));
    }
    assert!(lines[17].starts_with('├'));
    assert!(lines[18].starts_with("│  Heat Legend: "));
    for entry in ["░ Cold", "▒ Low", "▓ Med", "█ High", "█ Hot"] {
        assert!(lines[18].contains(entry));
    }
    assert!(lines[18].ends_with("│"));
    assert!(lines[19].starts_with('└') && lines[19].ends_with('┘'));
    assert_eq!(lines[20], "");
}

#[test]
fn drawing_puts_cells_and_legend_into_the_frame() {
    let rows = vec![vec!["ab".to_string(), "c".to_string()], vec![], vec!["d".to_string()]];
    let legend = vec!["x".to_string(), "y".to_string(), "z".to_string()];
    let bar = "─".repeat(78);
    let gap = " ".repeat(78);
    let expected = format!(
        "\n┌{bar}┐\n│                          ⌨️  KEYBOARD HEATMAP                                │\n├{bar}┤\n│{gap}│\n│  ab c \n│{gap}│\n│  \n│{gap}│\n│  d \n│{gap}│\n├{bar}┤\n│  Heat Legend: x y z{pad}│\n└{bar}┘\n",
        bar = bar,
        gap = gap,
        pad = " ".repeat(34),
    );
    assert_eq!(draw(&rows, &legend), expected);
}

#[test]
fn keyboard_has_six_rows() {
    let lengths: Vec<usize> = (0..8).map(|r| keyboard_row(r).len()).collect();
    assert_eq!(lengths, vec![13, 14, 14, 13, 12, 7, 0, 0]);
    assert_eq!(keyboard_row(0)[0], "Escape");
    assert_eq!(keyboard_row(2)[13], "\\");
    assert_eq!(keyboard_row(5)[3], "Space");
    assert_eq!(legend_entry(0), (HeatColor::DarkGrey, "░ Cold"));
    assert_eq!(legend_entry(4), (HeatColor::Red, "█ Hot"));
}

#[test]
fn intensity_is_the_count_over_the_greatest() {
    let map = heatmap_of(&[("a", 1), ("b", 4)]);
    assert_eq!(map.get_intensity("a"), Ratio { num: 1, den: 4 });
    assert_eq!(map.get_intensity("b"), Ratio { num: 4, den: 4 });
    assert_eq!(map.get_intensity("c"), Ratio { num: 0, den: 4 });
}

#[test]
fn heatmap_of_nothing_is_measured_by_one() {
    let map = heatmap_of(&[]);
    assert!(map.has_positive_scale());
    assert_eq!(map.get_intensity("a"), Ratio { num: 0, den: 1 });
    let (text, color) = map.key_cell("Tab", 5);
    assert_eq!(text, " TAB ");
    assert_eq!(color, HeatColor::DarkGrey);
}

#[test]
fn key_cell_is_centred_and_coloured() {
    let map = heatmap_of(&[("Space", 10), ("a", 3), ("Return", 1)]);
    assert_eq!(map.key_cell("Space", 30), (center("SPACE", 30), HeatColor::Rgb { r: 255, g: 0, b: 255 }));
    assert_eq!(map.key_cell("a", 4), (" a  ".to_string(), HeatColor::Green));
    assert_eq!(map.key_cell("Return", 8), ("   ⏎    ".to_string(), HeatColor::Cyan));
    assert_eq!(map.key_cell("z", 4), (" z  ".to_string(), HeatColor::DarkGrey));
}

#[test]
fn rendered_key_holds_its_cell_text() {
    let map = heatmap_of(&[("Space", 10), ("a", 3)]);
    let cell = map.render_key("a", 4);
    assert!(cell.contains(" a  "));
    assert_ne!(cell, " a  ");
    let (head, tail) = cell.split_once(" a  ").unwrap();
    assert!(head.starts_with("\u{1b}[") && head.ends_with('m'));
    assert!(tail.starts_with("\u{1b}[") && tail.ends_with('m'));
    let cold = map.render_key("F1", 3);
    assert!(cold.contains("F1 "));
    let wide = map.render_key("Space", 30);
    assert!(wide.contains(&center("SPACE", 30)));
}

#[test]
fn media_types_go_by_the_ending() {
    assert_eq!(content_type("index.js"), "application/javascript");
    assert_eq!(content_type("a/b/style.css"), "text/css");
    assert_eq!(content_type("logo.svg"), "image/svg+xml");
    assert_eq!(content_type("logo.png"), "image/png");
    assert_eq!(content_type("favicon.ico"), "image/x-icon");
    assert_eq!(content_type("font.woff2"), "application/octet-stream");
    assert_eq!(content_type("js"), "application/octet-stream");
    assert_eq!(content_type(".js"), "application/javascript");
    assert_eq!(content_type("app.JS"), "application/octet-stream");
    assert_eq!(content_type("app.js.map"), "application/octet-stream");
    assert_eq!(content_type(""), "application/octet-stream");
}

#[test]
fn assets_lie_under_their_directory() {
    assert_eq!(asset_path("index.js"), "assets/index.js");
    assert_eq!(asset_path(""), "assets/");
}

#[test]
fn snapshot_with_keys_has_data() {
    let empty = StatsCalculator::new(init_test_db()).calculate_all();
    assert!(!has_data(&empty));
    let some = StatsCalculator::new(store_with(&[("a", 1)])).calculate_all();
    assert!(has_data(&some));
}

#[test]
fn only_y_and_yes_confirm() {
    assert!(confirms("y"));
    assert!(confirms("Y"));
    assert!(confirms("yes"));
    assert!(confirms("YES\n"));
    assert!(confirms("  Yes \r\n"));
    assert!(!confirms(""));
    assert!(!confirms("\n"));
    assert!(!confirms("n"));
    assert!(!confirms("yess"));
    assert!(!confirms("y e s"));
    assert!(!confirms("ye"));
}

#[test]
fn reset_clears_on_force_or_confirmation() {
    let mut db = store_with(&[("a", 2)]);
    assert!(!reset(&mut db, false, "no"));
    assert_eq!(db.key_events().len(), 2);
    assert!(reset(&mut db, false, "yes\n"));
    assert!(db.key_events().is_empty());
    let mut db = store_with(&[("a", 2)]);
    assert!(reset(&mut db, true, ""));
    assert!(db.key_events().is_empty());
}

#[test]
fn text_comparisons() {
    assert!(same_text("abc", "abc"));
    assert!(!same_text("abc", "abd"));
    assert!(!same_text("abc", "ab"));
    assert!(same_text("", ""));
    assert!(comes_before("", "a"));
    assert!(!comes_before("a", ""));
    assert!(!comes_before("a", "a"));
    assert!(comes_before("a", "ab"));
    assert!(comes_before("ab", "b"));
    assert!(comes_before("B", "a"));
    assert!(comes_before("z", "é"));
    assert!(!comes_before("é", "z"));
    assert!(comes_before("Alt", "AltGr"));
    assert!(starts_with("Num1", "Num"));
    assert!(starts_with("Num", "Num"));
    assert!(!starts_with("Nu", "Num"));
    assert!(!starts_with("num1", "Num"));
    assert!(starts_with("x", ""));
    assert!(ends_with("a.css", ".css"));
    assert!(!ends_with("css", ".css"));
    assert!(ends_with("x", ""));
    assert!(!ends_with("a.css ", ".css"));
}
