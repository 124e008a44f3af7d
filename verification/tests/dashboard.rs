use rust_top::collection::{cache_lines, entry_line, memory_lines, model_lines};
use rust_top::data::clock::{clock_text, placeholder_time};
use rust_top::layout::{content_width, cores_height, info_height, info_row, temp_height, ticker_area};
use rust_top::ui::Rect;

#[test]
fn ticker_area_matches_text_width() {
    let width = format!("   - {}ms  +   ", 2000).len() as u16;
    let r = ticker_area(80, 2000);
    assert_eq!(r, Rect { x: 80 - (width + 2), y: 0, width, height: 1 });
    assert_eq!(r.width, 17);
}

#[test]
fn ticker_area_on_narrow_screen_starts_at_left() {
    let r = ticker_area(10, 1000);
    assert_eq!(r.x, 0);
    assert_eq!(r.width, 17);
}

#[test]
fn cores_height_counts_rows_and_borders() {
    // 84 cells: 82 inside, four cores a row; eight cores take two rows.
    assert_eq!(cores_height(8, 84), 5);
    // 44 cells: two cores a row; sixteen cores take eight rows.
    assert_eq!(cores_height(16, 44), 10);
    // Narrow panels still hold one core a row.
    assert_eq!(cores_height(6, 10), 8);
    assert_eq!(cores_height(0, 100), 5);
}

#[test]
fn info_height_takes_longer_list() {
    assert_eq!(info_height(1, 1), 4);
    assert_eq!(info_height(3, 1), 5);
    assert_eq!(info_height(0, 6), 8);
}

#[test]
fn temp_height_cases() {
    assert_eq!(temp_height(false, 9, 9), 0);
    assert_eq!(temp_height(true, 3, 3), 4);
    assert_eq!(temp_height(true, 6, 3), 6);
}

#[test]
fn content_width_of_lines() {
    assert_eq!(content_width(&vec![]), 24);
    assert_eq!(content_width(&vec![10, 30, 5]), 34);
}

#[test]
fn info_row_splits_width() {
    let area = Rect { x: 2, y: 1, width: 100, height: 5 };
    let (m, c, r) = info_row(area, 24, 40);
    assert_eq!(m, Rect { x: 2, y: 1, width: 24, height: 5 });
    assert_eq!(c, Rect { x: 26, y: 1, width: 40, height: 5 });
    assert_eq!(r, Rect { x: 66, y: 1, width: 36, height: 5 });
    let (m, c, r) = info_row(area, 80, 40);
    assert_eq!(m.width, 80);
    assert_eq!(c.width, 20);
    assert_eq!(r.width, 0);
    let (m, c, _) = info_row(area, 200, 5);
    assert_eq!(m.width, 100);
    assert_eq!(c.width, 0);
}

#[test]
fn entry_and_model_lines() {
    assert_eq!(entry_line(&"Brand".to_string(), &"Ryzen".to_string()), "Brand: Ryzen");
    let m = Some(vec![("Brand".to_string(), "Ryzen 7".to_string())]);
    assert_eq!(model_lines(&m), vec!["Brand: Ryzen 7".to_string()]);
    assert!(model_lines(&None).is_empty());
}

#[test]
fn cache_lines_joined() {
    assert_eq!(cache_lines(&None), vec!["Cache info not available".to_string()]);
    let c = Some(vec![
        ("L1".to_string(), "32 KB".to_string()),
        ("L2".to_string(), "512 KB".to_string()),
        ("L3".to_string(), "16 MiB".to_string()),
    ]);
    assert_eq!(cache_lines(&c), vec!["L1: 32 KB | L2: 512 KB | L3: 16 MiB".to_string()]);
    assert_eq!(cache_lines(&Some(vec![])), vec!["".to_string()]);
}

#[test]
fn memory_lines_cases() {
    assert_eq!(memory_lines(None), vec!["No mem info".to_string()]);
    let v = vec!["a".to_string(), "b".to_string()];
    assert_eq!(memory_lines(Some(v.clone())), v);
}

#[test]
fn clock_text_pads_fields() {
    assert_eq!(clock_text(9, 5, 3), "09:05:03");
    assert_eq!(clock_text(23, 59, 60), "23:59:60");
    assert_eq!(placeholder_time(), "--:--:--");
}
