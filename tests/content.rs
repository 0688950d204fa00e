use tui_selector::content::{
    add_numbering, entry_id, entry_text, get_num_str, prepare_selector_content, selected_output,
};
use tui_selector::selector_ctl::start_selector;

fn strings(names: &[&str]) -> Vec<String> {
    names.iter().map(|s| s.to_string()).collect()
}

#[test]
fn num_str_pads_to_widest() {
    assert_eq!(get_num_str(5, 100), "005");
    assert_eq!(get_num_str(42, 100), "042");
    assert_eq!(get_num_str(10, 10), "10");
    assert_eq!(get_num_str(7, 9), "7");
    assert_eq!(get_num_str(0, 0), "0");
    assert_eq!(get_num_str(1234567, 98765432109), "00001234567");
    assert_eq!(get_num_str(usize::MAX, usize::MAX), usize::MAX.to_string());
}

#[test]
fn numbering_uses_common_width() {
    let list: Vec<String> = (0..10).map(|i| format!("x{}", i)).collect();
    let out = add_numbering(&list);
    assert_eq!(out.len(), 10);
    assert_eq!(out[0], " 01 x0");
    assert_eq!(out[9], " 10 x9");
}

#[test]
fn numbering_empty_list() {
    assert!(add_numbering(&[]).is_empty());
}

#[test]
fn entry_parts() {
    assert_eq!(entry_id("42::hello"), "42");
    assert_eq!(entry_text("42::hello"), "hello");
    assert_eq!(entry_id("a::b::c"), "a");
    assert_eq!(entry_text("a::b::c"), "b::c");
    assert_eq!(entry_text("a:::b"), ":b");
    assert_eq!(entry_id("no separator"), "");
    assert_eq!(entry_text("no separator"), "no separator");
    assert_eq!(entry_text("::"), "");
}

#[test]
fn prepare_plain_content_unchanged() {
    let input = strings(&["1::one", "two"]);
    assert_eq!(prepare_selector_content(&input, false, false), input);
}

#[test]
fn prepare_content_hides_ids_and_numbers() {
    let input = strings(&["1::one", "two", "3::three"]);
    assert_eq!(
        prepare_selector_content(&input, false, true),
        strings(&["one", "two", "three"])
    );
    assert_eq!(
        prepare_selector_content(&input, true, true),
        strings(&[" 1 one", " 2 two", " 3 three"])
    );
    assert_eq!(
        prepare_selector_content(&input, true, false),
        strings(&[" 1 1::one", " 2 two", " 3 3::three"])
    );
}

#[test]
fn output_of_selection() {
    let input = strings(&["id1::one", "two", "id3::three"]);
    assert_eq!(selected_output(&input, &[2, 0], false), strings(&["id3::three", "id1::one"]));
    assert_eq!(selected_output(&input, &[2, 1, 0], true), strings(&["id3", "", "id1"]));
}

#[test]
fn start_selector_numbers_entries() {
    let mut s = start_selector(strings(&["a", "b"]));
    assert_eq!(s.entry_count(), 2);
    assert_eq!(s.cursor(), 1);
    let frame = s.refresh_content(10);
    assert!(frame.contains(">  1 a"));
    assert!(frame.contains("   2 b"));
}
