//! Starting a selector over a list of entries shown with line numbers.
use vstd::prelude::*;
use crate::content::{add_numbering, numbered_line};
use crate::tui_selector::SelectorTUI;

verus! {

/// Numbers the entries, then builds a selector over the numbered lines, with
/// the cursor on the first entry and nothing selected.
pub fn start_selector(entry_list: Vec<String>) -> (r: SelectorTUI)
    requires
        1 <= entry_list@.len() < usize::MAX,
    ensures
        r@.wf(),
        r@.entries == Seq::new(
            entry_list@.len(),
            |i: int| numbered_line(i as nat, entry_list@.len(), entry_list@[i]@),
        ),
        r@.cursor == 1,
        r@.selected == Seq::<int>::empty(),
        r@.scroll_top == 0,
{
    let selector_content = prepare_selector_content(&entry_list);
    let r = make_tui(selector_content);
    assert(r@.entries =~= Seq::new(
        entry_list@.len(),
        |i: int| numbered_line(i as nat, entry_list@.len(), entry_list@[i]@),
    ));
    r
}

/// Each entry with its line number in front.
fn prepare_selector_content(entry_list: &Vec<String>) -> (r: Vec<String>)
    ensures
        r@.len() == entry_list@.len(),
        forall|i: int|
            0 <= i < r@.len() ==> #[trigger] r@[i]@ == numbered_line(
                i as nat,
                entry_list@.len(),
                entry_list@[i]@,
            ),
{
    add_numbering(entry_list.as_slice())
}

/// A selector over `entry_list` as its display lines.
fn make_tui(entry_list: Vec<String>) -> (r: SelectorTUI)
    requires
        1 <= entry_list@.len() < usize::MAX,
    ensures
        r@.wf(),
        r@.entries == entry_list@.map_values(|s: String| s@),
        r@.cursor == 1,
        r@.selected == Seq::<int>::empty(),
        r@.scroll_top == 0,
{
    SelectorTUI::new(entry_list)
}

} // verus!
