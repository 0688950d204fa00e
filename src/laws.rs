//! Properties of the selector's state transitions.
use vstd::prelude::*;
use vstd::math::min;
use crate::tui_selector::{next_scroll, visible, window_end, SelectorModel};

verus! {

/// Every transition keeps the state well formed.
pub proof fn lemma_transitions_keep_wf(s: SelectorModel)
    requires
        s.wf(),
    ensures
        s.move_down().wf(),
        s.move_up().wf(),
        s.go_top().wf(),
        s.go_bottom().wf(),
        s.select_all().wf(),
        s.select_none().wf(),
        s.toggle().wf(),
{
    lemma_toggled_keeps_range(s.selected, s.cursor - 1, s.count());
}

proof fn lemma_toggled_keeps_range(sel: Seq<int>, i: int, n: int)
    requires
        sel.no_duplicates(),
        forall|k: int| 0 <= k < sel.len() ==> 0 <= #[trigger] sel[k] < n,
        0 <= i < n,
    ensures
        SelectorModel::toggled(sel, i).no_duplicates(),
        forall|k: int|
            0 <= k < SelectorModel::toggled(sel, i).len() ==> 0 <= #[trigger] SelectorModel::toggled(
                sel,
                i,
            )[k] < n,
{
    let t = SelectorModel::toggled(sel, i);
    if sel.contains(i) {
        let j = sel.index_of(i);
        assert forall|k: int| 0 <= k < t.len() implies 0 <= #[trigger] t[k] < n by {
            if k < j {
                assert(t[k] == sel[k]);
            } else {
                assert(t[k] == sel[k + 1]);
            }
        }
        assert forall|a: int, b: int| 0 <= a < b < t.len() implies t[a] != t[b] by {
            let a2 = if a < j {
                a
            } else {
                a + 1
            };
            let b2 = if b < j {
                b
            } else {
                b + 1
            };
            assert(t[a] == sel[a2]);
            assert(t[b] == sel[b2]);
        }
    } else {
        assert forall|k: int| 0 <= k < t.len() implies 0 <= #[trigger] t[k] < n by {
            if k < sel.len() {
                assert(t[k] == sel[k]);
            }
        }
        assert forall|a: int, b: int| 0 <= a < b < t.len() implies t[a] != t[b] by {
            assert(t[a] == sel[a]);
            if b < sel.len() {
                assert(t[b] == sel[b]);
            }
        }
    }
}

/// Moving down from the last entry reaches the first, moving up from the
/// first reaches the last, and each move undoes the other.
pub proof fn lemma_cursor_wraps(s: SelectorModel)
    requires
        s.wf(),
    ensures
        s.cursor == s.count() ==> s.move_down().cursor == 1,
        s.cursor == 1 ==> s.move_up().cursor == s.count(),
        s.move_down().move_up() == s,
        s.move_up().move_down() == s,
{
}

/// Toggling an entry twice gives back the selection set it started from.
pub proof fn lemma_toggled_twice(sel: Seq<int>, i: int)
    requires
        sel.no_duplicates(),
    ensures
        SelectorModel::toggled(SelectorModel::toggled(sel, i), i).to_set() == sel.to_set(),
{
    let t = SelectorModel::toggled(sel, i);
    if sel.contains(i) {
        let j = sel.index_of(i);
        assert(0 <= j < sel.len() && sel[j] == i);
        assert(!t.contains(i)) by {
            if t.contains(i) {
                let k = choose|k: int| 0 <= k < t.len() && t[k] == i;
                if k < j {
                    assert(t[k] == sel[k]);
                } else {
                    assert(t[k] == sel[k + 1]);
                }
            }
        }
        let u = t.push(i);
        assert(SelectorModel::toggled(t, i) == u);
        assert forall|x: int| u.to_set().contains(x) <==> sel.to_set().contains(x) by {
            if sel.contains(x) {
                let k = choose|k: int| 0 <= k < sel.len() && sel[k] == x;
                if k < j {
                    assert(u[k] == x);
                } else if k == j {
                    assert(u[t.len() as int] == x);
                } else {
                    assert(u[k - 1] == x);
                }
            }
            if u.contains(x) {
                let k = choose|k: int| 0 <= k < u.len() && u[k] == x;
                if k == t.len() {
                    assert(sel[j] == x);
                } else if k < j {
                    assert(sel[k] == x);
                } else {
                    assert(sel[k + 1] == x);
                }
            }
        }
        assert(u.to_set() =~= sel.to_set());
    } else {
        assert(t == sel.push(i));
        assert(t[sel.len() as int] == i);
        assert(t.contains(i));
        let j = t.index_of(i);
        assert(j == sel.len()) by {
            if j < sel.len() {
                assert(sel[j] == i);
            }
        }
        assert(t.remove(j) =~= sel);
    }
}

/// Toggling the entry under the cursor, moving back up and toggling it again
/// leaves the selection set as it was, with the cursor one entry further down
/// (wrap-adjusted); two toggles in a row move the cursor down twice.
pub proof fn lemma_toggle_pair(s: SelectorModel)
    requires
        s.wf(),
    ensures
        s.toggle().move_up().toggle().selection_set() == s.selection_set(),
        s.toggle().move_up().toggle().cursor == s.move_down().cursor,
        s.toggle().move_up().toggle().entries == s.entries,
        s.toggle().toggle().cursor == s.move_down().move_down().cursor,
{
    lemma_transitions_keep_wf(s);
    let t = s.toggle();
    assert(t.move_up().cursor == s.cursor);
    lemma_toggled_twice(s.selected, s.cursor - 1);
}

/// After selecting all, the retrieved selection is every index in order;
/// after selecting none, there is no selection.
pub proof fn lemma_select_all_none(s: SelectorModel)
    requires
        s.wf(),
    ensures
        s.select_all().retrieved() == Some(Seq::new(s.count() as nat, |i: int| i)),
        s.select_all().selection_set() == Set::new(|i: int| 0 <= i < s.count()),
        s.select_none().retrieved() is None,
{
    let all = Seq::new(s.count() as nat, |i: int| i);
    assert forall|x: int| all.to_set().contains(x) <==> 0 <= x < s.count() by {
        if 0 <= x < s.count() {
            assert(all[x] == x);
        }
    }
    assert(all.to_set() =~= Set::new(|i: int| 0 <= i < s.count()));
}

/// A retrieved selection holds valid 0-based indices only.
pub proof fn lemma_retrieved_in_range(s: SelectorModel)
    requires
        s.wf(),
    ensures
        s.retrieved() matches Some(v) ==> forall|k: int|
            0 <= k < v.len() ==> 0 <= #[trigger] v[k] < s.count(),
{
}

/// The window always lies within the content, and holds `min(max_rows, len)`
/// lines unless an unchanged offset leaves fewer lines below it than that
/// (the terminal grew since the last render).
pub proof fn lemma_window_length(lines: Seq<Seq<char>>, scroll_top: int, cur: int, max_rows: int)
    requires
        0 <= scroll_top,
        1 <= cur <= lines.len(),
        max_rows >= 1,
        !(scroll_top < cur <= scroll_top + max_rows && scroll_top + min(max_rows, lines.len() as int)
            > lines.len()),
    ensures
        0 <= next_scroll(scroll_top, cur, max_rows) <= window_end(
            next_scroll(scroll_top, cur, max_rows),
            max_rows,
            lines.len() as int,
        ) <= lines.len(),
        visible(lines, scroll_top, cur, max_rows).len() == min(max_rows, lines.len() as int),
{
}

/// The window shows the cursor's row `cur` (1-based, header included), unless
/// the cursor moved above the window to a row that the snap back to the top
/// does not reach.
pub proof fn lemma_window_shows_cursor(
    lines: Seq<Seq<char>>,
    scroll_top: int,
    cur: int,
    max_rows: int,
)
    requires
        0 <= scroll_top,
        1 <= cur <= lines.len(),
        max_rows >= 1,
        !(cur <= scroll_top && cur > max_rows),
    ensures
        next_scroll(scroll_top, cur, max_rows) < cur <= window_end(
            next_scroll(scroll_top, cur, max_rows),
            max_rows,
            lines.len() as int,
        ),
        visible(lines, scroll_top, cur, max_rows)[cur - 1 - next_scroll(scroll_top, cur, max_rows)]
            == lines[cur - 1],
{
}

} // verus!
