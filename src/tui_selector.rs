//! The selector engine: cursor, selection set, scrolling window and screen text.
use vstd::prelude::*;
use vstd::string::*;
use vstd::math::min;
use crate::text::{
    bg_reset, bg_reset_seq, bg_white, bg_white_seq, clear_all, clear_all_seq, decimal, fg_black,
    fg_black_seq, fg_reset, fg_reset_seq, goto, goto_seq, hide_cursor, hide_cursor_seq, show_cursor,
    show_cursor_seq, trim_text, trimmed, usize_text,
};

verus! {

/// The abstract state of a selector.
///
/// `cursor` is the 1-based position of the current entry; `selected` holds
/// 0-based entry indices in the order they were chosen; `scroll_top` is the
/// number of content lines (header included) scrolled off the top.
pub struct SelectorModel {
    pub entries: Seq<Seq<char>>,
    pub cursor: int,
    pub selected: Seq<int>,
    pub scroll_top: int,
}

impl SelectorModel {
    pub open spec fn count(self) -> int {
        self.entries.len() as int
    }

    pub open spec fn wf(self) -> bool {
        &&& 1 <= self.count() < usize::MAX
        &&& 1 <= self.cursor <= self.count()
        &&& self.selected.no_duplicates()
        &&& forall|k: int|
            0 <= k < self.selected.len() ==> 0 <= #[trigger] self.selected[k] < self.count()
        &&& 0 <= self.scroll_top <= usize::MAX
    }

    /// The selected entries as a set.
    pub open spec fn selection_set(self) -> Set<int> {
        self.selected.to_set()
    }

    pub open spec fn with_cursor(self, cursor: int) -> SelectorModel {
        SelectorModel { cursor, ..self }
    }

    pub open spec fn with_selected(self, selected: Seq<int>) -> SelectorModel {
        SelectorModel { selected, ..self }
    }

    /// One entry down, from the last back to the first.
    pub open spec fn move_down(self) -> SelectorModel {
        self.with_cursor(
            if self.cursor >= self.count() {
                1
            } else {
                self.cursor + 1
            },
        )
    }

    /// One entry up, from the first back to the last.
    pub open spec fn move_up(self) -> SelectorModel {
        self.with_cursor(
            if self.cursor <= 1 {
                self.count()
            } else {
                self.cursor - 1
            },
        )
    }

    pub open spec fn go_bottom(self) -> SelectorModel {
        self.with_cursor(self.count())
    }

    pub open spec fn go_top(self) -> SelectorModel {
        self.with_cursor(1)
    }

    /// `sel` with entry `i` removed if present, else appended.
    pub open spec fn toggled(sel: Seq<int>, i: int) -> Seq<int> {
        if sel.contains(i) {
            sel.remove(sel.index_of(i))
        } else {
            sel.push(i)
        }
    }

    /// Toggles the entry under the cursor, then moves down.
    pub open spec fn toggle(self) -> SelectorModel {
        self.with_selected(Self::toggled(self.selected, self.cursor - 1)).move_down()
    }

    pub open spec fn select_all(self) -> SelectorModel {
        self.with_selected(Seq::new(self.count() as nat, |i: int| i))
    }

    pub open spec fn select_none(self) -> SelectorModel {
        self.with_selected(Seq::empty())
    }

    /// `None` when nothing is selected, else the selected indices in the order chosen.
    pub open spec fn retrieved(self) -> Option<Seq<int>> {
        if self.selected.len() == 0 {
            None
        } else {
            Some(self.selected)
        }
    }
}

/// The indices of a retrieved selection, as integers.
pub open spec fn indices_of(v: Seq<usize>) -> Seq<int> {
    v.map_values(|x: usize| x as int)
}

/// The text of each string.
pub open spec fn texts(v: Seq<String>) -> Seq<Seq<char>> {
    v.map_values(|s: String| s@)
}

/// The header line: the count of selected and of all entries, then the keys.
pub open spec fn header_line(m: SelectorModel) -> Seq<char> {
    fg_black_seq() + bg_white_seq() + " ("@ + decimal(m.selected.len()) + " selected / "@
        + decimal(m.count() as nat) + HEADER_KEYS@
}

/// The two leading characters of the line of entry `i`: the cursor marker, or
/// a space, then a space.
pub open spec fn marker(m: SelectorModel, i: int) -> Seq<char> {
    if i + 1 == m.cursor {
        "> "@
    } else {
        "  "@
    }
}

/// The line of entry `i` (0-based): highlighted when selected, plain otherwise.
pub open spec fn entry_line(m: SelectorModel, i: int) -> Seq<char> {
    if m.selected.contains(i) {
        fg_black_seq() + bg_white_seq() + marker(m, i) + m.entries[i] + fg_reset_seq()
            + bg_reset_seq()
    } else {
        fg_reset_seq() + bg_reset_seq() + marker(m, i) + m.entries[i]
    }
}

/// All content lines: the header, then one line per entry.
pub open spec fn content(m: SelectorModel) -> Seq<Seq<char>> {
    seq![header_line(m)] + Seq::new(m.count() as nat, |i: int| entry_line(m, i))
}

/// The scroll offset after a render, given the previous offset, the cursor's
/// 1-based content row `cur` and the rows available: back to the top when the
/// cursor is at or above the window, just enough to show it at the bottom when
/// it is below, unchanged otherwise.
pub open spec fn next_scroll(scroll_top: int, cur: int, max_rows: int) -> int {
    if cur <= scroll_top {
        0
    } else if cur - scroll_top > max_rows {
        cur - max_rows
    } else {
        scroll_top
    }
}

/// The end of the visible window of content of `len` lines from `start`:
/// `max_rows` lines at most, and never past the content.
pub open spec fn window_end(start: int, max_rows: int, len: int) -> int {
    min(start + min(max_rows, len), len)
}

/// The lines of `lines` that a render shows, from a previous offset `scroll_top`
/// and the cursor's 1-based content row `cur`.
pub open spec fn visible<T>(lines: Seq<T>, scroll_top: int, cur: int, max_rows: int) -> Seq<T> {
    let start = next_scroll(scroll_top, cur, max_rows);
    lines.subrange(start, window_end(start, max_rows, lines.len() as int))
}

/// Clears the screen, goes to the top-left corner and hides the cursor.
pub open spec fn clear_scr_seq() -> Seq<char> {
    clear_all_seq() + goto_seq(1, 1) + hide_cursor_seq()
}

/// Resets colours, clears the screen, puts the cursor at the start of row
/// `prompt_line` and shows it.
pub open spec fn reset_terminal_seq(prompt_line: nat) -> Seq<char> {
    fg_reset_seq() + bg_reset_seq() + clear_all_seq() + goto_seq(1, prompt_line)
        + show_cursor_seq()
}

/// Each line at the start of its row, from row 1 down.
pub open spec fn draw_seq(lines: Seq<Seq<char>>) -> Seq<char>
    decreases lines.len(),
{
    if lines.len() == 0 {
        Seq::empty()
    } else {
        draw_seq(lines.drop_last()) + goto_seq(1, lines.len()) + lines.last()
    }
}

/// The text of one render: the screen cleared, then the visible lines.
pub open spec fn frame_seq(m: SelectorModel, max_rows: int) -> Seq<char> {
    clear_scr_seq() + draw_seq(visible(content(m), m.scroll_top, m.cursor + 1, max_rows))
}

/// The text that ends a session: the screen cleared, the terminal reset with the
/// prompt on row 1, the cursor shown.
pub open spec fn quit_seq() -> Seq<char> {
    clear_scr_seq() + reset_terminal_seq(1) + show_cursor_seq()
}

/// The first `k` selected entries, trimmed, each on its own row from row 1.
pub open spec fn selection_rows(m: SelectorModel, k: int) -> Seq<char>
    decreases k,
{
    if k <= 0 {
        Seq::empty()
    } else {
        selection_rows(m, k - 1) + goto_seq(1, k as nat) + fg_reset_seq() + bg_reset_seq()
            + trimmed(m.entries[m.selected[k - 1]]) + "\n"@
    }
}

/// Puts the cursor at the start of row `prompt_line`, resets colours and shows
/// the cursor, leaving the screen as it is.
pub open spec fn prompt_seq(prompt_line: nat) -> Seq<char> {
    goto_seq(1, prompt_line) + fg_reset_seq() + bg_reset_seq() + show_cursor_seq()
}

/// The text that ends a session by listing the selected entries: the screen
/// cleared, the entries in the order selected, then the shell prompt placed on
/// the row below them with colours reset and the cursor shown.
pub open spec fn output_seq(m: SelectorModel) -> Seq<char> {
    clear_scr_seq() + selection_rows(m, m.selected.len() as int) + prompt_seq(
        (m.selected.len() + 1) as nat,
    )
}

pub const HEADER_KEYS: &'static str =
    " total)  [l/right:select  enter:run selection  q/h/left:quit  a:select all  n:deselect all] ";

/// The state of a selector over a list of display lines.
pub struct SelectorTUI {
    entry_list: Vec<String>,
    line_idx: usize,
    sel_tracker: Vec<usize>,
    scroll_top: usize,
}

impl View for SelectorTUI {
    type V = SelectorModel;

    closed spec fn view(&self) -> SelectorModel {
        SelectorModel {
            entries: self.entry_list@.map_values(|s: String| s@),
            cursor: self.line_idx as int,
            selected: indices_of(self.sel_tracker@),
            scroll_top: self.scroll_top as int,
        }
    }
}

impl SelectorTUI {
    /// A selector over `entry_list`, with the cursor on the first entry,
    /// nothing selected and nothing scrolled.
    pub fn new(entry_list: Vec<String>) -> (r: SelectorTUI)
        requires
            1 <= entry_list@.len() < usize::MAX,
        ensures
            r@.wf(),
            r@.entries == entry_list@.map_values(|s: String| s@),
            r@.cursor == 1,
            r@.selected == Seq::<int>::empty(),
            r@.scroll_top == 0,
    {
        let r = SelectorTUI { entry_list, line_idx: 1, sel_tracker: Vec::new(), scroll_top: 0 };
        assert(r@.selected =~= Seq::<int>::empty());
        r
    }

    /// The number of entries.
    pub fn entry_count(&self) -> (r: usize)
        ensures
            r == self@.count(),
    {
        self.entry_list.len()
    }

    /// The 1-based position of the current entry.
    pub fn cursor(&self) -> (r: usize)
        ensures
            r == self@.cursor,
    {
        self.line_idx
    }

    /// The number of content lines scrolled off the top at the last render.
    pub fn scroll_top(&self) -> (r: usize)
        ensures
            r == self@.scroll_top,
    {
        self.scroll_top
    }

    /// Whether the entry at 0-based index `idx` is selected.
    pub fn is_selected(&self, idx: usize) -> (r: bool)
        ensures
            r == self@.selected.contains(idx as int),
    {
        self.position_of(idx).is_some()
    }

    /// The position of entry `idx` in the selection, if it is selected.
    fn position_of(&self, idx: usize) -> (r: Option<usize>)
        ensures
            r is None <==> !self@.selected.contains(idx as int),
            r matches Some(p) ==> p < self@.selected.len() && self@.selected[p as int]
                == idx as int,
    {
        let mut p: usize = 0;
        while p < self.sel_tracker.len()
            invariant
                p <= self.sel_tracker@.len(),
                forall|j: int| 0 <= j < p ==> self.sel_tracker@[j] != idx,
            decreases self.sel_tracker@.len() - p,
        {
            if self.sel_tracker[p] == idx {
                assert(self@.selected[p as int] == idx as int);
                return Some(p);
            }
            p = p + 1;
        }
        proof {
            if self@.selected.contains(idx as int) {
                let j = choose|j: int|
                    0 <= j < self@.selected.len() && self@.selected[j] == idx as int;
                assert(self.sel_tracker@[j] == idx);
            }
        }
        None
    }

    /// Moves the cursor down one entry; from the last entry it goes to the first.
    pub fn move_down(&mut self)
        requires
            old(self)@.wf(),
        ensures
            final(self)@ == old(self)@.move_down(),
            final(self)@.wf(),
    {
        if self.line_idx >= self.entry_list.len() {
            self.go_top();
        } else {
            self.line_idx = self.line_idx + 1;
        }
    }

    /// Moves the cursor up one entry; from the first entry it goes to the last.
    pub fn move_up(&mut self)
        requires
            old(self)@.wf(),
        ensures
            final(self)@ == old(self)@.move_up(),
            final(self)@.wf(),
    {
        if self.line_idx <= 1 {
            self.go_bottom();
        } else {
            self.line_idx = self.line_idx - 1;
        }
    }

    /// Moves the cursor to the last entry.
    pub fn go_bottom(&mut self)
        requires
            old(self)@.wf(),
        ensures
            final(self)@ == old(self)@.go_bottom(),
            final(self)@.wf(),
    {
        self.line_idx = self.entry_list.len();
    }

    /// Moves the cursor to the first entry (below the header line).
    pub fn go_top(&mut self)
        requires
            old(self)@.wf(),
        ensures
            final(self)@ == old(self)@.go_top(),
            final(self)@.wf(),
    {
        self.line_idx = 1;
    }

    /// Selects the entry under the cursor, or deselects it if it was selected;
    /// then moves the cursor down.
    pub fn toggle_selection(&mut self)
        requires
            old(self)@.wf(),
        ensures
            final(self)@ == old(self)@.toggle(),
            final(self)@.wf(),
    {
        let ghost before = self@;
        let idx = self.line_idx - 1;
        match self.position_of(idx) {
            Some(p) => {
                proof {
                    let s = before.selected;
                    let j = s.index_of(idx as int);
                    assert(s.contains(idx as int));
                    assert(s[j] == idx as int && s[p as int] == idx as int);
                    assert(j == p);
                }
                self.sel_tracker.remove(p);
                proof {
                    let s = before.selected;
                    assert(self@.selected =~= s.remove(p as int));
                    assert forall|k: int| 0 <= k < self@.selected.len() implies 0
                        <= #[trigger] self@.selected[k] < self@.count() by {
                        if k < p {
                            assert(self@.selected[k] == s[k]);
                        } else {
                            assert(self@.selected[k] == s[k + 1]);
                        }
                    }
                    assert(self@.selected.no_duplicates()) by {
                        assert forall|a: int, b: int|
                            0 <= a < b < self@.selected.len() implies self@.selected[a]
                            != self@.selected[b] by {
                            let a2 = if a < p {
                                a
                            } else {
                                a + 1
                            };
                            let b2 = if b < p {
                                b
                            } else {
                                b + 1
                            };
                            assert(self@.selected[a] == s[a2]);
                            assert(self@.selected[b] == s[b2]);
                        }
                    }
                }
            },
            None => {
                self.sel_tracker.push(idx);
                proof {
                    let s = before.selected;
                    assert(self@.selected =~= s.push(idx as int));
                    assert forall|k: int| 0 <= k < self@.selected.len() implies 0
                        <= #[trigger] self@.selected[k] < self@.count() by {
                        if k < s.len() {
                            assert(self@.selected[k] == s[k]);
                        }
                    }
                    assert(self@.selected.no_duplicates()) by {
                        assert forall|a: int, b: int|
                            0 <= a < b < self@.selected.len() implies self@.selected[a]
                            != self@.selected[b] by {
                            assert(self@.selected[a] == s[a]);
                            if b == s.len() {
                                assert(!s.contains(idx as int));
                            } else {
                                assert(self@.selected[b] == s[b]);
                            }
                        }
                    }
                }
            },
        }
        assert(self@ == before.with_selected(SelectorModel::toggled(before.selected, before.cursor - 1)));
        self.move_down();
    }

    /// Selects every entry.
    pub fn select_all(&mut self)
        requires
            old(self)@.wf(),
        ensures
            final(self)@ == old(self)@.select_all(),
            final(self)@.wf(),
    {
        let n = self.entry_list.len();
        let mut all: Vec<usize> = Vec::new();
        let mut idx: usize = 0;
        while idx < n
            invariant
                idx <= n,
                all@.len() == idx,
                forall|k: int| 0 <= k < idx ==> all@[k] == k,
            decreases n - idx,
        {
            all.push(idx);
            idx = idx + 1;
        }
        self.sel_tracker = all;
        assert(self@.selected =~= Seq::new(n as nat, |i: int| i));
    }

    /// Deselects every entry.
    pub fn select_none(&mut self)
        requires
            old(self)@.wf(),
        ensures
            final(self)@ == old(self)@.select_none(),
            final(self)@.wf(),
    {
        self.sel_tracker.clear();
        assert(self@.selected =~= Seq::<int>::empty());
    }

    /// `None` when nothing is selected, else the 0-based indices of the
    /// selected entries, in the order they were selected.
    pub fn retrieve_selection(&self) -> (r: Option<Vec<usize>>)
        requires
            self@.wf(),
        ensures
            r is None <==> self@.retrieved() is None,
            r matches Some(v) ==> self@.retrieved() == Some(indices_of(v@)),
            r matches Some(v) ==> forall|k: int| 0 <= k < v@.len() ==> #[trigger] v@[k] < self@.count(),
    {
        if self.sel_tracker.len() == 0 {
            return None;
        }
        let mut out: Vec<usize> = Vec::new();
        let mut k: usize = 0;
        while k < self.sel_tracker.len()
            invariant
                self@.wf(),
                k <= self.sel_tracker@.len(),
                out@ =~= self.sel_tracker@.subrange(0, k as int),
            decreases self.sel_tracker@.len() - k,
        {
            out.push(self.sel_tracker[k]);
            k = k + 1;
        }
        proof {
            assert(out@ =~= self.sel_tracker@);
            assert forall|k: int| 0 <= k < out@.len() implies #[trigger] out@[k] < self@.count() by {
                assert(self@.selected[k] == out@[k] as int);
            }
        }
        Some(out)
    }

    /// The header line.
    fn make_header_line(&self) -> (r: String)
        requires
            self@.wf(),
        ensures
            r@ == header_line(self@),
    {
        let mut h = fg_black();
        h.append(bg_white().as_str());
        h.append(" (");
        h.append(usize_text(self.sel_tracker.len()).as_str());
        h.append(" selected / ");
        h.append(usize_text(self.entry_list.len()).as_str());
        h.append(HEADER_KEYS);
        h
    }

    /// One line per entry, with the cursor marker on the current entry and
    /// selected entries highlighted.
    fn make_entries_into_lines(&self) -> (r: Vec<String>)
        requires
            self@.wf(),
        ensures
            texts(r@) == Seq::new(self@.count() as nat, |i: int| entry_line(self@, i)),
    {
        let mut lines: Vec<String> = Vec::new();
        let n = self.entry_list.len();
        let mut idx: usize = 0;
        while idx < n
            invariant
                n == self@.count(),
                idx <= n,
                lines@.len() == idx,
                forall|j: int| 0 <= j < idx ==> #[trigger] lines@[j]@ == entry_line(self@, j),
            decreases n - idx,
        {
            let mark = if idx + 1 == self.line_idx {
                "> "
            } else {
                "  "
            };
            let entry = self.entry_list[idx].as_str();
            let line = if self.is_selected(idx) {
                let mut l = fg_black();
                l.append(bg_white().as_str());
                l.append(mark);
                l.append(entry);
                l.append(fg_reset().as_str());
                l.append(bg_reset().as_str());
                l
            } else {
                let mut l = fg_reset();
                l.append(bg_reset().as_str());
                l.append(mark);
                l.append(entry);
                l
            };
            assert(line@ == entry_line(self@, idx as int));
            lines.push(line);
            idx = idx + 1;
        }
        assert(texts(lines@) =~= Seq::new(self@.count() as nat, |i: int| entry_line(self@, i)));
        lines
    }

    /// The header line followed by the entry lines.
    fn make_content(&self) -> (r: Vec<String>)
        requires
            self@.wf(),
        ensures
            texts(r@) == content(self@),
    {
        let mut lines: Vec<String> = Vec::new();
        lines.push(self.make_header_line());
        let mut entries = self.make_entries_into_lines();
        lines.append(&mut entries);
        assert(texts(lines@) =~= content(self@));
        lines
    }

    /// Updates the scroll offset for a window of `max_rows` rows over `lines`,
    /// then returns the lines of that window.
    pub fn calculate_lines_to_draw(&mut self, lines: &[String], max_rows: usize) -> (r: Vec<String>)
        requires
            old(self)@.wf(),
            old(self)@.cursor + 1 <= lines@.len(),
        ensures
            final(self)@ == (SelectorModel {
                scroll_top: next_scroll(old(self)@.scroll_top, old(self)@.cursor + 1, max_rows as int),
                ..old(self)@
            }),
            final(self)@.wf(),
            r@ == visible(lines@, old(self)@.scroll_top, old(self)@.cursor + 1, max_rows as int),
    {
        let cur_line = self.line_idx + 1;
        let mut scroll_top = self.scroll_top;
        if cur_line <= scroll_top {
            scroll_top = 0;
        } else if cur_line - scroll_top > max_rows {
            scroll_top = cur_line - max_rows;
        }
        self.scroll_top = scroll_top;
        let len = lines.len();
        let rows = if max_rows < len {
            max_rows
        } else {
            len
        };
        let end = if rows > len - scroll_top {
            len
        } else {
            scroll_top + rows
        };
        let mut shown: Vec<String> = Vec::new();
        let mut k: usize = scroll_top;
        while k < end
            invariant
                scroll_top <= k <= end <= len,
                len == lines@.len(),
                shown@ == lines@.subrange(scroll_top as int, k as int),
            decreases end - k,
        {
            shown.push(lines[k].clone());
            proof {
                assert(shown@ =~= lines@.subrange(scroll_top as int, k + 1));
            }
            k = k + 1;
        }
        shown
    }

    /// Writes each line at the start of its row, from row 1 down.
    fn draw_content(lines: &Vec<String>) -> (r: String)
        requires
            lines@.len() < 65536,
        ensures
            r@ == draw_seq(texts(lines@)),
    {
        let mut out = String::new();
        let mut k: usize = 0;
        while k < lines.len()
            invariant
                k <= lines@.len() < 65536,
                out@ == draw_seq(texts(lines@.subrange(0, k as int))),
            decreases lines@.len() - k,
        {
            out.append(goto(1, (k + 1) as u16).as_str());
            out.append(lines[k].as_str());
            proof {
                let done = texts(lines@.subrange(0, k + 1));
                assert(done.drop_last() =~= texts(lines@.subrange(0, k as int)));
                assert(done.last() == lines@[k as int]@);
            }
            k = k + 1;
        }
        assert(lines@.subrange(0, lines@.len() as int) =~= lines@);
        out
    }

    /// The text that clears the screen, goes to the top-left corner and hides the cursor.
    fn clear_scr() -> (r: String)
        ensures
            r@ == clear_scr_seq(),
    {
        let mut out = clear_all();
        out.append(goto(1, 1).as_str());
        out.append(hide_cursor().as_str());
        out
    }

    /// The text that restores colours and cursor visibility, with the shell
    /// prompt to go on row `prompt_line`.
    fn reset_terminal(prompt_line: u16) -> (r: String)
        ensures
            r@ == reset_terminal_seq(prompt_line as nat),
    {
        let mut out = fg_reset();
        out.append(bg_reset().as_str());
        out.append(clear_all().as_str());
        out.append(goto(1, prompt_line).as_str());
        out.append(show_cursor().as_str());
        out
    }

    /// The text that puts the shell prompt on row `prompt_line`, with colours
    /// reset and the cursor shown, without clearing the screen.
    fn place_prompt(prompt_line: u16) -> (r: String)
        requires
            prompt_line >= 1,
        ensures
            r@ == prompt_seq(prompt_line as nat),
    {
        let mut out = goto(1, prompt_line);
        out.append(fg_reset().as_str());
        out.append(bg_reset().as_str());
        out.append(show_cursor().as_str());
        out
    }

    /// Updates the scroll offset for a terminal of `term_rows` rows (one is
    /// kept for the shell prompt) and returns the text that redraws the screen.
    pub fn refresh_content(&mut self, term_rows: u16) -> (r: String)
        requires
            old(self)@.wf(),
            term_rows >= 1,
        ensures
            final(self)@ == (SelectorModel {
                scroll_top: next_scroll(
                    old(self)@.scroll_top,
                    old(self)@.cursor + 1,
                    term_rows - 1,
                ),
                ..old(self)@
            }),
            final(self)@.wf(),
            r@ == frame_seq(old(self)@, term_rows - 1),
    {
        let ghost before = self@;
        let all_lines = self.make_content();
        let max_rows = (term_rows - 1) as usize;
        assert(all_lines@.len() == texts(all_lines@).len());
        let lines = self.calculate_lines_to_draw(all_lines.as_slice(), max_rows);
        proof {
            assert(texts(lines@) =~= visible(content(before), before.scroll_top, before.cursor + 1, max_rows as int));
        }
        let mut out = Self::clear_scr();
        out.append(Self::draw_content(&lines).as_str());
        out
    }

    /// The text that ends the session: clears the screen, resets colours and
    /// shows the cursor, with the shell prompt on row 1.
    pub fn quit(&self) -> (r: String)
        ensures
            r@ == quit_seq(),
    {
        let mut out = Self::clear_scr();
        out.append(Self::reset_terminal(1).as_str());
        out.append(show_cursor().as_str());
        out
    }

    /// The text that ends the session by writing the selected entries on the
    /// screen, trimmed, one per row, with the shell prompt below them.
    pub fn output_selection(&self) -> (r: String)
        requires
            self@.wf(),
            self@.selected.len() < 65535,
        ensures
            r@ == output_seq(self@),
    {
        let mut out = Self::clear_scr();
        let mut k: usize = 0;
        while k < self.sel_tracker.len()
            invariant
                self@.wf(),
                k <= self@.selected.len() < 65535,
                out@ == clear_scr_seq() + selection_rows(self@, k as int),
            decreases self@.selected.len() - k,
        {
            let idx = self.sel_tracker[k];
            assert(self@.selected[k as int] == idx as int);
            out.append(goto(1, (k + 1) as u16).as_str());
            out.append(fg_reset().as_str());
            out.append(bg_reset().as_str());
            out.append(trim_text(self.entry_list[idx].as_str()).as_str());
            out.append("\n");
            proof {
                assert(out@ =~= clear_scr_seq() + selection_rows(self@, k + 1));
            }
            k = k + 1;
        }
        out.append(Self::place_prompt((self.sel_tracker.len() + 1) as u16).as_str());
        out
    }
}

} // verus!
