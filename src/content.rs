//! Preparing the entries for display: line numbers and identifier prefixes.
use vstd::prelude::*;
use vstd::string::*;
use crate::text::{decimal, lemma_decimal_len_monotonic, usize_text};

verus! {

/// `k` zero digits.
pub open spec fn zeros(k: nat) -> Seq<char> {
    Seq::new(k, |_i: int| '0')
}

/// `n` in decimal, padded on the left with zeros to the width of `max_n`.
pub open spec fn padded_number(n: nat, max_n: nat) -> Seq<char> {
    zeros((decimal(max_n).len() - decimal(n).len()) as nat) + decimal(n)
}

/// The display line of the entry at 0-based position `i` of a numbered list of `count`.
pub open spec fn numbered_line(i: nat, count: nat, entry: Seq<char>) -> Seq<char> {
    seq![' '] + padded_number(i + 1, count) + seq![' '] + entry
}

/// The separator `::` starts at position `i` of `s`.
pub open spec fn has_sep_at(s: Seq<char>, i: int) -> bool {
    0 <= i && i + 1 < s.len() && s[i] == ':' && s[i + 1] == ':'
}

/// The first separator of `s` starts at `k`.
pub open spec fn first_sep_at(s: Seq<char>, k: int) -> bool {
    has_sep_at(s, k) && forall|i: int| 0 <= i < k ==> !has_sep_at(s, i)
}

pub open spec fn has_sep(s: Seq<char>) -> bool {
    exists|k: int| has_sep_at(s, k)
}

/// The text of an `identifier::text` line: what follows the first separator,
/// or the whole line where there is none.
pub open spec fn text_part(s: Seq<char>) -> Seq<char> {
    if has_sep(s) {
        let k = choose|k: int| first_sep_at(s, k);
        s.subrange(k + 2, s.len() as int)
    } else {
        s
    }
}

/// The identifier of an `identifier::text` line: what precedes the first
/// separator, or nothing where there is none.
pub open spec fn id_part(s: Seq<char>) -> Seq<char> {
    if has_sep(s) {
        let k = choose|k: int| first_sep_at(s, k);
        s.subrange(0, k)
    } else {
        Seq::empty()
    }
}

/// The display line of an entry: its text part when identifiers are hidden,
/// then numbered when numbering is asked for.
pub open spec fn display_line(
    i: nat,
    count: nat,
    line: Seq<char>,
    add_num: bool,
    id_out: bool,
) -> Seq<char> {
    let shown = if id_out {
        text_part(line)
    } else {
        line
    };
    if add_num {
        numbered_line(i, count, shown)
    } else {
        shown
    }
}

/// Relies on `str::split_once` with the pattern `"::"`: `None` where the
/// pattern does not occur, else the parts before and after its first occurrence.
#[verifier::external_body]
fn split_at_sep(s: &str) -> (r: Option<(String, String)>)
    ensures
        r is None <==> !has_sep(s@),
        r matches Some((a, b)) ==> s@ == a@ + seq![':', ':'] + b@ && forall|i: int|
            0 <= i < a@.len() ==> !has_sep_at(s@, i),
{
    s.split_once("::").map(|(a, b)| (a.to_string(), b.to_string()))
}

proof fn lemma_first_sep_unique(s: Seq<char>, k: int)
    requires
        first_sep_at(s, k),
    ensures
        has_sep(s),
        (choose|j: int| first_sep_at(s, j)) == k,
{
    assert(has_sep_at(s, k));
    assert(exists|j: int| first_sep_at(s, j));
    let j = choose|j: int| first_sep_at(s, j);
    if j < k {
        assert(!has_sep_at(s, j));
    } else if k < j {
        assert(!has_sep_at(s, k));
    }
}

/// Splits `line` as `identifier::text`: the two parts of [`text_part`] and [`id_part`].
fn split_entry(line: &str) -> (r: (String, String))
    ensures
        r.0@ == id_part(line@),
        r.1@ == text_part(line@),
{
    match split_at_sep(line) {
        Some((a, b)) => {
            proof {
                let k = a@.len() as int;
                let s = line@;
                assert(s[k] == ':' && s[k + 1] == ':');
                assert(has_sep_at(s, k));
                lemma_first_sep_unique(s, k);
                assert(s.subrange(0, k) =~= a@);
                assert(s.subrange(k + 2, s.len() as int) =~= b@);
            }
            (a, b)
        },
        None => (String::new(), line.to_owned()),
    }
}

/// The text part of an `identifier::text` line.
pub fn entry_text(line: &str) -> (r: String)
    ensures
        r@ == text_part(line@),
{
    split_entry(line).1
}

/// The identifier part of an `identifier::text` line; empty where the line has no separator.
pub fn entry_id(line: &str) -> (r: String)
    ensures
        r@ == id_part(line@),
{
    split_entry(line).0
}

/// Returns `n` in decimal, padded with zeros on the left to as many digits as `max_n` has.
pub fn get_num_str(n: usize, max_n: usize) -> (r: String)
    requires
        decimal(n as nat).len() <= decimal(max_n as nat).len(),
    ensures
        r@ == padded_number(n as nat, max_n as nat),
{
    let max_text = usize_text(max_n);
    let n_text = usize_text(n);
    let req_adj = max_text.as_str().unicode_len() - n_text.as_str().unicode_len();
    let mut adj_str = String::new();
    let mut i: usize = 0;
    while i < req_adj
        invariant
            i <= req_adj,
            adj_str@ == zeros(i as nat),
        decreases req_adj - i,
    {
        adj_str.append("0");
        proof {
            reveal_strlit("0");
        }
        assert(adj_str@ =~= zeros((i + 1) as nat));
        i = i + 1;
    }
    adj_str.append(n_text.as_str());
    adj_str
}

/// Returns the entries, each with its line number in front, zero-padded to a common width.
pub fn add_numbering(entry_list: &[String]) -> (r: Vec<String>)
    ensures
        r@.len() == entry_list@.len(),
        forall|i: int|
            0 <= i < r@.len() ==> #[trigger] r@[i]@ == numbered_line(
                i as nat,
                entry_list@.len(),
                entry_list@[i]@,
            ),
{
    let count = entry_list.len();
    let mut lines: Vec<String> = Vec::new();
    let mut i: usize = 0;
    while i < count
        invariant
            count == entry_list@.len(),
            i <= count,
            lines@.len() == i,
            forall|j: int|
                0 <= j < i ==> #[trigger] lines@[j]@ == numbered_line(
                    j as nat,
                    count as nat,
                    entry_list@[j]@,
                ),
        decreases count - i,
    {
        proof {
            lemma_decimal_len_monotonic((i + 1) as nat, count as nat);
            reveal_strlit(" ");
        }
        let mut line = String::from_str(" ");
        let num = get_num_str(i + 1, count);
        line.append(num.as_str());
        line.append(" ");
        line.append(entry_list[i].as_str());
        assert(line@ =~= numbered_line(i as nat, count as nat, entry_list@[i as int]@));
        lines.push(line);
        i = i + 1;
    }
    lines
}

/// Returns the lines to display: identifiers hidden when `id_out` is set,
/// then numbered when `add_num` is set.
pub fn prepare_selector_content(input_stream: &[String], add_num: bool, id_out: bool) -> (r: Vec<
    String,
>)
    ensures
        r@.len() == input_stream@.len(),
        forall|i: int|
            0 <= i < r@.len() ==> #[trigger] r@[i]@ == display_line(
                i as nat,
                input_stream@.len(),
                input_stream@[i]@,
                add_num,
                id_out,
            ),
{
    let count = input_stream.len();
    let mut shown: Vec<String> = Vec::new();
    let mut i: usize = 0;
    while i < count
        invariant
            count == input_stream@.len(),
            i <= count,
            shown@.len() == i,
            forall|j: int|
                0 <= j < i ==> #[trigger] shown@[j]@ == (if id_out {
                    text_part(input_stream@[j]@)
                } else {
                    input_stream@[j]@
                }),
        decreases count - i,
    {
        if id_out {
            shown.push(entry_text(input_stream[i].as_str()));
        } else {
            shown.push(input_stream[i].clone());
        }
        i = i + 1;
    }
    if add_num {
        add_numbering(shown.as_slice())
    } else {
        shown
    }
}

/// Returns, for each selected index, the line to print: the entry itself,
/// or its identifier in identifier mode.
pub fn selected_output(input_stream: &[String], selection: &[usize], id_mode: bool) -> (r: Vec<
    String,
>)
    requires
        forall|k: int| 0 <= k < selection@.len() ==> #[trigger] selection@[k] < input_stream@.len(),
    ensures
        r@.len() == selection@.len(),
        forall|k: int|
            0 <= k < r@.len() ==> #[trigger] r@[k]@ == (if id_mode {
                id_part(input_stream@[selection@[k] as int]@)
            } else {
                input_stream@[selection@[k] as int]@
            }),
{
    let mut out: Vec<String> = Vec::new();
    let mut k: usize = 0;
    while k < selection.len()
        invariant
            k <= selection@.len(),
            out@.len() == k,
            forall|j: int| 0 <= j < selection@.len() ==> #[trigger] selection@[j] < input_stream@.len(),
            forall|j: int|
                0 <= j < k ==> #[trigger] out@[j]@ == (if id_mode {
                    id_part(input_stream@[selection@[j] as int]@)
                } else {
                    input_stream@[selection@[j] as int]@
                }),
        decreases selection@.len() - k,
    {
        let idx = selection[k];
        if id_mode {
            out.push(entry_id(input_stream[idx].as_str()));
        } else {
            out.push(input_stream[idx].clone());
        }
        k = k + 1;
    }
    out
}

} // verus!
