//! Terminal escape sequences and decimal numbers as text.
use vstd::prelude::*;
use vstd::string::*;

verus! {

/// The character of a decimal digit `d < 10`.
pub open spec fn digit_char(d: nat) -> char {
    seq!['0', '1', '2', '3', '4', '5', '6', '7', '8', '9'][d as int]
}

/// The decimal notation of `n`, without sign or leading zeros.
pub open spec fn decimal(n: nat) -> Seq<char>
    decreases n,
{
    if n < 10 {
        seq![digit_char(n)]
    } else {
        decimal(n / 10).push(digit_char(n % 10))
    }
}

/// A control sequence: the escape character and `[`, then `body`.
pub open spec fn csi(body: Seq<char>) -> Seq<char> {
    seq!['\u{1b}', '['] + body
}

pub open spec fn clear_all_seq() -> Seq<char> {
    csi(seq!['2', 'J'])
}

pub open spec fn hide_cursor_seq() -> Seq<char> {
    csi(seq!['?', '2', '5', 'l'])
}

pub open spec fn show_cursor_seq() -> Seq<char> {
    csi(seq!['?', '2', '5', 'h'])
}

/// Moves the cursor to column `x`, row `y` (both one-based).
pub open spec fn goto_seq(x: nat, y: nat) -> Seq<char> {
    csi(decimal(y) + seq![';'] + decimal(x) + seq!['H'])
}

pub open spec fn fg_black_seq() -> Seq<char> {
    csi(seq!['3', '8', ';', '5', ';', '0', 'm'])
}

pub open spec fn bg_white_seq() -> Seq<char> {
    csi(seq!['4', '8', ';', '5', ';', '7', 'm'])
}

pub open spec fn fg_reset_seq() -> Seq<char> {
    csi(seq!['3', '9', 'm'])
}

pub open spec fn bg_reset_seq() -> Seq<char> {
    csi(seq!['4', '9', 'm'])
}

/// The digit `d < 10` as text.
fn digit_text(d: usize) -> (r: String)
    requires
        d < 10,
    ensures
        r@ == seq![digit_char(d as nat)],
{
    let t = if d == 0 {
        "0"
    } else if d == 1 {
        "1"
    } else if d == 2 {
        "2"
    } else if d == 3 {
        "3"
    } else if d == 4 {
        "4"
    } else if d == 5 {
        "5"
    } else if d == 6 {
        "6"
    } else if d == 7 {
        "7"
    } else if d == 8 {
        "8"
    } else {
        "9"
    };
    proof {
        reveal_strlit("0");
        reveal_strlit("1");
        reveal_strlit("2");
        reveal_strlit("3");
        reveal_strlit("4");
        reveal_strlit("5");
        reveal_strlit("6");
        reveal_strlit("7");
        reveal_strlit("8");
        reveal_strlit("9");
    }
    let r = String::from_str(t);
    assert(r@ =~= seq![digit_char(d as nat)]);
    r
}

/// `n` in decimal.
pub(crate) fn usize_text(n: usize) -> (r: String)
    ensures
        r@ == decimal(n as nat),
    decreases n,
{
    if n < 10 {
        digit_text(n)
    } else {
        let mut r = usize_text(n / 10);
        r.append(digit_text(n % 10).as_str());
        r
    }
}

/// `c` has the Unicode property White_Space.
pub open spec fn is_white_space(c: char) -> bool {
    let u = c as u32;
    (0x9 <= u <= 0xd) || u == 0x20 || u == 0x85 || u == 0xa0 || u == 0x1680 || (0x2000 <= u
        <= 0x200a) || u == 0x2028 || u == 0x2029 || u == 0x202f || u == 0x205f || u == 0x3000
}

/// `s` without its leading white space.
pub open spec fn trim_start_seq(s: Seq<char>) -> Seq<char>
    decreases s.len(),
{
    if s.len() > 0 && is_white_space(s[0]) {
        trim_start_seq(s.drop_first())
    } else {
        s
    }
}

/// `s` without its trailing white space.
pub open spec fn trim_end_seq(s: Seq<char>) -> Seq<char>
    decreases s.len(),
{
    if s.len() > 0 && is_white_space(s.last()) {
        trim_end_seq(s.drop_last())
    } else {
        s
    }
}

/// `s` without its leading and trailing white space.
pub open spec fn trimmed(s: Seq<char>) -> Seq<char> {
    trim_end_seq(trim_start_seq(s))
}

/// Relies on `str::trim`: the line without its leading and trailing characters
/// of the Unicode property White_Space.
#[verifier::external_body]
pub(crate) fn trim_text(s: &str) -> (r: String)
    ensures
        r@ == trimmed(s@),
{
    s.trim().to_string()
}

/// Relies on `termion::clear::All`'s `Display`: the sequence `ESC [ 2 J`.
#[verifier::external_body]
pub(crate) fn clear_all() -> (r: String)
    ensures
        r@ == clear_all_seq(),
{
    termion::clear::All.to_string()
}

/// Relies on `termion::cursor::Hide`'s `Display`: the sequence `ESC [ ? 2 5 l`.
#[verifier::external_body]
pub(crate) fn hide_cursor() -> (r: String)
    ensures
        r@ == hide_cursor_seq(),
{
    termion::cursor::Hide.to_string()
}

/// Relies on `termion::cursor::Show`'s `Display`: the sequence `ESC [ ? 2 5 h`.
#[verifier::external_body]
pub(crate) fn show_cursor() -> (r: String)
    ensures
        r@ == show_cursor_seq(),
{
    termion::cursor::Show.to_string()
}

/// Relies on `termion::cursor::Goto`'s `Display`: `ESC [`, the row, `;`, the
/// column, `H`, in decimal. It debug-asserts that the position is not `(0, 0)`.
#[verifier::external_body]
pub(crate) fn goto(x: u16, y: u16) -> (r: String)
    requires
        x != 0 || y != 0,
    ensures
        r@ == goto_seq(x as nat, y as nat),
{
    termion::cursor::Goto(x, y).to_string()
}

/// Relies on `termion::color::Black::fg_str`: the sequence `ESC [ 3 8 ; 5 ; 0 m`.
/// Unlike `Fg(Black)`'s `Display`, it is written whether or not `NO_COLOR` is
/// set, so the highlight does not depend on the environment.
#[verifier::external_body]
pub(crate) fn fg_black() -> (r: String)
    ensures
        r@ == fg_black_seq(),
{
    termion::color::Black.fg_str().to_string()
}

/// Relies on `termion::color::White::bg_str`: the sequence `ESC [ 4 8 ; 5 ; 7 m`.
/// Unlike `Bg(White)`'s `Display`, it is written whether or not `NO_COLOR` is
/// set, so the highlight does not depend on the environment.
#[verifier::external_body]
pub(crate) fn bg_white() -> (r: String)
    ensures
        r@ == bg_white_seq(),
{
    termion::color::White.bg_str().to_string()
}

/// Relies on `termion::color::Reset::fg_str`: the sequence `ESC [ 3 9 m`.
#[verifier::external_body]
pub(crate) fn fg_reset() -> (r: String)
    ensures
        r@ == fg_reset_seq(),
{
    termion::color::Reset.fg_str().to_string()
}

/// Relies on `termion::color::Reset::bg_str`: the sequence `ESC [ 4 9 m`.
#[verifier::external_body]
pub(crate) fn bg_reset() -> (r: String)
    ensures
        r@ == bg_reset_seq(),
{
    termion::color::Reset.bg_str().to_string()
}

/// A decimal notation is never longer than that of a larger number.
pub proof fn lemma_decimal_len_monotonic(a: nat, b: nat)
    requires
        a <= b,
    ensures
        decimal(a).len() <= decimal(b).len(),
    decreases b,
{
    if b >= 10 {
        if a >= 10 {
            lemma_decimal_len_monotonic(a / 10, b / 10);
        }
    }
}

} // verus!
