//! Geometry of the operator's dashboard: how many rows a text takes once wrapped
//! at word boundaries, where the cursor ends up, and how far a panel scrolls.

use vstd::prelude::*;
use crate::text::{is_white_space, char_is_whitespace, chars_of};
use crate::dashboard::{App, ChatEntry, Panel, StatsStep};
use crate::user_status::UserStatus;

verus! {

/// Lengths of the words of `s`, in order: a word is a maximal run of characters
/// that are not white space.
pub open spec fn word_lengths(s: Seq<char>) -> Seq<nat>
    decreases s.len(),
{
    if s.len() == 0 {
        Seq::empty()
    } else {
        let before = word_lengths(s.drop_last());
        if is_white_space(s.last()) {
            before
        } else if s.len() >= 2 && !is_white_space(s[s.len() - 2]) {
            before.update(before.len() - 1, before.last() + 1)
        } else {
            before.push(1)
        }
    }
}

/// `s` ends inside a word.
pub open spec fn ends_in_word(s: Seq<char>) -> bool {
    s.len() > 0 && !is_white_space(s.last())
}

/// Rows used and length of the last row after one more word of length `w` is laid
/// out: a word goes on the current row, after a space, if it fits within `width`,
/// and otherwise starts a new row.
pub open spec fn place_word(state: (nat, nat), w: nat, width: nat) -> (nat, nat) {
    let (rows, cur) = state;
    if cur == 0 {
        (rows, w)
    } else if cur + 1 + w <= width {
        (rows, cur + 1 + w)
    } else {
        (rows + 1, w)
    }
}

/// Rows used and length of the last row when the words of lengths `ws` are laid
/// out in order, starting on one empty row.
pub open spec fn layout(ws: Seq<nat>, width: nat) -> (nat, nat)
    decreases ws.len(),
{
    if ws.len() == 0 {
        (1, 0)
    } else {
        place_word(layout(ws.drop_last(), width), ws.last(), width)
    }
}

/// The lines of `s`, as separated by line feeds (an empty text is one empty line).
pub open spec fn text_lines(s: Seq<char>) -> Seq<Seq<char>>
    decreases s.len(),
{
    if s.len() == 0 {
        seq![Seq::empty()]
    } else {
        let before = text_lines(s.drop_last());
        if s.last() == '\n' {
            before.push(Seq::empty())
        } else {
            before.update(before.len() - 1, before.last().push(s.last()))
        }
    }
}

/// Rows of a group of lines, each wrapped on its own.
pub open spec fn lines_rows(lines: Seq<Seq<char>>, width: nat) -> nat
    decreases lines.len(),
{
    if lines.len() == 0 {
        0
    } else {
        lines_rows(lines.drop_last(), width) + layout(word_lengths(lines.last()), width).0
    }
}

/// Rows taken by `text` wrapped within `width` columns; a zero width counts as one row.
pub open spec fn wrapped_rows(text: Seq<char>, width: nat) -> nat {
    if width == 0 {
        1
    } else {
        lines_rows(text_lines(text), width)
    }
}

/// Row and column of the end of `text` laid out within `width` columns, line feeds
/// counting as mere spaces; the origin for a zero width.
pub open spec fn cursor_at_end(text: Seq<char>, width: nat) -> (nat, nat) {
    if width == 0 {
        (0, 0)
    } else {
        let (rows, cur) = layout(word_lengths(text), width);
        ((rows - 1) as nat, cur)
    }
}

proof fn lemma_word_lengths_push(s: Seq<char>, c: char)
    ensures
        word_lengths(s.push(c)) == (if is_white_space(c) {
            word_lengths(s)
        } else if ends_in_word(s) {
            word_lengths(s).update(word_lengths(s).len() - 1, word_lengths(s).last() + 1)
        } else {
            word_lengths(s).push(1)
        }),
        ends_in_word(s) ==> word_lengths(s).len() > 0,
{
    assert(s.push(c).drop_last() =~= s);
    lemma_words_nonempty(s);
}

proof fn lemma_words_nonempty(s: Seq<char>)
    ensures
        ends_in_word(s) ==> word_lengths(s).len() > 0,
    decreases s.len(),
{
    if s.len() > 0 {
        lemma_words_nonempty(s.drop_last());
        if s.len() >= 2 {
            assert(s.drop_last().last() == s[s.len() - 2]);
        }
    }
}

proof fn lemma_text_lines_push(s: Seq<char>, c: char)
    ensures
        text_lines(s).len() > 0,
        text_lines(s.push(c)) == (if c == '\n' {
            text_lines(s).push(Seq::empty())
        } else {
            text_lines(s).update(text_lines(s).len() - 1, text_lines(s).last().push(c))
        }),
    decreases s.len(),
{
    assert(s.push(c).drop_last() =~= s);
    if s.len() > 0 {
        lemma_text_lines_push(s.drop_last(), s.last());
        assert(s.drop_last().push(s.last()) =~= s);
    }
}

proof fn lemma_layout_rows_grow(ws: Seq<nat>, w: nat, width: nat)
    ensures
        layout(ws.push(w), width).0 >= layout(ws, width).0,
        ws.len() > 0 ==> layout(ws.update(ws.len() - 1, ws.last() + 1), width).0 >= layout(ws, width).0,
{
    assert(ws.push(w).drop_last() =~= ws);
    if ws.len() > 0 {
        let u = ws.update(ws.len() - 1, ws.last() + 1);
        assert(u.drop_last() =~= ws.drop_last());
    }
}

proof fn lemma_lines_rows_update_last(lines: Seq<Seq<char>>, line: Seq<char>, width: nat)
    requires
        lines.len() > 0,
    ensures
        lines_rows(lines.update(lines.len() - 1, line), width)
            == lines_rows(lines.drop_last(), width) + layout(word_lengths(line), width).0,
{
    assert(lines.update(lines.len() - 1, line).drop_last() =~= lines.drop_last());
}

proof fn lemma_wrapped_rows_grow(s: Seq<char>, c: char, width: nat)
    ensures
        wrapped_rows(s, width) <= wrapped_rows(s.push(c), width),
{
    if width > 0 {
        lemma_text_lines_push(s, c);
        let ls = text_lines(s);
        if c == '\n' {
            assert(ls.push(Seq::empty()).drop_last() =~= ls);
        } else {
            let line = ls.last();
            lemma_lines_rows_update_last(ls, line.push(c), width);
            lemma_word_lengths_push(line, c);
            lemma_layout_rows_grow(word_lengths(line), 1, width);
        }
    }
}

proof fn lemma_wrapped_rows_prefix(s: Seq<char>, i: int, j: int, width: nat)
    requires
        0 <= i <= j <= s.len(),
    ensures
        wrapped_rows(s.take(i), width) <= wrapped_rows(s.take(j), width),
    decreases j - i,
{
    if i < j {
        lemma_wrapped_rows_prefix(s, i, j - 1, width);
        assert(s.take(j) =~= s.take(j - 1).push(s[j - 1]));
        lemma_wrapped_rows_grow(s.take(j - 1), s[j - 1], width);
    }
}

proof fn lemma_layout_prefix(s: Seq<char>, i: int, j: int, width: nat)
    requires
        0 <= i <= j <= s.len(),
    ensures
        layout(word_lengths(s.take(i)), width).0 <= layout(word_lengths(s.take(j)), width).0,
    decreases j - i,
{
    if i < j {
        lemma_layout_prefix(s, i, j - 1, width);
        let p = s.take(j - 1);
        assert(s.take(j) =~= p.push(s[j - 1]));
        lemma_word_lengths_push(p, s[j - 1]);
        lemma_layout_rows_grow(word_lengths(p), 1, width);
    }
}

/// Lays out one more word of `word` characters on rows of `width` columns; `None`
/// when the rows would no longer fit in 16 bits.
fn place_word_exec(rows: u16, cur: usize, word: usize, width: usize) -> (r: Option<(u16, usize)>)
    ensures
        place_word((rows as nat, cur as nat), word as nat, width as nat).0 <= u16::MAX ==> (r matches Some(p)
            && (p.0 as nat, p.1 as nat) == place_word((rows as nat, cur as nat), word as nat, width as nat)),
        place_word((rows as nat, cur as nat), word as nat, width as nat).0 > u16::MAX ==> r is None,
{
    if cur == 0 {
        Some((rows, word))
    } else if cur < width && word <= width - 1 - cur {
        Some((rows, cur + 1 + word))
    } else if rows == u16::MAX {
        None
    } else {
        Some((rows + 1, word))
    }
}

/// Like `place_word_exec`, counting rows from zero.
fn place_word_row(row: u16, cur: usize, word: usize, width: usize) -> (r: Option<(u16, usize)>)
    ensures
        place_word((row as nat + 1, cur as nat), word as nat, width as nat).0 <= u16::MAX + 1 ==> (r matches Some(p)
            && (p.0 as nat + 1, p.1 as nat) == place_word((row as nat + 1, cur as nat), word as nat, width as nat)),
        place_word((row as nat + 1, cur as nat), word as nat, width as nat).0 > u16::MAX + 1 ==> r is None,
{
    if cur == 0 {
        Some((row, word))
    } else if cur < width && word <= width - 1 - cur {
        Some((row, cur + 1 + word))
    } else if row == u16::MAX {
        None
    } else {
        Some((row + 1, word))
    }
}

/// The layout state of a text read up to some point: `closed` are the lengths of
/// the words already ended, `open` the length of the word being read (0 if none).
pub open spec fn closed_words(s: Seq<char>) -> Seq<nat> {
    if ends_in_word(s) { word_lengths(s).drop_last() } else { word_lengths(s) }
}

pub open spec fn open_word(s: Seq<char>) -> nat {
    if ends_in_word(s) { word_lengths(s).last() } else { 0 }
}

proof fn lemma_open_closed(s: Seq<char>, width: nat)
    ensures
        open_word(s) > 0 ==> layout(word_lengths(s), width) == place_word(layout(closed_words(s), width), open_word(s), width),
        open_word(s) == 0 ==> layout(word_lengths(s), width) == layout(closed_words(s), width),
        ends_in_word(s) ==> open_word(s) > 0,
    decreases s.len(),
{
    lemma_words_nonempty(s);
    if s.len() > 0 {
        lemma_open_closed(s.drop_last(), width);
        assert(s.drop_last().push(s.last()) =~= s);
        lemma_word_lengths_push(s.drop_last(), s.last());
        if s.len() >= 2 {
            assert(s.drop_last().last() == s[s.len() - 2]);
        }
    }
}

proof fn lemma_scan_step(s: Seq<char>, c: char)
    ensures
        is_white_space(c) ==> closed_words(s.push(c)) == word_lengths(s) && open_word(s.push(c)) == 0,
        !is_white_space(c) ==> closed_words(s.push(c)) == closed_words(s) && open_word(s.push(c)) == open_word(s) + 1,
{
    lemma_word_lengths_push(s, c);
    let w = word_lengths(s);
    if !is_white_space(c) {
        if ends_in_word(s) {
            assert(w.update(w.len() - 1, w.last() + 1).drop_last() =~= w.drop_last());
        } else {
            assert(w.push(1).drop_last() =~= w);
        }
    }
}

impl App {
    /// Number of rows `text` takes once wrapped at word boundaries within `width`
    /// columns: each line (separated by line feeds) starts on a new row, a word goes
    /// on the current row after a space if it fits, and otherwise starts a new row;
    /// a word longer than the width takes a row of its own. A zero width counts as
    /// one row.
    pub fn wrapped_line_count(text: &str, width: u16) -> (rows: u16)
        requires
            wrapped_rows(text@, width as nat) <= u16::MAX,
        ensures
            rows == wrapped_rows(text@, width as nat),
    {
        match Self::wrapped_line_count_checked(text, width) {
            Some(rows) => rows,
            None => 0,
        }
    }

    /// The number of rows of `wrapped_line_count`, or `None` when it does not fit
    /// in 16 bits.
    pub fn wrapped_line_count_checked(text: &str, width: u16) -> (r: Option<u16>)
        ensures
            wrapped_rows(text@, width as nat) <= u16::MAX ==> r == Some(wrapped_rows(text@, width as nat) as u16),
            wrapped_rows(text@, width as nat) > u16::MAX ==> r is None,
    {
        if width == 0 {
            return Some(1);
        }
        let chars = chars_of(text);
        let w: usize = width as usize;
        let mut total: u16 = 0;
        let mut rows: u16 = 1;
        let mut cur: usize = 0;
        let mut word: usize = 0;
        let mut i: usize = 0;
        proof {
            let e = Seq::<char>::empty();
            assert(chars@.take(0) =~= e);
            assert(text_lines(e) == seq![e]);
            assert(seq![e].drop_last() =~= Seq::<Seq<char>>::empty());
            assert(lines_rows(seq![e], w as nat) == lines_rows(Seq::<Seq<char>>::empty(), w as nat) + layout(word_lengths(e), w as nat).0);
        }
        while i < chars.len()
            invariant
                chars@ == text@,
                w == width as usize,
                width > 0,
                i <= chars@.len(),
                word <= i,
                text_lines(chars@.take(i as int)).len() > 0,
                total == lines_rows(text_lines(chars@.take(i as int)).drop_last(), w as nat),
                (rows as nat, cur as nat) == layout(closed_words(text_lines(chars@.take(i as int)).last()), w as nat),
                word == open_word(text_lines(chars@.take(i as int)).last()),
                total + layout(word_lengths(text_lines(chars@.take(i as int)).last()), w as nat).0
                    == wrapped_rows(chars@.take(i as int), w as nat),
            decreases chars@.len() - i,
        {
            let c = chars[i];
            let ghost prefix = chars@.take(i as int);
            let ghost line = text_lines(prefix).last();
            proof {
                assert(chars@.take(i + 1) =~= prefix.push(c));
                lemma_text_lines_push(prefix, c);
                lemma_text_lines_push(prefix.push(c), ' ');
                lemma_open_closed(line, w as nat);
                lemma_scan_step(line, c);
                lemma_wrapped_rows_prefix(chars@, i as int, chars@.len() as int, w as nat);
                assert(chars@.take(chars@.len() as int) =~= chars@);
                assert(text_lines(prefix).drop_last().push(line) =~= text_lines(prefix));
            }
            if c == '\n' {
                if word > 0 {
                    match place_word_exec(rows, cur, word, w) {
                        Some(placed) => {
                            rows = placed.0;
                        },
                        None => {
                            return None;
                        },
                    }
                }
                if rows > u16::MAX - total {
                    return None;
                }
                proof {
                    let ls = text_lines(prefix);
                    assert(ls.push(Seq::empty()).drop_last() =~= ls);
                    assert(lines_rows(ls, w as nat) == lines_rows(ls.drop_last(), w as nat) + layout(word_lengths(line), w as nat).0);
                    assert(word_lengths(Seq::<char>::empty()) =~= Seq::<nat>::empty());
                }
                total = total + rows;
                rows = 1;
                cur = 0;
                word = 0;
            } else if char_is_whitespace(c) {
                if word > 0 {
                    match place_word_exec(rows, cur, word, w) {
                        Some(placed) => {
                            rows = placed.0;
                            cur = placed.1;
                        },
                        None => {
                            return None;
                        },
                    }
                }
                word = 0;
                proof {
                    let ls = text_lines(prefix);
                    lemma_lines_rows_update_last(ls, line.push(c), w as nat);
                    assert(ls.update(ls.len() - 1, line.push(c)).drop_last() =~= ls.drop_last());
                    lemma_open_closed(line.push(c), w as nat);
                }
            } else {
                word = word + 1;
                proof {
                    let ls = text_lines(prefix);
                    lemma_lines_rows_update_last(ls, line.push(c), w as nat);
                    assert(ls.update(ls.len() - 1, line.push(c)).drop_last() =~= ls.drop_last());
                    lemma_open_closed(line.push(c), w as nat);
                }
            }
            i = i + 1;
        }
        proof {
            assert(chars@.take(i as int) =~= chars@);
            lemma_open_closed(text_lines(chars@).last(), w as nat);
        }
        if word > 0 {
            match place_word_exec(rows, cur, word, w) {
                Some(placed) => {
                    rows = placed.0;
                },
                None => {
                    return None;
                },
            }
        }
        if rows > u16::MAX - total {
            return None;
        }
        Some(total + rows)
    }

    /// Row and column where the cursor ends after `text` is laid out within `width`
    /// columns, line feeds counting as mere spaces; the column is kept modulo 2^16.
    /// At a zero width the cursor stays at the origin.
    pub fn wrapped_cursor_position(text: &str, width: u16) -> (pos: (u16, u16))
        requires
            cursor_at_end(text@, width as nat).0 <= u16::MAX,
        ensures
            pos.0 == cursor_at_end(text@, width as nat).0,
            pos.1 == (cursor_at_end(text@, width as nat).1 % 0x1_0000),
    {
        match Self::wrapped_cursor_position_checked(text, width) {
            Some(pos) => pos,
            None => (0, 0),
        }
    }

    /// The position of `wrapped_cursor_position`, or `None` when its row does not
    /// fit in 16 bits.
    pub fn wrapped_cursor_position_checked(text: &str, width: u16) -> (r: Option<(u16, u16)>)
        ensures
            cursor_at_end(text@, width as nat).0 <= u16::MAX ==> (r matches Some(pos)
                && pos.0 == cursor_at_end(text@, width as nat).0
                && pos.1 == (cursor_at_end(text@, width as nat).1 % 0x1_0000)),
            cursor_at_end(text@, width as nat).0 > u16::MAX ==> r is None,
    {
        if width == 0 {
            return Some((0, 0));
        }
        let chars = chars_of(text);
        let w: usize = width as usize;
        let mut row: u16 = 0;
        let mut cur: usize = 0;
        let mut word: usize = 0;
        let mut i: usize = 0;
        proof {
            assert(chars@.take(0) =~= Seq::<char>::empty());
            assert(word_lengths(Seq::<char>::empty()) =~= Seq::<nat>::empty());
        }
        while i < chars.len()
            invariant
                chars@ == text@,
                w == width as usize,
                width > 0,
                i <= chars@.len(),
                word <= i,
                (row as nat + 1, cur as nat) == layout(closed_words(chars@.take(i as int)), w as nat),
                word == open_word(chars@.take(i as int)),
            decreases chars@.len() - i,
        {
            let c = chars[i];
            let ghost prefix = chars@.take(i as int);
            proof {
                assert(chars@.take(i + 1) =~= prefix.push(c));
                lemma_open_closed(prefix, w as nat);
                lemma_scan_step(prefix, c);
                lemma_layout_prefix(chars@, i as int, chars@.len() as int, w as nat);
                assert(chars@.take(chars@.len() as int) =~= chars@);
            }
            if char_is_whitespace(c) {
                if word > 0 {
                    match place_word_row(row, cur, word, w) {
                        Some(placed) => {
                            row = placed.0;
                            cur = placed.1;
                        },
                        None => {
                            return None;
                        },
                    }
                }
                word = 0;
            } else {
                word = word + 1;
            }
            i = i + 1;
        }
        proof {
            assert(chars@.take(i as int) =~= chars@);
            lemma_open_closed(chars@, w as nat);
        }
        if word > 0 {
            match place_word_row(row, cur, word, w) {
                Some(placed) => {
                    row = placed.0;
                    cur = placed.1;
                },
                None => {
                    return None;
                },
            }
        }
        Some((row, (cur % 0x1_0000) as u16))
    }

    /// Index of the first visible row of a panel `area_height` rows tall (two of them
    /// taken by the border) showing `total_lines` rows of content scrolled `scroll_up`
    /// rows up from the bottom; the scroll stops at the first row.
    pub fn scroll_offset(total_lines: u16, area_height: u16, scroll_up: u16) -> (top: u16)
        ensures
            top == max_scroll(total_lines, area_height) - min(scroll_up as int, max_scroll(total_lines, area_height) as int),
    {
        let visible = area_height.saturating_sub(2);
        let max_scroll = total_lines.saturating_sub(visible);
        let effective_scroll_up = if scroll_up < max_scroll { scroll_up } else { max_scroll };
        max_scroll - effective_scroll_up
    }

    /// Suffix for a panel's title telling which way its content can still scroll.
    pub fn scroll_indicator(total_lines: u16, area_height: u16, top_offset: u16) -> (r: &'static str)
        ensures
            r@ == scroll_hint(max_scroll(total_lines, area_height) as int, top_offset as int)@,
    {
        let visible = area_height.saturating_sub(2);
        let max_scroll = total_lines.saturating_sub(visible);
        if max_scroll == 0 {
            return "";
        }
        if top_offset > 0 && top_offset < max_scroll {
            " \u{2191}/\u{2193}"
        } else if top_offset > 0 {
            " \u{2191}"
        } else if top_offset < max_scroll {
            " \u{2193}"
        } else {
            ""
        }
    }

}

/// The terminal is too small to draw the dashboard.
pub fn size_too_small(width: u16, height: u16) -> (r: bool)
    ensures
        r == (width < MIN_WIDTH || height < MIN_HEIGHT),
{
    width < MIN_WIDTH || height < MIN_HEIGHT
}

pub const MIN_WIDTH: u16 = 80;

pub const MIN_HEIGHT: u16 = 24;

/// The smaller of two integers.
pub open spec fn min(a: int, b: int) -> int {
    if a <= b { a } else { b }
}

/// How many rows a panel `area_height` tall can scroll over `total_lines` rows.
pub open spec fn max_scroll(total_lines: u16, area_height: u16) -> u16 {
    let visible: int = if area_height >= 2 { area_height - 2 } else { 0 };
    if total_lines >= visible { (total_lines - visible) as u16 } else { 0 }
}

/// The scroll suffix for a panel that can scroll `max` rows, showing from row `top`.
pub open spec fn scroll_hint(max: int, top: int) -> &'static str {
    if max == 0 {
        ""
    } else if top > 0 && top < max {
        " \u{2191}/\u{2193}"
    } else if top > 0 {
        " \u{2191}"
    } else if top < max {
        " \u{2193}"
    } else {
        ""
    }
}

/// The label of a status in the list of registered users.
pub open spec fn status_label_text(status: UserStatus) -> Seq<char> {
    match status {
        UserStatus::Sconnesso => "[Sconnesso]"@,
        UserStatus::Fermo => "[Fermo]"@,
        UserStatus::InMovimento => "[In movimento]"@,
        UserStatus::Problema => "[Problema]"@,
    }
}

/// The label of a status in the list of registered users.
pub fn status_label(status: UserStatus) -> (r: &'static str)
    ensures
        r@ == status_label_text(status),
{
    match status {
        UserStatus::Sconnesso => "[Sconnesso]",
        UserStatus::Fermo => "[Fermo]",
        UserStatus::InMovimento => "[In movimento]",
        UserStatus::Problema => "[Problema]",
    }
}

/// A line of the list of registered users: the name, a space, the status label.
pub fn user_row_text(username: &str, status: UserStatus) -> (r: String)
    ensures
        r@ == username@ + " "@ + status_label_text(status),
{
    let mut r = String::from_str(username);
    r.append(" ");
    r.append(status_label(status));
    r
}

/// The keys that work in the focused panel.
pub open spec fn help_hint_text(focus: Panel, step: StatsStep) -> Seq<char> {
    match focus {
        Panel::Users => "\u{2191}/\u{2193}: scorri la lista"@,
        Panel::SelectUser => "\u{2191}/\u{2193}: Selezione \u{b7} Invio: Seleziona utente collegati"@,
        Panel::ChatInput | Panel::Broadcast => "Digita il messaggio \u{b7} \u{2191}/\u{2193}: scorri se lungo \u{b7} Invio: invia"@,
        Panel::Chat | Panel::BroadcastChat => "\u{2191}/\u{2193}: scorri lo storico"@,
        Panel::StatsSelect => match step {
            StatsStep::SelectUser => "\u{2191}/\u{2193}: seleziona utente \u{b7} Invio: scegli periodo"@,
            StatsStep::SelectPeriod => "\u{2191}/\u{2193}: cambia periodo \u{b7} Invio: interroga statistiche \u{b7} Backspace: torna alla scelta utente"@,
        },
        Panel::ErrorLog => "\u{2191}/\u{2193}: scorri il log errori"@,
    }
}

fn help_hint(focus: Panel, step: StatsStep) -> (r: &'static str)
    ensures
        r@ == help_hint_text(focus, step),
{
    match focus {
        Panel::Users => "\u{2191}/\u{2193}: scorri la lista",
        Panel::SelectUser => "\u{2191}/\u{2193}: Selezione \u{b7} Invio: Seleziona utente collegati",
        Panel::ChatInput | Panel::Broadcast => "Digita il messaggio \u{b7} \u{2191}/\u{2193}: scorri se lungo \u{b7} Invio: invia",
        Panel::Chat | Panel::BroadcastChat => "\u{2191}/\u{2193}: scorri lo storico",
        Panel::StatsSelect => match step {
            StatsStep::SelectUser => "\u{2191}/\u{2193}: seleziona utente \u{b7} Invio: scegli periodo",
            StatsStep::SelectPeriod => "\u{2191}/\u{2193}: cambia periodo \u{b7} Invio: interroga statistiche \u{b7} Backspace: torna alla scelta utente",
        },
        Panel::ErrorLog => "\u{2191}/\u{2193}: scorri il log errori",
    }
}

/// The text of the help bar for the focused panel.
pub fn help_bar_text(focus: Panel, step: StatsStep) -> (r: String)
    ensures
        r@ == "Tab/Shift+Tab: cambia riquadro \u{b7} "@ + help_hint_text(focus, step) + " \u{b7} Esc: esci"@,
{
    let mut r = String::from_str("Tab/Shift+Tab: cambia riquadro \u{b7} ");
    r.append(help_hint(focus, step));
    r.append(" \u{b7} Esc: esci");
    r
}

/// The marker of a line of a private conversation: what the system says, what the
/// operator sent, or what the user sent.
pub open spec fn chat_marker_text(entry: ChatEntry) -> Seq<char> {
    if entry.is_system {
        "[sistema] "@
    } else if entry.from_me {
        "> "@
    } else {
        "< "@
    }
}

/// A line of a private conversation: the time `time` in brackets, the marker, the text.
pub fn chat_line_text(time: &str, entry: &ChatEntry) -> (r: String)
    ensures
        r@ == "["@ + time@ + "] "@ + chat_marker_text(*entry) + entry.text@,
{
    let mut r = String::from_str("[");
    r.append(time);
    r.append("] ");
    if entry.is_system {
        r.append("[sistema] ");
    } else if entry.from_me {
        r.append("> ");
    } else {
        r.append("< ");
    }
    r.append(entry.text.as_str());
    r
}

/// How far from the bottom the list of connected users scrolls so that the selected
/// entry stays visible: the distance of the selection from the last entry (the index
/// taken modulo 2^16), none without a selection.
pub fn selection_scroll(total: u16, selected: Option<usize>) -> (r: u16)
    ensures
        selected matches Some(i) ==> r == (if total - 1 - (i % 0x1_0000) > 0 { (total - 1 - (i % 0x1_0000)) as u16 } else { 0u16 }),
        selected is None ==> r == 0,
{
    match selected {
        Some(idx) => {
            let i: u16 = (idx % 0x1_0000) as u16;
            total.saturating_sub(1).saturating_sub(i)
        },
        None => 0,
    }
}

/// Whole hours and the remaining whole minutes of a duration in seconds.
pub fn hours_and_minutes(secs: u64) -> (hm: (u64, u64))
    ensures
        hm.0 == secs / 3600,
        hm.1 == (secs % 3600) / 60,
{
    (secs / 3600, (secs % 3600) / 60)
}

} // verus!