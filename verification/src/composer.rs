//! The multi-line message composer of the terminal prompt: editing at
//! character boundaries, cursor movement, soft wrapping and scrolling.
use crate::text::{
    char_is_whitespace, chars_start_with, chars_string, extend_chars, extend_str, is_ws,
    slice_range, starts_with, str_chars, trim, trim_chars, split_newlines, lemma_split_newlines_nonempty,
};
use vstd::prelude::*;

verus! {

/// The display width of a text in terminal columns, as `unicode_width` computes it.
pub uninterp spec fn str_display_width(s: Seq<char>) -> nat;

/// `unicode_width::UnicodeWidthStr::width`.
///
/// Trusted: the result is the crate's display width of the string, a function
/// of the string's characters alone; nothing more is claimed of its value.
#[verifier::external_body]
fn display_width(s: &str) -> (w: usize)
    ensures
        w as nat == str_display_width(s@),
{
    unicode_width::UnicodeWidthStr::width(s)
}

/// Number of bytes of the UTF-8 encoding of a character (`char::len_utf8`).
pub open spec fn utf8_len(c: char) -> nat {
    let v = c as u32;
    if v < 0x80 {
        1
    } else if v < 0x800 {
        2
    } else if v < 0x10000 {
        3
    } else {
        4
    }
}

/// Number of bytes of the UTF-8 encoding of a text.
pub open spec fn utf8_bytes(s: Seq<char>) -> nat
    decreases s.len(),
{
    if s.len() == 0 {
        0
    } else {
        utf8_bytes(s.drop_last()) + utf8_len(s.last())
    }
}

/// The columns a character takes in the composer: its display width, at least one.
pub open spec fn char_columns(c: char) -> nat {
    let w = str_display_width(seq![c]);
    if w < 1 {
        1
    } else {
        w
    }
}

pub open spec fn sat_inc(x: nat) -> nat {
    if x < usize::MAX {
        x + 1
    } else {
        x
    }
}

/// One step of soft wrapping: the (row, column) after drawing `c` at (row, column).
pub open spec fn wrap_step(pos: (nat, nat), c: char, width: nat) -> (nat, nat) {
    let (row, column) = pos;
    if c == '\n' {
        (sat_inc(row), 0)
    } else {
        let w = char_columns(c);
        let (row, column) = if column + w > width {
            (sat_inc(row), 0nat)
        } else {
            (row, column)
        };
        let column = column + w;
        if column == width {
            (sat_inc(row), 0)
        } else {
            (row, column)
        }
    }
}

/// (row, column) of the position after the text, soft wrapped at `width` columns.
pub open spec fn wrap_position(s: Seq<char>, width: nat) -> (nat, nat)
    decreases s.len(),
{
    if s.len() == 0 {
        (0, 0)
    } else {
        wrap_step(wrap_position(s.drop_last(), width), s.last(), width)
    }
}

/// Index of the first character of the line that holds position `c`.
pub open spec fn line_start(s: Seq<char>, c: int) -> int
    decreases c,
{
    if c <= 0 {
        0
    } else if s[c - 1] == '\n' {
        c
    } else {
        line_start(s, c - 1)
    }
}

/// Index of the line break that ends the line holding position `c` (or the end).
pub open spec fn line_end(s: Seq<char>, c: int) -> int
    decreases s.len() - c,
{
    if c >= s.len() {
        s.len() as int
    } else if s[c] == '\n' {
        c
    } else {
        line_end(s, c + 1)
    }
}

/// Rows taken by one line of the given display width at `width` columns.
pub open spec fn line_rows(display: nat, width: nat) -> nat {
    let d = if display < 1 {
        1
    } else {
        display
    };
    if width == 0 {
        d
    } else if d % width == 0 {
        d / width
    } else {
        d / width + 1
    }
}

pub open spec fn sat_add(a: nat, b: nat) -> nat {
    if a + b > usize::MAX {
        usize::MAX as nat
    } else {
        a + b
    }
}

/// Total rows of a sequence of lines (saturating at `usize::MAX`).
pub open spec fn total_rows(lines: Seq<Seq<char>>, width: nat) -> nat
    decreases lines.len(),
{
    if lines.len() == 0 {
        0
    } else {
        sat_add(total_rows(lines.drop_last(), width), line_rows(str_display_width(lines.last()), width))
    }
}

/// The abstract state of a composer.
pub struct ComposerView {
    pub text: Seq<char>,
    /// Cursor position, in characters.
    pub cursor: nat,
    /// How many rows the view is scrolled back from the one that follows the cursor.
    pub scroll_back: nat,
}

/// The composer after `value` is typed at the cursor.
pub open spec fn inserted(v: ComposerView, value: Seq<char>) -> ComposerView {
    ComposerView {
        text: v.text.take(v.cursor as int) + value + v.text.skip(v.cursor as int),
        cursor: v.cursor + value.len(),
        scroll_back: 0,
    }
}

/// The composer after Backspace: the character before the cursor goes.
pub open spec fn backspaced(v: ComposerView) -> ComposerView {
    if v.cursor > 0 {
        ComposerView { text: v.text.remove(v.cursor - 1), cursor: (v.cursor - 1) as nat, scroll_back: 0 }
    } else {
        v
    }
}

/// The composer after Delete: the character at the cursor goes.
pub open spec fn deleted(v: ComposerView) -> ComposerView {
    if v.cursor < v.text.len() {
        ComposerView { text: v.text.remove(v.cursor as int), cursor: v.cursor, scroll_back: 0 }
    } else {
        v
    }
}

/// The composer after the cursor moves one character left.
pub open spec fn moved_left(v: ComposerView) -> ComposerView {
    if v.cursor > 0 {
        ComposerView { text: v.text, cursor: (v.cursor - 1) as nat, scroll_back: 0 }
    } else {
        v
    }
}

/// The composer after the cursor moves one character right.
pub open spec fn moved_right(v: ComposerView) -> ComposerView {
    if v.cursor < v.text.len() {
        ComposerView { text: v.text, cursor: v.cursor + 1, scroll_back: 0 }
    } else {
        v
    }
}

/// The composer after Home: the cursor goes to the start of its line.
pub open spec fn moved_home(v: ComposerView) -> ComposerView {
    ComposerView { text: v.text, cursor: line_start(v.text, v.cursor as int) as nat, scroll_back: 0 }
}

/// The composer after End: the cursor goes to the end of its line.
pub open spec fn moved_end(v: ComposerView) -> ComposerView {
    ComposerView { text: v.text, cursor: line_end(v.text, v.cursor as int) as nat, scroll_back: 0 }
}

/// The composer holding `text`, with the cursor at its end, following the cursor.
pub open spec fn holding(text: Seq<char>) -> ComposerView {
    ComposerView { text: text, cursor: text.len(), scroll_back: 0 }
}

/// The empty composer.
pub open spec fn emptied() -> ComposerView {
    ComposerView { text: Seq::empty(), cursor: 0, scroll_back: 0 }
}

/// The text being composed, with a cursor and a scroll offset.
#[derive(Debug)]
pub struct Composer {
    text: Vec<char>,
    cursor: usize,
    scroll_back: u16,
}

impl View for Composer {
    type V = ComposerView;

    closed spec fn view(&self) -> ComposerView {
        ComposerView { text: self.text@, cursor: self.cursor as nat, scroll_back: self.scroll_back as nat }
    }
}

impl Composer {
    /// The cursor lies within the text.
    #[verifier::type_invariant]
    spec fn inv(self) -> bool {
        self.cursor <= self.text@.len()
    }

    /// An empty composer.
    pub fn new() -> (c: Composer)
        ensures
            c@ == emptied(),
    {
        Composer { text: Vec::new(), cursor: 0, scroll_back: 0 }
    }

    /// The text being composed.
    pub fn text(&self) -> (s: String)
        ensures
            s@ == self@.text,
    {
        chars_string(&self.text)
    }

    /// Whether nothing has been typed.
    pub fn is_empty(&self) -> (b: bool)
        ensures
            b == (self@.text.len() == 0),
    {
        self.text.len() == 0
    }

    /// Whether the text spans several lines.
    pub fn has_line_break(&self) -> (b: bool)
        ensures
            b == self@.text.contains('\n'),
    {
        let mut i: usize = 0;
        while i < self.text.len()
            invariant
                i <= self.text@.len(),
                forall|j: int| 0 <= j < i ==> self.text@[j] != '\n',
            decreases self.text.len() - i,
        {
            if self.text[i] == '\n' {
                assert(self.text@[i as int] == '\n');
                return true;
            }
            i = i + 1;
        }
        false
    }

    /// The cursor position in bytes of the UTF-8 text (saturating at
    /// `usize::MAX`, which no text held in memory reaches).
    pub fn cursor(&self) -> (b: usize)
        ensures
            ({
                let n = utf8_bytes(self@.text.take(self@.cursor as int));
                b as nat == if n <= usize::MAX {
                    n
                } else {
                    usize::MAX as nat
                }
            }),
    {
        proof {
            use_type_invariant(self);
        }
        let mut i: usize = 0;
        let mut total: usize = 0;
        while i < self.cursor
            invariant
                i <= self.cursor <= self.text@.len(),
                ({
                    let n = utf8_bytes(self.text@.take(i as int));
                    total as nat == if n <= usize::MAX {
                        n
                    } else {
                        usize::MAX as nat
                    }
                }),
            decreases self.cursor - i,
        {
            let v = self.text[i] as u32;
            let w: usize = if v < 0x80 {
                1
            } else if v < 0x800 {
                2
            } else if v < 0x10000 {
                3
            } else {
                4
            };
            assert(self.text@.take(i + 1).drop_last() =~= self.text@.take(i as int));
            assert(self.text@.take(i + 1).last() == self.text@[i as int]);
            total = if total > usize::MAX - w {
                usize::MAX
            } else {
                total + w
            };
            i = i + 1;
        }
        total
    }

    /// Replaces the whole state, keeping the cursor within the text.
    fn set(&mut self, text: Vec<char>, cursor: usize, scroll_back: u16)
        requires
            cursor <= text@.len(),
        ensures
            final(self)@ == (ComposerView { text: text@, cursor: cursor as nat, scroll_back: scroll_back as nat }),
    {
        *self = Composer { text, cursor, scroll_back };
    }

    /// Inserts text at the cursor and moves the cursor after it.
    pub fn insert(&mut self, value: &str)
        ensures
            final(self)@ == inserted(old(self)@, value@),
    {
        proof {
            use_type_invariant(&*self);
        }
        let mut t = slice_range(&self.text, 0, self.cursor);
        extend_str(&mut t, value);
        let c = t.len();
        let rest = slice_range(&self.text, self.cursor, self.text.len());
        extend_chars(&mut t, &rest);
        assert(self.text@.subrange(0, self.cursor as int) =~= self.text@.take(self.cursor as int));
        assert(self.text@.subrange(self.cursor as int, self.text@.len() as int) =~= self.text@.skip(
            self.cursor as int,
        ));
        self.set(t, c, 0);
    }

    /// Deletes the character before the cursor.
    pub fn backspace(&mut self)
        ensures
            final(self)@ == backspaced(old(self)@),
    {
        proof {
            use_type_invariant(&*self);
        }
        if self.cursor > 0 {
            let mut t = self.text.clone();
            let c = self.cursor - 1;
            t.remove(c);
            self.set(t, c, 0);
        }
    }

    /// Deletes the character at the cursor.
    pub fn delete(&mut self)
        ensures
            final(self)@ == deleted(old(self)@),
    {
        proof {
            use_type_invariant(&*self);
        }
        if self.cursor < self.text.len() {
            let mut t = self.text.clone();
            let c = self.cursor;
            t.remove(c);
            self.set(t, c, 0);
        }
    }

    /// Moves the cursor one character to the left.
    pub fn move_left(&mut self)
        ensures
            final(self)@ == moved_left(old(self)@),
    {
        proof {
            use_type_invariant(&*self);
        }
        if self.cursor > 0 {
            let t = self.text.clone();
            let c = self.cursor - 1;
            self.set(t, c, 0);
        }
    }

    /// Moves the cursor one character to the right.
    pub fn move_right(&mut self)
        ensures
            final(self)@ == moved_right(old(self)@),
    {
        proof {
            use_type_invariant(&*self);
        }
        if self.cursor < self.text.len() {
            let t = self.text.clone();
            let c = self.cursor + 1;
            self.set(t, c, 0);
        }
    }

    /// Moves the cursor to the start of its line.
    pub fn move_home(&mut self)
        ensures
            final(self)@ == moved_home(old(self)@),
    {
        proof {
            use_type_invariant(&*self);
        }
        let mut c = self.cursor;
        while c > 0 && self.text[c - 1] != '\n'
            invariant
                c <= self.cursor <= self.text@.len(),
                line_start(self.text@, c as int) == line_start(self.text@, self.cursor as int),
            decreases c,
        {
            c = c - 1;
        }
        let t = self.text.clone();
        self.set(t, c, 0);
    }

    /// Moves the cursor to the end of its line.
    pub fn move_end(&mut self)
        ensures
            final(self)@ == moved_end(old(self)@),
    {
        proof {
            use_type_invariant(&*self);
        }
        let mut c = self.cursor;
        while c < self.text.len() && self.text[c] != '\n'
            invariant
                self.cursor <= c <= self.text@.len(),
                line_end(self.text@, c as int) == line_end(self.text@, self.cursor as int),
            decreases self.text@.len() - c,
        {
            c = c + 1;
        }
        let t = self.text.clone();
        self.set(t, c, 0);
    }

    /// Empties the composer and hands out the trimmed text, unless it is blank.
    pub fn take(&mut self) -> (r: Option<String>)
        ensures
            final(self)@ == emptied(),
            trim(old(self)@.text).len() > 0 ==> (r matches Some(v) && v@ == trim(old(self)@.text)),
            trim(old(self)@.text).len() == 0 ==> r is None,
    {
        let value = trim_chars(&self.text);
        self.set(Vec::new(), 0, 0);
        if value.len() == 0 {
            None
        } else {
            Some(chars_string(&value))
        }
    }

    /// Position (column, row) of the cursor when the text is soft wrapped at
    /// `width` columns (at least one); each is truncated to `u16`.
    pub fn visual_cursor(&self, width: usize) -> (r: (u16, u16))
        ensures
            ({
                let w = if width < 1 {
                    1nat
                } else {
                    width as nat
                };
                let p = wrap_position(self@.text.take(self@.cursor as int), w);
                r == (p.1 as u16, p.0 as u16)
            }),
    {
        proof {
            use_type_invariant(self);
        }
        let width = if width < 1 {
            1
        } else {
            width
        };
        let mut row: usize = 0;
        let mut column: usize = 0;
        let mut i: usize = 0;
        while i < self.cursor
            invariant
                i <= self.cursor <= self.text@.len(),
                width >= 1,
                (row as nat, column as nat) == wrap_position(self.text@.take(i as int), width as nat),
            decreases self.cursor - i,
        {
            let character = self.text[i];
            proof {
                assert(self.text@.take(i + 1).drop_last() =~= self.text@.take(i as int));
                assert(self.text@.take(i + 1).last() == character);
            }
            if character == '\n' {
                row = if row < usize::MAX {
                    row + 1
                } else {
                    row
                };
                column = 0;
            } else {
                let one = chars_string(&[character]);
                proof {
                    assert(one@ =~= seq![character]);
                }
                let dw = display_width(one.as_str());
                let character_width = if dw < 1 {
                    1
                } else {
                    dw
                };
                if column > width || character_width > width - column {
                    row = if row < usize::MAX {
                        row + 1
                    } else {
                        row
                    };
                    column = 0;
                }
                column = column + character_width;
                if column == width {
                    row = if row < usize::MAX {
                        row + 1
                    } else {
                        row
                    };
                    column = 0;
                }
            }
            i = i + 1;
        }
        (column as u16, row as u16)
    }

    /// Rows the text takes when soft wrapped at `width` columns (at least
    /// one); every line, empty ones too, takes at least one row.
    pub fn visual_lines(&self, width: usize) -> (r: usize)
        ensures
            ({
                let w = if width < 1 {
                    1nat
                } else {
                    width as nat
                };
                r as nat == total_rows(split_newlines(self@.text), w)
            }),
    {
        let width = if width < 1 {
            1
        } else {
            width
        };
        let ghost s = self.text@;
        let mut total: usize = 0;
        let mut line: Vec<char> = Vec::new();
        let mut i: usize = 0;
        proof {
            lemma_split_newlines_nonempty(s.take(0));
        }
        while i < self.text.len()
            invariant
                i <= s.len(),
                s == self.text@,
                width >= 1,
                split_newlines(s.take(i as int)).len() >= 1,
                line@ == split_newlines(s.take(i as int)).last(),
                total as nat == total_rows(split_newlines(s.take(i as int)).drop_last(), width as nat),
            decreases s.len() - i,
        {
            let c = self.text[i];
            proof {
                assert(s.take(i + 1).drop_last() =~= s.take(i as int));
                assert(s.take(i + 1).last() == c);
                lemma_split_newlines_nonempty(s.take(i + 1));
            }
            if c == '\n' {
                let rows = line_rows_of(&line, width);
                total = if total > usize::MAX - rows {
                    usize::MAX
                } else {
                    total + rows
                };
                line = Vec::new();
                proof {
                    let p = split_newlines(s.take(i as int));
                    assert(split_newlines(s.take(i + 1)) == p.push(Seq::<char>::empty()));
                    assert(p.push(Seq::<char>::empty()).drop_last() =~= p);
                }
            } else {
                line.push(c);
                proof {
                    let p = split_newlines(s.take(i as int));
                    let q = p.update(p.len() - 1, p.last().push(c));
                    assert(q.drop_last() =~= p.drop_last());
                }
            }
            i = i + 1;
        }
        assert(s.take(s.len() as int) =~= s);
        let rows = line_rows_of(&line, width);
        proof {
            let p = split_newlines(s);
            assert(p.drop_last().push(p.last()) =~= p);
        }
        if total > usize::MAX - rows {
            usize::MAX
        } else {
            total + rows
        }
    }

    /// Scroll offset that keeps the cursor row visible in `visible_height` rows.
    pub fn max_vertical_scroll(&self, width: usize, visible_height: u16) -> (r: u16)
        ensures
            ({
                let w = if width < 1 {
                    1nat
                } else {
                    width as nat
                };
                let row = wrap_position(self@.text.take(self@.cursor as int), w).0 as u16;
                let keep = if visible_height >= 1 {
                    visible_height - 1
                } else {
                    0
                };
                r == if row >= keep {
                    row - keep
                } else {
                    0
                }
            }),
    {
        let (_, cursor_row) = self.visual_cursor(width);
        cursor_row.saturating_sub(visible_height.saturating_sub(1))
    }

    /// Scroll offset to draw with: the cursor-following offset, moved back by
    /// the rows scrolled back (never past the top).
    pub fn vertical_scroll(&self, width: usize, visible_height: u16) -> (r: u16)
        ensures
            ({
                let f = self.spec_max_vertical_scroll(width, visible_height);
                r == f - if (self@.scroll_back as int) < (f as int) {
                    self@.scroll_back as int
                } else {
                    f as int
                }
            }),
    {
        let follow_scroll = self.max_vertical_scroll(width, visible_height);
        let back = if self.scroll_back < follow_scroll {
            self.scroll_back
        } else {
            follow_scroll
        };
        follow_scroll - back
    }

    /// `max_vertical_scroll` as a spec function.
    pub open spec fn spec_max_vertical_scroll(&self, width: usize, visible_height: u16) -> u16 {
        let w = if width < 1 {
            1nat
        } else {
            width as nat
        };
        let row = wrap_position(self@.text.take(self@.cursor as int), w).0 as u16;
        let keep = if visible_height >= 1 {
            visible_height - 1
        } else {
            0
        };
        if row >= keep {
            (row - keep) as u16
        } else {
            0
        }
    }

    /// Scrolls back by `lines` rows, at most to `max_scroll`.
    pub fn scroll_up(&mut self, lines: u16, max_scroll: u16)
        ensures
            final(self)@.text == old(self)@.text,
            final(self)@.cursor == old(self)@.cursor,
            final(self)@.scroll_back == vstd::math::min(
                vstd::math::min(old(self)@.scroll_back + lines, u16::MAX as int),
                max_scroll as int,
            ),
    {
        proof {
            use_type_invariant(&*self);
        }
        let s = self.scroll_back.saturating_add(lines);
        self.scroll_back = if s < max_scroll {
            s
        } else {
            max_scroll
        };
    }

    /// Scrolls forward by `lines` rows, at most back to the cursor-following offset.
    pub fn scroll_down(&mut self, lines: u16)
        ensures
            final(self)@.text == old(self)@.text,
            final(self)@.cursor == old(self)@.cursor,
            final(self)@.scroll_back == vstd::math::max(old(self)@.scroll_back - lines, 0),
    {
        proof {
            use_type_invariant(&*self);
        }
        self.scroll_back = self.scroll_back.saturating_sub(lines);
    }

    /// Makes the view follow the cursor again.
    pub fn follow_cursor(&mut self)
        ensures
            final(self)@.text == old(self)@.text,
            final(self)@.cursor == old(self)@.cursor,
            final(self)@.scroll_back == 0,
    {
        proof {
            use_type_invariant(&*self);
        }
        self.scroll_back = 0;
    }

    /// Replaces the text and puts the cursor at its end, following it.
    pub fn replace_text(&mut self, text: &str)
        ensures
            final(self)@ == holding(text@),
    {
        let t = str_chars(text);
        let c = t.len();
        self.set(t, c, 0);
    }
}

impl Default for Composer {
    /// An empty composer.
    fn default() -> (c: Composer)
        ensures
            c@ == emptied(),
    {
        Composer::new()
    }
}

fn line_rows_of(line: &Vec<char>, width: usize) -> (r: usize)
    requires
        width >= 1,
    ensures
        r as nat == line_rows(str_display_width(line@), width as nat),
{
    let s = chars_string(line);
    let d = display_width(s.as_str());
    let d = if d < 1 {
        1
    } else {
        d
    };
    let q = d / width;
    if d % width == 0 {
        q
    } else {
        assert(width >= 2 ==> q < usize::MAX) by (nonlinear_arith)
            requires
                q == d / width,
                width >= 1,
                d <= usize::MAX,
        ;
        q + 1
    }
}

} // verus!
