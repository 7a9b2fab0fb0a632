//! Controller-navigable on-screen keyboard.
//!
//! Owns the text buffer, cursor, and shift state; callers feed it
//! `NavEvent`s (and optionally physical key presses) and act on the
//! returned [`OskOutcome`].
use vstd::prelude::*;

use crate::input::NavEvent;
use crate::text::{chars_of, owned, pop_char, push_char};

verus! {

broadcast use vstd::string::group_string_axioms;

#[derive(Debug, Clone, Copy, PartialEq, Eq, Structural)]
pub enum Key {
    Glyph(char),
    Shift,
    Space,
    Backspace,
    Done,
    Cancel,
}

/// ASCII uppercase of a character (others unchanged).
pub open spec fn ascii_upper(c: char) -> char {
    if 'a' <= c && c <= 'z' {
        ((c as nat) - 32) as char
    } else {
        c
    }
}

fn to_ascii_upper(c: char) -> (r: char)
    ensures
        r == ascii_upper(c),
{
    if 'a' <= c && c <= 'z' {
        ((c as u8) - 32) as char
    } else {
        c
    }
}

/// The text a key shows.
pub open spec fn key_label(k: Key, shift: bool) -> Seq<char> {
    match k {
        Key::Glyph(c) => if shift {
            seq![ascii_upper(c)]
        } else {
            seq![c]
        },
        Key::Shift => "⇧"@,
        Key::Space => "space"@,
        Key::Backspace => "⌫"@,
        Key::Done => "done"@,
        Key::Cancel => "cancel"@,
    }
}

impl Key {
    /// The text the key shows (letters uppercase while shifted).
    pub fn label(&self, shift: bool) -> (r: String)
        ensures
            r@ == key_label(*self, shift),
    {
        match self {
            Key::Glyph(c) => {
                let mut s = String::new();
                if shift {
                    push_char(&mut s, to_ascii_upper(*c));
                } else {
                    push_char(&mut s, *c);
                }
                s
            },
            Key::Shift => owned("⇧"),
            Key::Space => owned("space"),
            Key::Backspace => owned("⌫"),
            Key::Done => owned("done"),
            Key::Cancel => owned("cancel"),
        }
    }
}

/// The keyboard: four rows of character keys (digits, then the letter
/// rows with `-`, `_`, `.` and `@`), then the control row.
pub open spec fn keyboard() -> Seq<Seq<Key>> {
    seq![
        seq![Key::Glyph('1'), Key::Glyph('2'), Key::Glyph('3'), Key::Glyph('4'), Key::Glyph('5'), Key::Glyph('6'), Key::Glyph('7'), Key::Glyph('8'), Key::Glyph('9'), Key::Glyph('0')],
        seq![Key::Glyph('q'), Key::Glyph('w'), Key::Glyph('e'), Key::Glyph('r'), Key::Glyph('t'), Key::Glyph('y'), Key::Glyph('u'), Key::Glyph('i'), Key::Glyph('o'), Key::Glyph('p')],
        seq![Key::Glyph('a'), Key::Glyph('s'), Key::Glyph('d'), Key::Glyph('f'), Key::Glyph('g'), Key::Glyph('h'), Key::Glyph('j'), Key::Glyph('k'), Key::Glyph('l'), Key::Glyph('-')],
        seq![Key::Glyph('z'), Key::Glyph('x'), Key::Glyph('c'), Key::Glyph('v'), Key::Glyph('b'), Key::Glyph('n'), Key::Glyph('m'), Key::Glyph('_'), Key::Glyph('.'), Key::Glyph('@')],
        seq![Key::Shift, Key::Space, Key::Backspace, Key::Done, Key::Cancel],
    ]
}

/// Number of keys in row `r`.
pub open spec fn row_len(r: nat) -> nat {
    if r < 4 {
        10
    } else {
        5
    }
}

proof fn lemma_keyboard_shape()
    ensures
        keyboard().len() == 5,
        forall|r: int| 0 <= r < 5 ==> #[trigger] keyboard()[r].len() == row_len(r as nat),
{
    assert(keyboard()[0].len() == 10);
    assert(keyboard()[1].len() == 10);
    assert(keyboard()[2].len() == 10);
    assert(keyboard()[3].len() == 10);
    assert(keyboard()[4].len() == 5);
}

/// The keyboard layout, row by row.
pub fn keyboard_rows() -> (r: Vec<Vec<Key>>)
    ensures
        r@.len() == keyboard().len(),
        forall|i: int| 0 <= i < r@.len() ==> #[trigger] r@[i]@ == keyboard()[i],
{
    let rows = vec![
        vec![Key::Glyph('1'), Key::Glyph('2'), Key::Glyph('3'), Key::Glyph('4'), Key::Glyph('5'), Key::Glyph('6'), Key::Glyph('7'), Key::Glyph('8'), Key::Glyph('9'), Key::Glyph('0')],
        vec![Key::Glyph('q'), Key::Glyph('w'), Key::Glyph('e'), Key::Glyph('r'), Key::Glyph('t'), Key::Glyph('y'), Key::Glyph('u'), Key::Glyph('i'), Key::Glyph('o'), Key::Glyph('p')],
        vec![Key::Glyph('a'), Key::Glyph('s'), Key::Glyph('d'), Key::Glyph('f'), Key::Glyph('g'), Key::Glyph('h'), Key::Glyph('j'), Key::Glyph('k'), Key::Glyph('l'), Key::Glyph('-')],
        vec![Key::Glyph('z'), Key::Glyph('x'), Key::Glyph('c'), Key::Glyph('v'), Key::Glyph('b'), Key::Glyph('n'), Key::Glyph('m'), Key::Glyph('_'), Key::Glyph('.'), Key::Glyph('@')],
        vec![Key::Shift, Key::Space, Key::Backspace, Key::Done, Key::Cancel],
    ];
    assert(rows@[0]@ == keyboard()[0]);
    assert(rows@[1]@ == keyboard()[1]);
    assert(rows@[2]@ == keyboard()[2]);
    assert(rows@[3]@ == keyboard()[3]);
    assert(rows@[4]@ == keyboard()[4]);
    rows
}

/// What a nav event did to the keyboard.
#[derive(Debug, PartialEq, Eq)]
pub enum OskOutcome {
    /// State may have changed; keep the keyboard open.
    Open,
    /// The user picked `done`: here is the entered text.
    Commit(String),
    /// The user backed out (`cancel`, Menu, or Back on an empty buffer).
    Cancel,
}

pub struct OskState {
    pub value: String,
    row: usize,
    col: usize,
    shift: bool,
}

/// The cursor after a move: Up/Down change row (clamped) and clamp the
/// column to the new row; Left/Right move within the row (clamped).
pub open spec fn cursor_after(row: nat, col: nat, event: NavEvent) -> (nat, nat) {
    match event {
        NavEvent::Up => {
            let r = if row > 0 {
                (row - 1) as nat
            } else {
                0
            };
            (r, if col < row_len(r) {
                col
            } else {
                (row_len(r) - 1) as nat
            })
        },
        NavEvent::Down => {
            let r = if row + 1 < 5 {
                row + 1
            } else {
                4
            };
            (r, if col < row_len(r) {
                col
            } else {
                (row_len(r) - 1) as nat
            })
        },
        NavEvent::Left => (row, if col > 0 {
            (col - 1) as nat
        } else {
            0
        }),
        NavEvent::Right => (row, if col + 1 < row_len(row) {
            col + 1
        } else {
            (row_len(row) - 1) as nat
        }),
        _ => (row, col),
    }
}

/// `s` without its last character (unchanged when empty).
pub open spec fn drop_last_char(s: Seq<char>) -> Seq<char> {
    if s.len() > 0 {
        s.drop_last()
    } else {
        s
    }
}

/// A Unicode control character (`char::is_control`, category Cc).
pub open spec fn is_control(c: char) -> bool {
    (c as nat) < 0x20 || (0x7f <= (c as nat) && (c as nat) < 0xa0)
}

fn is_control_char(c: char) -> (r: bool)
    ensures
        r == is_control(c),
{
    let v = c as u32;
    v < 0x20 || (0x7f <= v && v < 0xa0)
}

impl OskState {
    pub closed spec fn value_spec(&self) -> Seq<char> {
        self.value@
    }

    pub closed spec fn row_spec(&self) -> nat {
        self.row as nat
    }

    pub closed spec fn col_spec(&self) -> nat {
        self.col as nat
    }

    pub closed spec fn shift_spec(&self) -> bool {
        self.shift
    }

    /// The cursor is on a key.
    pub open spec fn wf(&self) -> bool {
        self.row_spec() < 5 && self.col_spec() < row_len(self.row_spec())
    }

    /// The key under the cursor.
    pub open spec fn focused(&self) -> Key {
        keyboard()[self.row_spec() as int][self.col_spec() as int]
    }

    /// An empty buffer with the cursor on the first key, unshifted.
    pub fn new() -> (r: Self)
        ensures
            r.wf(),
            r.value_spec() == Seq::<char>::empty(),
            r.row_spec() == 0 && r.col_spec() == 0,
            !r.shift_spec(),
    {
        OskState { value: String::new(), row: 0, col: 0, shift: false }
    }

    /// The cursor position as (row, column).
    pub fn cursor(&self) -> (r: (usize, usize))
        ensures
            r.0 == self.row_spec() && r.1 == self.col_spec(),
    {
        (self.row, self.col)
    }

    /// Whether letters are entered uppercase.
    pub fn shifted(&self) -> (r: bool)
        ensures
            r == self.shift_spec(),
    {
        self.shift
    }

    /// What a navigation event does to the keyboard: `post` and `r` are
    /// the state and outcome after `event` on `self`. Arrows move the
    /// cursor, Confirm presses the focused key, Back deletes a character
    /// (or cancels on an empty buffer), Menu cancels.
    pub open spec fn nav_step(&self, event: NavEvent, post: OskState, r: OskOutcome) -> bool {
        &&& ({
            let (row, col) = cursor_after(self.row_spec(), self.col_spec(), event);
            post.row_spec() == row && post.col_spec() == col
        })
        &&& match event {
            NavEvent::Confirm => match self.focused() {
                Key::Glyph(c) => r == OskOutcome::Open && post.value_spec() == self.value_spec().push(
                    if self.shift_spec() {
                        ascii_upper(c)
                    } else {
                        c
                    },
                ) && post.shift_spec() == self.shift_spec(),
                Key::Shift => r == OskOutcome::Open && post.value_spec() == self.value_spec()
                    && post.shift_spec() == !self.shift_spec(),
                Key::Space => r == OskOutcome::Open && post.value_spec() == self.value_spec().push(' ')
                    && post.shift_spec() == self.shift_spec(),
                Key::Backspace => r == OskOutcome::Open && post.value_spec() == drop_last_char(
                    self.value_spec(),
                ) && post.shift_spec() == self.shift_spec(),
                Key::Done => r matches OskOutcome::Commit(v) && v@ == self.value_spec()
                    && post.value_spec() == self.value_spec() && post.shift_spec() == self.shift_spec(),
                Key::Cancel => r == OskOutcome::Cancel && post.value_spec() == self.value_spec()
                    && post.shift_spec() == self.shift_spec(),
            },
            NavEvent::Back => post.value_spec() == drop_last_char(self.value_spec()) && (if self.value_spec().len()
                == 0 {
                r == OskOutcome::Cancel
            } else {
                r == OskOutcome::Open
            }) && post.shift_spec() == self.shift_spec(),
            NavEvent::Menu => r == OskOutcome::Cancel && post.value_spec() == self.value_spec()
                && post.shift_spec() == self.shift_spec(),
            _ => r == OskOutcome::Open && post.value_spec() == self.value_spec() && post.shift_spec()
                == self.shift_spec(),
        }
    }

    /// Apply a navigation event (see `nav_step`).
    pub fn handle_nav(&mut self, event: NavEvent) -> (r: OskOutcome)
        requires
            old(self).wf(),
        ensures
            final(self).wf(),
            old(self).nav_step(event, *final(self), r),
    {
        let rows = keyboard_rows();
        proof {
            lemma_keyboard_shape();
        }
        match event {
            NavEvent::Up => {
                self.row = if self.row > 0 {
                    self.row - 1
                } else {
                    0
                };
                let n = rows[self.row].len();
                assert(n == row_len(self.row as nat));
                if self.col >= n {
                    self.col = n - 1;
                }
                OskOutcome::Open
            },
            NavEvent::Down => {
                self.row = if self.row + 1 < rows.len() {
                    self.row + 1
                } else {
                    rows.len() - 1
                };
                let n = rows[self.row].len();
                assert(n == row_len(self.row as nat));
                if self.col >= n {
                    self.col = n - 1;
                }
                OskOutcome::Open
            },
            NavEvent::Left => {
                self.col = if self.col > 0 {
                    self.col - 1
                } else {
                    0
                };
                OskOutcome::Open
            },
            NavEvent::Right => {
                let n = rows[self.row].len();
                assert(n == row_len(self.row as nat));
                self.col = if self.col + 1 < n {
                    self.col + 1
                } else {
                    n - 1
                };
                OskOutcome::Open
            },
            NavEvent::Confirm => {
                let key = rows[self.row][self.col];
                assert(key == self.focused());
                match key {
                    Key::Glyph(c) => {
                        let ch = if self.shift {
                            to_ascii_upper(c)
                        } else {
                            c
                        };
                        push_char(&mut self.value, ch);
                        OskOutcome::Open
                    },
                    Key::Shift => {
                        self.shift = !self.shift;
                        OskOutcome::Open
                    },
                    Key::Space => {
                        push_char(&mut self.value, ' ');
                        OskOutcome::Open
                    },
                    Key::Backspace => {
                        let _ = pop_char(&mut self.value);
                        OskOutcome::Open
                    },
                    Key::Done => OskOutcome::Commit(self.value.clone()),
                    Key::Cancel => OskOutcome::Cancel,
                }
            },
            NavEvent::Back => {
                match pop_char(&mut self.value) {
                    None => OskOutcome::Cancel,
                    Some(_) => OskOutcome::Open,
                }
            },
            NavEvent::Menu => OskOutcome::Cancel,
            _ => OskOutcome::Open,
        }
    }

    /// What a physical key does to the keyboard: `post` and `r` are the
    /// state and result after `key` (with the text `key_char` it types) on
    /// `self`. The `backspace` key deletes, typed text without control
    /// characters is appended; `r` says whether the buffer changed.
    pub open spec fn key_step(&self, key: Seq<char>, key_char: Option<&str>, post: OskState, r: bool) -> bool {
        &&& post.row_spec() == self.row_spec() && post.col_spec() == self.col_spec()
            && post.shift_spec() == self.shift_spec()
        &&& if key == "backspace"@ {
            r && post.value_spec() == drop_last_char(self.value_spec())
        } else {
            match key_char {
                Some(t) => if forall|i: int| 0 <= i < t@.len() ==> !is_control(#[trigger] t@[i]) {
                    r && post.value_spec() == self.value_spec() + t@
                } else {
                    !r && post.value_spec() == self.value_spec()
                },
                None => !r && post.value_spec() == self.value_spec(),
            }
        }
    }

    /// Physical-keyboard text entry alongside the on-screen keys (see
    /// `key_step`).
    pub fn handle_key(&mut self, key: &str, key_char: Option<&str>) -> (r: bool)
        ensures
            old(self).key_step(key@, key_char, *final(self), r),
    {
        let k = chars_of(key);
        if crate::text::is_str(&k, "backspace") {
            let _ = pop_char(&mut self.value);
            return true;
        }
        match key_char {
            Some(text) => {
                if no_control(text) {
                    self.value.append(text);
                    true
                } else {
                    false
                }
            },
            None => false,
        }
    }

    /// The buffer as the value box shows it: one bullet per character when
    /// masked, and an ellipsis while empty.
    pub fn shown(&self, masked: bool) -> (r: String)
        ensures
            r@ == if self.value_spec().len() == 0 {
                "…"@
            } else if masked {
                Seq::new(self.value_spec().len(), |i: int| '•')
            } else {
                self.value_spec()
            },
    {
        let cs = chars_of(self.value.as_str());
        if cs.len() == 0 {
            return owned("…");
        }
        if !masked {
            return self.value.clone();
        }
        let mut s = String::new();
        let mut i: usize = 0;
        while i < cs.len()
            invariant
                i <= cs@.len(),
                s@ == Seq::new(i as nat, |j: int| '•'),
            decreases cs@.len() - i,
        {
            push_char(&mut s, '•');
            assert(s@ == Seq::new((i + 1) as nat, |j: int| '•'));
            i = i + 1;
        }
        s
    }
}

/// Whether `text` has no control characters.
fn no_control(text: &str) -> (r: bool)
    ensures
        r == forall|i: int| 0 <= i < text@.len() ==> !is_control(#[trigger] text@[i]),
{
    let cs = chars_of(text);
    let mut i: usize = 0;
    while i < cs.len()
        invariant
            i <= cs@.len(),
            cs@ == text@,
            forall|j: int| 0 <= j < i ==> !is_control(#[trigger] cs@[j]),
        decreases cs@.len() - i,
    {
        if is_control_char(cs[i]) {
            assert(is_control(text@[i as int]));
            return false;
        }
        i = i + 1;
    }
    true
}

impl Default for OskState {
    fn default() -> (r: Self)
        ensures
            r.wf(),
            r.value_spec() == Seq::<char>::empty(),
            r.row_spec() == 0 && r.col_spec() == 0,
            !r.shift_spec(),
    {
        OskState::new()
    }
}

} // verus!
