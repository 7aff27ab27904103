//! Reusable text-input editing component.
//!
//! The terminal key events the application receives are modelled by
//! [`KeyInput`]: the key itself plus whether Control was held. The editing
//! buffer is a character vector with a cursor, and every edit is specified
//! against the buffer's character sequence.

use vstd::prelude::*;
use crate::strutil::chars_string;

verus! {

/// Whether a character has the Unicode white-space property.
pub uninterp spec fn is_unicode_whitespace(c: char) -> bool;

/// Relies on `char::is_whitespace`: the Unicode `White_Space` property, a
/// function of the character alone.
#[verifier::external_body]
fn char_is_whitespace(c: char) -> (r: bool)
    ensures
        r == is_unicode_whitespace(c),
{
    c.is_whitespace()
}

/// A key press, as far as the editor cares: a key and the Control modifier.
#[derive(Debug, Clone, Copy)]
pub struct KeyInput {
    pub key: EditKey,
    pub ctrl: bool,
}

/// The keys the editor reacts to.
#[derive(Debug, Clone, Copy, PartialEq, Eq, Structural)]
pub enum EditKey {
    Char(char),
    Enter,
    Escape,
    Backspace,
    Delete,
    Left,
    Right,
    Home,
    End,
    /// Any other key.
    Other,
}

impl KeyInput {
    /// A plain (unmodified) key.
    pub fn plain(key: EditKey) -> (r: Self)
        ensures
            r.key == key && !r.ctrl,
    {
        KeyInput { key, ctrl: false }
    }

    /// A key pressed together with Control.
    pub fn control(key: EditKey) -> (r: Self)
        ensures
            r.key == key && r.ctrl,
    {
        KeyInput { key, ctrl: true }
    }
}

/// Result of handling one key event.
#[derive(Debug, Clone, PartialEq, Eq)]
pub enum InputResult {
    /// Key was handled, continue input mode.
    Consumed,
    /// Enter was pressed; here is the submitted value.
    Submitted(String),
    /// Escape was pressed; input was cancelled.
    Cancelled,
    /// Key was not handled; pass it to the next handler.
    NotHandled,
}

/// The trailing whitespace of `s` removed.
pub open spec fn spec_trim_whitespace_end(s: Seq<char>) -> Seq<char>
    decreases s.len(),
{
    if s.len() > 0 && is_unicode_whitespace(s.last()) {
        spec_trim_whitespace_end(s.drop_last())
    } else {
        s
    }
}

/// One past the position of the last space of `s`, or 0 if there is none.
pub open spec fn spec_after_last_space(s: Seq<char>) -> int
    decreases s.len(),
{
    if s.len() == 0 {
        0
    } else if s.last() == ' ' {
        s.len() as int
    } else {
        spec_after_last_space(s.drop_last())
    }
}

/// Where the word before the cursor starts: trailing whitespace is
/// skipped, then everything back to the previous space is part of the
/// word.
pub open spec fn spec_word_start(before: Seq<char>) -> int {
    spec_after_last_space(spec_trim_whitespace_end(before))
}

/// Reusable text input: an editing buffer and a cursor.
#[derive(Debug, Clone)]
pub struct TextInput {
    buffer: Vec<char>,
    cursor: usize,
}

impl TextInput {
    /// The buffer contents.
    pub closed spec fn spec_value(&self) -> Seq<char> {
        self.buffer@
    }

    /// The cursor position, in characters.
    pub closed spec fn spec_cursor(&self) -> int {
        self.cursor as int
    }

    /// The cursor always sits inside the buffer.
    pub open spec fn wf(&self) -> bool {
        0 <= self.spec_cursor() <= self.spec_value().len()
    }

    /// An empty input.
    pub fn new() -> (r: Self)
        ensures
            r.spec_value().len() == 0,
            r.spec_cursor() == 0,
            r.wf(),
    {
        TextInput { buffer: Vec::new(), cursor: 0 }
    }

    /// The current input value.
    pub fn value(&self) -> (r: String)
        ensures
            r@ == self.spec_value(),
    {
        chars_string(&self.buffer)
    }

    /// Is the input empty?
    pub fn is_empty(&self) -> (r: bool)
        ensures
            r == (self.spec_value().len() == 0),
    {
        self.buffer.len() == 0
    }

    /// Clear the input.
    pub fn clear(&mut self)
        ensures
            final(self).spec_value().len() == 0,
            final(self).spec_cursor() == 0,
            final(self).wf(),
    {
        self.buffer.clear();
        self.cursor = 0;
    }

    /// Cursor position for rendering.
    pub fn cursor_position(&self) -> (r: usize)
        ensures
            r as int == self.spec_cursor(),
    {
        self.cursor
    }

    /// Handle one key event.
    ///
    /// Escape cancels and Enter submits the buffer, both leaving it
    /// unchanged. Backspace and Delete remove around the cursor; Left and
    /// Right move it; Control-a/Home-with-Control and Control-e/End-with-
    /// Control jump to the ends; Control-u removes everything before the
    /// cursor; Control-w removes the word before the cursor; any other
    /// character is inserted at the cursor.
    pub fn handle_key(&mut self, key: KeyInput) -> (r: InputResult)
        requires
            old(self).wf(),
            old(self).spec_value().len() < usize::MAX,
        ensures
            final(self).wf(),
            ({
                let b = old(self).spec_value();
                let c = old(self).spec_cursor();
                let nb = final(self).spec_value();
                let nc = final(self).spec_cursor();
                match key.key {
                    EditKey::Escape => r == InputResult::Cancelled && nb == b && nc == c,
                    EditKey::Enter => (match r {
                        InputResult::Submitted(s) => s@ == b,
                        _ => false,
                    }) && nb == b && nc == c,
                    EditKey::Backspace => r == InputResult::Consumed && if c > 0 {
                        nb == b.take(c - 1) + b.skip(c) && nc == c - 1
                    } else {
                        nb == b && nc == c
                    },
                    EditKey::Delete => r == InputResult::Consumed && if c < b.len() {
                        nb == b.take(c) + b.skip(c + 1) && nc == c
                    } else {
                        nb == b && nc == c
                    },
                    EditKey::Left => r == InputResult::Consumed && nb == b && nc == (if c > 0 {
                        c - 1
                    } else {
                        0
                    }),
                    EditKey::Right => r == InputResult::Consumed && nb == b && nc == (if c
                        < b.len() {
                        c + 1
                    } else {
                        c
                    }),
                    EditKey::Home => if key.ctrl {
                        r == InputResult::Consumed && nb == b && nc == 0
                    } else {
                        r == InputResult::NotHandled && nb == b && nc == c
                    },
                    EditKey::End => if key.ctrl {
                        r == InputResult::Consumed && nb == b && nc == b.len()
                    } else {
                        r == InputResult::NotHandled && nb == b && nc == c
                    },
                    EditKey::Char(ch) => r == InputResult::Consumed && if key.ctrl && ch == 'a' {
                        nb == b && nc == 0
                    } else if key.ctrl && ch == 'e' {
                        nb == b && nc == b.len()
                    } else if key.ctrl && ch == 'u' {
                        nb == b.skip(c) && nc == 0
                    } else if key.ctrl && ch == 'w' {
                        (if c > 0 {
                            nb == b.take(spec_word_start(b.take(c))) + b.skip(c) && nc
                                == spec_word_start(b.take(c))
                        } else {
                            nb == b && nc == c
                        })
                    } else {
                        nb == b.take(c) + seq![ch] + b.skip(c) && nc == c + 1
                    },
                    EditKey::Other => r == InputResult::NotHandled && nb == b && nc == c,
                }
            }),
    {
        match key.key {
            EditKey::Escape => InputResult::Cancelled,
            EditKey::Enter => InputResult::Submitted(chars_string(&self.buffer)),
            EditKey::Backspace => {
                if self.cursor > 0 {
                    self.cursor = self.cursor - 1;
                    let _ = self.buffer.remove(self.cursor);
                    proof {
                        assert(self.buffer@ =~= old(self).spec_value().take(
                            old(self).spec_cursor() - 1,
                        ) + old(self).spec_value().skip(old(self).spec_cursor()));
                    }
                }
                InputResult::Consumed
            }
            EditKey::Delete => {
                if self.cursor < self.buffer.len() {
                    let _ = self.buffer.remove(self.cursor);
                    proof {
                        assert(self.buffer@ =~= old(self).spec_value().take(
                            old(self).spec_cursor(),
                        ) + old(self).spec_value().skip(old(self).spec_cursor() + 1));
                    }
                }
                InputResult::Consumed
            }
            EditKey::Left => {
                if self.cursor > 0 {
                    self.cursor = self.cursor - 1;
                }
                InputResult::Consumed
            }
            EditKey::Right => {
                if self.cursor < self.buffer.len() {
                    self.cursor = self.cursor + 1;
                }
                InputResult::Consumed
            }
            EditKey::Home => {
                if key.ctrl {
                    self.cursor = 0;
                    InputResult::Consumed
                } else {
                    InputResult::NotHandled
                }
            }
            EditKey::End => {
                if key.ctrl {
                    self.cursor = self.buffer.len();
                    InputResult::Consumed
                } else {
                    InputResult::NotHandled
                }
            }
            EditKey::Char(ch) => {
                if key.ctrl && ch == 'a' {
                    self.cursor = 0;
                } else if key.ctrl && ch == 'e' {
                    self.cursor = self.buffer.len();
                } else if key.ctrl && ch == 'u' {
                    self.clear_before_cursor();
                } else if key.ctrl && ch == 'w' {
                    self.delete_word_before_cursor();
                } else {
                    self.buffer.insert(self.cursor, ch);
                    self.cursor = self.cursor + 1;
                    proof {
                        assert(self.buffer@ =~= old(self).spec_value().take(
                            old(self).spec_cursor(),
                        ) + seq![ch] + old(self).spec_value().skip(old(self).spec_cursor()));
                    }
                }
                InputResult::Consumed
            }
            EditKey::Other => InputResult::NotHandled,
        }
    }

    /// Remove everything before the cursor.
    fn clear_before_cursor(&mut self)
        requires
            old(self).wf(),
        ensures
            final(self).spec_value() == old(self).spec_value().skip(old(self).spec_cursor()),
            final(self).spec_cursor() == 0,
            final(self).wf(),
    {
        let mut rest: Vec<char> = Vec::new();
        let n = self.buffer.len();
        let mut i: usize = self.cursor;
        while i < n
            invariant
                self.cursor <= i <= n,
                n == self.buffer@.len(),
                self == old(self),
                rest@ == self.buffer@.subrange(self.cursor as int, i as int),
            decreases n - i,
        {
            rest.push(self.buffer[i]);
            proof {
                assert(self.buffer@.subrange(self.cursor as int, i as int).push(
                    self.buffer@[i as int],
                ) =~= self.buffer@.subrange(self.cursor as int, i as int + 1));
            }
            i += 1;
        }
        proof {
            assert(rest@ =~= self.buffer@.skip(self.cursor as int));
        }
        self.buffer = rest;
        self.cursor = 0;
    }

    /// Remove the word before the cursor: trailing spaces, then the word
    /// itself, back to the previous space.
    fn delete_word_before_cursor(&mut self)
        requires
            old(self).wf(),
        ensures
            ({
                let b = old(self).spec_value();
                let c = old(self).spec_cursor();
                if c > 0 {
                    final(self).spec_value() == b.take(spec_word_start(b.take(c))) + b.skip(c)
                        && final(self).spec_cursor() == spec_word_start(b.take(c))
                } else {
                    *final(self) == *old(self)
                }
            }),
            final(self).wf(),
    {
        if self.cursor == 0 {
            return ;
        }
        let ghost b = self.buffer@;
        let ghost c = self.cursor as int;
        let mut j: usize = self.cursor;
        while j > 0 && char_is_whitespace(self.buffer[j - 1])
            invariant
                0 <= j <= self.cursor,
                self == old(self),
                self.cursor <= self.buffer@.len(),
                b == self.buffer@,
                c == self.cursor as int,
                spec_trim_whitespace_end(b.take(c)) == spec_trim_whitespace_end(b.take(j as int)),
            decreases j,
        {
            proof {
                assert(b.take(j as int).last() == b[j - 1]);
                assert(b.take(j as int).drop_last() =~= b.take(j as int - 1));
            }
            j -= 1;
        }
        let ghost t = b.take(j as int);
        proof {
            if j > 0 {
                assert(b.take(j as int).last() == b[j - 1]);
            }
            assert(spec_trim_whitespace_end(t) == t);
            assert(spec_trim_whitespace_end(b.take(c)) == t);
        }
        while j > 0 && self.buffer[j - 1] != ' '
            invariant
                0 <= j <= self.cursor,
                self == old(self),
                self.cursor <= self.buffer@.len(),
                b == self.buffer@,
                c == self.cursor as int,
                spec_after_last_space(t) == spec_after_last_space(b.take(j as int)),
                j > 0 ==> (b.take(j as int).len() > 0),
            decreases j,
        {
            proof {
                assert(b.take(j as int).last() == b[j - 1]);
                assert(b.take(j as int).drop_last() =~= b.take(j as int - 1));
            }
            j -= 1;
        }
        proof {
            if j > 0 {
                assert(b.take(j as int).last() == b[j - 1]);
                assert(b[j - 1] == ' ');
                assert(spec_after_last_space(b.take(j as int)) == j as int);
            } else {
                assert(b.take(0int).len() == 0);
                assert(spec_after_last_space(b.take(0int)) == 0);
            }
            assert(spec_word_start(b.take(c)) == j as int);
        }
        // keep [0, j) and [cursor, len)
        let mut nb: Vec<char> = Vec::new();
        let mut i: usize = 0;
        while i < j
            invariant
                0 <= i <= j <= self.cursor <= self.buffer@.len(),
                self == old(self),
                b == self.buffer@,
                nb@ == b.take(i as int),
            decreases j - i,
        {
            nb.push(self.buffer[i]);
            proof {
                assert(b.take(i as int).push(b[i as int]) =~= b.take(i as int + 1));
            }
            i += 1;
        }
        let n = self.buffer.len();
        let mut k: usize = self.cursor;
        while k < n
            invariant
                j <= self.cursor <= k <= n,
                n == self.buffer@.len(),
                self == old(self),
                b == self.buffer@,
                c == self.cursor as int,
                nb@ == b.take(j as int) + b.subrange(c, k as int),
            decreases n - k,
        {
            nb.push(self.buffer[k]);
            proof {
                assert((b.take(j as int) + b.subrange(c, k as int)).push(b[k as int]) =~= b.take(
                    j as int,
                ) + b.subrange(c, k as int + 1));
            }
            k += 1;
        }
        proof {
            assert(b.subrange(c, n as int) =~= b.skip(c));
        }
        self.buffer = nb;
        self.cursor = j;
    }
}

} // verus!
