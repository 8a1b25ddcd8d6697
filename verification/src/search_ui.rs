//! The search bar: an editable query with a cursor, driven by key events,
//! and the query it submits to the search step.

use vstd::prelude::*;

use crate::bytes::{byte_lit, clone_bytes};
use vstd::string::StringSliceAdditionalSpecFns;

verus! {

/// Editing direction of a deletion.
#[derive(Clone, Copy, Debug, PartialEq, Eq, Structural)]
pub enum Direction {
    Forward,
    Backward,
}

/// A key the front end hands to the library's handlers.
#[derive(Clone, Copy, Debug, PartialEq, Eq, Structural)]
pub enum Key {
    Esc,
    Backspace,
    Delete,
    Left,
    Right,
    Enter,
    Up,
    Down,
    PageUp,
    PageDown,
    Home,
    End,
    /// A printable ASCII character.
    Character(u8),
}

/// The search bar's editing state: the prompt, the query so far, and the
/// cursor position within the query.
#[derive(Clone, Debug, PartialEq)]
pub struct SearchState {
    pub prompt: Vec<u8>,
    pub query: Vec<u8>,
    pub cursor: usize,
}

impl SearchState {
    /// The cursor stays within the query.
    pub open spec fn wf(self) -> bool {
        self.cursor <= self.query@.len()
    }

    /// A fresh state with an empty query.
    pub fn new() -> (r: Self)
        ensures
            r.prompt@ == ("> ").spec_bytes(),
            r.query@ == Seq::<u8>::empty(),
            r.cursor == 0,
            r.wf(),
    {
        let r = SearchState { prompt: byte_lit("> "), query: Vec::new(), cursor: 0 };
        proof {
            assert(r.query@ =~= Seq::<u8>::empty());
        }
        r
    }

    /// Where the terminal cursor stands: after the prompt and the part of
    /// the query before the editing cursor.
    pub fn cursor_position(&self) -> (r: usize)
        requires
            self.prompt@.len() + self.cursor <= usize::MAX,
        ensures
            r == self.prompt@.len() + self.cursor,
    {
        self.prompt.len() + self.cursor
    }

    /// Delete one byte: the one before the cursor going backward, the one
    /// under it going forward; nothing at the respective edge.
    pub fn pop(&mut self, dir: Direction) -> (r: Option<u8>)
        requires
            old(self).wf(),
        ensures
            final(self).wf(),
            final(self).prompt == old(self).prompt,
            match dir {
                Direction::Backward => if old(self).cursor > 0 && old(self).query@.len() > 0 {
                    r == Some(old(self).query@[old(self).cursor - 1]) && final(self).query@ == old(
                        self,
                    ).query@.remove(old(self).cursor - 1) && final(self).cursor == old(self).cursor
                        - 1
                } else {
                    r is None && *final(self) == *old(self)
                },
                Direction::Forward => if old(self).cursor < old(self).query@.len() {
                    r == Some(old(self).query@[old(self).cursor as int]) && final(self).query@
                        == old(self).query@.remove(old(self).cursor as int) && final(self).cursor
                        == old(self).cursor
                } else {
                    r is None && *final(self) == *old(self)
                },
            },
    {
        match dir {
            Direction::Backward => {
                if self.cursor > 0 && self.query.len() > 0 {
                    let ret = self.query.remove(self.cursor - 1);
                    self.cursor = self.cursor - 1;
                    Some(ret)
                } else {
                    None
                }
            },
            Direction::Forward => {
                if self.cursor < self.query.len() {
                    Some(self.query.remove(self.cursor))
                } else {
                    None
                }
            },
        }
    }

    /// Insert one byte at the cursor and move the cursor past it.
    pub fn push(&mut self, ch: u8)
        requires
            old(self).wf(),
        ensures
            final(self).wf(),
            final(self).prompt == old(self).prompt,
            final(self).query@ == old(self).query@.insert(old(self).cursor as int, ch),
            final(self).cursor == old(self).cursor + 1,
    {
        if self.cursor != self.query.len() {
            self.query.insert(self.cursor, ch);
        } else {
            self.query.push(ch);
            proof {
                assert(self.query@ =~= old(self).query@.insert(old(self).cursor as int, ch));
            }
        }
        let grown = self.query.len();
        proof {
            assert(self.cursor < grown);
        }
        self.cursor = self.cursor + 1;
    }
}

/// The search bar driver.
pub struct SearchBar;

impl SearchBar {
    /// Feed one key to the search bar.  When the bar is open, editing keys
    /// change the query, the escape key closes the bar, and the enter key
    /// submits a copy of the query; when it is closed, a slash opens it.
    /// Yields whether the key was consumed.
    pub fn handle_key(key: Key, state: &mut Option<SearchState>, submitted: &mut Option<Vec<u8>>)
        -> (r: bool)
        requires
            match *old(state) {
                Some(s) => s.wf(),
                None => true,
            },
        ensures
            match *final(state) {
                Some(s) => s.wf(),
                None => true,
            },
            match *old(state) {
                Some(s) => r && match key {
                    Key::Esc => *final(state) is None && *final(submitted) == *old(submitted),
                    Key::Enter => *final(state) == *old(state) && (*final(submitted)
                        matches Some(q) && q@ == s.query@),
                    Key::Character(ch) => (*final(state) matches Some(s2) && s2.query@
                        == s.query@.insert(s.cursor as int, ch) && s2.cursor == s.cursor + 1)
                        && *final(submitted) == *old(submitted),
                    Key::Left => (*final(state) matches Some(s2) && s2.query == s.query
                        && s2.cursor == (if s.cursor > 0 {
                        (s.cursor - 1) as usize
                    } else {
                        0
                    })) && *final(submitted) == *old(submitted),
                    Key::Right => (*final(state) matches Some(s2) && s2.query == s.query
                        && s2.cursor == (if s.cursor < s.query@.len() {
                        (s.cursor + 1) as usize
                    } else {
                        s.cursor
                    })) && *final(submitted) == *old(submitted),
                    Key::Backspace => (*final(state) matches Some(s2) && (if s.cursor > 0
                        && s.query@.len() > 0 {
                        s2.query@ == s.query@.remove(s.cursor - 1) && s2.cursor == s.cursor - 1
                            && s2.prompt == s.prompt
                    } else {
                        s2 == s
                    })) && *final(submitted) == *old(submitted),
                    Key::Delete => (*final(state) matches Some(s2) && (if s.cursor
                        < s.query@.len() {
                        s2.query@ == s.query@.remove(s.cursor as int) && s2.cursor == s.cursor
                            && s2.prompt == s.prompt
                    } else {
                        s2 == s
                    })) && *final(submitted) == *old(submitted),
                    _ => *final(state) == *old(state) && *final(submitted) == *old(submitted),
                },
                None => if key == Key::Character(47) {
                    r && (*final(state) matches Some(s2) && s2.query@ == Seq::<u8>::empty()
                        && s2.cursor == 0) && *final(submitted) == *old(submitted)
                } else {
                    !r && *final(state) == *old(state) && *final(submitted) == *old(submitted)
                },
            },
    {
        let open = match state {
            Some(_) => true,
            None => false,
        };
        if open {
            match key {
                Key::Esc => {
                    *state = None;
                },
                Key::Backspace => {
                    match state {
                        Some(s) => {
                            s.pop(Direction::Backward);
                        },
                        None => {},
                    }
                },
                Key::Delete => {
                    match state {
                        Some(s) => {
                            s.pop(Direction::Forward);
                        },
                        None => {},
                    }
                },
                Key::Left => {
                    match state {
                        Some(s) => {
                            if s.cursor > 0 {
                                s.cursor = s.cursor - 1;
                            }
                        },
                        None => {},
                    }
                },
                Key::Right => {
                    match state {
                        Some(s) => {
                            if s.cursor < s.query.len() {
                                s.cursor = s.cursor + 1;
                            }
                        },
                        None => {},
                    }
                },
                Key::Enter => {
                    match state {
                        Some(s) => {
                            *submitted = Some(clone_bytes(&s.query));
                        },
                        None => {},
                    }
                },
                Key::Character(ch) => {
                    match state {
                        Some(s) => {
                            s.push(ch);
                        },
                        None => {},
                    }
                },
                _ => {},
            }
            true
        } else {
            if key == Key::Character(47) {
                *state = Some(SearchState::new());
                true
            } else {
                false
            }
        }
    }

    /// The bar's rendered text: the prompt followed by the query, or
    /// nothing when the bar is closed.
    pub fn format(state: &Option<SearchState>) -> (r: Option<Vec<u8>>)
        ensures
            match state {
                Some(s) => r matches Some(text) && text@ == ("> ").spec_bytes() + s.query@,
                None => r is None,
            },
    {
        match state {
            Some(s) => {
                let mut text = byte_lit("> ");
                let mut q = clone_bytes(&s.query);
                text.append(&mut q);
                Some(text)
            },
            None => None,
        }
    }
}

} // verus!
