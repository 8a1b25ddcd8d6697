//! The help popup: its key-binding table and the scroll state its keys
//! drive.

use vstd::prelude::*;

use crate::search_ui::Key;

verus! {

/// The help menu: key-binding rows and the scroll offset.
#[derive(Clone, Debug, PartialEq)]
pub struct HelpMenu {
    /// `(key, description)` rows.
    pub keys: Vec<(Vec<u8>, Vec<u8>)>,
    pub scroll: usize,
}

impl HelpMenu {
    /// An empty menu.
    pub fn new() -> (r: Self)
        ensures
            r.keys@.len() == 0,
            r.scroll == 0,
    {
        HelpMenu { keys: Vec::new(), scroll: 0 }
    }

    /// The menu with its scroll offset replaced.
    pub fn with_scroll(self, v: usize) -> (r: Self)
        ensures
            r.keys == self.keys,
            r.scroll == v,
    {
        HelpMenu { scroll: v, ..self }
    }

    /// The menu with rows appended.
    pub fn with_keys(self, keys: Vec<(Vec<u8>, Vec<u8>)>) -> (r: Self)
        ensures
            r.keys@ == self.keys@ + keys@,
            r.scroll == self.scroll,
    {
        let mut s = self;
        let mut keys = keys;
        s.keys.append(&mut keys);
        s
    }

    /// Feed one key to the help popup.  The letter aitch toggles it (and
    /// resets the scroll on opening); when open, escape or the letter cue
    /// closes it and the arrow keys scroll, saturating at both ends.
    /// Yields whether the key was consumed.
    pub fn handle_key(key: Key, show: &mut bool, num_keys: usize, scroll: &mut usize) -> (r: bool)
        ensures
            key == Key::Character(104) ==> r && *final(show) == !*old(show) && *final(scroll) == (
            if !*old(show) {
                0
            } else {
                *old(scroll)
            }),
            key != Key::Character(104) && !*old(show) ==> !r && *final(show) == *old(show)
                && *final(scroll) == *old(scroll),
            key != Key::Character(104) && *old(show) ==> r && match key {
                Key::Esc | Key::Character(113) => *final(show) == false && *final(scroll) == *old(
                    scroll,
                ),
                Key::Down => *final(show) == *old(show) && *final(scroll) == (if *old(scroll) + 1
                    < num_keys {
                    (*old(scroll) + 1) as usize
                } else {
                    *old(scroll)
                }),
                Key::Up => *final(show) == *old(show) && *final(scroll) == (if *old(scroll) > 0 {
                    (*old(scroll) - 1) as usize
                } else {
                    0usize
                }),
                _ => *final(show) == *old(show) && *final(scroll) == *old(scroll),
            },
    {
        if key == Key::Character(104) {
            *show = !*show;
            if *show {
                *scroll = 0;
            }
            return true;
        }
        if !*show {
            return false;
        }
        if key == Key::Esc || key == Key::Character(113) {
            *show = false;
        } else if key == Key::Down {
            if *scroll < usize::MAX && *scroll + 1 < num_keys {
                *scroll = *scroll + 1;
            }
        } else if key == Key::Up {
            if *scroll > 0 {
                *scroll = *scroll - 1;
            }
        }
        true
    }
}

} // verus!
