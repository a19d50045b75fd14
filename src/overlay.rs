use vstd::prelude::*;

use crate::grid::Grid;

verus! {

/// A key the overlay reacts to.
#[derive(Debug, Clone, Copy, PartialEq, Eq, Structural)]
pub enum GridKey {
    Escape,
    Control,
    Shift,
    Left,
    Right,
    Up,
    Down,
    /// A function key, F1 being 1.
    Function(u8),
    Other,
}

/// What the overlay asks of its surroundings after a key event.
#[derive(Debug, Clone, Copy, PartialEq, Eq, Structural)]
pub enum KeyResponse {
    Nothing,
    /// Close the overlay.
    Close,
    /// The shape changed: move and resize the overlay window.
    Reposition,
    /// Switch to the profile of this function key.
    SwitchProfile(u8),
}

/// The profile of a function key: F1 the default profile, F2 to F6 the
/// numbered ones, no other.
pub open spec fn profile_of(function_key: u8) -> Option<Seq<char>> {
    if function_key == 1 {
        Some("Default"@)
    } else if function_key == 2 {
        Some("Profile2"@)
    } else if function_key == 3 {
        Some("Profile3"@)
    } else if function_key == 4 {
        Some("Profile4"@)
    } else if function_key == 5 {
        Some("Profile5"@)
    } else if function_key == 6 {
        Some("Profile6"@)
    } else {
        None
    }
}

/// The name of the profile a function key switches to.
pub fn profile_name(function_key: u8) -> (r: Option<String>)
    ensures
        (match r {
            Some(s) => Some(s@),
            None => None,
        }) == profile_of(function_key),
{
    match function_key {
        1 => Some("Default".to_owned()),
        2 => Some("Profile2".to_owned()),
        3 => Some("Profile3".to_owned()),
        4 => Some("Profile4".to_owned()),
        5 => Some("Profile5".to_owned()),
        6 => Some("Profile6".to_owned()),
        _ => None,
    }
}

impl Grid {
    /// A key goes down over the overlay. Escape closes it; Control and Shift
    /// are held from now on; with Control held, the arrows add a column
    /// (right), remove one (left), add a row (up) or remove one (down).
    pub fn key_down(&mut self, key: GridKey) -> (r: KeyResponse)
        requires
            old(self).wf(),
        ensures
            final(self).wf(),
            key == GridKey::Escape ==> r == KeyResponse::Close && *final(self) == *old(self),
            key == GridKey::Control ==> r == KeyResponse::Nothing && *final(self) == (Grid {
                control_down: true,
                ..*old(self)
            }),
            key == GridKey::Shift ==> r == KeyResponse::Nothing && *final(self) == (Grid {
                shift_down: true,
                ..*old(self)
            }),
            (key == GridKey::Left || key == GridKey::Right || key == GridKey::Up || key
                == GridKey::Down) && !old(self).control_down ==> r == KeyResponse::Nothing
                && *final(self) == *old(self),
            key == GridKey::Up && old(self).control_down ==> r == KeyResponse::Reposition
                && old(self).row_added(&*final(self)),
            key == GridKey::Down && old(self).control_down ==> r == KeyResponse::Reposition
                && old(self).row_removed(&*final(self)),
            key == GridKey::Right && old(self).control_down ==> r == KeyResponse::Reposition
                && old(self).column_added(&*final(self)),
            key == GridKey::Left && old(self).control_down ==> r == KeyResponse::Reposition
                && old(self).column_removed(&*final(self)),
            key matches GridKey::Function(_) || key == GridKey::Other ==> r == KeyResponse::Nothing
                && *final(self) == *old(self),
    {
        match key {
            GridKey::Escape => KeyResponse::Close,
            GridKey::Control => {
                self.control_down = true;
                KeyResponse::Nothing
            },
            GridKey::Shift => {
                self.shift_down = true;
                KeyResponse::Nothing
            },
            GridKey::Right | GridKey::Left | GridKey::Up | GridKey::Down => {
                if !self.control_down {
                    return KeyResponse::Nothing;
                }
                match key {
                    GridKey::Right => self.add_column(),
                    GridKey::Left => self.remove_column(),
                    GridKey::Up => self.add_row(),
                    _ => self.remove_row(),
                }
                KeyResponse::Reposition
            },
            _ => KeyResponse::Nothing,
        }
    }

    /// A key comes up over the overlay. Control and Shift are no longer held;
    /// a function key switches profile.
    pub fn key_up(&mut self, key: GridKey) -> (r: KeyResponse)
        ensures
            key == GridKey::Control ==> r == KeyResponse::Nothing && *final(self) == (Grid {
                control_down: false,
                ..*old(self)
            }),
            key == GridKey::Shift ==> r == KeyResponse::Nothing && *final(self) == (Grid {
                shift_down: false,
                ..*old(self)
            }),
            key matches GridKey::Function(n) ==> r == KeyResponse::SwitchProfile(n) && *final(self)
                == *old(self),
            !(key == GridKey::Control || key == GridKey::Shift || key matches GridKey::Function(_))
                ==> r == KeyResponse::Nothing && *final(self) == *old(self),
    {
        match key {
            GridKey::Control => {
                self.control_down = false;
                KeyResponse::Nothing
            },
            GridKey::Shift => {
                self.shift_down = false;
                KeyResponse::Nothing
            },
            GridKey::Function(n) => KeyResponse::SwitchProfile(n),
            _ => KeyResponse::Nothing,
        }
    }
}

} // verus!
