//! Color theme selection. The palette tables themselves belong to the
//! renderer; the library tracks only which theme is selected and the fixed
//! cycling order.

use vstd::prelude::*;

verus! {

/// The available themes, in their cycling order.
#[derive(Debug, Clone, Copy, PartialEq, Eq, Structural)]
pub enum ThemeType {
    Plain,
    Solarized,
    Monokai,
    Dracula,
    Nord,
}

impl ThemeType {
    /// The theme after `self` in the cycling order.
    pub open spec fn spec_next(self) -> ThemeType {
        match self {
            ThemeType::Plain => ThemeType::Solarized,
            ThemeType::Solarized => ThemeType::Monokai,
            ThemeType::Monokai => ThemeType::Dracula,
            ThemeType::Dracula => ThemeType::Nord,
            ThemeType::Nord => ThemeType::Plain,
        }
    }

    /// Step to the next theme in the cycling order.
    pub fn next(self) -> (r: ThemeType)
        ensures
            r == self.spec_next(),
    {
        match self {
            ThemeType::Plain => ThemeType::Solarized,
            ThemeType::Solarized => ThemeType::Monokai,
            ThemeType::Monokai => ThemeType::Dracula,
            ThemeType::Dracula => ThemeType::Nord,
            ThemeType::Nord => ThemeType::Plain,
        }
    }
}

} // verus!
