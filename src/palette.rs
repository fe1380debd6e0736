use vstd::prelude::*;

verus! {

/// SGR code of the matched text.
pub const MATCH_CODE: u32 = 31;

/// SGR code of the line numbers.
pub const LINE_NUMBER_CODE: u32 = 32;

/// SGR code of the file paths.
pub const PATH_CODE: u32 = 35;

/// What a segment's color stands for.
#[derive(Clone, Copy, Debug, PartialEq, Eq, Structural)]
pub enum ColorRole {
    /// The text that matched the search.
    Match,
    LineNumber,
    Path,
    /// Text that no code colored.
    Plain,
    /// A code with no role: shown in a marker color, so that unexpected
    /// output stays visible.
    Unknown,
}

pub open spec fn role_of(code: Option<u32>) -> ColorRole {
    match code {
        None => ColorRole::Plain,
        Some(c) => if c == MATCH_CODE {
            ColorRole::Match
        } else if c == LINE_NUMBER_CODE {
            ColorRole::LineNumber
        } else if c == PATH_CODE {
            ColorRole::Path
        } else {
            ColorRole::Unknown
        },
    }
}

/// The role of a segment's color code.
pub fn color_role(code: Option<u32>) -> (r: ColorRole)
    ensures
        r == role_of(code),
{
    match code {
        None => ColorRole::Plain,
        Some(c) => {
            if c == MATCH_CODE {
                ColorRole::Match
            } else if c == LINE_NUMBER_CODE {
                ColorRole::LineNumber
            } else if c == PATH_CODE {
                ColorRole::Path
            } else {
                ColorRole::Unknown
            }
        },
    }
}

pub open spec fn accent_of(role: ColorRole) -> Option<(u8, u8, u8)> {
    match role {
        ColorRole::Match => Some((250, 87, 80)),
        ColorRole::LineNumber => Some((117, 185, 56)),
        ColorRole::Path => Some((242, 117, 190)),
        _ => None,
    }
}

impl ColorRole {
    /// The red, green and magenta of the selenized palette for the three
    /// roles of the search output; none for plain and unknown text, which
    /// take the toolkit's stock gray and marker colors.
    pub fn accent_rgb(&self) -> (r: Option<(u8, u8, u8)>)
        ensures
            r == accent_of(*self),
    {
        match self {
            ColorRole::Match => Some((250, 87, 80)),
            ColorRole::LineNumber => Some((117, 185, 56)),
            ColorRole::Path => Some((242, 117, 190)),
            _ => None,
        }
    }
}

} // verus!
