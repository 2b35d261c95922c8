//! Bedwars: teams, the moderator commands, and the rules its systems apply
//! to chat, blocks, bows and regeneration.
use vstd::prelude::*;

pub mod block;
pub mod bow;
pub mod chat;
pub mod regeneration;

verus! {

/// The sixteen wool colours a player can play for.
#[derive(Clone, Copy, PartialEq, Eq, Structural, Debug)]
pub enum Team {
    Black,
    Blue,
    Brown,
    Cyan,
    Gray,
    Green,
    LightBlue,
    LightGray,
    Lime,
    Magenta,
    Orange,
    Pink,
    Purple,
    Red,
    White,
    Yellow,
}

/// A team's name as a player reads it.
pub open spec fn team_name(t: Team) -> Seq<char> {
    match t {
        Team::Black => "Black"@,
        Team::Blue => "Blue"@,
        Team::Brown => "Brown"@,
        Team::Cyan => "Cyan"@,
        Team::Gray => "Gray"@,
        Team::Green => "Green"@,
        Team::LightBlue => "Light Blue"@,
        Team::LightGray => "Light Gray"@,
        Team::Lime => "Lime"@,
        Team::Magenta => "Magenta"@,
        Team::Orange => "Orange"@,
        Team::Pink => "Pink"@,
        Team::Purple => "Purple"@,
        Team::Red => "Red"@,
        Team::White => "White"@,
        Team::Yellow => "Yellow"@,
    }
}

/// The colour of a team's wool, as red, green and blue channels.
pub open spec fn team_rgb(t: Team) -> [u8; 3] {
    match t {
        Team::Black => [0x14, 0x15, 0x19],
        Team::Blue => [0x35, 0x39, 0x9D],
        Team::Brown => [0x72, 0x47, 0x28],
        Team::Cyan => [0x15, 0x89, 0x91],
        Team::Gray => [0x3E, 0x44, 0x47],
        Team::Green => [0x54, 0x6D, 0x1B],
        Team::LightBlue => [0x3A, 0xAF, 0xD9],
        Team::LightGray => [0x8E, 0x8E, 0x86],
        Team::Lime => [0x70, 0xB9, 0x19],
        Team::Magenta => [0xBD, 0x44, 0xB3],
        Team::Orange => [0xF0, 0x76, 0x13],
        Team::Pink => [0xED, 0x8D, 0xAC],
        Team::Purple => [0x79, 0x2A, 0xAC],
        Team::Red => [0xA1, 0x27, 0x22],
        Team::White => [0xE9, 0xEC, 0xEC],
        Team::Yellow => [0xF8, 0xC6, 0x27],
    }
}

impl Team {
    /// The team's name as a player reads it.
    pub fn name(self) -> (s: &'static str)
        ensures
            s@ == team_name(self),
    {
        match self {
            Team::Black => "Black",
            Team::Blue => "Blue",
            Team::Brown => "Brown",
            Team::Cyan => "Cyan",
            Team::Gray => "Gray",
            Team::Green => "Green",
            Team::LightBlue => "Light Blue",
            Team::LightGray => "Light Gray",
            Team::Lime => "Lime",
            Team::Magenta => "Magenta",
            Team::Orange => "Orange",
            Team::Pink => "Pink",
            Team::Purple => "Purple",
            Team::Red => "Red",
            Team::White => "White",
            Team::Yellow => "Yellow",
        }
    }

    /// The wool colour this team is drawn in. Three channels are a colour by
    /// construction, so nothing here can fail.
    pub fn rgb(self) -> (c: [u8; 3])
        ensures
            c == team_rgb(self),
    {
        match self {
            Team::Black => [0x14, 0x15, 0x19],
            Team::Blue => [0x35, 0x39, 0x9D],
            Team::Brown => [0x72, 0x47, 0x28],
            Team::Cyan => [0x15, 0x89, 0x91],
            Team::Gray => [0x3E, 0x44, 0x47],
            Team::Green => [0x54, 0x6D, 0x1B],
            Team::LightBlue => [0x3A, 0xAF, 0xD9],
            Team::LightGray => [0x8E, 0x8E, 0x86],
            Team::Lime => [0x70, 0xB9, 0x19],
            Team::Magenta => [0xBD, 0x44, 0xB3],
            Team::Orange => [0xF0, 0x76, 0x13],
            Team::Pink => [0xED, 0x8D, 0xAC],
            Team::Purple => [0x79, 0x2A, 0xAC],
            Team::Red => [0xA1, 0x27, 0x22],
            Team::White => [0xE9, 0xEC, 0xEC],
            Team::Yellow => [0xF8, 0xC6, 0x27],
        }
    }
}

/// Each team is drawn in its wool's colour, channel by channel as the
/// wool table gives it, and no two teams share a colour.
pub proof fn law_each_team_is_drawn_in_its_wool_colour()
    ensures
        team_rgb(Team::Black)[0] == 0x14u8 && team_rgb(Team::Black)[1] == 0x15u8 && team_rgb(Team::Black)[2] == 0x19u8,
        team_rgb(Team::Blue)[0] == 0x35u8 && team_rgb(Team::Blue)[1] == 0x39u8 && team_rgb(Team::Blue)[2] == 0x9du8,
        team_rgb(Team::Brown)[0] == 0x72u8 && team_rgb(Team::Brown)[1] == 0x47u8 && team_rgb(Team::Brown)[2] == 0x28u8,
        team_rgb(Team::Cyan)[0] == 0x15u8 && team_rgb(Team::Cyan)[1] == 0x89u8 && team_rgb(Team::Cyan)[2] == 0x91u8,
        team_rgb(Team::Gray)[0] == 0x3eu8 && team_rgb(Team::Gray)[1] == 0x44u8 && team_rgb(Team::Gray)[2] == 0x47u8,
        team_rgb(Team::Green)[0] == 0x54u8 && team_rgb(Team::Green)[1] == 0x6du8 && team_rgb(Team::Green)[2] == 0x1bu8,
        team_rgb(Team::LightBlue)[0] == 0x3au8 && team_rgb(Team::LightBlue)[1] == 0xafu8 && team_rgb(Team::LightBlue)[2] == 0xd9u8,
        team_rgb(Team::LightGray)[0] == 0x8eu8 && team_rgb(Team::LightGray)[1] == 0x8eu8 && team_rgb(Team::LightGray)[2] == 0x86u8,
        team_rgb(Team::Lime)[0] == 0x70u8 && team_rgb(Team::Lime)[1] == 0xb9u8 && team_rgb(Team::Lime)[2] == 0x19u8,
        team_rgb(Team::Magenta)[0] == 0xbdu8 && team_rgb(Team::Magenta)[1] == 0x44u8 && team_rgb(Team::Magenta)[2] == 0xb3u8,
        team_rgb(Team::Orange)[0] == 0xf0u8 && team_rgb(Team::Orange)[1] == 0x76u8 && team_rgb(Team::Orange)[2] == 0x13u8,
        team_rgb(Team::Pink)[0] == 0xedu8 && team_rgb(Team::Pink)[1] == 0x8du8 && team_rgb(Team::Pink)[2] == 0xacu8,
        team_rgb(Team::Purple)[0] == 0x79u8 && team_rgb(Team::Purple)[1] == 0x2au8 && team_rgb(Team::Purple)[2] == 0xacu8,
        team_rgb(Team::Red)[0] == 0xa1u8 && team_rgb(Team::Red)[1] == 0x27u8 && team_rgb(Team::Red)[2] == 0x22u8,
        team_rgb(Team::White)[0] == 0xe9u8 && team_rgb(Team::White)[1] == 0xecu8 && team_rgb(Team::White)[2] == 0xecu8,
        team_rgb(Team::Yellow)[0] == 0xf8u8 && team_rgb(Team::Yellow)[1] == 0xc6u8 && team_rgb(Team::Yellow)[2] == 0x27u8,
        forall|a: Team, b: Team| team_rgb(a) == team_rgb(b) ==> a == b,
{
    assert(team_rgb(Team::Black)[0] != team_rgb(Team::Blue)[0]);
    assert(team_rgb(Team::Black)[0] != team_rgb(Team::Brown)[0]);
    assert(team_rgb(Team::Black)[0] != team_rgb(Team::Cyan)[0]);
    assert(team_rgb(Team::Black)[0] != team_rgb(Team::Gray)[0]);
    assert(team_rgb(Team::Black)[0] != team_rgb(Team::Green)[0]);
    assert(team_rgb(Team::Black)[0] != team_rgb(Team::LightBlue)[0]);
    assert(team_rgb(Team::Black)[0] != team_rgb(Team::LightGray)[0]);
    assert(team_rgb(Team::Black)[0] != team_rgb(Team::Lime)[0]);
    assert(team_rgb(Team::Black)[0] != team_rgb(Team::Magenta)[0]);
    assert(team_rgb(Team::Black)[0] != team_rgb(Team::Orange)[0]);
    assert(team_rgb(Team::Black)[0] != team_rgb(Team::Pink)[0]);
    assert(team_rgb(Team::Black)[0] != team_rgb(Team::Purple)[0]);
    assert(team_rgb(Team::Black)[0] != team_rgb(Team::Red)[0]);
    assert(team_rgb(Team::Black)[0] != team_rgb(Team::White)[0]);
    assert(team_rgb(Team::Black)[0] != team_rgb(Team::Yellow)[0]);
    assert(team_rgb(Team::Blue)[0] != team_rgb(Team::Brown)[0]);
    assert(team_rgb(Team::Blue)[0] != team_rgb(Team::Cyan)[0]);
    assert(team_rgb(Team::Blue)[0] != team_rgb(Team::Gray)[0]);
    assert(team_rgb(Team::Blue)[0] != team_rgb(Team::Green)[0]);
    assert(team_rgb(Team::Blue)[0] != team_rgb(Team::LightBlue)[0]);
    assert(team_rgb(Team::Blue)[0] != team_rgb(Team::LightGray)[0]);
    assert(team_rgb(Team::Blue)[0] != team_rgb(Team::Lime)[0]);
    assert(team_rgb(Team::Blue)[0] != team_rgb(Team::Magenta)[0]);
    assert(team_rgb(Team::Blue)[0] != team_rgb(Team::Orange)[0]);
    assert(team_rgb(Team::Blue)[0] != team_rgb(Team::Pink)[0]);
    assert(team_rgb(Team::Blue)[0] != team_rgb(Team::Purple)[0]);
    assert(team_rgb(Team::Blue)[0] != team_rgb(Team::Red)[0]);
    assert(team_rgb(Team::Blue)[0] != team_rgb(Team::White)[0]);
    assert(team_rgb(Team::Blue)[0] != team_rgb(Team::Yellow)[0]);
    assert(team_rgb(Team::Brown)[0] != team_rgb(Team::Cyan)[0]);
    assert(team_rgb(Team::Brown)[0] != team_rgb(Team::Gray)[0]);
    assert(team_rgb(Team::Brown)[0] != team_rgb(Team::Green)[0]);
    assert(team_rgb(Team::Brown)[0] != team_rgb(Team::LightBlue)[0]);
    assert(team_rgb(Team::Brown)[0] != team_rgb(Team::LightGray)[0]);
    assert(team_rgb(Team::Brown)[0] != team_rgb(Team::Lime)[0]);
    assert(team_rgb(Team::Brown)[0] != team_rgb(Team::Magenta)[0]);
    assert(team_rgb(Team::Brown)[0] != team_rgb(Team::Orange)[0]);
    assert(team_rgb(Team::Brown)[0] != team_rgb(Team::Pink)[0]);
    assert(team_rgb(Team::Brown)[0] != team_rgb(Team::Purple)[0]);
    assert(team_rgb(Team::Brown)[0] != team_rgb(Team::Red)[0]);
    assert(team_rgb(Team::Brown)[0] != team_rgb(Team::White)[0]);
    assert(team_rgb(Team::Brown)[0] != team_rgb(Team::Yellow)[0]);
    assert(team_rgb(Team::Cyan)[0] != team_rgb(Team::Gray)[0]);
    assert(team_rgb(Team::Cyan)[0] != team_rgb(Team::Green)[0]);
    assert(team_rgb(Team::Cyan)[0] != team_rgb(Team::LightBlue)[0]);
    assert(team_rgb(Team::Cyan)[0] != team_rgb(Team::LightGray)[0]);
    assert(team_rgb(Team::Cyan)[0] != team_rgb(Team::Lime)[0]);
    assert(team_rgb(Team::Cyan)[0] != team_rgb(Team::Magenta)[0]);
    assert(team_rgb(Team::Cyan)[0] != team_rgb(Team::Orange)[0]);
    assert(team_rgb(Team::Cyan)[0] != team_rgb(Team::Pink)[0]);
    assert(team_rgb(Team::Cyan)[0] != team_rgb(Team::Purple)[0]);
    assert(team_rgb(Team::Cyan)[0] != team_rgb(Team::Red)[0]);
    assert(team_rgb(Team::Cyan)[0] != team_rgb(Team::White)[0]);
    assert(team_rgb(Team::Cyan)[0] != team_rgb(Team::Yellow)[0]);
    assert(team_rgb(Team::Gray)[0] != team_rgb(Team::Green)[0]);
    assert(team_rgb(Team::Gray)[0] != team_rgb(Team::LightBlue)[0]);
    assert(team_rgb(Team::Gray)[0] != team_rgb(Team::LightGray)[0]);
    assert(team_rgb(Team::Gray)[0] != team_rgb(Team::Lime)[0]);
    assert(team_rgb(Team::Gray)[0] != team_rgb(Team::Magenta)[0]);
    assert(team_rgb(Team::Gray)[0] != team_rgb(Team::Orange)[0]);
    assert(team_rgb(Team::Gray)[0] != team_rgb(Team::Pink)[0]);
    assert(team_rgb(Team::Gray)[0] != team_rgb(Team::Purple)[0]);
    assert(team_rgb(Team::Gray)[0] != team_rgb(Team::Red)[0]);
    assert(team_rgb(Team::Gray)[0] != team_rgb(Team::White)[0]);
    assert(team_rgb(Team::Gray)[0] != team_rgb(Team::Yellow)[0]);
    assert(team_rgb(Team::Green)[0] != team_rgb(Team::LightBlue)[0]);
    assert(team_rgb(Team::Green)[0] != team_rgb(Team::LightGray)[0]);
    assert(team_rgb(Team::Green)[0] != team_rgb(Team::Lime)[0]);
    assert(team_rgb(Team::Green)[0] != team_rgb(Team::Magenta)[0]);
    assert(team_rgb(Team::Green)[0] != team_rgb(Team::Orange)[0]);
    assert(team_rgb(Team::Green)[0] != team_rgb(Team::Pink)[0]);
    assert(team_rgb(Team::Green)[0] != team_rgb(Team::Purple)[0]);
    assert(team_rgb(Team::Green)[0] != team_rgb(Team::Red)[0]);
    assert(team_rgb(Team::Green)[0] != team_rgb(Team::White)[0]);
    assert(team_rgb(Team::Green)[0] != team_rgb(Team::Yellow)[0]);
    assert(team_rgb(Team::LightBlue)[0] != team_rgb(Team::LightGray)[0]);
    assert(team_rgb(Team::LightBlue)[0] != team_rgb(Team::Lime)[0]);
    assert(team_rgb(Team::LightBlue)[0] != team_rgb(Team::Magenta)[0]);
    assert(team_rgb(Team::LightBlue)[0] != team_rgb(Team::Orange)[0]);
    assert(team_rgb(Team::LightBlue)[0] != team_rgb(Team::Pink)[0]);
    assert(team_rgb(Team::LightBlue)[0] != team_rgb(Team::Purple)[0]);
    assert(team_rgb(Team::LightBlue)[0] != team_rgb(Team::Red)[0]);
    assert(team_rgb(Team::LightBlue)[0] != team_rgb(Team::White)[0]);
    assert(team_rgb(Team::LightBlue)[0] != team_rgb(Team::Yellow)[0]);
    assert(team_rgb(Team::LightGray)[0] != team_rgb(Team::Lime)[0]);
    assert(team_rgb(Team::LightGray)[0] != team_rgb(Team::Magenta)[0]);
    assert(team_rgb(Team::LightGray)[0] != team_rgb(Team::Orange)[0]);
    assert(team_rgb(Team::LightGray)[0] != team_rgb(Team::Pink)[0]);
    assert(team_rgb(Team::LightGray)[0] != team_rgb(Team::Purple)[0]);
    assert(team_rgb(Team::LightGray)[0] != team_rgb(Team::Red)[0]);
    assert(team_rgb(Team::LightGray)[0] != team_rgb(Team::White)[0]);
    assert(team_rgb(Team::LightGray)[0] != team_rgb(Team::Yellow)[0]);
    assert(team_rgb(Team::Lime)[0] != team_rgb(Team::Magenta)[0]);
    assert(team_rgb(Team::Lime)[0] != team_rgb(Team::Orange)[0]);
    assert(team_rgb(Team::Lime)[0] != team_rgb(Team::Pink)[0]);
    assert(team_rgb(Team::Lime)[0] != team_rgb(Team::Purple)[0]);
    assert(team_rgb(Team::Lime)[0] != team_rgb(Team::Red)[0]);
    assert(team_rgb(Team::Lime)[0] != team_rgb(Team::White)[0]);
    assert(team_rgb(Team::Lime)[0] != team_rgb(Team::Yellow)[0]);
    assert(team_rgb(Team::Magenta)[0] != team_rgb(Team::Orange)[0]);
    assert(team_rgb(Team::Magenta)[0] != team_rgb(Team::Pink)[0]);
    assert(team_rgb(Team::Magenta)[0] != team_rgb(Team::Purple)[0]);
    assert(team_rgb(Team::Magenta)[0] != team_rgb(Team::Red)[0]);
    assert(team_rgb(Team::Magenta)[0] != team_rgb(Team::White)[0]);
    assert(team_rgb(Team::Magenta)[0] != team_rgb(Team::Yellow)[0]);
    assert(team_rgb(Team::Orange)[0] != team_rgb(Team::Pink)[0]);
    assert(team_rgb(Team::Orange)[0] != team_rgb(Team::Purple)[0]);
    assert(team_rgb(Team::Orange)[0] != team_rgb(Team::Red)[0]);
    assert(team_rgb(Team::Orange)[0] != team_rgb(Team::White)[0]);
    assert(team_rgb(Team::Orange)[0] != team_rgb(Team::Yellow)[0]);
    assert(team_rgb(Team::Pink)[0] != team_rgb(Team::Purple)[0]);
    assert(team_rgb(Team::Pink)[0] != team_rgb(Team::Red)[0]);
    assert(team_rgb(Team::Pink)[0] != team_rgb(Team::White)[0]);
    assert(team_rgb(Team::Pink)[0] != team_rgb(Team::Yellow)[0]);
    assert(team_rgb(Team::Purple)[0] != team_rgb(Team::Red)[0]);
    assert(team_rgb(Team::Purple)[0] != team_rgb(Team::White)[0]);
    assert(team_rgb(Team::Purple)[0] != team_rgb(Team::Yellow)[0]);
    assert(team_rgb(Team::Red)[0] != team_rgb(Team::White)[0]);
    assert(team_rgb(Team::Red)[0] != team_rgb(Team::Yellow)[0]);
    assert(team_rgb(Team::White)[0] != team_rgb(Team::Yellow)[0]);
}

/// Each team is called by its colour's name, two-word colours written
/// apart, and no two teams share a name.
pub proof fn law_each_team_is_called_by_its_colour()
    ensures
        team_name(Team::Black) =~= seq!['B', 'l', 'a', 'c', 'k'],
        team_name(Team::Blue) =~= seq!['B', 'l', 'u', 'e'],
        team_name(Team::Brown) =~= seq!['B', 'r', 'o', 'w', 'n'],
        team_name(Team::Cyan) =~= seq!['C', 'y', 'a', 'n'],
        team_name(Team::Gray) =~= seq!['G', 'r', 'a', 'y'],
        team_name(Team::Green) =~= seq!['G', 'r', 'e', 'e', 'n'],
        team_name(Team::LightBlue) =~= seq!['L', 'i', 'g', 'h', 't', ' ', 'B', 'l', 'u', 'e'],
        team_name(Team::LightGray) =~= seq!['L', 'i', 'g', 'h', 't', ' ', 'G', 'r', 'a', 'y'],
        team_name(Team::Lime) =~= seq!['L', 'i', 'm', 'e'],
        team_name(Team::Magenta) =~= seq!['M', 'a', 'g', 'e', 'n', 't', 'a'],
        team_name(Team::Orange) =~= seq!['O', 'r', 'a', 'n', 'g', 'e'],
        team_name(Team::Pink) =~= seq!['P', 'i', 'n', 'k'],
        team_name(Team::Purple) =~= seq!['P', 'u', 'r', 'p', 'l', 'e'],
        team_name(Team::Red) =~= seq!['R', 'e', 'd'],
        team_name(Team::White) =~= seq!['W', 'h', 'i', 't', 'e'],
        team_name(Team::Yellow) =~= seq!['Y', 'e', 'l', 'l', 'o', 'w'],
        forall|a: Team, b: Team| team_name(a) == team_name(b) ==> a == b,
{
    reveal_strlit("Black");
    reveal_strlit("Blue");
    reveal_strlit("Brown");
    reveal_strlit("Cyan");
    reveal_strlit("Gray");
    reveal_strlit("Green");
    reveal_strlit("Light Blue");
    reveal_strlit("Light Gray");
    reveal_strlit("Lime");
    reveal_strlit("Magenta");
    reveal_strlit("Orange");
    reveal_strlit("Pink");
    reveal_strlit("Purple");
    reveal_strlit("Red");
    reveal_strlit("White");
    reveal_strlit("Yellow");
    assert(team_name(Team::Black).len() != team_name(Team::Blue).len());
    assert(team_name(Team::Black)[1] != team_name(Team::Brown)[1]);
    assert(team_name(Team::Black).len() != team_name(Team::Cyan).len());
    assert(team_name(Team::Black).len() != team_name(Team::Gray).len());
    assert(team_name(Team::Black)[0] != team_name(Team::Green)[0]);
    assert(team_name(Team::Black).len() != team_name(Team::LightBlue).len());
    assert(team_name(Team::Black).len() != team_name(Team::LightGray).len());
    assert(team_name(Team::Black).len() != team_name(Team::Lime).len());
    assert(team_name(Team::Black).len() != team_name(Team::Magenta).len());
    assert(team_name(Team::Black).len() != team_name(Team::Orange).len());
    assert(team_name(Team::Black).len() != team_name(Team::Pink).len());
    assert(team_name(Team::Black).len() != team_name(Team::Purple).len());
    assert(team_name(Team::Black).len() != team_name(Team::Red).len());
    assert(team_name(Team::Black)[0] != team_name(Team::White)[0]);
    assert(team_name(Team::Black).len() != team_name(Team::Yellow).len());
    assert(team_name(Team::Blue).len() != team_name(Team::Brown).len());
    assert(team_name(Team::Blue)[0] != team_name(Team::Cyan)[0]);
    assert(team_name(Team::Blue)[0] != team_name(Team::Gray)[0]);
    assert(team_name(Team::Blue).len() != team_name(Team::Green).len());
    assert(team_name(Team::Blue).len() != team_name(Team::LightBlue).len());
    assert(team_name(Team::Blue).len() != team_name(Team::LightGray).len());
    assert(team_name(Team::Blue)[0] != team_name(Team::Lime)[0]);
    assert(team_name(Team::Blue).len() != team_name(Team::Magenta).len());
    assert(team_name(Team::Blue).len() != team_name(Team::Orange).len());
    assert(team_name(Team::Blue)[0] != team_name(Team::Pink)[0]);
    assert(team_name(Team::Blue).len() != team_name(Team::Purple).len());
    assert(team_name(Team::Blue).len() != team_name(Team::Red).len());
    assert(team_name(Team::Blue).len() != team_name(Team::White).len());
    assert(team_name(Team::Blue).len() != team_name(Team::Yellow).len());
    assert(team_name(Team::Brown).len() != team_name(Team::Cyan).len());
    assert(team_name(Team::Brown).len() != team_name(Team::Gray).len());
    assert(team_name(Team::Brown)[0] != team_name(Team::Green)[0]);
    assert(team_name(Team::Brown).len() != team_name(Team::LightBlue).len());
    assert(team_name(Team::Brown).len() != team_name(Team::LightGray).len());
    assert(team_name(Team::Brown).len() != team_name(Team::Lime).len());
    assert(team_name(Team::Brown).len() != team_name(Team::Magenta).len());
    assert(team_name(Team::Brown).len() != team_name(Team::Orange).len());
    assert(team_name(Team::Brown).len() != team_name(Team::Pink).len());
    assert(team_name(Team::Brown).len() != team_name(Team::Purple).len());
    assert(team_name(Team::Brown).len() != team_name(Team::Red).len());
    assert(team_name(Team::Brown)[0] != team_name(Team::White)[0]);
    assert(team_name(Team::Brown).len() != team_name(Team::Yellow).len());
    assert(team_name(Team::Cyan)[0] != team_name(Team::Gray)[0]);
    assert(team_name(Team::Cyan).len() != team_name(Team::Green).len());
    assert(team_name(Team::Cyan).len() != team_name(Team::LightBlue).len());
    assert(team_name(Team::Cyan).len() != team_name(Team::LightGray).len());
    assert(team_name(Team::Cyan)[0] != team_name(Team::Lime)[0]);
    assert(team_name(Team::Cyan).len() != team_name(Team::Magenta).len());
    assert(team_name(Team::Cyan).len() != team_name(Team::Orange).len());
    assert(team_name(Team::Cyan)[0] != team_name(Team::Pink)[0]);
    assert(team_name(Team::Cyan).len() != team_name(Team::Purple).len());
    assert(team_name(Team::Cyan).len() != team_name(Team::Red).len());
    assert(team_name(Team::Cyan).len() != team_name(Team::White).len());
    assert(team_name(Team::Cyan).len() != team_name(Team::Yellow).len());
    assert(team_name(Team::Gray).len() != team_name(Team::Green).len());
    assert(team_name(Team::Gray).len() != team_name(Team::LightBlue).len());
    assert(team_name(Team::Gray).len() != team_name(Team::LightGray).len());
    assert(team_name(Team::Gray)[0] != team_name(Team::Lime)[0]);
    assert(team_name(Team::Gray).len() != team_name(Team::Magenta).len());
    assert(team_name(Team::Gray).len() != team_name(Team::Orange).len());
    assert(team_name(Team::Gray)[0] != team_name(Team::Pink)[0]);
    assert(team_name(Team::Gray).len() != team_name(Team::Purple).len());
    assert(team_name(Team::Gray).len() != team_name(Team::Red).len());
    assert(team_name(Team::Gray).len() != team_name(Team::White).len());
    assert(team_name(Team::Gray).len() != team_name(Team::Yellow).len());
    assert(team_name(Team::Green).len() != team_name(Team::LightBlue).len());
    assert(team_name(Team::Green).len() != team_name(Team::LightGray).len());
    assert(team_name(Team::Green).len() != team_name(Team::Lime).len());
    assert(team_name(Team::Green).len() != team_name(Team::Magenta).len());
    assert(team_name(Team::Green).len() != team_name(Team::Orange).len());
    assert(team_name(Team::Green).len() != team_name(Team::Pink).len());
    assert(team_name(Team::Green).len() != team_name(Team::Purple).len());
    assert(team_name(Team::Green).len() != team_name(Team::Red).len());
    assert(team_name(Team::Green)[0] != team_name(Team::White)[0]);
    assert(team_name(Team::Green).len() != team_name(Team::Yellow).len());
    assert(team_name(Team::LightBlue)[6] != team_name(Team::LightGray)[6]);
    assert(team_name(Team::LightBlue).len() != team_name(Team::Lime).len());
    assert(team_name(Team::LightBlue).len() != team_name(Team::Magenta).len());
    assert(team_name(Team::LightBlue).len() != team_name(Team::Orange).len());
    assert(team_name(Team::LightBlue).len() != team_name(Team::Pink).len());
    assert(team_name(Team::LightBlue).len() != team_name(Team::Purple).len());
    assert(team_name(Team::LightBlue).len() != team_name(Team::Red).len());
    assert(team_name(Team::LightBlue).len() != team_name(Team::White).len());
    assert(team_name(Team::LightBlue).len() != team_name(Team::Yellow).len());
    assert(team_name(Team::LightGray).len() != team_name(Team::Lime).len());
    assert(team_name(Team::LightGray).len() != team_name(Team::Magenta).len());
    assert(team_name(Team::LightGray).len() != team_name(Team::Orange).len());
    assert(team_name(Team::LightGray).len() != team_name(Team::Pink).len());
    assert(team_name(Team::LightGray).len() != team_name(Team::Purple).len());
    assert(team_name(Team::LightGray).len() != team_name(Team::Red).len());
    assert(team_name(Team::LightGray).len() != team_name(Team::White).len());
    assert(team_name(Team::LightGray).len() != team_name(Team::Yellow).len());
    assert(team_name(Team::Lime).len() != team_name(Team::Magenta).len());
    assert(team_name(Team::Lime).len() != team_name(Team::Orange).len());
    assert(team_name(Team::Lime)[0] != team_name(Team::Pink)[0]);
    assert(team_name(Team::Lime).len() != team_name(Team::Purple).len());
    assert(team_name(Team::Lime).len() != team_name(Team::Red).len());
    assert(team_name(Team::Lime).len() != team_name(Team::White).len());
    assert(team_name(Team::Lime).len() != team_name(Team::Yellow).len());
    assert(team_name(Team::Magenta).len() != team_name(Team::Orange).len());
    assert(team_name(Team::Magenta).len() != team_name(Team::Pink).len());
    assert(team_name(Team::Magenta).len() != team_name(Team::Purple).len());
    assert(team_name(Team::Magenta).len() != team_name(Team::Red).len());
    assert(team_name(Team::Magenta).len() != team_name(Team::White).len());
    assert(team_name(Team::Magenta).len() != team_name(Team::Yellow).len());
    assert(team_name(Team::Orange).len() != team_name(Team::Pink).len());
    assert(team_name(Team::Orange)[0] != team_name(Team::Purple)[0]);
    assert(team_name(Team::Orange).len() != team_name(Team::Red).len());
    assert(team_name(Team::Orange).len() != team_name(Team::White).len());
    assert(team_name(Team::Orange)[0] != team_name(Team::Yellow)[0]);
    assert(team_name(Team::Pink).len() != team_name(Team::Purple).len());
    assert(team_name(Team::Pink).len() != team_name(Team::Red).len());
    assert(team_name(Team::Pink).len() != team_name(Team::White).len());
    assert(team_name(Team::Pink).len() != team_name(Team::Yellow).len());
    assert(team_name(Team::Purple).len() != team_name(Team::Red).len());
    assert(team_name(Team::Purple).len() != team_name(Team::White).len());
    assert(team_name(Team::Purple)[0] != team_name(Team::Yellow)[0]);
    assert(team_name(Team::Red).len() != team_name(Team::White).len());
    assert(team_name(Team::Red).len() != team_name(Team::Yellow).len());
    assert(team_name(Team::White).len() != team_name(Team::Yellow).len());
}

/// Whether a player may fly, and whether they are flying now.
#[derive(Clone, Copy, PartialEq, Eq, Structural, Debug)]
pub struct Flight {
    pub allow: bool,
    pub is_flying: bool,
}

/// `/fly`: a moderator toggles their own permission to fly.
#[derive(Debug)]
pub struct FlyCommand;

/// What `/fly` says back.
pub open spec fn fly_reply(allow: bool) -> Seq<char> {
    if allow {
        "\u{a7}aFlying enabled"@
    } else {
        "\u{a7}cFlying disabled"@
    }
}

/// A flight after `/fly`: permission flips, and a player who loses it stops
/// flying.
pub open spec fn toggled(f: Flight) -> Flight {
    Flight { allow: !f.allow, is_flying: !f.allow && f.is_flying }
}

impl FlyCommand {
    /// The caller's flight after the toggle, and the line sent back to them.
    pub fn toggle(flight: Flight) -> (r: (Flight, &'static str))
        ensures
            r.0 == toggled(flight),
            r.1@ == fly_reply(toggled(flight).allow),
    {
        let allow = !flight.allow;
        let next = Flight { allow, is_flying: allow && flight.is_flying };
        let reply = if allow {
            "\u{a7}aFlying enabled"
        } else {
            "\u{a7}cFlying disabled"
        };
        (next, reply)
    }
}

/// `/fly` twice gives back the permission a player started with, a player
/// it leaves without permission is not flying, and it never starts anybody
/// flying.
pub proof fn law_fly_toggles_back(flight: Flight)
    ensures
        toggled(toggled(flight)).allow == flight.allow,
        !toggled(flight).allow ==> !toggled(flight).is_flying,
        toggled(flight).is_flying ==> flight.is_flying,
        toggled(toggled(flight)).is_flying ==> flight.is_flying,
{
}

/// `/fly` answers in green when it grants flight and in red when it takes
/// it away.
pub proof fn law_fly_says_what_it_did(flight: Flight)
    ensures
        toggled(flight).allow ==> fly_reply(toggled(flight).allow) == "\u{a7}aFlying enabled"@,
        !toggled(flight).allow ==> fly_reply(toggled(flight).allow) == "\u{a7}cFlying disabled"@,
{
}

/// Whether a player is hidden from the others.
#[derive(Debug)]
pub struct Vanished(pub bool);

impl Vanished {
    pub fn new(is_vanished: bool) -> (v: Vanished)
        ensures
            v.0 == is_vanished,
    {
        Vanished(is_vanished)
    }

    pub fn is_vanished(&self) -> (r: bool)
        ensures
            r == self.0,
    {
        self.0
    }

    /// Whether the player's row shows in everybody's tab list; a player who
    /// is not listed is also drawn invisible.
    pub fn listed(&self) -> (r: bool)
        ensures
            r == !self.0,
    {
        !self.0
    }
}

} // verus!
