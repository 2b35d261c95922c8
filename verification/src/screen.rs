//! What the game puts on a player's screen: coloured text, titles, and the
//! phases of a match that decide which of them show.
use vstd::prelude::*;

verus! {

/// The sixteen named chat colours.
#[derive(Clone, Copy, PartialEq, Eq, Structural, Debug)]
pub enum NamedColor {
    Black,
    DarkBlue,
    DarkGreen,
    DarkAqua,
    DarkRed,
    DarkPurple,
    Gold,
    Gray,
    DarkGray,
    Blue,
    Green,
    Aqua,
    Red,
    LightPurple,
    Yellow,
    White,
}

/// A run of text with an optional colour and weight.
#[derive(Debug)]
pub struct Text {
    pub content: String,
    pub color: Option<NamedColor>,
    pub bold: bool,
}

pub ghost struct Styled {
    pub content: Seq<char>,
    pub color: Option<NamedColor>,
    pub bold: bool,
}

impl View for Text {
    type V = Styled;

    open spec fn view(&self) -> Styled {
        Styled { content: self.content@, color: self.color, bold: self.bold }
    }
}

pub open spec fn styled(content: Seq<char>, color: Option<NamedColor>, bold: bool) -> Styled {
    Styled { content, color, bold }
}

impl Text {
    /// Plain text: no colour of its own, not bold.
    pub fn text(content: String) -> (t: Text)
        ensures
            t@ == styled(content@, None, false),
    {
        Text { content, color: None, bold: false }
    }

    /// The same text from a literal.
    pub fn literal(content: &str) -> (t: Text)
        ensures
            t@ == styled(content@, None, false),
    {
        let mut s = String::new();
        crate::text::push_str(&mut s, content);
        Text { content: s, color: None, bold: false }
    }

    /// The same text in `color`.
    pub fn color(self, color: NamedColor) -> (t: Text)
        ensures
            t@ == styled(self@.content, Some(color), self@.bold),
    {
        Text { content: self.content, color: Some(color), bold: self.bold }
    }

    /// The same text in bold.
    pub fn bold(self) -> (t: Text)
        ensures
            t@ == styled(self@.content, self@.color, true),
    {
        Text { content: self.content, color: self.color, bold: true }
    }

    /// The characters, without their styling.
    pub fn plain(&self) -> (s: String)
        ensures
            s@ == self@.content,
    {
        self.content.clone()
    }
}

/// How long a title stays up.
#[derive(Clone, Copy, PartialEq, Eq, Structural, Debug)]
pub enum Timing {
    /// The client's own fade in, stay and fade out.
    Standard,
    /// Exactly one second, so each title is replaced by the next rather than
    /// fading across it.
    OneSecond,
}

/// Large text across the middle of the screen, with an optional line under
/// it.
#[derive(Debug)]
pub struct Title {
    pub title: Text,
    pub subtitle: Option<Text>,
    pub timing: Timing,
}

pub ghost struct Heading {
    pub title: Styled,
    pub subtitle: Option<Styled>,
    pub timing: Timing,
}

impl View for Title {
    type V = Heading;

    open spec fn view(&self) -> Heading {
        Heading {
            title: self.title@,
            subtitle: match self.subtitle {
                Some(t) => Some(t@),
                None => None,
            },
            timing: self.timing,
        }
    }
}

impl Title {
    pub fn new(title: Text) -> (t: Title)
        ensures
            t@ == (Heading { title: title@, subtitle: None, timing: Timing::Standard }),
    {
        Title { title, subtitle: None, timing: Timing::Standard }
    }

    /// The same title with `under` beneath it.
    pub fn under(self, under: Text) -> (t: Title)
        ensures
            t@ == (Heading { title: self@.title, subtitle: Some(under@), timing: self@.timing }),
    {
        Title { title: self.title, subtitle: Some(under), timing: self.timing }
    }

    /// The same title held for `timing`.
    pub fn timed(self, timing: Timing) -> (t: Title)
        ensures
            t@ == (Heading { title: self@.title, subtitle: self@.subtitle, timing }),
    {
        Title { title: self.title, subtitle: self.subtitle, timing }
    }
}

/// The colour of a bar across the top of the screen.
#[derive(Clone, Copy, PartialEq, Eq, Structural, Debug)]
pub enum BarColour {
    Green,
    Yellow,
    Red,
    Blue,
}

/// Where a match is.
#[derive(Clone, Copy, PartialEq, Eq, Structural, Debug)]
pub enum Phase {
    /// In the hub, waiting for enough players.
    Waiting,
    /// Enough players; counting down to the start.
    Countdown,
    /// Placed on the arena, about to start.
    Preparing,
    Playing,
    Ended,
}

} // verus!
