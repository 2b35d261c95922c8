//! Bedwars chat: a cooldown between messages, and a line with the speaker's
//! name drawn in their team's colour.
use crate::bedwars::{team_rgb, Team};
use crate::chat::{strip_formatting, stripped};
use crate::screen::NamedColor;
use crate::text::{decimal, digit_char, push_char, push_decimal, push_str};
use vstd::prelude::*;

verus! {

/// Seconds a player waits between two messages.
pub const CHAT_COOLDOWN_SECONDS: i64 = 15;

/// The same wait in ticks, at twenty ticks a second.
pub const CHAT_COOLDOWN_TICKS: i64 = CHAT_COOLDOWN_SECONDS * 20;

/// The tick from which a player may speak again.
#[derive(Debug)]
pub struct ChatCooldown {
    pub expires: i64,
}

impl Default for ChatCooldown {
    /// A player who has never spoken may speak.
    fn default() -> (c: ChatCooldown)
        ensures
            c.expires == 0,
    {
        ChatCooldown { expires: 0 }
    }
}

/// Every player's chat goes through this module.
#[derive(Debug)]
pub struct ChatModule;

/// A colour: one of the named sixteen, or red, green and blue channels.
#[derive(Clone, Copy, Debug)]
pub enum Colour {
    Named(NamedColor),
    Rgb([u8; 3]),
}

/// One run of a chat line, with its own colour or none.
#[derive(Debug)]
pub struct Part {
    pub text: String,
    pub colour: Option<Colour>,
}

pub ghost struct Run {
    pub text: Seq<char>,
    pub colour: Option<Colour>,
}

impl View for Part {
    type V = Run;

    open spec fn view(&self) -> Run {
        Run { text: self.text@, colour: self.colour }
    }
}

/// What the module does with one message.
#[derive(Debug)]
pub enum Reply {
    /// The speaker is still cooling down: this line goes to them alone.
    Wait(String),
    /// The line everybody near the speaker sees.
    Say(Vec<Part>),
}

/// Two decimal digits for a number below a hundred.
pub open spec fn two_digits(n: nat) -> Seq<char> {
    seq![digit_char(n / 10), digit_char(n % 10)]
}

/// `ticks` in seconds, to two decimal places: twenty ticks a second makes
/// each tick five hundredths.
pub open spec fn seconds_text(ticks: nat) -> Seq<char> {
    decimal(ticks / 20) + seq!['.'] + two_digits((ticks % 20) * 5)
}

/// The wait is said in seconds to the hundredth: `ticks` ticks are
/// `5 * ticks` hundredths of a second, whole seconds before the point and
/// the remaining hundredths, two digits, after it.
pub proof fn law_a_wait_reads_in_hundredths_of_a_second(ticks: nat)
    ensures
        ({
            let h = 5 * ticks;
            seconds_text(ticks) == decimal(h / 100) + seq!['.'] + two_digits(h % 100)
        }),
{
    let h = 5 * ticks;
    let q = ticks / 20;
    let r = ticks % 20;
    assert(ticks == 20 * q + r && 0 <= r < 20);
    assert(h == 100 * q + 5 * r);
    assert(h / 100 == q && h % 100 == 5 * r) by (nonlinear_arith)
        requires
            h == 100 * q + 5 * r,
            0 <= r < 20,
            q >= 0,
    ;
}

/// What a player still cooling down is told.
pub open spec fn wait_text(ticks: nat) -> Seq<char> {
    "\u{a7}cPlease wait "@ + seconds_text(ticks) + " seconds before sending another message"@
}

/// The line a message becomes: the name in angle brackets, the brackets in
/// dark gray and the name in the team's colour, then the message with its
/// section signs dropped.
pub open spec fn spoken(name: Seq<char>, team: Team, message: Seq<char>) -> Seq<Run> {
    seq![
        Run { text: seq!['<'], colour: Some(Colour::Named(NamedColor::DarkGray)) },
        Run { text: name, colour: Some(Colour::Rgb(team_rgb(team))) },
        Run { text: "> "@, colour: Some(Colour::Named(NamedColor::DarkGray)) },
        Run { text: stripped(message), colour: None },
    ]
}

pub open spec fn runs(parts: Seq<Part>) -> Seq<Run> {
    parts.map_values(|p: Part| p@)
}

/// What a player still cooling down for `ticks` more ticks is told.
pub fn wait_message(ticks: u64) -> (s: String)
    ensures
        s@ == wait_text(ticks as nat),
{
    let mut s = String::new();
    push_str(&mut s, "\u{a7}cPlease wait ");
    push_decimal(&mut s, ticks / 20);
    push_char(&mut s, '.');
    let h: u64 = (ticks % 20) * 5;
    let tens = (48u8 + (h / 10) as u8) as char;
    let ones = (48u8 + (h % 10) as u8) as char;
    assert(tens == digit_char((h / 10) as nat));
    assert(ones == digit_char((h % 10) as nat));
    push_char(&mut s, tens);
    push_char(&mut s, ones);
    push_str(&mut s, " seconds before sending another message");
    assert(s@ =~= wait_text(ticks as nat));
    s
}

fn part(text: String, colour: Option<Colour>) -> (p: Part)
    ensures
        p@ == (Run { text: text@, colour }),
{
    Part { text, colour }
}

fn part_of(text: &str, colour: Option<Colour>) -> (p: Part)
    ensures
        p@ == (Run { text: text@, colour }),
{
    let mut s = String::new();
    push_str(&mut s, text);
    Part { text: s, colour }
}

impl ChatModule {
    /// One message from a player on `team` called `name`, at tick `now`.
    ///
    /// A player whose cooldown runs past `now` is told how long is left and
    /// their cooldown stands; otherwise the line is said and the cooldown
    /// starts again from `now`.
    pub fn on_message(cooldown: &mut ChatCooldown, now: i64, name: &str, team: Team, message: &str) -> (r: Reply)
        requires
            old(cooldown).expires <= now ==> now + CHAT_COOLDOWN_TICKS <= i64::MAX,
            old(cooldown).expires > now ==> old(cooldown).expires - now <= i64::MAX,
        ensures
            old(cooldown).expires > now ==> {
                &&& final(cooldown).expires == old(cooldown).expires
                &&& r matches Reply::Wait(w) && w@ == wait_text((old(cooldown).expires - now) as nat)
            },
            old(cooldown).expires <= now ==> {
                &&& final(cooldown).expires == now + CHAT_COOLDOWN_TICKS
                &&& r matches Reply::Say(ps) && runs(ps@) == spoken(name@, team, message@)
            },
    {
        if cooldown.expires > now {
            let left: u64 = (cooldown.expires - now) as u64;
            return Reply::Wait(wait_message(left));
        }
        cooldown.expires = now + CHAT_COOLDOWN_TICKS;
        let mut ps: Vec<Part> = Vec::new();
        ps.push(part_of("<", Some(Colour::Named(NamedColor::DarkGray))));
        ps.push(part_of(name, Some(Colour::Rgb(team.rgb()))));
        ps.push(part_of("> ", Some(Colour::Named(NamedColor::DarkGray))));
        ps.push(part(strip_formatting(message), None));
        proof {
            reveal_strlit("<");
            assert("<"@ =~= seq!['<']);
        }
        assert(runs(ps@) =~= spoken(name@, team, message@));
        Reply::Say(ps)
    }
}

/// A player who spoke at `spoke_at` is refused at `now` exactly when fewer
/// than fifteen seconds of ticks have passed, and is then told of a wait no
/// longer than the cooldown.
pub proof fn law_one_message_per_cooldown(spoke_at: i64, now: i64)
    requires
        spoke_at <= now,
    ensures
        (spoke_at + CHAT_COOLDOWN_TICKS > now) <==> now - spoke_at < 15 * 20,
        spoke_at + CHAT_COOLDOWN_TICKS > now ==> 0 < spoke_at + CHAT_COOLDOWN_TICKS - now
            <= CHAT_COOLDOWN_TICKS,
{
}

} // verus!
