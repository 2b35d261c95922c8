//! What build the server is running, as the line a player reads on a bar
//! across the top of the screen.
//!
//! The stamp is three optional facts read from three small files: the short
//! commit hash, when that commit was made, and whether the tree had
//! uncommitted changes. Reading the files is the host's job; what they say,
//! and how it is worded, is decided here.
use crate::literal::{parse_i64, parse_long};
use crate::screen::{styled, BarColour, Heading, NamedColor, Styled, Text, Timing, Title};
use crate::text::{chars_of, decimal, push_chars, push_decimal, push_str, trim, trimmed};
use vstd::prelude::*;

verus! {

/// What build this process is running. A field nobody filled in is `None`
/// rather than a default that would be a lie.
#[derive(Debug)]
pub struct BuildStamp {
    /// The short commit hash.
    pub rev: Option<String>,
    /// When that commit was made, in seconds since the unix epoch.
    pub committed_at: Option<i64>,
    /// The tree had uncommitted changes when this was built.
    pub dirty: bool,
}

pub ghost struct Stamp {
    pub rev: Option<Seq<char>>,
    pub committed_at: Option<i64>,
    pub dirty: bool,
}

impl View for BuildStamp {
    type V = Stamp;

    open spec fn view(&self) -> Stamp {
        Stamp {
            rev: match self.rev {
                Some(r) => Some(r@),
                None => None,
            },
            committed_at: self.committed_at,
            dirty: self.dirty,
        }
    }
}

impl Default for BuildStamp {
    /// The unpackaged build: nothing is known.
    fn default() -> (s: BuildStamp)
        ensures
            s@ == (Stamp { rev: None, committed_at: None, dirty: false }),
    {
        BuildStamp { rev: None, committed_at: None, dirty: false }
    }
}

/// A revision file's text: trimmed, and absent when nothing is left.
pub open spec fn rev_field(text: Option<Seq<char>>) -> Option<Seq<char>> {
    match text {
        Some(t) => if trim(t).len() > 0 {
            Some(trim(t))
        } else {
            None
        },
        None => None,
    }
}

/// A time file's text: trimmed and read as a signed whole number, absent when
/// it is not one.
pub open spec fn time_field(text: Option<Seq<char>>) -> Option<i64> {
    match text {
        Some(t) => parse_i64(trim(t)),
        None => None,
    }
}

/// A dirty file's text: set exactly when it trims to `1`.
pub open spec fn dirty_field(text: Option<Seq<char>>) -> bool {
    match text {
        Some(t) => trim(t) == seq!['1'],
        None => false,
    }
}

pub open spec fn text_of(s: Option<&str>) -> Option<Seq<char>> {
    match s {
        Some(t) => Some(t@),
        None => None,
    }
}

/// The characters of `s`, trimmed.
fn trimmed_chars(s: &str) -> (t: Vec<char>)
    ensures
        t@ == trim(s@),
{
    let cs = chars_of(s);
    assert(cs@.subrange(0, cs@.len() as int) =~= s@);
    trimmed(&cs, 0, cs.len())
}

impl BuildStamp {
    /// The stamp the three files' texts describe. A field that is present
    /// but unusable, an empty revision or a time that is not a number, reads
    /// as absent; every text is trimmed first.
    pub fn parse(rev: Option<&str>, committed_at: Option<&str>, dirty: Option<&str>) -> (s:
        BuildStamp)
        ensures
            s@ == (Stamp {
                rev: rev_field(text_of(rev)),
                committed_at: time_field(text_of(committed_at)),
                dirty: dirty_field(text_of(dirty)),
            }),
    {
        let rev_out: Option<String> = match rev {
            Some(r) => {
                let t = trimmed_chars(r);
                if t.len() > 0 {
                    let mut s = String::new();
                    push_chars(&mut s, &t);
                    assert(s@ =~= t@);
                    Some(s)
                } else {
                    None
                }
            },
            None => None,
        };
        let at: Option<i64> = match committed_at {
            Some(a) => {
                let t = trimmed_chars(a);
                parse_long(&t)
            },
            None => None,
        };
        let flag: bool = match dirty {
            Some(d) => {
                let t = trimmed_chars(d);
                let one = t.len() == 1 && t[0] == '1';
                assert(one == (t@ == seq!['1'])) by {
                    if t@.len() == 1 && t@[0] == '1' {
                        assert(t@ =~= seq!['1']);
                    }
                }
                one
            },
            None => false,
        };
        BuildStamp { rev: rev_out, committed_at: at, dirty: flag }
    }
}

pub open spec fn minute() -> int {
    60
}

pub open spec fn hour() -> int {
    3600
}

pub open spec fn day() -> int {
    86400
}

/// `now - committed_at`, saturated to the range of `i64`, and never below
/// zero: a commit from the future has no age yet.
pub open spec fn age(committed_at: i64, now: i64) -> int {
    let d = now - committed_at;
    if d < 0 {
        0
    } else if d > i64::MAX {
        i64::MAX as int
    } else {
        d
    }
}

/// How an age reads: to the minute for the first hour, to the hour for the
/// first day, in days after that, and `just now` below a minute.
pub open spec fn age_text(a: int) -> Seq<char> {
    if a < minute() {
        "just now"@
    } else if a < hour() {
        decimal((a / minute()) as nat) + "m ago"@
    } else if a < day() {
        decimal((a / hour()) as nat) + "h ago"@
    } else {
        decimal((a / day()) as nat) + "d ago"@
    }
}

/// How long ago `committed_at` was, seen from `now`, in as few characters as
/// it can be said in.
pub fn relative_age(committed_at: i64, now: i64) -> (s: String)
    ensures
        s@ == age_text(age(committed_at, now)),
{
    // The difference saturates at the top of `i64`; below zero it is a
    // commit from the future, which has no age yet.
    let d: i128 = now as i128 - committed_at as i128;
    let a: i64 = if d < 0 {
        0
    } else if d > i64::MAX as i128 {
        i64::MAX
    } else {
        d as i64
    };
    assert(a == age(committed_at, now));
    let mut s = String::new();
    if a < 60 {
        push_str(&mut s, "just now");
    } else if a < 3600 {
        push_decimal(&mut s, (a / 60) as u64);
        push_str(&mut s, "m ago");
    } else if a < 86400 {
        push_decimal(&mut s, (a / 3600) as u64);
        push_str(&mut s, "h ago");
    } else {
        push_decimal(&mut s, (a / 86400) as u64);
        push_str(&mut s, "d ago");
    }
    s
}

/// A commit stamped at or after `now`, which a host whose clock is behind
/// the committer's produces, reads `just now` rather than a negative age.
pub proof fn law_a_future_commit_is_just_now(committed_at: i64, now: i64)
    requires
        now <= committed_at,
    ensures
        age_text(age(committed_at, now)) == "just now"@,
{
}

/// The unit an age is worded in: minutes below an hour, hours below a day,
/// days after that.
pub open spec fn unit(a: int) -> int {
    if a < hour() {
        minute()
    } else if a < day() {
        hour()
    } else {
        day()
    }
}

/// The wording holds still for a whole unit of itself: two ages worded in
/// the same unit that fall in the same whole unit read the same, so a bar
/// showing them is redrawn at most once a minute, once an hour, once a day.
pub proof fn law_an_age_holds_for_a_whole_unit(a: int, b: int)
    requires
        0 <= a <= b,
        unit(a) == unit(b),
        a / unit(a) == b / unit(b),
    ensures
        age_text(a) == age_text(b),
{
    if a < minute() {
        assert(a / 60 == 0);
    }
}

/// An age of a whole number of minutes under an hour reads as that many
/// minutes, a whole number of hours under a day as that many hours, and a
/// whole number of days as that many days.
pub proof fn law_a_whole_number_of_units_reads_as_that_number(n: nat)
    requires
        n >= 1,
    ensures
        n < 60 ==> age_text(n * minute()) == decimal(n) + "m ago"@,
        n < 24 ==> age_text(n * hour()) == decimal(n) + "h ago"@,
        age_text(n * day()) == decimal(n) + "d ago"@,
{
    assert((n * 60) / 60 == n) by (nonlinear_arith);
    assert((n * 3600) / 3600 == n) by (nonlinear_arith);
    assert((n * 86400) / 86400 == n) by (nonlinear_arith);
    assert(n < 60 ==> 60 <= n * 60 < 3600) by (nonlinear_arith)
        requires n >= 1;
    assert(n < 24 ==> 3600 <= n * 3600 < 86400) by (nonlinear_arith)
        requires n >= 1;
    assert(n * 86400 >= 86400) by (nonlinear_arith)
        requires n >= 1;
}

/// The revision as it is named on the bar.
pub open spec fn rev_words(st: Stamp) -> Seq<char> {
    match st.rev {
        Some(r) => if st.dirty {
            r + " + uncommitted changes"@
        } else {
            r
        },
        None => "unpackaged build"@,
    }
}

/// The whole line: `build`, the revision, and the age when the commit time
/// is known.
pub open spec fn title_text(st: Stamp, now: i64) -> Seq<char> {
    match st.committed_at {
        Some(at) => "build "@ + rev_words(st) + " \u{b7} "@ + age_text(age(at, now)),
        None => "build "@ + rev_words(st),
    }
}

/// The line across the top of the screen, as plain text.
pub fn stamp_title(stamp: &BuildStamp, now: i64) -> (s: String)
    ensures
        s@ == title_text(stamp@, now),
{
    let mut s = String::new();
    push_str(&mut s, "build ");
    match &stamp.rev {
        Some(r) => {
            push_str(&mut s, r.as_str());
            if stamp.dirty {
                push_str(&mut s, " + uncommitted changes");
            }
        },
        None => {
            push_str(&mut s, "unpackaged build");
        },
    }
    match stamp.committed_at {
        Some(at) => {
            push_str(&mut s, " \u{b7} ");
            let age = relative_age(at, now);
            push_str(&mut s, age.as_str());
        },
        None => {},
    }
    s
}

/// The bar a build stamp draws. Its fill is always empty: a build is not a
/// fraction of anything, so the strip draws only its frame and its text.
#[derive(Debug)]
pub struct StampBar {
    pub title: Text,
    pub colour: BarColour,
}

/// Red when the tree was dirty, so the one stamp that cannot be trusted is
/// the one that is impossible to skim past; gray text on a blue bar
/// otherwise.
pub open spec fn stamp_face(st: Stamp, now: i64) -> (Styled, BarColour) {
    if st.dirty {
        (styled(title_text(st, now), Some(NamedColor::Red), false), BarColour::Red)
    } else {
        (styled(title_text(st, now), Some(NamedColor::Gray), false), BarColour::Blue)
    }
}

/// A stamp's bar is red exactly when its tree was dirty, and blue with
/// gray text otherwise; either way it reads the stamp's title.
pub proof fn law_only_a_dirty_build_is_drawn_red(st: Stamp, now: i64)
    ensures
        stamp_face(st, now).1 == BarColour::Red <==> st.dirty,
        stamp_face(st, now).1 == BarColour::Blue <==> !st.dirty,
        stamp_face(st, now).0.color == Some(if st.dirty { NamedColor::Red } else { NamedColor::Gray }),
        stamp_face(st, now).0.content == title_text(st, now),
{
}

/// The bar a build stamp draws, seen from `now`.
pub fn stamp_bar(stamp: &BuildStamp, now: i64) -> (b: StampBar)
    ensures
        (b.title@, b.colour) == stamp_face(stamp@, now),
{
    let title = Text::text(stamp_title(stamp, now));
    if stamp.dirty {
        StampBar { title: title.color(NamedColor::Red), colour: BarColour::Red }
    } else {
        StampBar { title: title.color(NamedColor::Gray), colour: BarColour::Blue }
    }
}

/// The title every player is shown when the rules are reloaded under a
/// running match: the build they now run, or that it is unknown.
pub open spec fn reload_heading(revision: Option<Seq<char>>) -> Heading {
    Heading {
        title: styled(
            "Reloading to build "@ + match revision {
                Some(r) => r,
                None => "an unknown build"@,
            },
            Some(NamedColor::Yellow),
            false,
        ),
        subtitle: None,
        timing: Timing::Standard,
    }
}

/// The title a reload puts on every player's screen.
pub fn reload_title(revision: Option<&str>) -> (t: Title)
    ensures
        t@ == reload_heading(
            match revision {
                Some(r) => Some(r@),
                None => None,
            },
        ),
{
    let mut s = String::new();
    push_str(&mut s, "Reloading to build ");
    match revision {
        Some(r) => push_str(&mut s, r),
        None => push_str(&mut s, "an unknown build"),
    }
    Title::new(Text::text(s).color(NamedColor::Yellow))
}

/// Whether a player last shown `shown` (if anything) must be sent the bar
/// whose text is `text`: only when the wording has changed, so the packets
/// follow the wording and not the tick rate.
pub fn needs_redraw(shown: Option<&str>, text: &str) -> (r: bool)
    ensures
        r == match shown {
            Some(s) => s@ != text@,
            None => true,
        },
{
    match shown {
        Some(s) => {
            let a = chars_of(s);
            let b = chars_of(text);
            if a.len() != b.len() {
                return true;
            }
            let mut i: usize = 0;
            while i < a.len()
                invariant
                    i <= a@.len(),
                    a@.len() == b@.len(),
                    a@ == s@,
                    b@ == text@,
                    shown == Some(s),
                    forall|k: int| 0 <= k < i ==> a@[k] == b@[k],
                decreases a@.len() - i,
            {
                if a[i] != b[i] {
                    return true;
                }
                i += 1;
            }
            assert(a@ =~= b@);
            false
        },
        None => true,
    }
}

/// A stamp whose commit time is known reads as the same stamp without it,
/// then a middle dot and the age: knowing the age adds to the title and
/// takes nothing from it.
pub proof fn law_a_dated_title_extends_the_undated_one(st: Stamp, now: i64)
    requires
        st.committed_at is Some,
    ensures
        title_text(st, now) == title_text(Stamp { committed_at: None, ..st }, now) + " \u{b7} "@
            + age_text(age(st.committed_at->0, now)),
{
}

/// The title starts by naming the build: `build`, the revision, and for a
/// tree with uncommitted changes, that it had them, whether or not the age
/// follows. Without a revision it says the build is unpackaged.
pub proof fn law_the_title_names_the_build(st: Stamp, now: i64)
    ensures
        st.rev matches Some(r) ==> {
            let head = if st.dirty {
                "build "@ + r + " + uncommitted changes"@
            } else {
                "build "@ + r
            };
            head.is_prefix_of(title_text(st, now))
        },
        st.rev is None ==> ("build unpackaged build"@).is_prefix_of(title_text(st, now)),
{
    reveal_strlit("build ");
    reveal_strlit("unpackaged build");
    reveal_strlit("build unpackaged build");
    let t = title_text(st, now);
    match st.rev {
        Some(r) => {
            let head = if st.dirty {
                "build "@ + r + " + uncommitted changes"@
            } else {
                "build "@ + r
            };
            assert(head =~= "build "@ + rev_words(st));
            assert(t.take(head.len() as int) =~= head);
        },
        None => {
            assert("build unpackaged build"@ =~= "build "@ + "unpackaged build"@);
            let head = "build unpackaged build"@;
            assert(t.take(head.len() as int) =~= head);
        },
    }
}

} // verus!
