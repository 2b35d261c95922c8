//! Titles across the middle of the screen, and who won.
use vstd::prelude::*;

use crate::screen::{BarColour, Heading, NamedColor, Phase, Styled, Text, Timing, Title, styled};
use crate::text::{decimal, push_decimal, push_str};

verus! {

/// How a player died.
#[derive(Clone, Copy, PartialEq, Eq, Structural, Debug)]
pub enum DeathCause {
    /// Out of the arena.
    Void,
    /// Brought to no health.
    Damage,
}

/// The colour a band's number is written in, so the text and the bar say the
/// same thing.
pub fn ink(colour: BarColour) -> (c: NamedColor)
    ensures
        c == match colour {
            BarColour::Green => NamedColor::Green,
            BarColour::Yellow => NamedColor::Yellow,
            BarColour::Red => NamedColor::Red,
            BarColour::Blue => NamedColor::Aqua,
        },
{
    match colour {
        BarColour::Green => NamedColor::Green,
        BarColour::Yellow => NamedColor::Yellow,
        BarColour::Red => NamedColor::Red,
        BarColour::Blue => NamedColor::Aqua,
    }
}

/// The heading of a death title: the game is over, one life is left, or
/// how many are.
pub open spec fn death_heading(lives_left: u8) -> Styled {
    if lives_left == 0 {
        styled("GAME OVER"@, Some(NamedColor::Red), true)
    } else if lives_left == 1 {
        styled("1 life left!"@, Some(NamedColor::Red), false)
    } else {
        styled(decimal(lives_left as nat) + " lives left!"@, Some(NamedColor::Gold), false)
    }
}

/// The line under it: who did it, or what did.
pub open spec fn death_credit(killer: Option<Seq<char>>, cause: DeathCause) -> Styled {
    match killer {
        Some(k) => styled("Smashed by "@ + k, Some(NamedColor::Gray), false),
        None => match cause {
            DeathCause::Void => styled("You fell out of the world"@, Some(NamedColor::Gray), false),
            DeathCause::Damage => styled(
                "Nobody to blame but yourself"@,
                Some(NamedColor::Gray),
                false,
            ),
        },
    }
}

pub open spec fn opt_view(s: Option<&str>) -> Option<Seq<char>> {
    match s {
        Some(x) => Some(x@),
        None => None,
    }
}

/// What a player sees on their own screen when they die.
pub fn death_title(lives_left: u8, killer: Option<&str>, cause: DeathCause) -> (t: Title)
    ensures
        t@ == (Heading {
            title: death_heading(lives_left),
            subtitle: Some(death_credit(opt_view(killer), cause)),
            timing: Timing::Standard,
        }),
{
    let heading = if lives_left == 0 {
        Text::literal("GAME OVER").color(NamedColor::Red).bold()
    } else if lives_left == 1 {
        Text::literal("1 life left!").color(NamedColor::Red)
    } else {
        let mut s = String::new();
        push_decimal(&mut s, lives_left as u64);
        push_str(&mut s, " lives left!");
        Text::text(s).color(NamedColor::Gold)
    };
    let under = match killer {
        Some(k) => {
            let mut s = String::new();
            push_str(&mut s, "Smashed by ");
            push_str(&mut s, k);
            Text::text(s)
        },
        None => match cause {
            DeathCause::Void => Text::literal("You fell out of the world"),
            DeathCause::Damage => Text::literal("Nobody to blame but yourself"),
        },
    };
    Title::new(heading).under(under.color(NamedColor::Gray))
}

/// The title a phase change puts on screen, if it puts one there.
pub open spec fn phase_heading(to: Phase, winner: Option<Seq<char>>) -> Option<Heading> {
    match to {
        Phase::Playing => Some(
            Heading {
                title: styled("GO!"@, Some(NamedColor::Green), true),
                subtitle: Some(styled("Smash them off the map"@, Some(NamedColor::Gray), false)),
                timing: Timing::OneSecond,
            },
        ),
        Phase::Ended => match winner {
            None => Some(
                Heading {
                    title: styled("Game over"@, Some(NamedColor::Red), true),
                    subtitle: Some(
                        styled("Nobody was left standing"@, Some(NamedColor::Gray), false),
                    ),
                    timing: Timing::Standard,
                },
            ),
            Some(w) => Some(
                Heading {
                    title: styled(w + " wins!"@, Some(NamedColor::Gold), true),
                    subtitle: Some(styled("Last mob standing"@, Some(NamedColor::Gray), false)),
                    timing: Timing::Standard,
                },
            ),
        },
        _ => None,
    }
}

/// The title a phase change puts on screen: the start gets a word and the
/// end gets the winner's name; the other phases get none.
pub fn phase_title(to: Phase, winner: Option<&str>) -> (t: Option<Title>)
    ensures
        match phase_heading(to, opt_view(winner)) {
            Some(h) => t matches Some(x) && x@ == h,
            None => t is None,
        },
{
    match to {
        Phase::Playing => Some(
            Title::new(Text::literal("GO!").color(NamedColor::Green).bold()).under(
                Text::literal("Smash them off the map").color(NamedColor::Gray),
            ).timed(Timing::OneSecond),
        ),
        Phase::Ended => match winner {
            None => Some(
                Title::new(Text::literal("Game over").color(NamedColor::Red).bold()).under(
                    Text::literal("Nobody was left standing").color(NamedColor::Gray),
                ),
            ),
            Some(w) => {
                let mut s = String::new();
                push_str(&mut s, w);
                push_str(&mut s, " wins!");
                Some(
                    Title::new(Text::text(s).color(NamedColor::Gold).bold()).under(
                        Text::literal("Last mob standing").color(NamedColor::Gray),
                    ),
                )
            },
        },
        _ => None,
    }
}

pub open spec fn standings_view(st: Seq<(String, u8)>) -> Seq<(Seq<char>, u8)> {
    st.map_values(|e: (String, u8)| (e.0@, e.1))
}

/// The most lives anybody has, counting only those with some; zero when
/// nobody has any.
pub open spec fn best_lives(st: Seq<(Seq<char>, u8)>) -> u8
    decreases st.len(),
{
    if st.len() == 0 {
        0
    } else {
        let rest = best_lives(st.drop_last());
        if st.last().1 > rest {
            st.last().1
        } else {
            rest
        }
    }
}

/// How many have exactly `lives`.
pub open spec fn holding(st: Seq<(Seq<char>, u8)>, lives: u8) -> nat
    decreases st.len(),
{
    if st.len() == 0 {
        0
    } else {
        holding(st.drop_last(), lives) + if st.last().1 == lives {
            1nat
        } else {
            0nat
        }
    }
}

/// Who won: the one player with the most lives, when somebody has any and
/// nobody else has as many.
pub open spec fn winner_among(st: Seq<(Seq<char>, u8)>) -> Option<Seq<char>> {
    let best = best_lives(st);
    if best == 0 || holding(st, best) != 1 {
        None
    } else {
        Some(st[leader_index(st, best) as int].0)
    }
}

/// Where the first entry with `lives` is.
pub open spec fn leader_index(st: Seq<(Seq<char>, u8)>, lives: u8) -> nat
    decreases st.len(),
{
    if st.len() == 0 || st[0].1 == lives {
        0
    } else {
        1 + leader_index(st.drop_first(), lives)
    }
}

/// Who won, from everyone's remaining lives: the last player standing, or
/// at a timeout whoever has the most, and nobody when two are level.
pub fn winner_of(standings: &Vec<(String, u8)>) -> (w: Option<String>)
    ensures
        match winner_among(standings_view(standings@)) {
            Some(n) => w matches Some(x) && x@ == n,
            None => w is None,
        },
{
    let ghost st = standings_view(standings@);
    let mut best: u8 = 0;
    let mut count: usize = 0;
    let mut i: usize = 0;
    while i < standings.len()
        invariant
            i <= standings@.len(),
            st == standings_view(standings@),
            best == best_lives(st.take(i as int)),
            count == holding(st.take(i as int), best),
            count <= i,
        decreases standings@.len() - i,
    {
        assert(st.take(i + 1).drop_last() =~= st.take(i as int));
        assert(st.take(i + 1).last() == st[i as int]);
        let lives = standings[i].1;
        if lives > best {
            proof {
                lemma_holding_above(st.take(i as int), lives);
            }
            best = lives;
            count = 1;
        } else if lives == best {
            count += 1;
        }
        i += 1;
    }
    assert(st.take(standings@.len() as int) =~= st);
    if best == 0 || count != 1 {
        return None;
    }
    let mut k: usize = 0;
    proof {
        lemma_leader_exists(st, best);
    }
    assert(st.skip(0) =~= st);
    while k < standings.len() && standings[k].1 != best
        invariant
            k <= standings@.len(),
            st == standings_view(standings@),
            leader_index(st, best) == k + leader_index(st.skip(k as int), best),
            leader_index(st, best) < st.len(),
        decreases standings@.len() - k,
    {
        assert(st.skip(k as int).drop_first() =~= st.skip(k + 1));
        k += 1;
    }
    Some(standings[k].0.clone())
}

proof fn lemma_holding_above(st: Seq<(Seq<char>, u8)>, lives: u8)
    requires
        lives > best_lives(st),
    ensures
        holding(st, lives) == 0,
    decreases st.len(),
{
    if st.len() > 0 {
        lemma_holding_above(st.drop_last(), lives);
    }
}

proof fn lemma_leader_exists(st: Seq<(Seq<char>, u8)>, lives: u8)
    requires
        holding(st, lives) > 0,
    ensures
        leader_index(st, lives) < st.len(),
        st[leader_index(st, lives) as int].1 == lives,
    decreases st.len(),
{
    if st.len() > 0 && st[0].1 != lives {
        assert(holding(st.drop_first(), lives) > 0) by {
            lemma_holding_front(st, lives);
        }
        lemma_leader_exists(st.drop_first(), lives);
    }
}

proof fn lemma_holding_front(st: Seq<(Seq<char>, u8)>, lives: u8)
    requires
        st.len() > 0,
    ensures
        holding(st, lives) == holding(st.drop_first(), lives) + if st[0].1 == lives {
            1nat
        } else {
            0nat
        },
    decreases st.len(),
{
    if st.len() > 1 {
        lemma_holding_front(st.drop_last(), lives);
        assert(st.drop_last().drop_first() =~= st.drop_first().drop_last());
        assert(st.drop_first().last() == st.last());
        assert(st.drop_last()[0] == st[0]);
        let a = st.drop_first();
        assert(holding(a, lives) == holding(a.drop_last(), lives) + if a.last().1 == lives {
            1nat
        } else {
            0nat
        });
    } else {
        assert(st.drop_first().len() == 0);
        assert(st.drop_last().len() == 0);
        assert(holding(st.drop_first(), lives) == 0);
        assert(holding(st.drop_last(), lives) == 0);
        assert(st.last() == st[0]);
    }
}

/// Nobody has more lives than [`best_lives`], and when it is above zero
/// somebody has exactly that many.
proof fn lemma_best_lives(st: Seq<(Seq<char>, u8)>)
    ensures
        forall|j: int| 0 <= j < st.len() ==> (#[trigger] st[j]).1 <= best_lives(st),
        best_lives(st) > 0 ==> exists|j: int| 0 <= j < st.len() && (#[trigger] st[j]).1 == best_lives(st),
    decreases st.len(),
{
    if st.len() > 0 {
        let t = st.drop_last();
        lemma_best_lives(t);
        assert forall|j: int| 0 <= j < st.len() implies (#[trigger] st[j]).1 <= best_lives(st) by {
            if j < t.len() {
                assert(st[j] == t[j]);
            }
        }
        if best_lives(st) > 0 {
            if st.last().1 > best_lives(t) {
                assert(st[st.len() - 1].1 == best_lives(st));
            } else {
                let j = choose|j: int| 0 <= j < t.len() && (#[trigger] t[j]).1 == best_lives(t);
                assert(st[j] == t[j]);
            }
        }
    }
}

/// How many hold `v` against who holds it: one holder counts at least one,
/// two different holders count at least two.
proof fn lemma_holding_counts(st: Seq<(Seq<char>, u8)>, v: u8, i: int, j: int)
    requires
        0 <= i < st.len(),
        0 <= j < st.len(),
        st[i].1 == v,
    ensures
        holding(st, v) >= 1,
        (i != j && st[j].1 == v) ==> holding(st, v) >= 2,
    decreases st.len(),
{
    let t = st.drop_last();
    let last = st.len() - 1;
    if i < last && j < last {
        assert(t[i] == st[i] && t[j] == st[j]);
        lemma_holding_counts(t, v, i, j);
    } else if i < last {
        assert(t[i] == st[i]);
        lemma_holding_counts(t, v, i, i);
    } else if j < last {
        assert(t[j] == st[j]);
        if st[j].1 == v {
            lemma_holding_counts(t, v, j, j);
        }
    }
}

/// Nobody but the holder of `v` holds it when it is held once and only
/// that holder does.
proof fn lemma_holding_one(st: Seq<(Seq<char>, u8)>, v: u8, i: int)
    requires
        0 <= i < st.len(),
        st[i].1 == v,
        forall|j: int| 0 <= j < st.len() && j != i ==> (#[trigger] st[j]).1 != v,
    ensures
        holding(st, v) == 1,
    decreases st.len(),
{
    let t = st.drop_last();
    let last = st.len() - 1;
    if i < last {
        assert forall|j: int| 0 <= j < t.len() && j != i implies (#[trigger] t[j]).1 != v by {
            assert(t[j] == st[j]);
        }
        assert(t[i] == st[i]);
        lemma_holding_one(t, v, i);
        assert(st[last].1 != v);
    } else {
        assert forall|j: int| 0 <= j < t.len() implies (#[trigger] t[j]).1 != v by {
            assert(t[j] == st[j]);
        }
        lemma_holding_none(t, v);
    }
}

proof fn lemma_holding_none(st: Seq<(Seq<char>, u8)>, v: u8)
    requires
        forall|j: int| 0 <= j < st.len() ==> (#[trigger] st[j]).1 != v,
    ensures
        holding(st, v) == 0,
    decreases st.len(),
{
    if st.len() > 0 {
        let t = st.drop_last();
        assert forall|j: int| 0 <= j < t.len() implies (#[trigger] t[j]).1 != v by {
            assert(t[j] == st[j]);
        }
        lemma_holding_none(t, v);
        assert(st[st.len() - 1].1 != v);
    }
}

/// Whether the entry at `i` has some lives and strictly more than every
/// other entry.
pub open spec fn outlives_everyone(st: Seq<(Seq<char>, u8)>, i: int) -> bool {
    &&& 0 <= i < st.len()
    &&& st[i].1 > 0
    &&& forall|j: int| 0 <= j < st.len() && j != i ==> (#[trigger] st[j]).1 < st[i].1
}

/// There is a winner exactly when one player has some lives and more than
/// everybody else, and that player is the winner: the last one standing, or
/// at a timeout the one with the most. Two level at the top is no winner.
pub proof fn law_the_winner_outlives_everyone(st: Seq<(Seq<char>, u8)>)
    ensures
        winner_among(st) is Some <==> exists|i: int| outlives_everyone(st, i),
        forall|i: int| outlives_everyone(st, i) ==> winner_among(st) == Some(#[trigger] st[i].0),
{
    lemma_best_lives(st);
    let best = best_lives(st);
    assert forall|i: int| outlives_everyone(st, i) implies winner_among(st) == Some(#[trigger] st[i].0) by {
        assert(st[i].1 <= best);
        if best > 0 {
            let k = choose|k: int| 0 <= k < st.len() && (#[trigger] st[k]).1 == best;
            if k != i {
                assert(st[k].1 < st[i].1);
            }
            assert(st[i].1 == best);
        }
        assert(st[i].1 == best);
        assert forall|j: int| 0 <= j < st.len() && j != i implies (#[trigger] st[j]).1 != best by {
            assert(st[j].1 < st[i].1);
        }
        lemma_holding_one(st, best, i);
        lemma_leader_exists(st, best);
        let l = leader_index(st, best) as int;
        if l != i {
            assert(st[l].1 < st[i].1);
        }
    }
    if exists|i: int| outlives_everyone(st, i) {
        let i = choose|i: int| outlives_everyone(st, i);
        assert(winner_among(st) == Some(st[i].0));
    }
    if winner_among(st) is Some {
        lemma_leader_exists(st, best);
        let l = leader_index(st, best) as int;
        assert forall|j: int| 0 <= j < st.len() && j != l implies (#[trigger] st[j]).1 < st[l].1 by {
            assert(st[j].1 <= best);
            if st[j].1 == best {
                lemma_holding_counts(st, best, l, j);
            }
        }
        assert(outlives_everyone(st, l));
    }
}

/// A death title counts the lives left: `GAME OVER` in bold red at none,
/// `1 life left!` in red at one, and the number then `lives left!` in gold
/// above that. The line under it names the killer, or says how the player
/// died, always in gray.
pub proof fn law_a_death_title_counts_the_lives_left(lives_left: u8, killer: Option<Seq<char>>, cause: DeathCause)
    ensures
        lives_left == 0 ==> death_heading(lives_left) == styled("GAME OVER"@, Some(NamedColor::Red), true),
        lives_left == 1 ==> death_heading(lives_left) == styled("1 life left!"@, Some(NamedColor::Red), false),
        lives_left >= 2 ==> death_heading(lives_left) == styled(
            decimal(lives_left as nat) + " lives left!"@,
            Some(NamedColor::Gold),
            false,
        ),
        killer matches Some(k) ==> death_credit(killer, cause).content == "Smashed by "@ + k,
        killer is None && cause == DeathCause::Void ==> death_credit(killer, cause).content
            == "You fell out of the world"@,
        killer is None && cause == DeathCause::Damage ==> death_credit(killer, cause).content
            == "Nobody to blame but yourself"@,
        death_credit(killer, cause).color == Some(NamedColor::Gray),
{
}

/// The start of a match says `GO!` for exactly one second; its end names the
/// winner with `wins!`, or says nobody was left; no other phase puts up a
/// title.
pub proof fn law_only_the_start_and_end_of_a_match_get_titles(to: Phase, winner: Option<Seq<char>>)
    ensures
        phase_heading(to, winner) is Some <==> (to == Phase::Playing || to == Phase::Ended),
        to == Phase::Playing ==> phase_heading(to, winner)->0.title.content == "GO!"@
            && phase_heading(to, winner)->0.timing == Timing::OneSecond,
        to == Phase::Ended ==> (winner matches Some(w) ==> phase_heading(to, winner)->0.title.content
            == w + " wins!"@),
        to == Phase::Ended && winner is None ==> phase_heading(to, winner)->0.title.content
            == "Game over"@,
{
}

} // verus!
