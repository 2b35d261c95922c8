//! The sidebar: one line per player with their remaining lives as the score,
//! collapsing to two counters above fourteen players.
use vstd::prelude::*;

use crate::screen::{NamedColor, Phase, Styled, Text, styled};
use crate::text::{chars_of, decimal, push_char, push_decimal, push_str, signed_decimal};

verus! {

/// Above this many players the per-player list is replaced by two counters.
pub const COLLAPSE_ABOVE: usize = 14;

/// How many characters wide a row may be, score included.
pub const SIDEBAR_WIDTH: usize = 30;

/// The number in a row's score column.
#[derive(Clone, Copy, PartialEq, Eq, Structural, Debug)]
pub enum Score {
    /// A number the player reads: drawn in the score column.
    Shown(i32),
    /// A sort key only: orders the row, and nothing is drawn for it.
    Rank(i32),
}

impl Score {
    /// The number drawn in the score column, if any.
    pub fn drawn(self) -> (d: Option<i32>)
        ensures
            d == match self {
                Score::Shown(v) => Some(v),
                Score::Rank(_) => None::<i32>,
            },
    {
        match self {
            Score::Shown(v) => Some(v),
            Score::Rank(_) => None,
        }
    }
}

/// One row of the sidebar.
#[derive(Debug)]
pub struct SidebarLine {
    pub text: Text,
    pub score: Score,
}

impl View for SidebarLine {
    type V = (Styled, Score);

    open spec fn view(&self) -> (Styled, Score) {
        (self.text@, self.score)
    }
}

/// One player's row.
#[derive(Debug)]
pub struct Row {
    pub name: String,
    pub lives: u8,
    /// The colour the name is drawn in.
    pub colour: NamedColor,
}

pub ghost struct RowView {
    pub name: Seq<char>,
    pub lives: u8,
    pub colour: NamedColor,
}

impl View for Row {
    type V = RowView;

    open spec fn view(&self) -> RowView {
        RowView { name: self.name@, lives: self.lives, colour: self.colour }
    }
}

pub open spec fn rows_view(v: Seq<Row>) -> Seq<RowView> {
    v.map_values(|r: Row| r@)
}

/// Characters the score column takes on a row, gutter included: none for a
/// row whose number is not drawn, and the number's digits plus one space
/// otherwise.
pub open spec fn score_width(score: Score) -> nat {
    match score {
        Score::Shown(v) => signed_decimal(v as int).len() + 1,
        Score::Rank(_) => 0,
    }
}

/// The room left for a row's text.
pub open spec fn budget(score: Score) -> nat {
    if score_width(score) <= SIDEBAR_WIDTH {
        (SIDEBAR_WIDTH - score_width(score)) as nat
    } else {
        0
    }
}

/// `text`, shortened until it and `score` together fit [`SIDEBAR_WIDTH`]:
/// unchanged when it fits, and otherwise as much of it as leaves room for
/// two dots after it.
pub open spec fn fitted(text: Seq<char>, score: Score) -> Seq<char> {
    if text.len() <= budget(score) {
        text
    } else {
        let keep = if budget(score) >= 2 {
            budget(score) - 2
        } else {
            0
        };
        text.take(keep as int) + seq!['.', '.']
    }
}

pub open spec fn pow10(k: nat) -> nat
    decreases k,
{
    if k == 0 {
        1
    } else {
        10 * pow10((k - 1) as nat)
    }
}

proof fn lemma_decimal_short(n: nat, k: nat)
    requires
        1 <= k,
        n < pow10(k),
    ensures
        1 <= decimal(n).len() <= k,
    decreases n,
{
    if n >= 10 {
        if k == 1 {
            assert(pow10(1) == 10 * pow10(0));
        } else {
            assert(pow10(k) == 10 * pow10((k - 1) as nat));
            lemma_decimal_short(n / 10, (k - 1) as nat);
        }
    }
}

pub fn score_width_of(score: Score) -> (w: usize)
    ensures
        w == score_width(score),
{
    match score {
        Score::Shown(v) => {
            let mut s = String::new();
            crate::text::push_signed(&mut s, v as i64);
            proof {
                reveal_with_fuel(pow10, 12);
                assert(pow10(11) == 100000000000);
                if v < 0 {
                    lemma_decimal_short((-(v as int)) as nat, 11);
                } else {
                    lemma_decimal_short(v as nat, 11);
                }
            }
            let cs = chars_of(s.as_str());
            cs.len() + 1
        },
        Score::Rank(_) => 0,
    }
}

/// [`fitted`].
pub fn fit(text: &str, score: Score) -> (s: String)
    ensures
        s@ == fitted(text@, score),
{
    let w = score_width_of(score);
    let budget: usize = if w <= SIDEBAR_WIDTH {
        SIDEBAR_WIDTH - w
    } else {
        0
    };
    let cs = chars_of(text);
    if cs.len() <= budget {
        let mut s = String::new();
        push_str(&mut s, text);
        assert(s@ =~= text@);
        return s;
    }
    let keep: usize = if budget >= 2 {
        budget - 2
    } else {
        0
    };
    let mut s = String::new();
    let mut i: usize = 0;
    while i < keep
        invariant
            i <= keep,
            keep < cs@.len(),
            cs@ == text@,
            s@ == cs@.take(i as int),
        decreases keep - i,
    {
        push_char(&mut s, cs[i]);
        assert(s@ =~= cs@.take(i + 1));
        i += 1;
    }
    push_char(&mut s, '.');
    push_char(&mut s, '.');
    assert(s@ =~= fitted(text@, score));
    s
}

/// A row of plain text with no colour of its own.
fn plain_line(text: &str, score: Score) -> (l: SidebarLine)
    ensures
        l@ == (styled(fitted(text@, score), None, false), score),
{
    SidebarLine { text: Text::text(fit(text, score)), score }
}

// ---------------------------------------------------------------------------
// Order
// ---------------------------------------------------------------------------

/// `a` sorts strictly before `b`, comparing characters by code point, which
/// is the order `String`'s byte comparison gives.
pub open spec fn name_less(a: Seq<char>, b: Seq<char>) -> bool
    decreases a.len(),
{
    if a.len() == 0 {
        b.len() > 0
    } else if b.len() == 0 {
        false
    } else if a[0] != b[0] {
        a[0] < b[0]
    } else {
        name_less(a.drop_first(), b.drop_first())
    }
}

/// Whether `i` is where `a` first sorts below `b`: the two agree before
/// `i`, and there either `a`'s character is the smaller or `a` has ended
/// while `b` goes on.
pub open spec fn parts_at(a: Seq<char>, b: Seq<char>, i: int) -> bool {
    &&& 0 <= i <= a.len()
    &&& i <= b.len()
    &&& a.take(i) == b.take(i)
    &&& ((i < a.len() && i < b.len() && a[i] < b[i]) || (i == a.len() && i < b.len()))
}

/// Dictionary order on characters: `a` comes first if, at the first place
/// they differ, its character is the smaller, or if it is a proper prefix
/// of `b`.
pub open spec fn dictionary_less(a: Seq<char>, b: Seq<char>) -> bool {
    exists|i: int| parts_at(a, b, i)
}

/// The order names are compared in is dictionary order, so a name sorts
/// before every longer name it begins, and before any name whose first
/// differing character is larger.
pub proof fn law_names_sort_in_dictionary_order(a: Seq<char>, b: Seq<char>)
    ensures
        name_less(a, b) <==> dictionary_less(a, b),
    decreases a.len(),
{
    if a.len() == 0 {
        if b.len() > 0 {
            assert(a.take(0) =~= b.take(0));
            assert(parts_at(a, b, 0));
        }
    } else if b.len() == 0 {
        assert forall|i: int| !parts_at(a, b, i) by {}
    } else if a[0] != b[0] {
        if a[0] < b[0] {
            assert(a.take(0) =~= b.take(0));
            assert(parts_at(a, b, 0));
        }
        assert forall|i: int| parts_at(a, b, i) implies i == 0 by {
            if i > 0 {
                assert(a.take(i)[0] == b.take(i)[0]);
            }
        }
    } else {
        let a1 = a.drop_first();
        let b1 = b.drop_first();
        law_names_sort_in_dictionary_order(a1, b1);
        if dictionary_less(a1, b1) {
            let j = choose|j: int| parts_at(a1, b1, j);
            assert(a.take(j + 1) =~= seq![a[0]] + a1.take(j));
            assert(b.take(j + 1) =~= seq![b[0]] + b1.take(j));
            assert(parts_at(a, b, j + 1));
        }
        if dictionary_less(a, b) {
            let i = choose|i: int| parts_at(a, b, i);
            assert(i > 0);
            assert(a1.take(i - 1) =~= a.take(i).drop_first());
            assert(b1.take(i - 1) =~= b.take(i).drop_first());
            assert(parts_at(a1, b1, i - 1));
        }
    }
}

/// A name sorts before every longer name that begins with it.
pub proof fn law_a_prefix_sorts_first(a: Seq<char>, s: Seq<char>)
    requires
        s.len() > 0,
    ensures
        name_less(a, a + s),
        !name_less(a + s, a),
{
    law_names_sort_in_dictionary_order(a, a + s);
    law_names_sort_in_dictionary_order(a + s, a);
    assert((a + s).take(a.len() as int) =~= a.take(a.len() as int));
    assert(parts_at(a, a + s, a.len() as int));
    assert forall|i: int| !parts_at(a + s, a, i) by {
        if parts_at(a + s, a, i) {
            assert(i < a.len());
            assert((a + s).take(i) =~= a.take(i));
            assert((a + s)[i] == a[i]);
        }
    }
}

/// `a` goes strictly above `b`: more lives first, then names in order.
pub open spec fn precedes(a: RowView, b: RowView) -> bool {
    a.lives > b.lives || (a.lives == b.lives && name_less(a.name, b.name))
}

/// Where `r` goes in `t`: before the first row it strictly precedes, so
/// after every row it ties with.
pub open spec fn insert_pos(t: Seq<RowView>, r: RowView) -> nat
    decreases t.len(),
{
    if t.len() == 0 {
        0
    } else if precedes(r, t[0]) {
        0
    } else {
        1 + insert_pos(t.drop_first(), r)
    }
}

/// The rows in the order the panel draws them: most lives first, names in
/// order among equal lives, and rows that tie on both in the order given.
pub open spec fn sort_rows(s: Seq<RowView>) -> Seq<RowView>
    decreases s.len(),
{
    if s.len() == 0 {
        seq![]
    } else {
        let t = sort_rows(s.drop_last());
        t.insert(insert_pos(t, s.last()) as int, s.last())
    }
}

proof fn lemma_insert_pos_bound(t: Seq<RowView>, r: RowView)
    ensures
        insert_pos(t, r) <= t.len(),
    decreases t.len(),
{
    if t.len() > 0 && !precedes(r, t[0]) {
        lemma_insert_pos_bound(t.drop_first(), r);
    }
}

proof fn lemma_sort_len(s: Seq<RowView>)
    ensures
        sort_rows(s).len() == s.len(),
    decreases s.len(),
{
    if s.len() > 0 {
        lemma_sort_len(s.drop_last());
        lemma_insert_pos_bound(sort_rows(s.drop_last()), s.last());
    }
}

fn name_before(a: &Vec<char>, b: &Vec<char>) -> (r: bool)
    ensures
        r == name_less(a@, b@),
{
    let mut i: usize = 0;
    assert(a@.skip(0) =~= a@);
    assert(b@.skip(0) =~= b@);
    while i < a.len() && i < b.len() && a[i] == b[i]
        invariant
            i <= a@.len(),
            i <= b@.len(),
            name_less(a@, b@) == name_less(a@.skip(i as int), b@.skip(i as int)),
        decreases a@.len() - i,
    {
        assert(a@.skip(i as int).drop_first() =~= a@.skip(i + 1));
        assert(b@.skip(i as int).drop_first() =~= b@.skip(i + 1));
        i += 1;
    }
    if i == a.len() {
        i < b.len()
    } else if i == b.len() {
        false
    } else {
        a[i] < b[i]
    }
}

fn goes_before(a: &Row, b: &Row) -> (r: bool)
    ensures
        r == precedes(a@, b@),
{
    if a.lives != b.lives {
        return a.lives > b.lives;
    }
    let an = chars_of(a.name.as_str());
    let bn = chars_of(b.name.as_str());
    name_before(&an, &bn)
}

fn copy_row(r: &Row) -> (c: Row)
    ensures
        c@ == r@,
{
    Row { name: r.name.clone(), lives: r.lives, colour: r.colour }
}

/// The rows sorted by [`sort_rows`].
pub fn sorted(rows: &Vec<Row>) -> (out: Vec<Row>)
    ensures
        rows_view(out@) == sort_rows(rows_view(rows@)),
{
    let mut out: Vec<Row> = Vec::new();
    let mut k: usize = 0;
    assert(rows_view(rows@).take(0) =~= Seq::<RowView>::empty());
    assert(rows_view(out@) =~= Seq::<RowView>::empty());
    while k < rows.len()
        invariant
            k <= rows@.len(),
            rows_view(out@) == sort_rows(rows_view(rows@).take(k as int)),
        decreases rows@.len() - k,
    {
        let ghost t = rows_view(out@);
        let ghost s = rows_view(rows@).take(k + 1);
        assert(s.drop_last() =~= rows_view(rows@).take(k as int));
        assert(s.last() == rows@[k as int]@);
        let mut p: usize = 0;
        assert(t.skip(0) =~= t);
        while p < out.len() && !goes_before(&rows[k], &out[p])
            invariant
                p <= out@.len(),
                k < rows@.len(),
                t == rows_view(out@),
                insert_pos(t, rows@[k as int]@) == p + insert_pos(t.skip(p as int), rows@[k as int]@),
            decreases out@.len() - p,
        {
            assert(t.skip(p as int).drop_first() =~= t.skip(p + 1));
            p += 1;
        }
        assert(insert_pos(t, rows@[k as int]@) == p);
        let row = copy_row(&rows[k]);
        out.insert(p, row);
        assert(rows_view(out@) =~= t.insert(p as int, rows@[k as int]@));
        k += 1;
    }
    assert(rows_view(rows@).take(rows@.len() as int) =~= rows_view(rows@));
    out
}

// ---------------------------------------------------------------------------
// The panel
// ---------------------------------------------------------------------------

/// How many rows still have lives.
pub open spec fn alive_count(rows: Seq<RowView>) -> nat
    decreases rows.len(),
{
    if rows.len() == 0 {
        0
    } else {
        alive_count(rows.drop_last()) + if rows.last().lives > 0 {
            1nat
        } else {
            0nat
        }
    }
}

proof fn lemma_alive_count_bound(rows: Seq<RowView>)
    ensures
        alive_count(rows) <= rows.len(),
    decreases rows.len(),
{
    if rows.len() > 0 {
        lemma_alive_count_bound(rows.drop_last());
    }
}

/// One player's line: their name fitted beside their lives, in their colour.
pub open spec fn player_line(r: RowView) -> (Styled, Score) {
    (styled(fitted(r.name, Score::Shown(r.lives as i32)), Some(r.colour), false), Score::Shown(
        r.lives as i32,
    ))
}

/// The sidebar body for `rows` in `phase`.
pub open spec fn sidebar(phase: Phase, rows: Seq<RowView>) -> Seq<(Styled, Score)> {
    if rows.len() > COLLAPSE_ABOVE {
        let alive = alive_count(rows);
        seq![
            (styled(fitted("Players Alive: "@ + decimal(alive), Score::Rank(2)), None, false), Score::Rank(2)),
            (styled(fitted("Players Dead: "@ + decimal((rows.len() - alive) as nat), Score::Rank(1)), None, false), Score::Rank(1)),
        ]
    } else {
        sort_rows(rows).map_values(|r: RowView| player_line(r)) + if phase == Phase::Waiting
            || phase == Phase::Countdown {
            seq![(styled(fitted("Waiting for players"@, Score::Rank(0)), None, false), Score::Rank(0))]
        } else {
            seq![]
        }
    }
}

pub open spec fn lines_view(v: Seq<SidebarLine>) -> Seq<(Styled, Score)> {
    v.map_values(|l: SidebarLine| l@)
}

fn counter_line(label: &str, n: u64, score: Score) -> (l: SidebarLine)
    ensures
        l@ == (styled(fitted(label@ + decimal(n as nat), score), None, false), score),
{
    let mut s = String::new();
    push_str(&mut s, label);
    push_decimal(&mut s, n);
    let t = fit(s.as_str(), score);
    SidebarLine { text: Text::text(t), score }
}

/// Build the sidebar body. Lives are the score, and the row text is the
/// name alone.
pub fn render(phase: Phase, rows: Vec<Row>) -> (lines: Vec<SidebarLine>)
    ensures
        lines_view(lines@) == sidebar(phase, rows_view(rows@)),
{
    let ghost rv = rows_view(rows@);
    if rows.len() > COLLAPSE_ABOVE {
        let mut alive: usize = 0;
        let mut i: usize = 0;
        while i < rows.len()
            invariant
                i <= rows@.len(),
                rv == rows_view(rows@),
                alive == alive_count(rv.take(i as int)),
                alive <= i,
            decreases rows@.len() - i,
        {
            assert(rv.take(i + 1).drop_last() =~= rv.take(i as int));
            if rows[i].lives > 0 {
                alive += 1;
            }
            i += 1;
        }
        assert(rv.take(rows@.len() as int) =~= rv);
        let dead = rows.len() - alive;
        let mut lines: Vec<SidebarLine> = Vec::new();
        lines.push(counter_line("Players Alive: ", alive as u64, Score::Rank(2)));
        lines.push(counter_line("Players Dead: ", dead as u64, Score::Rank(1)));
        assert(lines_view(lines@) =~= sidebar(phase, rv));
        return lines;
    }
    let order = sorted(&rows);
    let ghost sv = rows_view(order@);
    let mut lines: Vec<SidebarLine> = Vec::new();
    let mut i: usize = 0;
    while i < order.len()
        invariant
            i <= order@.len(),
            sv == rows_view(order@),
            lines@.len() == i,
            lines_view(lines@) == sv.take(i as int).map_values(|r: RowView| player_line(r)),
        decreases order@.len() - i,
    {
        let r = &order[i];
        let score = Score::Shown(r.lives as i32);
        let text = Text::text(fit(r.name.as_str(), score)).color(r.colour);
        let ghost before = lines_view(lines@);
        assert(sv[i as int] == order@[i as int]@);
        lines.push(SidebarLine { text, score });
        assert(lines@[i as int]@ == player_line(sv[i as int]));
        assert(lines_view(lines@) =~= before.push(player_line(sv[i as int])));
        assert(sv.take(i + 1).map_values(|r: RowView| player_line(r)) =~= sv.take(
            i as int,
        ).map_values(|r: RowView| player_line(r)).push(player_line(sv[i as int])));
        i += 1;
    }
    assert(sv.take(order@.len() as int) =~= sv);
    if phase == Phase::Waiting || phase == Phase::Countdown {
        let ghost before = lines_view(lines@);
        lines.push(plain_line("Waiting for players", Score::Rank(0)));
        assert(lines_view(lines@) =~= before.push(
            (styled(fitted("Waiting for players"@, Score::Rank(0)), None, false), Score::Rank(0)),
        ));
    }
    assert(lines_view(lines@) =~= sidebar(phase, rv));
    lines
}


// ---------------------------------------------------------------------------
// What the order guarantees
// ---------------------------------------------------------------------------

/// No row is drawn below a row it goes strictly above.
pub open spec fn in_rank_order(s: Seq<RowView>) -> bool {
    forall|i: int, j: int| 0 <= i < j < s.len() ==> !precedes(#[trigger] s[j], #[trigger] s[i])
}

proof fn lemma_name_less_transitive(a: Seq<char>, b: Seq<char>, c: Seq<char>)
    requires
        name_less(a, b),
        name_less(b, c),
    ensures
        name_less(a, c),
    decreases a.len(),
{
    if a.len() > 0 && b.len() > 0 && c.len() > 0 && a[0] == b[0] && b[0] == c[0] {
        lemma_name_less_transitive(a.drop_first(), b.drop_first(), c.drop_first());
    }
}

proof fn lemma_precedes_transitive(a: RowView, b: RowView, c: RowView)
    requires
        precedes(a, b),
        precedes(b, c),
    ensures
        precedes(a, c),
{
    if a.lives == b.lives && b.lives == c.lives {
        lemma_name_less_transitive(a.name, b.name, c.name);
    }
}

proof fn lemma_insert_pos_spec(t: Seq<RowView>, r: RowView)
    ensures
        insert_pos(t, r) <= t.len(),
        forall|i: int| 0 <= i < insert_pos(t, r) ==> !precedes(r, #[trigger] t[i]),
        insert_pos(t, r) < t.len() ==> precedes(r, t[insert_pos(t, r) as int]),
    decreases t.len(),
{
    if t.len() > 0 && !precedes(r, t[0]) {
        lemma_insert_pos_spec(t.drop_first(), r);
        assert forall|i: int| 0 <= i < insert_pos(t, r) implies !precedes(r, #[trigger] t[i]) by {
            if i > 0 {
                assert(t[i] == t.drop_first()[i - 1]);
            }
        }
    }
}

proof fn lemma_insert_keeps_order(t: Seq<RowView>, r: RowView)
    requires
        in_rank_order(t),
    ensures
        in_rank_order(t.insert(insert_pos(t, r) as int, r)),
{
    lemma_insert_pos_spec(t, r);
    let p = insert_pos(t, r) as int;
    let u = t.insert(p, r);
    t.insert_ensures(p, r);
    assert forall|i: int, j: int| 0 <= i < j < u.len() implies !precedes(
        #[trigger] u[j],
        #[trigger] u[i],
    ) by {
        if j < p {
            assert(u[i] == t[i] && u[j] == t[j]);
        } else if j == p {
            assert(u[i] == t[i]);
        } else if i > p {
            assert(u[i] == t[i - 1] && u[j] == t[j - 1]);
        } else if i == p {
            // u[j] is t[j - 1], at or after p in t.
            assert(u[j] == t[j - 1]);
            if precedes(t[j - 1], r) {
                if j - 1 > p {
                    lemma_precedes_transitive(t[j - 1], r, t[p]);
                    assert(!precedes(t[j - 1], t[p]));
                } else {
                    assert(precedes(r, t[p]));
                    lemma_precedes_transitive(t[p], r, t[p]);
                    assert(precedes(t[p], t[p]));
                    lemma_never_precedes_itself(t[p]);
                }
            }
        } else {
            assert(u[i] == t[i] && u[j] == t[j - 1]);
        }
    }
}

proof fn lemma_name_not_less_itself(a: Seq<char>)
    ensures
        !name_less(a, a),
    decreases a.len(),
{
    if a.len() > 0 {
        lemma_name_not_less_itself(a.drop_first());
    }
}

proof fn lemma_never_precedes_itself(a: RowView)
    ensures
        !precedes(a, a),
{
    lemma_name_not_less_itself(a.name);
}

/// The sidebar never draws a row below one it ranks under: lives never
/// increase down the panel, and among equal lives the names are in order.
pub proof fn law_rows_are_in_rank_order(s: Seq<RowView>)
    ensures
        in_rank_order(sort_rows(s)),
    decreases s.len(),
{
    if s.len() > 0 {
        law_rows_are_in_rank_order(s.drop_last());
        lemma_insert_keeps_order(sort_rows(s.drop_last()), s.last());
    }
}

/// Sorting the rows neither loses nor invents a player.
pub proof fn law_rows_are_all_kept(s: Seq<RowView>)
    ensures
        sort_rows(s).to_multiset() == s.to_multiset(),
    decreases s.len(),
{
    broadcast use vstd::seq_lib::group_seq_properties;
    broadcast use vstd::multiset::group_multiset_axioms;

    if s.len() == 0 {
        assert(sort_rows(s) =~= s);
    } else {
        let t = sort_rows(s.drop_last());
        let r = s.last();
        law_rows_are_all_kept(s.drop_last());
        lemma_insert_pos_bound(t, r);
        let p = insert_pos(t, r) as int;
        let u = t.insert(p, r);
        t.insert_ensures(p, r);
        assert(u.remove(p) =~= t);
        u.to_multiset_ensures();
        assert(u.remove(p).to_multiset() =~= u.to_multiset().remove(r));
        assert(u.to_multiset().count(r) > 0) by {
            assert(u.contains(r)) by {
                assert(u[p] == r);
            }
        }
        assert(u.to_multiset() =~= t.to_multiset().insert(r));
        assert(s =~= s.drop_last().push(r));
        s.drop_last().to_multiset_ensures();
    }
}

/// A row's text is shortened only when it would not fit beside its score,
/// and then to exactly the room there is.
pub proof fn law_fit_stays_in_the_panel(text: Seq<char>, score: Score)
    ensures
        text.len() + score_width(score) <= SIDEBAR_WIDTH ==> fitted(text, score) == text,
        score_width(score) + 2 <= SIDEBAR_WIDTH ==> fitted(text, score).len() + score_width(score)
            <= SIDEBAR_WIDTH,
{
}

/// Down the panel lives never increase, and among players with the same
/// lives no name sorts in dictionary order before a name above it.
pub proof fn law_the_panel_goes_most_lives_first(s: Seq<RowView>)
    ensures
        forall|i: int, j: int|
            0 <= i < j < sort_rows(s).len() ==> {
                &&& (#[trigger] sort_rows(s)[i]).lives >= (#[trigger] sort_rows(s)[j]).lives
                &&& sort_rows(s)[i].lives == sort_rows(s)[j].lives ==> !dictionary_less(
                    sort_rows(s)[j].name,
                    sort_rows(s)[i].name,
                )
            },
{
    law_rows_are_in_rank_order(s);
    let t = sort_rows(s);
    assert forall|i: int, j: int| 0 <= i < j < t.len() implies {
        &&& (#[trigger] t[i]).lives >= (#[trigger] t[j]).lives
        &&& t[i].lives == t[j].lives ==> !dictionary_less(t[j].name, t[i].name)
    } by {
        assert(!precedes(t[j], t[i]));
        law_names_sort_in_dictionary_order(t[j].name, t[i].name);
    }
}

} // verus!
