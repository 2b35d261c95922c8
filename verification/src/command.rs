//! Chat commands: what `/kit`, `/kits`, `/abilities`, `/podiums` and
//! `/crystal` answer, given what the game holds.
//!
//! The manifests are one JSON object per chat line, hand written so that the
//! schema a reader has to match is spelled out here in one place.
use vstd::prelude::*;

use crate::text::{decimal, push_char, push_chars, push_decimal, push_signed, push_str, signed_decimal, chars_of};

verus! {

// ---------------------------------------------------------------------------
// Text helpers
// ---------------------------------------------------------------------------

pub open spec fn is_ascii_alphanumeric(c: char) -> bool {
    ('0' <= c && c <= '9') || ('a' <= c && c <= 'z') || ('A' <= c && c <= 'Z')
}

/// `name` with everything but ASCII letters and digits dropped and the
/// letters in lower case, so that `Iron Golem`, `irongolem` and `IRON GOLEM`
/// are the same request.
pub open spec fn squashed(name: Seq<char>) -> Seq<char>
    decreases name.len(),
{
    if name.len() == 0 {
        seq![]
    } else {
        squashed(name.drop_last()) + if is_ascii_alphanumeric(name.last()) {
            seq![crate::literal::lower(name.last())]
        } else {
            seq![]
        }
    }
}

/// [`squashed`].
pub fn squash(name: &str) -> (s: String)
    ensures
        s@ == squashed(name@),
{
    let cs = chars_of(name);
    let mut s = String::new();
    let mut i: usize = 0;
    while i < cs.len()
        invariant
            i <= cs@.len(),
            cs@ == name@,
            s@ == squashed(cs@.take(i as int)),
        decreases cs@.len() - i,
    {
        let c = cs[i];
        assert(cs@.take(i + 1).drop_last() =~= cs@.take(i as int));
        if ('0' <= c && c <= '9') || ('a' <= c && c <= 'z') || ('A' <= c && c <= 'Z') {
            push_char(&mut s, crate::literal::to_lower(c));
        }
        assert(s@ =~= squashed(cs@.take(i + 1)));
        i += 1;
    }
    assert(cs@.take(cs@.len() as int) =~= cs@);
    s
}

/// What one character becomes inside a JSON string: a backslash and a
/// double quote are escaped with a backslash, and nothing else is touched.
pub open spec fn escape_char(c: char) -> Seq<char> {
    if c == '\\' {
        seq!['\\', '\\']
    } else if c == '"' {
        seq!['\\', '"']
    } else {
        seq![c]
    }
}

pub open spec fn escaped(text: Seq<char>) -> Seq<char>
    decreases text.len(),
{
    if text.len() == 0 {
        seq![]
    } else {
        escaped(text.drop_last()) + escape_char(text.last())
    }
}

/// Append `text` escaped for the inside of a JSON string.
pub fn push_escaped(out: &mut String, text: &str)
    ensures
        final(out)@ == old(out)@ + escaped(text@),
{
    let cs = chars_of(text);
    let mut i: usize = 0;
    while i < cs.len()
        invariant
            i <= cs@.len(),
            cs@ == text@,
            out@ == old(out)@ + escaped(cs@.take(i as int)),
        decreases cs@.len() - i,
    {
        let c = cs[i];
        assert(cs@.take(i + 1).drop_last() =~= cs@.take(i as int));
        if c == '\\' {
            push_char(out, '\\');
            push_char(out, '\\');
        } else if c == '"' {
            push_char(out, '\\');
            push_char(out, '"');
        } else {
            push_char(out, c);
        }
        assert(out@ =~= old(out)@ + escaped(cs@.take(i + 1)));
        i += 1;
    }
    assert(cs@.take(cs@.len() as int) =~= cs@);
}

/// `text` with backslashes and double quotes escaped.
pub fn escape(text: &str) -> (s: String)
    ensures
        s@ == escaped(text@),
{
    let mut s = String::new();
    push_escaped(&mut s, text);
    assert(s@ =~= escaped(text@));
    s
}

/// Text with no backslash and no double quote goes into a JSON string
/// exactly as it is.
pub proof fn law_plain_text_needs_no_escape(text: Seq<char>)
    requires
        forall|i: int| 0 <= i < text.len() ==> #[trigger] text[i] != '\\' && text[i] != '"',
    ensures
        escaped(text) == text,
    decreases text.len(),
{
    if text.len() > 0 {
        let t = text.drop_last();
        assert forall|i: int| 0 <= i < t.len() implies #[trigger] t[i] != '\\' && t[i] != '"' by {
            assert(t[i] == text[i]);
        }
        law_plain_text_needs_no_escape(t);
        assert(text[text.len() - 1] == text.last());
        assert(t + seq![text.last()] =~= text);
    }
}

/// Whether every character of `s` is what squashing leaves: an ASCII digit
/// or lower case letter.
pub open spec fn is_squashed(s: Seq<char>) -> bool {
    forall|i: int| 0 <= i < s.len() ==> ('0' <= #[trigger] s[i] && s[i] <= '9') || ('a' <= s[i]
        && s[i] <= 'z')
}

proof fn lemma_squashed_is_squashed(name: Seq<char>)
    ensures
        is_squashed(squashed(name)),
    decreases name.len(),
{
    if name.len() > 0 {
        lemma_squashed_is_squashed(name.drop_last());
        let c = name.last();
        if is_ascii_alphanumeric(c) {
            let l = crate::literal::lower(c);
            assert(('0' <= l && l <= '9') || ('a' <= l && l <= 'z')) by {
                if 'A' <= c && c <= 'Z' {
                    assert((c as int) + 32 >= 'a' as int);
                    assert((c as int) + 32 <= 'z' as int);
                }
            }
            let t = squashed(name.drop_last());
            assert forall|i: int| 0 <= i < (t + seq![l]).len() implies ('0' <= #[trigger] (t
                + seq![l])[i] && (t + seq![l])[i] <= '9') || ('a' <= (t + seq![l])[i] && (t
                + seq![l])[i] <= 'z') by {
                if i < t.len() {
                    assert((t + seq![l])[i] == t[i]);
                }
            }
        } else {
            assert(squashed(name.drop_last()) + seq![] =~= squashed(name.drop_last()));
        }
    }
}

proof fn lemma_squashed_fixes_squashed(s: Seq<char>)
    requires
        is_squashed(s),
    ensures
        squashed(s) == s,
    decreases s.len(),
{
    if s.len() > 0 {
        let t = s.drop_last();
        assert forall|i: int| 0 <= i < t.len() implies ('0' <= #[trigger] t[i] && t[i] <= '9') || (
        'a' <= t[i] && t[i] <= 'z') by {
            assert(t[i] == s[i]);
        }
        lemma_squashed_fixes_squashed(t);
        assert(s[s.len() - 1] == s.last());
        assert(t + seq![s.last()] =~= s);
    }
}

/// A name that has been squashed squashes to itself, so a request typed as
/// it was registered and one typed in any case or spacing meet at one
/// spelling.
pub proof fn law_squashing_is_idempotent(name: Seq<char>)
    ensures
        squashed(squashed(name)) == squashed(name),
{
    lemma_squashed_is_squashed(name);
    lemma_squashed_fixes_squashed(squashed(name));
}

/// Inside a JSON string a backslash and a double quote each gain a
/// backslash in front, and every other character stands for itself.
pub proof fn law_escaping_guards_backslashes_and_quotes(c: char)
    ensures
        c == '\\' ==> escape_char(c) == seq!['\\', '\\'],
        c == '"' ==> escape_char(c) == seq!['\\', '"'],
        c != '\\' && c != '"' ==> escape_char(c) == seq![c],
{
}

pub open spec fn bool_text(b: bool) -> Seq<char> {
    if b {
        "true"@
    } else {
        "false"@
    }
}

fn push_bool(out: &mut String, b: bool)
    ensures
        final(out)@ == old(out)@ + bool_text(b),
{
    if b {
        push_str(out, "true");
    } else {
        push_str(out, "false");
    }
}

/// `"text"`, escaped.
pub open spec fn quoted(text: Seq<char>) -> Seq<char> {
    seq!['"'] + escaped(text) + seq!['"']
}

fn push_quoted(out: &mut String, text: &str)
    ensures
        final(out)@ == old(out)@ + quoted(text@),
{
    push_char(out, '"');
    push_escaped(out, text);
    push_char(out, '"');
    assert(final(out)@ =~= old(out)@ + quoted(text@));
}

// ---------------------------------------------------------------------------
// What an ability declares
// ---------------------------------------------------------------------------

/// What an ability promises a client will see.
#[derive(Clone, Copy, PartialEq, Eq, Structural, Debug)]
pub enum Observable {
    /// A player in front of the caster loses health.
    HurtsTarget,
    /// A player in front of the caster gains velocity.
    LaunchesTarget,
    /// The caster gains velocity.
    LaunchesCaster,
    /// The caster ends up somewhere they were not.
    TeleportsCaster,
    /// The caster's own health bar goes up.
    HealsCaster,
    /// The caster's melee swing hurts more than it did before.
    BuffsMelee,
    /// A player the ability touched keeps losing health after it is over.
    AfflictsTarget,
    /// The ability goes on acting after the cast.
    Sustains,
    /// The caster cannot be hurt for a window.
    ShieldsCaster,
}

pub open spec fn observable_name(o: Observable) -> Seq<char> {
    match o {
        Observable::HurtsTarget => "hurts_target"@,
        Observable::LaunchesTarget => "launches_target"@,
        Observable::LaunchesCaster => "launches_caster"@,
        Observable::TeleportsCaster => "teleports_caster"@,
        Observable::HealsCaster => "heals_caster"@,
        Observable::BuffsMelee => "buffs_melee"@,
        Observable::AfflictsTarget => "afflicts_target"@,
        Observable::Sustains => "sustains"@,
        Observable::ShieldsCaster => "shields_caster"@,
    }
}

impl Observable {
    /// The name this observation goes over the wire under, in `/abilities`.
    pub fn as_str(self) -> (s: &'static str)
        ensures
            s@ == observable_name(self),
    {
        match self {
            Observable::HurtsTarget => "hurts_target",
            Observable::LaunchesTarget => "launches_target",
            Observable::LaunchesCaster => "launches_caster",
            Observable::TeleportsCaster => "teleports_caster",
            Observable::HealsCaster => "heals_caster",
            Observable::BuffsMelee => "buffs_melee",
            Observable::AfflictsTarget => "afflicts_target",
            Observable::Sustains => "sustains",
            Observable::ShieldsCaster => "shields_caster",
        }
    }
}

/// Every observation goes over the wire as its name in snake case, one
/// word per capitalised word: `HealsCaster` is `heals_caster`.
pub proof fn law_observables_go_by_their_snake_case_names()
    ensures
        observable_name(Observable::HurtsTarget) =~= seq!['h', 'u', 'r', 't', 's', '_', 't', 'a', 'r', 'g', 'e', 't'],
        observable_name(Observable::LaunchesTarget) =~= seq!['l', 'a', 'u', 'n', 'c', 'h', 'e', 's', '_', 't', 'a', 'r', 'g', 'e', 't'],
        observable_name(Observable::LaunchesCaster) =~= seq!['l', 'a', 'u', 'n', 'c', 'h', 'e', 's', '_', 'c', 'a', 's', 't', 'e', 'r'],
        observable_name(Observable::TeleportsCaster) =~= seq!['t', 'e', 'l', 'e', 'p', 'o', 'r', 't', 's', '_', 'c', 'a', 's', 't', 'e', 'r'],
        observable_name(Observable::HealsCaster) =~= seq!['h', 'e', 'a', 'l', 's', '_', 'c', 'a', 's', 't', 'e', 'r'],
        observable_name(Observable::BuffsMelee) =~= seq!['b', 'u', 'f', 'f', 's', '_', 'm', 'e', 'l', 'e', 'e'],
        observable_name(Observable::AfflictsTarget) =~= seq!['a', 'f', 'f', 'l', 'i', 'c', 't', 's', '_', 't', 'a', 'r', 'g', 'e', 't'],
        observable_name(Observable::Sustains) =~= seq!['s', 'u', 's', 't', 'a', 'i', 'n', 's'],
        observable_name(Observable::ShieldsCaster) =~= seq!['s', 'h', 'i', 'e', 'l', 'd', 's', '_', 'c', 'a', 's', 't', 'e', 'r'],
        forall|a: Observable, b: Observable| observable_name(a) == observable_name(b) ==> a == b,
{
    reveal_strlit("hurts_target");
    reveal_strlit("launches_target");
    reveal_strlit("launches_caster");
    reveal_strlit("teleports_caster");
    reveal_strlit("heals_caster");
    reveal_strlit("buffs_melee");
    reveal_strlit("afflicts_target");
    reveal_strlit("sustains");
    reveal_strlit("shields_caster");
    assert(observable_name(Observable::HurtsTarget).len() != observable_name(Observable::LaunchesTarget).len());
    assert(observable_name(Observable::HurtsTarget).len() != observable_name(Observable::LaunchesCaster).len());
    assert(observable_name(Observable::HurtsTarget).len() != observable_name(Observable::TeleportsCaster).len());
    assert(observable_name(Observable::HurtsTarget)[1] != observable_name(Observable::HealsCaster)[1]);
    assert(observable_name(Observable::HurtsTarget).len() != observable_name(Observable::BuffsMelee).len());
    assert(observable_name(Observable::HurtsTarget).len() != observable_name(Observable::AfflictsTarget).len());
    assert(observable_name(Observable::HurtsTarget).len() != observable_name(Observable::Sustains).len());
    assert(observable_name(Observable::HurtsTarget).len() != observable_name(Observable::ShieldsCaster).len());
    assert(observable_name(Observable::LaunchesTarget)[9] != observable_name(Observable::LaunchesCaster)[9]);
    assert(observable_name(Observable::LaunchesTarget).len() != observable_name(Observable::TeleportsCaster).len());
    assert(observable_name(Observable::LaunchesTarget).len() != observable_name(Observable::HealsCaster).len());
    assert(observable_name(Observable::LaunchesTarget).len() != observable_name(Observable::BuffsMelee).len());
    assert(observable_name(Observable::LaunchesTarget)[0] != observable_name(Observable::AfflictsTarget)[0]);
    assert(observable_name(Observable::LaunchesTarget).len() != observable_name(Observable::Sustains).len());
    assert(observable_name(Observable::LaunchesTarget).len() != observable_name(Observable::ShieldsCaster).len());
    assert(observable_name(Observable::LaunchesCaster).len() != observable_name(Observable::TeleportsCaster).len());
    assert(observable_name(Observable::LaunchesCaster).len() != observable_name(Observable::HealsCaster).len());
    assert(observable_name(Observable::LaunchesCaster).len() != observable_name(Observable::BuffsMelee).len());
    assert(observable_name(Observable::LaunchesCaster)[0] != observable_name(Observable::AfflictsTarget)[0]);
    assert(observable_name(Observable::LaunchesCaster).len() != observable_name(Observable::Sustains).len());
    assert(observable_name(Observable::LaunchesCaster).len() != observable_name(Observable::ShieldsCaster).len());
    assert(observable_name(Observable::TeleportsCaster).len() != observable_name(Observable::HealsCaster).len());
    assert(observable_name(Observable::TeleportsCaster).len() != observable_name(Observable::BuffsMelee).len());
    assert(observable_name(Observable::TeleportsCaster).len() != observable_name(Observable::AfflictsTarget).len());
    assert(observable_name(Observable::TeleportsCaster).len() != observable_name(Observable::Sustains).len());
    assert(observable_name(Observable::TeleportsCaster).len() != observable_name(Observable::ShieldsCaster).len());
    assert(observable_name(Observable::HealsCaster).len() != observable_name(Observable::BuffsMelee).len());
    assert(observable_name(Observable::HealsCaster).len() != observable_name(Observable::AfflictsTarget).len());
    assert(observable_name(Observable::HealsCaster).len() != observable_name(Observable::Sustains).len());
    assert(observable_name(Observable::HealsCaster).len() != observable_name(Observable::ShieldsCaster).len());
    assert(observable_name(Observable::BuffsMelee).len() != observable_name(Observable::AfflictsTarget).len());
    assert(observable_name(Observable::BuffsMelee).len() != observable_name(Observable::Sustains).len());
    assert(observable_name(Observable::BuffsMelee).len() != observable_name(Observable::ShieldsCaster).len());
    assert(observable_name(Observable::AfflictsTarget).len() != observable_name(Observable::Sustains).len());
    assert(observable_name(Observable::AfflictsTarget).len() != observable_name(Observable::ShieldsCaster).len());
    assert(observable_name(Observable::Sustains).len() != observable_name(Observable::ShieldsCaster).len());
}

/// One ability as the registry declares it.
///
/// The times and costs are the decimal text their `f32` values display as.
#[derive(Debug)]
pub struct Declared {
    pub kit: String,
    pub name: String,
    pub slot: u8,
    pub item: String,
    pub description: String,
    /// Seconds between uses.
    pub cooldown: String,
    /// `Some` for a hold-and-release ability, in seconds to full charge.
    pub charge_time: Option<String>,
    pub energy_cost: Option<String>,
    pub requires_ground: bool,
    /// A hit clears the cooldown.
    pub refunds_on_hit: bool,
    /// Granted by the Smash Crystal rather than at spawn.
    pub ultimate: bool,
    pub proves: Vec<Observable>,
    /// The vanilla sound event firing it plays; empty when none was declared.
    pub sound: String,
}

pub open spec fn optional_number(key: Seq<char>, value: Option<String>) -> Seq<char> {
    match value {
        Some(v) => seq!['"'] + key + "\":"@ + v@ + seq![','],
        None => seq!['"'] + key + "\":null,"@,
    }
}

/// The observations, each in quotes, separated by commas.
pub open spec fn proves_list(ps: Seq<Observable>) -> Seq<char>
    decreases ps.len(),
{
    if ps.len() == 0 {
        seq![]
    } else {
        proves_list(ps.drop_last()) + (if ps.len() > 1 {
            seq![',']
        } else {
            seq![]
        }) + seq!['"'] + observable_name(ps.last()) + seq!['"']
    }
}

/// One ability as a JSON object, every field in a fixed order.
pub open spec fn declared_json(d: Declared) -> Seq<char> {
    "{\"kit\":"@ + quoted(d.kit@) + ",\"name\":"@ + quoted(d.name@) + ",\"slot\":"@ + decimal(
        d.slot as nat,
    ) + ",\"item\":"@ + quoted(d.item@) + ",\"cooldown\":"@ + d.cooldown@ + seq![',']
        + optional_number("charge_time"@, d.charge_time) + optional_number(
        "energy_cost"@,
        d.energy_cost,
    ) + "\"requires_ground\":"@ + bool_text(d.requires_ground) + ",\"refunds_on_hit\":"@
        + bool_text(d.refunds_on_hit) + ",\"ultimate\":"@ + bool_text(d.ultimate) + ",\"sound\":"@
        + quoted(d.sound@) + ",\"proves\":["@ + proves_list(d.proves@) + "]}"@
}

fn push_optional_number(out: &mut String, key: &str, value: &Option<String>)
    ensures
        final(out)@ == old(out)@ + optional_number(key@, *value),
{
    push_char(out, '"');
    push_str(out, key);
    match value {
        Some(v) => {
            push_str(out, "\":");
            push_str(out, v.as_str());
            push_char(out, ',');
        },
        None => {
            push_str(out, "\":null,");
        },
    }
    assert(final(out)@ =~= old(out)@ + optional_number(key@, *value));
}

/// One ability as a JSON object.
pub fn json(entry: &Declared) -> (s: String)
    ensures
        s@ == declared_json(*entry),
{
    let mut out = String::new();
    push_str(&mut out, "{\"kit\":");
    push_quoted(&mut out, entry.kit.as_str());
    push_str(&mut out, ",\"name\":");
    push_quoted(&mut out, entry.name.as_str());
    push_str(&mut out, ",\"slot\":");
    push_decimal(&mut out, entry.slot as u64);
    push_str(&mut out, ",\"item\":");
    push_quoted(&mut out, entry.item.as_str());
    push_str(&mut out, ",\"cooldown\":");
    push_str(&mut out, entry.cooldown.as_str());
    push_char(&mut out, ',');
    push_optional_number(&mut out, "charge_time", &entry.charge_time);
    push_optional_number(&mut out, "energy_cost", &entry.energy_cost);
    push_str(&mut out, "\"requires_ground\":");
    push_bool(&mut out, entry.requires_ground);
    push_str(&mut out, ",\"refunds_on_hit\":");
    push_bool(&mut out, entry.refunds_on_hit);
    push_str(&mut out, ",\"ultimate\":");
    push_bool(&mut out, entry.ultimate);
    push_str(&mut out, ",\"sound\":");
    push_quoted(&mut out, entry.sound.as_str());
    push_str(&mut out, ",\"proves\":[");
    let ghost head = out@;
    let mut i: usize = 0;
    while i < entry.proves.len()
        invariant
            i <= entry.proves@.len(),
            out@ == head + proves_list(entry.proves@.take(i as int)),
        decreases entry.proves@.len() - i,
    {
        assert(entry.proves@.take(i + 1).drop_last() =~= entry.proves@.take(i as int));
        if i > 0 {
            push_char(&mut out, ',');
        }
        push_char(&mut out, '"');
        push_str(&mut out, entry.proves[i].as_str());
        push_char(&mut out, '"');
        assert(out@ =~= head + proves_list(entry.proves@.take(i + 1)));
        i += 1;
    }
    assert(entry.proves@.take(entry.proves@.len() as int) =~= entry.proves@);
    push_str(&mut out, "]}");
    assert(out@ =~= declared_json(*entry));
    out
}

/// The line `/abilities` prefixes each ability with.
pub open spec fn manifest_prefix() -> Seq<char> {
    "smash-ability "@
}

/// The line that closes the ability manifest, before the count.
pub open spec fn manifest_end_prefix() -> Seq<char> {
    "smash-abilities-end "@
}

// ---------------------------------------------------------------------------
// Podiums
// ---------------------------------------------------------------------------

/// A block position.
#[derive(Clone, Copy, PartialEq, Eq, Structural, Debug)]
pub struct BlockPos {
    pub x: i32,
    pub y: i32,
    pub z: i32,
}

/// One podium, as something outside the world can read.
#[derive(Debug)]
pub struct Offer {
    /// The kit's name.
    pub name: String,
    /// Where the mob stands.
    pub click: BlockPos,
    /// The wool under it, whose colour is the free-or-taken signal.
    pub base: BlockPos,
    /// The block the wool is currently made of.
    pub wool: String,
    /// The mob standing on it, by vanilla entity id.
    pub mob: String,
    /// The name the mob is wearing over its head, as plain text.
    pub label: String,
    /// The vanilla sound event picking this mob plays.
    pub select_sound: Option<String>,
    /// Whoever is playing this mob, by name.
    pub held_by: Option<String>,
}

pub open spec fn quoted_or_null(v: Option<String>) -> Seq<char> {
    match v {
        Some(s) => quoted(s@),
        None => "null"@,
    }
}

/// One podium as a JSON object.
pub open spec fn offer_json(o: Offer) -> Seq<char> {
    "{\"kit\":"@ + quoted(o.name@) + ",\"x\":"@ + signed_decimal(o.click.x as int) + ",\"y\":"@
        + signed_decimal(o.click.y as int) + ",\"z\":"@ + signed_decimal(o.click.z as int)
        + ",\"base_y\":"@ + signed_decimal(o.base.y as int) + ",\"wool\":"@ + quoted(o.wool@)
        + ",\"mob\":"@ + quoted(o.mob@) + ",\"label\":"@ + quoted(o.label@) + ",\"select_sound\":"@
        + quoted_or_null(o.select_sound) + ",\"held_by\":"@ + quoted_or_null(o.held_by) + seq![
        '}',
    ]
}

fn push_quoted_or_null(out: &mut String, v: &Option<String>)
    ensures
        final(out)@ == old(out)@ + quoted_or_null(*v),
{
    match v {
        Some(s) => push_quoted(out, s.as_str()),
        None => push_str(out, "null"),
    }
}

/// One podium as a JSON object.
pub fn podium(offer: &Offer) -> (s: String)
    ensures
        s@ == offer_json(*offer),
{
    let mut out = String::new();
    push_str(&mut out, "{\"kit\":");
    push_quoted(&mut out, offer.name.as_str());
    push_str(&mut out, ",\"x\":");
    push_signed(&mut out, offer.click.x as i64);
    push_str(&mut out, ",\"y\":");
    push_signed(&mut out, offer.click.y as i64);
    push_str(&mut out, ",\"z\":");
    push_signed(&mut out, offer.click.z as i64);
    push_str(&mut out, ",\"base_y\":");
    push_signed(&mut out, offer.base.y as i64);
    push_str(&mut out, ",\"wool\":");
    push_quoted(&mut out, offer.wool.as_str());
    push_str(&mut out, ",\"mob\":");
    push_quoted(&mut out, offer.mob.as_str());
    push_str(&mut out, ",\"label\":");
    push_quoted(&mut out, offer.label.as_str());
    push_str(&mut out, ",\"select_sound\":");
    push_quoted_or_null(&mut out, &offer.select_sound);
    push_str(&mut out, ",\"held_by\":");
    push_quoted_or_null(&mut out, &offer.held_by);
    push_char(&mut out, '}');
    assert(out@ =~= offer_json(*offer));
    out
}


// ---------------------------------------------------------------------------
// The commands
// ---------------------------------------------------------------------------

/// The words joined back together with single spaces.
pub open spec fn joined(ws: Seq<Seq<char>>) -> Seq<char>
    decreases ws.len(),
{
    if ws.len() == 0 {
        seq![]
    } else if ws.len() == 1 {
        ws[0]
    } else {
        joined(ws.drop_last()) + seq![' '] + ws.last()
    }
}

pub open spec fn strings_view(v: Seq<String>) -> Seq<Seq<char>> {
    v.map_values(|s: String| s@)
}

pub open spec fn names_view(v: Seq<Option<String>>) -> Seq<Option<Seq<char>>> {
    v.map_values(
        |o: Option<String>|
            match o {
                Some(s) => Some(s@),
                None => None,
            },
    )
}

/// The first registered name that matches `wanted` once squashed. An entry
/// with no name matches nothing.
pub open spec fn first_match(registry: Seq<Option<Seq<char>>>, wanted: Seq<char>) -> Option<
    Seq<char>,
>
    decreases registry.len(),
{
    if registry.len() == 0 {
        None
    } else {
        match registry[0] {
            Some(n) => if squashed(n) == wanted {
                Some(n)
            } else {
                first_match(registry.drop_first(), wanted)
            },
            None => first_match(registry.drop_first(), wanted),
        }
    }
}

/// The registered kit whose name matches `requested` once case and
/// punctuation are discarded, in registration order.
pub fn resolve(registry: &Vec<Option<String>>, requested: &str) -> (r: Option<String>)
    ensures
        match first_match(names_view(registry@), squashed(requested@)) {
            Some(n) => r matches Some(x) && x@ == n,
            None => r is None,
        },
{
    let wanted = squash(requested);
    let ghost reg = names_view(registry@);
    let mut i: usize = 0;
    assert(reg.skip(0) =~= reg);
    while i < registry.len()
        invariant
            i <= registry@.len(),
            reg == names_view(registry@),
            wanted@ == squashed(requested@),
            first_match(reg, wanted@) == first_match(reg.skip(i as int), wanted@),
        decreases registry@.len() - i,
    {
        assert(reg.skip(i as int).drop_first() =~= reg.skip(i + 1));
        match &registry[i] {
            Some(name) => {
                let s = squash(name.as_str());
                if s == wanted {
                    return Some(name.clone());
                }
            },
            None => {},
        }
        i += 1;
    }
    None
}

/// Requests that differ only in case, spacing and punctuation name the same
/// kit: `Iron Golem`, `irongolem` and `IRON GOLEM` are one request.
pub proof fn law_requests_alike_name_the_same_kit(
    registry: Seq<Option<Seq<char>>>,
    a: Seq<char>,
    b: Seq<char>,
)
    requires
        squashed(a) == squashed(b),
    ensures
        first_match(registry, squashed(a)) == first_match(registry, squashed(b)),
{
}

/// Every registered name can be asked for as it is written: the request
/// finds a kit whose name squashes to the same spelling, the first such in
/// registration order.
pub proof fn law_a_registered_name_resolves(registry: Seq<Option<Seq<char>>>, i: int)
    requires
        0 <= i < registry.len(),
        registry[i] is Some,
    ensures
        first_match(registry, squashed(registry[i]->0)) matches Some(m) && squashed(m) == squashed(
            registry[i]->0,
        ),
    decreases registry.len(),
{
    if i > 0 {
        match registry[0] {
            Some(n) => if squashed(n) != squashed(registry[i]->0) {
                assert(registry.drop_first()[i - 1] == registry[i]);
                law_a_registered_name_resolves(registry.drop_first(), i - 1);
            },
            None => {
                assert(registry.drop_first()[i - 1] == registry[i]);
                law_a_registered_name_resolves(registry.drop_first(), i - 1);
            },
        }
    }
}

/// `/kit <name>`: the kit to play, as several words.
#[derive(Debug)]
pub struct KitCommand {
    pub name: Vec<String>,
}

impl KitCommand {
    /// The words of the request put back together with spaces.
    pub fn requested(&self) -> (s: String)
        ensures
            s@ == joined(strings_view(self.name@)),
    {
        let ghost ws = strings_view(self.name@);
        let mut s = String::new();
        let mut i: usize = 0;
        while i < self.name.len()
            invariant
                i <= self.name@.len(),
                ws == strings_view(self.name@),
                s@ == joined(ws.take(i as int)),
            decreases self.name@.len() - i,
        {
            assert(ws.take(i + 1).drop_last() =~= ws.take(i as int));
            if i > 0 {
                push_char(&mut s, ' ');
            }
            push_str(&mut s, self.name[i].as_str());
            assert(s@ =~= joined(ws.take(i + 1)));
            i += 1;
        }
        assert(ws.take(self.name@.len() as int) =~= ws);
        s
    }

    /// The kit this request names, from the registry.
    pub fn pick(&self, registry: &Vec<Option<String>>) -> (r: Option<String>)
        ensures
            match first_match(names_view(registry@), squashed(joined(strings_view(self.name@)))) {
                Some(n) => r matches Some(x) && x@ == n,
                None => r is None,
            },
    {
        let requested = self.requested();
        resolve(registry, requested.as_str())
    }

    /// What a request that names no kit is told.
    pub fn unknown() -> (s: String)
        ensures
            s@ == "\u{a7}cNo such kit. Try /kits."@,
    {
        let mut s = String::new();
        push_str(&mut s, "\u{a7}cNo such kit. Try /kits.");
        s
    }

    /// What a request the lobby refused is told.
    pub fn refused(reason: &str) -> (s: String)
        ensures
            s@ == "\u{a7}c"@ + reason@,
    {
        let mut s = String::new();
        push_str(&mut s, "\u{a7}c");
        push_str(&mut s, reason);
        s
    }
}

/// One registered kit, as `/kits` reads it.
#[derive(Debug)]
pub struct KitEntry {
    pub name: Option<String>,
    pub blurb: Option<String>,
}

pub open spec fn kit_line(e: KitEntry) -> Seq<char> {
    match e.name {
        Some(n) => "\n\u{a7}e"@ + n@ + "\u{a7}7 \u{2014} "@ + match e.blurb {
            Some(b) => b@,
            None => seq![],
        },
        None => seq![],
    }
}

pub open spec fn kit_lines(es: Seq<KitEntry>) -> Seq<char>
    decreases es.len(),
{
    if es.len() == 0 {
        seq![]
    } else {
        kit_lines(es.drop_last()) + kit_line(es.last())
    }
}

/// `/kits`.
#[derive(Debug)]
pub struct KitsCommand;

impl KitsCommand {
    /// Every named kit, one per line, with its blurb.
    pub fn listing(entries: &Vec<KitEntry>) -> (s: String)
        ensures
            s@ == "\u{a7}6Kits:"@ + kit_lines(entries@),
    {
        let mut s = String::new();
        push_str(&mut s, "\u{a7}6Kits:");
        let ghost head = s@;
        let mut i: usize = 0;
        while i < entries.len()
            invariant
                i <= entries@.len(),
                s@ == head + kit_lines(entries@.take(i as int)),
            decreases entries@.len() - i,
        {
            assert(entries@.take(i + 1).drop_last() =~= entries@.take(i as int));
            let e = &entries[i];
            match &e.name {
                Some(n) => {
                    push_str(&mut s, "\n\u{a7}e");
                    push_str(&mut s, n.as_str());
                    push_str(&mut s, "\u{a7}7 \u{2014} ");
                    match &e.blurb {
                        Some(b) => push_str(&mut s, b.as_str()),
                        None => {},
                    }
                },
                None => {},
            }
            assert(s@ =~= head + kit_lines(entries@.take(i + 1)));
            i += 1;
        }
        assert(entries@.take(entries@.len() as int) =~= entries@);
        s
    }
}

/// `/abilities`.
#[derive(Debug)]
pub struct AbilitiesCommand;

impl AbilitiesCommand {
    /// One line per ability, then a closing line with the count, so a reader
    /// can tell a complete manifest from a truncated one.
    pub fn reply(declared: &Vec<Declared>) -> (lines: Vec<String>)
        ensures
            lines@.len() == declared@.len() + 1,
            forall|i: int|
                0 <= i < declared@.len() ==> #[trigger] lines@[i]@ == manifest_prefix()
                    + declared_json(declared@[i]),
            lines@[declared@.len() as int]@ == manifest_end_prefix() + decimal(
                declared@.len() as nat,
            ),
    {
        let mut lines: Vec<String> = Vec::new();
        let mut i: usize = 0;
        while i < declared.len()
            invariant
                i <= declared@.len(),
                lines@.len() == i,
                forall|j: int|
                    0 <= j < i ==> #[trigger] lines@[j]@ == manifest_prefix() + declared_json(
                        declared@[j],
                    ),
            decreases declared@.len() - i,
        {
            let mut line = String::new();
            push_str(&mut line, "smash-ability ");
            let body = json(&declared[i]);
            push_str(&mut line, body.as_str());
            lines.push(line);
            i += 1;
        }
        let mut end = String::new();
        push_str(&mut end, "smash-abilities-end ");
        push_decimal(&mut end, declared.len() as u64);
        lines.push(end);
        lines
    }
}

/// The line `/podiums` prefixes each podium with.
pub open spec fn podium_prefix() -> Seq<char> {
    "smash-podium "@
}

/// The line that closes the podium manifest, before the count.
pub open spec fn podium_end_prefix() -> Seq<char> {
    "smash-podiums-end "@
}

/// `/podiums`.
#[derive(Debug)]
pub struct PodiumsCommand;

impl PodiumsCommand {
    /// One line per podium, then a closing line with the count.
    pub fn reply(offers: &Vec<Offer>) -> (lines: Vec<String>)
        ensures
            lines@.len() == offers@.len() + 1,
            forall|i: int|
                0 <= i < offers@.len() ==> #[trigger] lines@[i]@ == podium_prefix() + offer_json(
                    offers@[i],
                ),
            lines@[offers@.len() as int]@ == podium_end_prefix() + decimal(offers@.len() as nat),
    {
        let mut lines: Vec<String> = Vec::new();
        let mut i: usize = 0;
        while i < offers.len()
            invariant
                i <= offers@.len(),
                lines@.len() == i,
                forall|j: int|
                    0 <= j < i ==> #[trigger] lines@[j]@ == podium_prefix() + offer_json(
                        offers@[j],
                    ),
            decreases offers@.len() - i,
        {
            let mut line = String::new();
            push_str(&mut line, "smash-podium ");
            let body = podium(&offers[i]);
            push_str(&mut line, body.as_str());
            lines.push(line);
            i += 1;
        }
        let mut end = String::new();
        push_str(&mut end, "smash-podiums-end ");
        push_decimal(&mut end, offers.len() as u64);
        lines.push(end);
        lines
    }
}

/// How long a Smash Crystal's ultimate lasts, in whole seconds.
pub const ULTIMATE_SECONDS: u64 = 20;

/// `/crystal`: pick up a Smash Crystal.
#[derive(Debug)]
pub struct CrystalCommand;

impl CrystalCommand {
    /// The reply, given the ultimate the player's kit grants (if they have a
    /// kit) and whether granting it went through.
    pub fn reply(ultimate: Option<&str>, granted: bool) -> (s: String)
        ensures
            match ultimate {
                None => s@ == "\u{a7}cPick a kit first. Try /kits."@,
                Some(name) => if granted {
                    s@ == "\u{a7}bSmash Crystal: "@ + name@ + " for "@ + decimal(
                        ULTIMATE_SECONDS as nat,
                    ) + " seconds."@
                } else {
                    s@ == "\u{a7}cYou are already holding one."@
                },
            },
    {
        let mut s = String::new();
        match ultimate {
            None => push_str(&mut s, "\u{a7}cPick a kit first. Try /kits."),
            Some(name) => {
                if granted {
                    push_str(&mut s, "\u{a7}bSmash Crystal: ");
                    push_str(&mut s, name);
                    push_str(&mut s, " for ");
                    push_decimal(&mut s, ULTIMATE_SECONDS);
                    push_str(&mut s, " seconds.");
                } else {
                    push_str(&mut s, "\u{a7}cYou are already holding one.");
                }
            },
        }
        s
    }
}

} // verus!
