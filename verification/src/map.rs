//! Map descriptions: what a Super Smash Mobs arena is, as data.
//!
//! A map file is line oriented. `#` starts a comment, blank lines are
//! skipped, and every other line is a directive followed by its fields:
//!
//! ```text
//! name Sky Fortress
//! author someone
//! kill_y 10
//! bounds -20 60 -20 20 80 20
//! spawn 0 66 0
//! crystal 4 66 4
//! box -10 60 -10 10 65 10 minecraft:stone
//! cylinder 0 60 0 5 3 minecraft:grass_block
//! sphere 0 50 0 4 minecraft:dirt
//! cone 0 59 0 6 8 minecraft:stone
//! ```
//!
//! Block coordinates are whole numbers and every range is inclusive. Player
//! positions (`kill_y`, `bounds`, `spawn`, `crystal`) are decimal numbers;
//! the library checks that each one is a number by the grammar `f32` reads,
//! and keeps its text, which is what a caller turns into a float.
use vstd::prelude::*;
use vstd::string::StrSliceExecFns;

use crate::literal::{is_float, is_float_literal, parse_i32, parse_int};
use crate::text::{trimmed, 
    debug_text, push_char, push_chars, push_debug, push_str, skip_space, split_words, string_of,
    trim, trim_end, words, chars_of, is_space, space, word_len, lemma_skip_space_step,
};

verus! {

// ---------------------------------------------------------------------------
// Types
// ---------------------------------------------------------------------------

/// One solid to stamp into the world.
///
/// Coordinates are absolute block positions and every range is inclusive.
#[derive(Debug)]
pub enum Brush {
    /// Axis-aligned cuboid between two corners.
    Box { min: [i32; 3], max: [i32; 3], block: String },
    /// Vertical cylinder: centre of the base, radius, height upwards.
    Cylinder { centre: [i32; 3], radius: i32, height: i32, block: String },
    /// Solid sphere.
    Sphere { centre: [i32; 3], radius: i32, block: String },
    /// Downward taper, `depth` layers deep: `radius` at `centre.y`,
    /// shrinking to a single block on its lowest layer, `depth - 1` blocks
    /// below.
    Cone { centre: [i32; 3], radius: i32, depth: i32, block: String },
}

/// A brush as a mathematical value.
pub ghost enum Shape {
    Box { min: [i32; 3], max: [i32; 3], block: Seq<char> },
    Cylinder { centre: [i32; 3], radius: i32, height: i32, block: Seq<char> },
    Sphere { centre: [i32; 3], radius: i32, block: Seq<char> },
    Cone { centre: [i32; 3], radius: i32, depth: i32, block: Seq<char> },
}

impl View for Brush {
    type V = Shape;

    open spec fn view(&self) -> Shape {
        match self {
            Brush::Box { min, max, block } => Shape::Box { min: *min, max: *max, block: block@ },
            Brush::Cylinder { centre, radius, height, block } => Shape::Cylinder {
                centre: *centre,
                radius: *radius,
                height: *height,
                block: block@,
            },
            Brush::Sphere { centre, radius, block } => Shape::Sphere {
                centre: *centre,
                radius: *radius,
                block: block@,
            },
            Brush::Cone { centre, radius, depth, block } => Shape::Cone {
                centre: *centre,
                radius: *radius,
                depth: *depth,
                block: block@,
            },
        }
    }
}

/// A position in decimal text, each coordinate a number by the grammar `f32`
/// reads.
#[derive(Debug)]
pub struct Point {
    pub x: String,
    pub y: String,
    pub z: String,
}

impl View for Point {
    type V = (Seq<char>, Seq<char>, Seq<char>);

    open spec fn view(&self) -> (Seq<char>, Seq<char>, Seq<char>) {
        (self.x@, self.y@, self.z@)
    }
}

/// A whole arena.
#[derive(Debug)]
pub struct MapSpec {
    pub name: String,
    pub author: String,
    /// Below this Y a player is dead.
    pub kill_y: String,
    /// The box a player must stay inside, as `(min, max)` world corners.
    /// `Some` only for a map that keeps players in, which is the hub.
    pub bounds: Option<(Point, Point)>,
    pub spawns: Vec<Point>,
    /// Where the Smash Crystal can land.
    pub crystals: Vec<Point>,
    pub brushes: Vec<Brush>,
}

pub ghost struct MapView {
    pub name: Seq<char>,
    pub author: Seq<char>,
    pub kill_y: Seq<char>,
    pub bounds: Option<((Seq<char>, Seq<char>, Seq<char>), (Seq<char>, Seq<char>, Seq<char>))>,
    pub spawns: Seq<(Seq<char>, Seq<char>, Seq<char>)>,
    pub crystals: Seq<(Seq<char>, Seq<char>, Seq<char>)>,
    pub brushes: Seq<Shape>,
}

pub open spec fn points_view(v: Seq<Point>) -> Seq<(Seq<char>, Seq<char>, Seq<char>)> {
    v.map_values(|p: Point| p@)
}

pub open spec fn brushes_view(v: Seq<Brush>) -> Seq<Shape> {
    v.map_values(|b: Brush| b@)
}

pub open spec fn bounds_view(b: Option<(Point, Point)>) -> Option<
    ((Seq<char>, Seq<char>, Seq<char>), (Seq<char>, Seq<char>, Seq<char>)),
> {
    match b {
        Some((lo, hi)) => Some((lo@, hi@)),
        None => None,
    }
}

impl View for MapSpec {
    type V = MapView;

    open spec fn view(&self) -> MapView {
        MapView {
            name: self.name@,
            author: self.author@,
            kill_y: self.kill_y@,
            bounds: bounds_view(self.bounds),
            spawns: points_view(self.spawns@),
            crystals: points_view(self.crystals@),
            brushes: brushes_view(self.brushes@),
        }
    }
}

/// Where a map file went wrong, with the line that did it. Line 0 is the
/// file as a whole.
#[derive(Debug)]
pub struct ParseError {
    pub line: usize,
    pub reason: String,
}

pub ghost struct Fault {
    pub line: nat,
    pub reason: Seq<char>,
}

impl View for ParseError {
    type V = Fault;

    open spec fn view(&self) -> Fault {
        Fault { line: self.line as nat, reason: self.reason@ }
    }
}

impl ParseError {
    /// `line {line}: {reason}`, as the error is shown.
    pub fn message(&self) -> (s: String)
        ensures
            s@ == "line "@ + crate::text::decimal(self.line as nat) + ": "@ + self.reason@,
    {
        let mut s = String::new();
        push_str(&mut s, "line ");
        crate::text::push_decimal(&mut s, self.line as u64);
        push_str(&mut s, ": ");
        push_str(&mut s, self.reason.as_str());
        s
    }
}

// ---------------------------------------------------------------------------
// Lines and the text on them
// ---------------------------------------------------------------------------

/// Where the first `c` in `s` is, or `s.len()`.
pub open spec fn first_of(s: Seq<char>, c: char) -> nat
    decreases s.len(),
{
    if s.len() == 0 || s[0] == c {
        0
    } else {
        1 + first_of(s.drop_first(), c)
    }
}

proof fn lemma_first_of(s: Seq<char>, c: char)
    ensures
        first_of(s, c) <= s.len(),
        forall|i: int| 0 <= i < first_of(s, c) ==> s[i] != c,
        first_of(s, c) < s.len() ==> s[first_of(s, c) as int] == c,
    decreases s.len(),
{
    if s.len() > 0 && s[0] != c {
        lemma_first_of(s.drop_first(), c);
        assert forall|i: int| 0 <= i < first_of(s, c) implies s[i] != c by {
            if i > 0 {
                assert(s[i] == s.drop_first()[i - 1]);
            }
        }
    }
}

proof fn lemma_first_of_step(s: Seq<char>, c: char, i: int)
    requires
        0 <= i < s.len(),
        s[i] != c,
    ensures
        first_of(s.skip(i), c) == 1 + first_of(s.skip(i + 1), c),
{
    assert(s.skip(i).drop_first() =~= s.skip(i + 1));
}

fn find(s: &Vec<char>, from: usize, c: char) -> (k: usize)
    requires
        from <= s@.len(),
    ensures
        from <= k <= s@.len(),
        k == from + first_of(s@.skip(from as int), c),
{
    let mut k = from;
    while k < s.len() && s[k] != c
        invariant
            from <= k <= s@.len(),
            first_of(s@.skip(from as int), c) == (k - from) + first_of(s@.skip(k as int), c),
        decreases s@.len() - k,
    {
        proof {
            lemma_first_of_step(s@, c, k as int);
        }
        k += 1;
    }
    k
}

/// `str::lines`: the text between line feeds, without a final empty line
/// after a trailing line feed. (A carriage return before a line feed stays
/// on its line here; every line is trimmed before it is read, so that is
/// never seen.)
pub open spec fn lines(s: Seq<char>) -> Seq<Seq<char>>
    decreases s.len(),
{
    if s.len() == 0 {
        seq![]
    } else {
        let k = first_of(s, '\n');
        if k >= s.len() {
            seq![s]
        } else {
            seq![s.take(k as int)] + lines(s.skip((k + 1) as int))
        }
    }
}

fn split_lines(s: &Vec<char>) -> (ls: Vec<Vec<char>>)
    ensures
        ls.deep_view() == lines(s@),
{
    let mut ls: Vec<Vec<char>> = Vec::new();
    let mut pos: usize = 0;
    assert(s@.skip(0) =~= s@);
    assert(ls.deep_view() + lines(s@) =~= lines(s@));
    while pos < s.len()
        invariant
            pos <= s@.len(),
            lines(s@) == ls.deep_view() + lines(s@.skip(pos as int)),
        decreases s@.len() - pos,
    {
        let k = find(s, pos, '\n');
        proof {
            lemma_first_of(s@.skip(pos as int), '\n');
        }
        let mut line: Vec<char> = Vec::new();
        let mut i = pos;
        while i < k
            invariant
                pos <= i <= k,
                k <= s@.len(),
                line@ == s@.subrange(pos as int, i as int),
            decreases k - i,
        {
            line.push(s[i]);
            assert(line@ =~= s@.subrange(pos as int, i + 1));
            i += 1;
        }
        let ghost before = ls.deep_view();
        let ghost rest = s@.skip(pos as int);
        assert(line.deep_view() =~= line@);
        ls.push(line);
        assert(ls.deep_view() =~= before.push(s@.subrange(pos as int, k as int)));
        assert(rest.take(k - pos) =~= s@.subrange(pos as int, k as int));
        if k == s.len() {
            assert(lines(rest) == seq![rest]);
            assert(rest =~= s@.subrange(pos as int, k as int));
            assert(s@.skip(k as int).len() == 0);
            assert(lines(s@.skip(k as int)) =~= Seq::<Seq<char>>::empty());
            assert(before + lines(rest) =~= ls.deep_view() + lines(s@.skip(k as int)));
            pos = k;
        } else {
            assert(rest.skip(k - pos + 1) =~= s@.skip(k + 1));
            assert(before + lines(rest) =~= ls.deep_view() + lines(s@.skip(k + 1)));
            pos = k + 1;
        }
    }
    assert(s@.skip(pos as int).len() == 0);
    assert(ls.deep_view() + lines(s@.skip(pos as int)) =~= ls.deep_view());
    ls
}

/// What a line says: the text before any `#`, trimmed.
pub open spec fn line_text(raw: Seq<char>) -> Seq<char> {
    trim(raw.take(first_of(raw, '#') as int))
}

/// [`line_text`] of a raw line.
fn text_of(raw: &Vec<char>) -> (t: Vec<char>)
    ensures
        t@ == line_text(raw@),
{
    let k = find(raw, 0, '#');
    assert(raw@.skip(0) =~= raw@);
    assert(raw@.subrange(0, k as int) =~= raw@.take(k as int));
    trimmed(raw, 0, k)
}

/// Recover a slice of the source as a string of its own: the characters of
/// `source` from `start` up to `end`.
pub fn borrow_static(source: &Vec<char>, start: usize, end: usize) -> (s: String)
    requires
        start <= end <= source@.len(),
    ensures
        s@ == source@.subrange(start as int, end as int),
{
    let mut s = String::new();
    let mut i = start;
    while i < end
        invariant
            start <= i <= end,
            end <= source@.len(),
            s@ == source@.subrange(start as int, i as int),
        decreases end - i,
    {
        push_char(&mut s, source[i]);
        assert(s@ =~= source@.subrange(start as int, i + 1));
        i += 1;
    }
    s
}


// ---------------------------------------------------------------------------
// Reading fields
// ---------------------------------------------------------------------------

pub open spec fn fault(line: nat, reason: Seq<char>) -> Fault {
    Fault { line, reason }
}

/// `expected {what}`.
pub open spec fn missing_fault(line: nat, what: Seq<char>) -> Fault {
    fault(line, "expected "@ + what)
}

/// The whole number at word `i`.
pub open spec fn read_int(ws: Seq<Seq<char>>, i: int, what: Seq<char>, line: nat) -> Result<
    i32,
    Fault,
> {
    if i >= ws.len() {
        Err(missing_fault(line, what))
    } else {
        match parse_i32(ws[i]) {
            Some(v) => Ok(v),
            None => Err(fault(line, what + " is not a whole number: "@ + debug_text(ws[i]))),
        }
    }
}

/// The decimal number at word `i`, as its text.
pub open spec fn read_float(ws: Seq<Seq<char>>, i: int, what: Seq<char>, line: nat) -> Result<
    Seq<char>,
    Fault,
> {
    if i >= ws.len() {
        Err(missing_fault(line, what))
    } else if is_float_literal(ws[i]) {
        Ok(ws[i])
    } else {
        Err(fault(line, what + " is not a number: "@ + debug_text(ws[i])))
    }
}

/// The block id at word `i`, which must carry the `minecraft:` namespace.
/// Whether it names a real block is for whoever places it.
pub open spec fn read_block(ws: Seq<Seq<char>>, i: int, line: nat) -> Result<Seq<char>, Fault> {
    if i >= ws.len() {
        Err(missing_fault(line, "a block"@))
    } else if "minecraft:"@.is_prefix_of(ws[i]) {
        Ok(ws[i])
    } else {
        Err(fault(line, "block "@ + debug_text(ws[i]) + " is missing its `minecraft:` prefix"@))
    }
}

/// Three whole numbers from word `i` on.
pub open spec fn read_triple(ws: Seq<Seq<char>>, i: int, what: Seq<char>, line: nat) -> Result<
    [i32; 3],
    Fault,
> {
    match read_int(ws, i, what, line) {
        Err(f) => Err(f),
        Ok(a) => match read_int(ws, i + 1, what, line) {
            Err(f) => Err(f),
            Ok(b) => match read_int(ws, i + 2, what, line) {
                Err(f) => Err(f),
                Ok(c) => Ok([a, b, c]),
            },
        },
    }
}

/// A word left over after the last field.
pub open spec fn trailing(ws: Seq<Seq<char>>, i: int, line: nat) -> Option<Fault> {
    if 0 <= i < ws.len() {
        Some(fault(line, "unexpected trailing "@ + debug_text(ws[i])))
    } else {
        None
    }
}

/// The words of one line, read left to right.
#[derive(Debug)]
pub struct Cursor {
    pub words: Vec<Vec<char>>,
    pub next: usize,
    pub line: usize,
}

impl Cursor {
    pub open spec fn ws(&self) -> Seq<Seq<char>> {
        self.words.deep_view()
    }

    pub open spec fn wf(&self) -> bool {
        self.next <= self.words@.len()
    }

    proof fn lemma_word(&self, i: int)
        requires
            0 <= i < self.words@.len(),
        ensures
            self.ws()[i] == self.words@[i]@,
    {
        assert(self.words@[i].deep_view() =~= self.words@[i]@);
    }

    /// `expected {what}`, on this line.
    pub fn missing(&self, what: &str) -> (e: ParseError)
        ensures
            e@ == missing_fault(self.line as nat, what@),
    {
        let mut reason = String::new();
        push_str(&mut reason, "expected ");
        push_str(&mut reason, what);
        ParseError { line: self.line, reason }
    }

    /// The next word as a whole number.
    pub fn integer(&mut self, what: &str) -> (r: Result<i32, ParseError>)
        requires
            old(self).wf(),
        ensures
            final(self).words == old(self).words,
            final(self).line == old(self).line,
            match read_int(old(self).ws(), old(self).next as int, what@, old(self).line as nat) {
                Ok(v) => r matches Ok(x) && x == v && final(self).next == old(self).next + 1,
                Err(f) => r matches Err(e) && e@ == f && final(self).next == old(self).next,
            },
    {
        if self.next >= self.words.len() {
            return Err(self.missing(what));
        }
        proof {
            self.lemma_word(self.next as int);
        }
        match parse_int(&self.words[self.next]) {
            Some(v) => {
                self.next += 1;
                Ok(v)
            },
            None => {
                let mut reason = String::new();
                push_str(&mut reason, what);
                push_str(&mut reason, " is not a whole number: ");
                push_debug(&mut reason, &self.words[self.next]);
                Err(ParseError { line: self.line, reason })
            },
        }
    }

    /// The next word as decimal text that reads as an `f32`.
    pub fn float(&mut self, what: &str) -> (r: Result<String, ParseError>)
        requires
            old(self).wf(),
        ensures
            final(self).words == old(self).words,
            final(self).line == old(self).line,
            match read_float(old(self).ws(), old(self).next as int, what@, old(self).line as nat) {
                Ok(v) => r matches Ok(x) && x@ == v && final(self).next == old(self).next + 1,
                Err(f) => r matches Err(e) && e@ == f && final(self).next == old(self).next,
            },
    {
        if self.next >= self.words.len() {
            return Err(self.missing(what));
        }
        proof {
            self.lemma_word(self.next as int);
        }
        if is_float(&self.words[self.next]) {
            let text = string_of(&self.words[self.next]);
            self.next += 1;
            Ok(text)
        } else {
            let mut reason = String::new();
            push_str(&mut reason, what);
            push_str(&mut reason, " is not a number: ");
            push_debug(&mut reason, &self.words[self.next]);
            Err(ParseError { line: self.line, reason })
        }
    }

    /// A block id, checked only for the `minecraft:` prefix.
    pub fn block(&mut self) -> (r: Result<String, ParseError>)
        requires
            old(self).wf(),
        ensures
            final(self).words == old(self).words,
            final(self).line == old(self).line,
            match read_block(old(self).ws(), old(self).next as int, old(self).line as nat) {
                Ok(v) => r matches Ok(x) && x@ == v && final(self).next == old(self).next + 1,
                Err(f) => r matches Err(e) && e@ == f && final(self).next == old(self).next,
            },
    {
        if self.next >= self.words.len() {
            return Err(self.missing("a block"));
        }
        proof {
            self.lemma_word(self.next as int);
        }
        if starts_with(&self.words[self.next], "minecraft:") {
            let id = string_of(&self.words[self.next]);
            self.next += 1;
            Ok(id)
        } else {
            let mut reason = String::new();
            push_str(&mut reason, "block ");
            push_debug(&mut reason, &self.words[self.next]);
            push_str(&mut reason, " is missing its `minecraft:` prefix");
            Err(ParseError { line: self.line, reason })
        }
    }

    /// Three whole numbers.
    pub fn triple(&mut self, what: &str) -> (r: Result<[i32; 3], ParseError>)
        requires
            old(self).wf(),
        ensures
            final(self).words == old(self).words,
            final(self).line == old(self).line,
            match read_triple(old(self).ws(), old(self).next as int, what@, old(self).line as nat) {
                Ok(v) => r matches Ok(x) && x == v && final(self).next == old(self).next + 3,
                Err(f) => r matches Err(e) && e@ == f,
            },
            final(self).wf(),
    {
        let a = match self.integer(what) {
            Ok(a) => a,
            Err(e) => return Err(e),
        };
        let b = match self.integer(what) {
            Ok(b) => b,
            Err(e) => return Err(e),
        };
        let c = match self.integer(what) {
            Ok(c) => c,
            Err(e) => return Err(e),
        };
        Ok([a, b, c])
    }

    /// Nothing may follow the last field.
    pub fn end(&mut self) -> (r: Result<(), ParseError>)
        requires
            old(self).wf(),
        ensures
            match trailing(old(self).ws(), old(self).next as int, old(self).line as nat) {
                None => r is Ok,
                Some(f) => r matches Err(e) && e@ == f,
            },
    {
        if self.next < self.words.len() {
            proof {
                self.lemma_word(self.next as int);
            }
            let mut reason = String::new();
            push_str(&mut reason, "unexpected trailing ");
            push_debug(&mut reason, &self.words[self.next]);
            self.next += 1;
            return Err(ParseError { line: self.line, reason });
        }
        Ok(())
    }
}

/// Whether `w` begins with the literal `lit`.
fn starts_with(w: &Vec<char>, lit: &str) -> (r: bool)
    ensures
        r == lit@.is_prefix_of(w@),
{
    let n = lit.unicode_len();
    if w.len() < n {
        return false;
    }
    let mut i: usize = 0;
    while i < n
        invariant
            i <= n,
            n == lit@.len(),
            n <= w@.len(),
            forall|j: int| 0 <= j < i ==> w@[j] == lit@[j],
        decreases n - i,
    {
        if w[i] != lit.get_char(i) {
            return false;
        }
        i += 1;
    }
    true
}


// ---------------------------------------------------------------------------
// One line
// ---------------------------------------------------------------------------

pub type Coords = (Seq<char>, Seq<char>, Seq<char>);

/// What one line of a map file contributes.
pub ghost enum Entry {
    Skip,
    Name(Seq<char>),
    Author(Seq<char>),
    KillY(Seq<char>),
    Bounds(Coords, Coords),
    Spawn(Coords),
    Crystal(Coords),
    Brush(Shape),
}

/// Three decimal numbers from word `i` on.
pub open spec fn read_point(
    ws: Seq<Seq<char>>,
    i: int,
    wx: Seq<char>,
    wy: Seq<char>,
    wz: Seq<char>,
    line: nat,
) -> Result<Coords, Fault> {
    match read_float(ws, i, wx, line) {
        Err(f) => Err(f),
        Ok(x) => match read_float(ws, i + 1, wy, line) {
            Err(f) => Err(f),
            Ok(y) => match read_float(ws, i + 2, wz, line) {
                Err(f) => Err(f),
                Ok(z) => Ok((x, y, z)),
            },
        },
    }
}

/// `e`, unless a word follows the last field at `i`.
pub open spec fn closed(ws: Seq<Seq<char>>, i: int, line: nat, e: Entry) -> Result<Entry, Fault> {
    match trailing(ws, i, line) {
        Some(f) => Err(f),
        None => Ok(e),
    }
}

pub open spec fn read_box(ws: Seq<Seq<char>>, line: nat) -> Result<Entry, Fault> {
    match read_triple(ws, 1, "a box corner"@, line) {
        Err(f) => Err(f),
        Ok(min) => match read_triple(ws, 4, "a box corner"@, line) {
            Err(f) => Err(f),
            Ok(max) => match read_block(ws, 7, line) {
                Err(f) => Err(f),
                Ok(block) => closed(ws, 8, line, Entry::Brush(Shape::Box { min, max, block })),
            },
        },
    }
}

pub open spec fn read_cylinder(ws: Seq<Seq<char>>, line: nat) -> Result<Entry, Fault> {
    match read_triple(ws, 1, "a cylinder centre"@, line) {
        Err(f) => Err(f),
        Ok(centre) => match read_int(ws, 4, "a cylinder radius"@, line) {
            Err(f) => Err(f),
            Ok(radius) => match read_int(ws, 5, "a cylinder height"@, line) {
                Err(f) => Err(f),
                Ok(height) => match read_block(ws, 6, line) {
                    Err(f) => Err(f),
                    Ok(block) => closed(
                        ws,
                        7,
                        line,
                        Entry::Brush(Shape::Cylinder { centre, radius, height, block }),
                    ),
                },
            },
        },
    }
}

pub open spec fn read_sphere(ws: Seq<Seq<char>>, line: nat) -> Result<Entry, Fault> {
    match read_triple(ws, 1, "a sphere centre"@, line) {
        Err(f) => Err(f),
        Ok(centre) => match read_int(ws, 4, "a sphere radius"@, line) {
            Err(f) => Err(f),
            Ok(radius) => match read_block(ws, 5, line) {
                Err(f) => Err(f),
                Ok(block) => closed(
                    ws,
                    6,
                    line,
                    Entry::Brush(Shape::Sphere { centre, radius, block }),
                ),
            },
        },
    }
}

pub open spec fn read_cone(ws: Seq<Seq<char>>, line: nat) -> Result<Entry, Fault> {
    match read_triple(ws, 1, "a cone centre"@, line) {
        Err(f) => Err(f),
        Ok(centre) => match read_int(ws, 4, "a cone radius"@, line) {
            Err(f) => Err(f),
            Ok(radius) => match read_int(ws, 5, "a cone depth"@, line) {
                Err(f) => Err(f),
                Ok(depth) => match read_block(ws, 6, line) {
                    Err(f) => Err(f),
                    Ok(block) => closed(
                        ws,
                        7,
                        line,
                        Entry::Brush(Shape::Cone { centre, radius, depth, block }),
                    ),
                },
            },
        },
    }
}

pub open spec fn read_bounds(ws: Seq<Seq<char>>, line: nat) -> Result<Entry, Fault> {
    match read_point(ws, 1, "a min x"@, "a min y"@, "a min z"@, line) {
        Err(f) => Err(f),
        Ok(lo) => match read_point(ws, 4, "a max x"@, "a max y"@, "a max z"@, line) {
            Err(f) => Err(f),
            Ok(hi) => closed(ws, 7, line, Entry::Bounds(lo, hi)),
        },
    }
}

/// What line number `line`, whose text (comment cut, trimmed) is `text`,
/// says, or where it goes wrong.
pub open spec fn line_entry(text: Seq<char>, line: nat) -> Result<Entry, Fault> {
    let ws = words(text);
    if ws.len() == 0 {
        Ok(Entry::Skip)
    } else {
        let d = ws[0];
        if d == "name"@ || d == "author"@ {
            // Free text to the end of the line.
            let rest = trim(text.skip(d.len() as int));
            if rest.len() == 0 {
                Err(missing_fault(line, d))
            } else if d == "name"@ {
                Ok(Entry::Name(rest))
            } else {
                Ok(Entry::Author(rest))
            }
        } else if d == "kill_y"@ {
            match read_float(ws, 1, "kill_y"@, line) {
                Err(f) => Err(f),
                Ok(k) => closed(ws, 2, line, Entry::KillY(k)),
            }
        } else if d == "bounds"@ {
            read_bounds(ws, line)
        } else if d == "spawn"@ || d == "crystal"@ {
            match read_point(ws, 1, "an x"@, "a y"@, "a z"@, line) {
                Err(f) => Err(f),
                Ok(p) => closed(
                    ws,
                    4,
                    line,
                    if d == "spawn"@ {
                        Entry::Spawn(p)
                    } else {
                        Entry::Crystal(p)
                    },
                ),
            }
        } else if d == "box"@ {
            read_box(ws, line)
        } else if d == "cylinder"@ {
            read_cylinder(ws, line)
        } else if d == "sphere"@ {
            read_sphere(ws, line)
        } else if d == "cone"@ {
            read_cone(ws, line)
        } else {
            Err(fault(line, "unknown directive "@ + debug_text(d)))
        }
    }
}

/// One line's contribution, as values.
#[derive(Debug)]
pub enum Step {
    Skip,
    Name(String),
    Author(String),
    KillY(String),
    Bounds(Point, Point),
    Spawn(Point),
    Crystal(Point),
    Brush(Brush),
}

impl View for Step {
    type V = Entry;

    open spec fn view(&self) -> Entry {
        match self {
            Step::Skip => Entry::Skip,
            Step::Name(n) => Entry::Name(n@),
            Step::Author(a) => Entry::Author(a@),
            Step::KillY(k) => Entry::KillY(k@),
            Step::Bounds(lo, hi) => Entry::Bounds(lo@, hi@),
            Step::Spawn(p) => Entry::Spawn(p@),
            Step::Crystal(p) => Entry::Crystal(p@),
            Step::Brush(b) => Entry::Brush(b@),
        }
    }
}

proof fn lemma_first_word_fits(s: Seq<char>)
    requires
        words(s).len() > 0,
    ensures
        words(s)[0].len() <= s.len(),
{
    crate::text::lemma_words_unfold(s);
    crate::text::lemma_skip_space_suffix(s);
    crate::text::lemma_word_len(skip_space(s));
}

fn read_point_at(
    cursor: &mut Cursor,
    wx: &str,
    wy: &str,
    wz: &str,
) -> (r: Result<Point, ParseError>)
    requires
        old(cursor).wf(),
    ensures
        final(cursor).words == old(cursor).words,
        final(cursor).line == old(cursor).line,
        final(cursor).wf(),
        match read_point(
            old(cursor).ws(),
            old(cursor).next as int,
            wx@,
            wy@,
            wz@,
            old(cursor).line as nat,
        ) {
            Ok(p) => r matches Ok(x) && x@ == p && final(cursor).next == old(cursor).next + 3,
            Err(f) => r matches Err(e) && e@ == f,
        },
{
    let x = match cursor.float(wx) {
        Ok(x) => x,
        Err(e) => return Err(e),
    };
    let y = match cursor.float(wy) {
        Ok(y) => y,
        Err(e) => return Err(e),
    };
    let z = match cursor.float(wz) {
        Ok(z) => z,
        Err(e) => return Err(e),
    };
    Ok(Point { x, y, z })
}

fn close(cursor: &mut Cursor, step: Step) -> (r: Result<Step, ParseError>)
    requires
        old(cursor).wf(),
    ensures
        match closed(old(cursor).ws(), old(cursor).next as int, old(cursor).line as nat, step@) {
            Ok(e) => r matches Ok(x) && x@ == e,
            Err(f) => r matches Err(e) && e@ == f,
        },
{
    match cursor.end() {
        Ok(()) => Ok(step),
        Err(e) => Err(e),
    }
}

fn parse_box(cursor: &mut Cursor) -> (r: Result<Step, ParseError>)
    requires
        old(cursor).wf(),
        old(cursor).next == 1,
    ensures
        match read_box(old(cursor).ws(), old(cursor).line as nat) {
            Ok(e) => r matches Ok(x) && x@ == e,
            Err(f) => r matches Err(e) && e@ == f,
        },
{
    let min = match cursor.triple("a box corner") {
        Ok(v) => v,
        Err(e) => return Err(e),
    };
    let max = match cursor.triple("a box corner") {
        Ok(v) => v,
        Err(e) => return Err(e),
    };
    let block = match cursor.block() {
        Ok(v) => v,
        Err(e) => return Err(e),
    };
    close(cursor, Step::Brush(Brush::Box { min, max, block }))
}

fn parse_cylinder(cursor: &mut Cursor) -> (r: Result<Step, ParseError>)
    requires
        old(cursor).wf(),
        old(cursor).next == 1,
    ensures
        match read_cylinder(old(cursor).ws(), old(cursor).line as nat) {
            Ok(e) => r matches Ok(x) && x@ == e,
            Err(f) => r matches Err(e) && e@ == f,
        },
{
    let centre = match cursor.triple("a cylinder centre") {
        Ok(v) => v,
        Err(e) => return Err(e),
    };
    let radius = match cursor.integer("a cylinder radius") {
        Ok(v) => v,
        Err(e) => return Err(e),
    };
    let height = match cursor.integer("a cylinder height") {
        Ok(v) => v,
        Err(e) => return Err(e),
    };
    let block = match cursor.block() {
        Ok(v) => v,
        Err(e) => return Err(e),
    };
    close(cursor, Step::Brush(Brush::Cylinder { centre, radius, height, block }))
}

fn parse_sphere(cursor: &mut Cursor) -> (r: Result<Step, ParseError>)
    requires
        old(cursor).wf(),
        old(cursor).next == 1,
    ensures
        match read_sphere(old(cursor).ws(), old(cursor).line as nat) {
            Ok(e) => r matches Ok(x) && x@ == e,
            Err(f) => r matches Err(e) && e@ == f,
        },
{
    let centre = match cursor.triple("a sphere centre") {
        Ok(v) => v,
        Err(e) => return Err(e),
    };
    let radius = match cursor.integer("a sphere radius") {
        Ok(v) => v,
        Err(e) => return Err(e),
    };
    let block = match cursor.block() {
        Ok(v) => v,
        Err(e) => return Err(e),
    };
    close(cursor, Step::Brush(Brush::Sphere { centre, radius, block }))
}

fn parse_cone(cursor: &mut Cursor) -> (r: Result<Step, ParseError>)
    requires
        old(cursor).wf(),
        old(cursor).next == 1,
    ensures
        match read_cone(old(cursor).ws(), old(cursor).line as nat) {
            Ok(e) => r matches Ok(x) && x@ == e,
            Err(f) => r matches Err(e) && e@ == f,
        },
{
    let centre = match cursor.triple("a cone centre") {
        Ok(v) => v,
        Err(e) => return Err(e),
    };
    let radius = match cursor.integer("a cone radius") {
        Ok(v) => v,
        Err(e) => return Err(e),
    };
    let depth = match cursor.integer("a cone depth") {
        Ok(v) => v,
        Err(e) => return Err(e),
    };
    let block = match cursor.block() {
        Ok(v) => v,
        Err(e) => return Err(e),
    };
    close(cursor, Step::Brush(Brush::Cone { centre, radius, depth, block }))
}

fn parse_bounds(cursor: &mut Cursor) -> (r: Result<Step, ParseError>)
    requires
        old(cursor).wf(),
        old(cursor).next == 1,
    ensures
        match read_bounds(old(cursor).ws(), old(cursor).line as nat) {
            Ok(e) => r matches Ok(x) && x@ == e,
            Err(f) => r matches Err(e) && e@ == f,
        },
{
    let lo = match read_point_at(cursor, "a min x", "a min y", "a min z") {
        Ok(v) => v,
        Err(e) => return Err(e),
    };
    let hi = match read_point_at(cursor, "a max x", "a max y", "a max z") {
        Ok(v) => v,
        Err(e) => return Err(e),
    };
    close(cursor, Step::Bounds(lo, hi))
}

/// Read line number `line`, whose text is `text`.
pub fn parse_line(text: &Vec<char>, line: usize) -> (r: Result<Step, ParseError>)
    ensures
        match line_entry(text@, line as nat) {
            Ok(e) => r matches Ok(x) && x@ == e,
            Err(f) => r matches Err(e) && e@ == f,
        },
{
    let words = split_words(text, 0);
    assert(text@.skip(0) =~= text@);
    if words.len() == 0 {
        return Ok(Step::Skip);
    }
    let mut cursor = Cursor { words, next: 1, line };
    proof {
        cursor.lemma_word(0);
    }
    let d = &cursor.words[0];
    let is_name = crate::text::eq_lit(d, "name");
    let is_author = crate::text::eq_lit(d, "author");
    if is_name || is_author {
        proof {
            lemma_first_word_fits(text@);
        }
        let rest = trimmed(text, d.len(), text.len());
        assert(text@.subrange(d@.len() as int, text@.len() as int) =~= text@.skip(d@.len() as int));
        if rest.len() == 0 {
            let e = if is_name {
                cursor.missing("name")
            } else {
                cursor.missing("author")
            };
            return Err(e);
        }
        let value = string_of(&rest);
        return if is_name {
            Ok(Step::Name(value))
        } else {
            Ok(Step::Author(value))
        };
    }
    if crate::text::eq_lit(d, "kill_y") {
        let k = match cursor.float("kill_y") {
            Ok(k) => k,
            Err(e) => return Err(e),
        };
        return close(&mut cursor, Step::KillY(k));
    }
    if crate::text::eq_lit(d, "bounds") {
        return parse_bounds(&mut cursor);
    }
    let is_spawn = crate::text::eq_lit(d, "spawn");
    if is_spawn || crate::text::eq_lit(d, "crystal") {
        let p = match read_point_at(&mut cursor, "an x", "a y", "a z") {
            Ok(p) => p,
            Err(e) => return Err(e),
        };
        let step = if is_spawn {
            Step::Spawn(p)
        } else {
            Step::Crystal(p)
        };
        return close(&mut cursor, step);
    }
    if crate::text::eq_lit(d, "box") {
        return parse_box(&mut cursor);
    }
    if crate::text::eq_lit(d, "cylinder") {
        return parse_cylinder(&mut cursor);
    }
    if crate::text::eq_lit(d, "sphere") {
        return parse_sphere(&mut cursor);
    }
    if crate::text::eq_lit(d, "cone") {
        return parse_cone(&mut cursor);
    }
    let mut reason = String::new();
    push_str(&mut reason, "unknown directive ");
    push_debug(&mut reason, d);
    Err(ParseError { line, reason })
}


// ---------------------------------------------------------------------------
// The whole file
// ---------------------------------------------------------------------------

/// What the lines read so far have said.
pub ghost struct Gathered {
    pub name: Seq<char>,
    pub author: Seq<char>,
    pub kill_y: Option<Seq<char>>,
    pub bounds: Option<(Coords, Coords)>,
    pub spawns: Seq<Coords>,
    pub crystals: Seq<Coords>,
    pub brushes: Seq<Shape>,
}

pub open spec fn nothing_yet() -> Gathered {
    Gathered {
        name: seq![],
        author: seq![],
        kill_y: None,
        bounds: None,
        spawns: seq![],
        crystals: seq![],
        brushes: seq![],
    }
}

/// A line's entry added to what was gathered: a later `name`, `author`,
/// `kill_y` or `bounds` replaces an earlier one, and everything else is
/// appended in file order.
pub open spec fn gather(g: Gathered, e: Entry) -> Gathered {
    match e {
        Entry::Skip => g,
        Entry::Name(n) => Gathered { name: n, ..g },
        Entry::Author(a) => Gathered { author: a, ..g },
        Entry::KillY(k) => Gathered { kill_y: Some(k), ..g },
        Entry::Bounds(lo, hi) => Gathered { bounds: Some((lo, hi)), ..g },
        Entry::Spawn(p) => Gathered { spawns: g.spawns.push(p), ..g },
        Entry::Crystal(p) => Gathered { crystals: g.crystals.push(p), ..g },
        Entry::Brush(b) => Gathered { brushes: g.brushes.push(b), ..g },
    }
}

/// The lines in order, each numbered from one, stopping at the first that
/// does not read.
pub open spec fn gather_lines(ls: Seq<Seq<char>>) -> Result<Gathered, Fault>
    decreases ls.len(),
{
    if ls.len() == 0 {
        Ok(nothing_yet())
    } else {
        match gather_lines(ls.drop_last()) {
            Err(f) => Err(f),
            Ok(g) => match line_entry(line_text(ls.last()), ls.len()) {
                Err(f) => Err(f),
                Ok(e) => Ok(gather(g, e)),
            },
        }
    }
}

/// The checks on the file as a whole, made once every line has read.
pub open spec fn complete(g: Gathered) -> Result<MapView, Fault> {
    if g.name.len() == 0 {
        Err(fault(0, "no `name`"@))
    } else if g.spawns.len() == 0 {
        Err(fault(0, "no `spawn` points, so nobody could stand on it"@))
    } else {
        match g.kill_y {
            None => Err(fault(0, "no `kill_y`, so the map would have no death plane"@)),
            Some(k) => Ok(
                MapView {
                    name: g.name,
                    author: g.author,
                    kill_y: k,
                    bounds: g.bounds,
                    spawns: g.spawns,
                    crystals: g.crystals,
                    brushes: g.brushes,
                },
            ),
        }
    }
}

/// What a map file says, or the first thing wrong with it.
pub open spec fn read_map(source: Seq<char>) -> Result<MapView, Fault> {
    match gather_lines(lines(source)) {
        Err(f) => Err(f),
        Ok(g) => complete(g),
    }
}

/// Whether words `from` up to (not including) `to` are each a whole number
/// `i32` reads.
pub open spec fn whole_numbers(ws: Seq<Seq<char>>, from: int, to: int) -> bool {
    forall|i: int| from <= i < to ==> (#[trigger] parse_i32(ws[i])) is Some
}

/// The whole number word `i` is.
pub open spec fn number_at(ws: Seq<Seq<char>>, i: int) -> i32 {
    parse_i32(ws[i])->0
}

/// The three whole numbers from word `i` on, as a position.
pub open spec fn position_at(ws: Seq<Seq<char>>, i: int) -> [i32; 3] {
    [number_at(ws, i), number_at(ws, i + 1), number_at(ws, i + 2)]
}

/// The directives are ten different words.
proof fn lemma_directives_differ()
    ensures
        "name"@ != "author"@,
        "name"@ != "kill_y"@,
        "name"@ != "bounds"@,
        "name"@ != "spawn"@,
        "name"@ != "crystal"@,
        "name"@ != "box"@,
        "name"@ != "cylinder"@,
        "name"@ != "sphere"@,
        "name"@ != "cone"@,
        "author"@ != "kill_y"@,
        "author"@ != "bounds"@,
        "author"@ != "spawn"@,
        "author"@ != "crystal"@,
        "author"@ != "box"@,
        "author"@ != "cylinder"@,
        "author"@ != "sphere"@,
        "author"@ != "cone"@,
        "kill_y"@ != "bounds"@,
        "kill_y"@ != "spawn"@,
        "kill_y"@ != "crystal"@,
        "kill_y"@ != "box"@,
        "kill_y"@ != "cylinder"@,
        "kill_y"@ != "sphere"@,
        "kill_y"@ != "cone"@,
        "bounds"@ != "spawn"@,
        "bounds"@ != "crystal"@,
        "bounds"@ != "box"@,
        "bounds"@ != "cylinder"@,
        "bounds"@ != "sphere"@,
        "bounds"@ != "cone"@,
        "spawn"@ != "crystal"@,
        "spawn"@ != "box"@,
        "spawn"@ != "cylinder"@,
        "spawn"@ != "sphere"@,
        "spawn"@ != "cone"@,
        "crystal"@ != "box"@,
        "crystal"@ != "cylinder"@,
        "crystal"@ != "sphere"@,
        "crystal"@ != "cone"@,
        "box"@ != "cylinder"@,
        "box"@ != "sphere"@,
        "box"@ != "cone"@,
        "cylinder"@ != "sphere"@,
        "cylinder"@ != "cone"@,
        "sphere"@ != "cone"@,
{
    reveal_strlit("name");
    reveal_strlit("author");
    reveal_strlit("kill_y");
    reveal_strlit("bounds");
    reveal_strlit("spawn");
    reveal_strlit("crystal");
    reveal_strlit("box");
    reveal_strlit("cylinder");
    reveal_strlit("sphere");
    reveal_strlit("cone");
    assert("name"@.len() != "author"@.len());
    assert("name"@.len() != "kill_y"@.len());
    assert("name"@.len() != "bounds"@.len());
    assert("name"@.len() != "spawn"@.len());
    assert("name"@.len() != "crystal"@.len());
    assert("name"@.len() != "box"@.len());
    assert("name"@.len() != "cylinder"@.len());
    assert("name"@.len() != "sphere"@.len());
    assert("name"@[0] != "cone"@[0]);
    assert("author"@[0] != "kill_y"@[0]);
    assert("author"@[0] != "bounds"@[0]);
    assert("author"@.len() != "spawn"@.len());
    assert("author"@.len() != "crystal"@.len());
    assert("author"@.len() != "box"@.len());
    assert("author"@.len() != "cylinder"@.len());
    assert("author"@[0] != "sphere"@[0]);
    assert("author"@.len() != "cone"@.len());
    assert("kill_y"@[0] != "bounds"@[0]);
    assert("kill_y"@.len() != "spawn"@.len());
    assert("kill_y"@.len() != "crystal"@.len());
    assert("kill_y"@.len() != "box"@.len());
    assert("kill_y"@.len() != "cylinder"@.len());
    assert("kill_y"@[0] != "sphere"@[0]);
    assert("kill_y"@.len() != "cone"@.len());
    assert("bounds"@.len() != "spawn"@.len());
    assert("bounds"@.len() != "crystal"@.len());
    assert("bounds"@.len() != "box"@.len());
    assert("bounds"@.len() != "cylinder"@.len());
    assert("bounds"@[0] != "sphere"@[0]);
    assert("bounds"@.len() != "cone"@.len());
    assert("spawn"@.len() != "crystal"@.len());
    assert("spawn"@.len() != "box"@.len());
    assert("spawn"@.len() != "cylinder"@.len());
    assert("spawn"@.len() != "sphere"@.len());
    assert("spawn"@.len() != "cone"@.len());
    assert("crystal"@.len() != "box"@.len());
    assert("crystal"@.len() != "cylinder"@.len());
    assert("crystal"@.len() != "sphere"@.len());
    assert("crystal"@.len() != "cone"@.len());
    assert("box"@.len() != "cylinder"@.len());
    assert("box"@.len() != "sphere"@.len());
    assert("box"@.len() != "cone"@.len());
    assert("cylinder"@.len() != "sphere"@.len());
    assert("cylinder"@.len() != "cone"@.len());
    assert("sphere"@.len() != "cone"@.len());
}

/// Whether words `from` up to `to` are each a number `f32` reads.
pub open spec fn decimals(ws: Seq<Seq<char>>, from: int, to: int) -> bool {
    forall|i: int| from <= i < to ==> is_float_literal(#[trigger] ws[i])
}

/// A line `spawn x y z` is a spawn point and `crystal x y z` a crystal
/// point, at the three numbers in the order written.
pub proof fn law_a_point_reads_its_fields_in_order(text: Seq<char>, line: nat)
    requires
        words(text).len() == 4,
        words(text)[0] == "spawn"@ || words(text)[0] == "crystal"@,
        decimals(words(text), 1, 4),
    ensures
        ({
            let ws = words(text);
            let p = (ws[1], ws[2], ws[3]);
            line_entry(text, line) == Ok::<Entry, Fault>(
                if ws[0] == "spawn"@ {
                    Entry::Spawn(p)
                } else {
                    Entry::Crystal(p)
                },
            )
        }),
{
    lemma_directives_differ();
    let ws = words(text);
    assert(is_float_literal(ws[1]) && is_float_literal(ws[2]) && is_float_literal(ws[3]));
}

/// A line `kill_y y` puts the death plane at the number written.
pub proof fn law_a_kill_plane_reads_its_number(text: Seq<char>, line: nat)
    requires
        words(text).len() == 2,
        words(text)[0] == "kill_y"@,
        decimals(words(text), 1, 2),
    ensures
        line_entry(text, line) == Ok::<Entry, Fault>(Entry::KillY(words(text)[1])),
{
    lemma_directives_differ();
    assert(is_float_literal(words(text)[1]));
}

/// A line `bounds x1 y1 z1 x2 y2 z2` keeps players between the corner the
/// first three numbers name and the corner the last three name.
pub proof fn law_bounds_read_their_corners_in_order(text: Seq<char>, line: nat)
    requires
        words(text).len() == 7,
        words(text)[0] == "bounds"@,
        decimals(words(text), 1, 7),
    ensures
        ({
            let ws = words(text);
            line_entry(text, line) == Ok::<Entry, Fault>(
                Entry::Bounds((ws[1], ws[2], ws[3]), (ws[4], ws[5], ws[6])),
            )
        }),
{
    lemma_directives_differ();
    let ws = words(text);
    assert(is_float_literal(ws[1]) && is_float_literal(ws[2]) && is_float_literal(ws[3]));
    assert(is_float_literal(ws[4]) && is_float_literal(ws[5]) && is_float_literal(ws[6]));
}

/// A `name` line names the map and an `author` line credits it; neither is
/// taken for the other.
pub proof fn law_name_and_author_lines_say_what_they_say(text: Seq<char>, line: nat)
    requires
        words(text).len() > 0,
        words(text)[0] == "name"@ || words(text)[0] == "author"@,
    ensures
        line_entry(text, line) is Ok ==> (words(text)[0] == "name"@ <==> line_entry(
            text,
            line,
        )->Ok_0 is Name),
        line_entry(text, line) is Ok ==> (words(text)[0] == "author"@ <==> line_entry(
            text,
            line,
        )->Ok_0 is Author),
{
    lemma_directives_differ();
}

/// A line `cylinder x y z radius height block` is a cylinder whose base
/// centre is the first three numbers, whose radius is the fourth and whose
/// height is the fifth, of that block.
pub proof fn law_a_cylinder_reads_its_fields_in_order(text: Seq<char>, line: nat)
    requires
        words(text).len() == 7,
        words(text)[0] == "cylinder"@,
        whole_numbers(words(text), 1, 6),
        "minecraft:"@.is_prefix_of(words(text)[6]),
    ensures
        ({
            let ws = words(text);
            line_entry(text, line) == Ok::<Entry, Fault>(
                Entry::Brush(
                    Shape::Cylinder {
                        centre: position_at(ws, 1),
                        radius: number_at(ws, 4),
                        height: number_at(ws, 5),
                        block: ws[6],
                    },
                ),
            )
        }),
{
    lemma_directives_differ();
    let ws = words(text);
    assert(parse_i32(ws[1]) is Some && parse_i32(ws[2]) is Some && parse_i32(ws[3]) is Some);
    assert(parse_i32(ws[4]) is Some && parse_i32(ws[5]) is Some);
}

/// A line `sphere x y z radius block` is a sphere centred on the three
/// numbers with the fourth as its radius.
pub proof fn law_a_sphere_reads_its_fields_in_order(text: Seq<char>, line: nat)
    requires
        words(text).len() == 6,
        words(text)[0] == "sphere"@,
        whole_numbers(words(text), 1, 5),
        "minecraft:"@.is_prefix_of(words(text)[5]),
    ensures
        ({
            let ws = words(text);
            line_entry(text, line) == Ok::<Entry, Fault>(
                Entry::Brush(
                    Shape::Sphere { centre: position_at(ws, 1), radius: number_at(ws, 4), block: ws[5] },
                ),
            )
        }),
{
    lemma_directives_differ();
    let ws = words(text);
    assert(parse_i32(ws[1]) is Some && parse_i32(ws[2]) is Some && parse_i32(ws[3]) is Some);
    assert(parse_i32(ws[4]) is Some);
}

/// A line `cone x y z radius depth block` is a cone whose top centre is the
/// three numbers, whose radius is the fourth and whose depth the fifth.
pub proof fn law_a_cone_reads_its_fields_in_order(text: Seq<char>, line: nat)
    requires
        words(text).len() == 7,
        words(text)[0] == "cone"@,
        whole_numbers(words(text), 1, 6),
        "minecraft:"@.is_prefix_of(words(text)[6]),
    ensures
        ({
            let ws = words(text);
            line_entry(text, line) == Ok::<Entry, Fault>(
                Entry::Brush(
                    Shape::Cone {
                        centre: position_at(ws, 1),
                        radius: number_at(ws, 4),
                        depth: number_at(ws, 5),
                        block: ws[6],
                    },
                ),
            )
        }),
{
    lemma_directives_differ();
    let ws = words(text);
    assert(parse_i32(ws[1]) is Some && parse_i32(ws[2]) is Some && parse_i32(ws[3]) is Some);
    assert(parse_i32(ws[4]) is Some && parse_i32(ws[5]) is Some);
}

/// A line `box x1 y1 z1 x2 y2 z2 block` is the box between the corner the
/// first three numbers name and the corner the last three name.
pub proof fn law_a_box_reads_its_fields_in_order(text: Seq<char>, line: nat)
    requires
        words(text).len() == 8,
        words(text)[0] == "box"@,
        whole_numbers(words(text), 1, 7),
        "minecraft:"@.is_prefix_of(words(text)[7]),
    ensures
        ({
            let ws = words(text);
            line_entry(text, line) == Ok::<Entry, Fault>(
                Entry::Brush(
                    Shape::Box { min: position_at(ws, 1), max: position_at(ws, 4), block: ws[7] },
                ),
            )
        }),
{
    lemma_directives_differ();
    let ws = words(text);
    assert(parse_i32(ws[1]) is Some && parse_i32(ws[2]) is Some && parse_i32(ws[3]) is Some);
    assert(parse_i32(ws[4]) is Some && parse_i32(ws[5]) is Some && parse_i32(ws[6]) is Some);
}

/// What a line reads as when it reads, whatever its number: a line's
/// number only ever appears in the fault it reports.
proof fn lemma_entry_ignores_line(t: Seq<char>, n: nat, m: nat)
    ensures
        line_entry(t, n) is Ok <==> line_entry(t, m) is Ok,
        line_entry(t, n) is Ok ==> line_entry(t, n)->Ok_0 == line_entry(t, m)->Ok_0,
{
}

/// Whether a line adds nothing but, at most, a Smash Crystal point: blank,
/// a `#` comment, or a well-formed `crystal x y z`.
pub open spec fn extra_line(raw: Seq<char>) -> bool {
    line_entry(line_text(raw), 0) matches Ok(e) && (e is Skip || e is Crystal)
}

/// The crystal points the lines that read as `crystal` name, in file order.
pub open spec fn crystal_points(ls: Seq<Seq<char>>) -> Seq<Coords>
    decreases ls.len(),
{
    if ls.len() == 0 {
        seq![]
    } else {
        crystal_points(ls.drop_last()) + match line_entry(line_text(ls.last()), 0) {
            Ok(Entry::Crystal(p)) => seq![p],
            _ => seq![],
        }
    }
}

/// The lines of `ls` whose place in `keep` is set, in order.
pub open spec fn kept(ls: Seq<Seq<char>>, keep: Seq<bool>) -> Seq<Seq<char>>
    decreases ls.len(),
{
    if ls.len() == 0 || keep.len() == 0 {
        seq![]
    } else {
        kept(ls.drop_last(), keep.drop_last()) + if keep.last() {
            seq![ls.last()]
        } else {
            seq![]
        }
    }
}

/// Two gatherings alike in everything but their crystal points.
pub open spec fn alike_but_crystals(a: Gathered, b: Gathered) -> bool {
    &&& a.name == b.name
    &&& a.author == b.author
    &&& a.kill_y == b.kill_y
    &&& a.bounds == b.bounds
    &&& a.spawns == b.spawns
    &&& a.brushes == b.brushes
}

proof fn lemma_gathered_crystals(ls: Seq<Seq<char>>)
    requires
        gather_lines(ls) is Ok,
    ensures
        gather_lines(ls)->Ok_0.crystals == crystal_points(ls),
    decreases ls.len(),
{
    if ls.len() > 0 {
        lemma_gathered_crystals(ls.drop_last());
        lemma_entry_ignores_line(line_text(ls.last()), ls.len(), 0);
    }
}

proof fn lemma_gather_with_extras(ls2: Seq<Seq<char>>, keep: Seq<bool>)
    requires
        keep.len() == ls2.len(),
        forall|i: int| 0 <= i < ls2.len() && !keep[i] ==> extra_line(#[trigger] ls2[i]),
        gather_lines(kept(ls2, keep)) is Ok,
    ensures
        gather_lines(ls2) is Ok,
        alike_but_crystals(gather_lines(ls2)->Ok_0, gather_lines(kept(ls2, keep))->Ok_0),
    decreases ls2.len(),
{
    if ls2.len() > 0 {
        let l = ls2.last();
        let shorter = ls2.drop_last();
        let fewer = keep.drop_last();
        assert forall|i: int| 0 <= i < shorter.len() && !fewer[i] implies extra_line(
            #[trigger] shorter[i],
        ) by {
            assert(shorter[i] == ls2[i] && fewer[i] == keep[i]);
        }
        let k = kept(ls2, keep);
        let k0 = kept(shorter, fewer);
        if keep.last() {
            assert(k.drop_last() =~= k0);
            assert(k.last() == l);
        } else {
            assert(k =~= k0);
        }
        lemma_gather_with_extras(shorter, fewer);
        let t = line_text(l);
        lemma_entry_ignores_line(t, ls2.len(), k.len());
        lemma_entry_ignores_line(t, ls2.len(), 0);
        if !keep.last() {
            assert(extra_line(ls2[ls2.len() - 1]));
        }
    }
}

/// Blank lines, comments and well-formed `crystal` lines can be put
/// anywhere in a map that reads: it still reads, every crystal point is
/// listed in file order however many there are, and nothing else about the
/// map changes. `longer` is any file whose lines are those of `source` with
/// extra lines among them, and `keep` marks which of its lines are
/// `source`'s; either file may end with or without a line feed.
pub proof fn law_crystals_and_blank_lines_change_nothing_else(
    source: Seq<char>,
    longer: Seq<char>,
    keep: Seq<bool>,
)
    requires
        keep.len() == lines(longer).len(),
        kept(lines(longer), keep) == lines(source),
        forall|i: int|
            0 <= i < lines(longer).len() && !keep[i] ==> extra_line(#[trigger] lines(longer)[i]),
        read_map(source) is Ok,
    ensures
        read_map(longer) matches Ok(m2) && read_map(source) matches Ok(m) && {
            &&& m2 == (MapView { crystals: m2.crystals, ..m })
            &&& m2.crystals == crystal_points(lines(longer))
            &&& m.crystals == crystal_points(lines(source))
        },
{
    lemma_gather_with_extras(lines(longer), keep);
    lemma_gathered_crystals(lines(longer));
    lemma_gathered_crystals(lines(source));
}

proof fn lemma_gather_fault_stays(ls: Seq<Seq<char>>, k: int)
    requires
        0 <= k <= ls.len(),
        gather_lines(ls.take(k)) is Err,
    ensures
        gather_lines(ls) == gather_lines(ls.take(k)),
    decreases ls.len() - k,
{
    if k < ls.len() {
        assert(ls.take(k + 1).drop_last() =~= ls.take(k));
        lemma_gather_fault_stays(ls, k + 1);
    } else {
        assert(ls.take(k) =~= ls);
    }
}

struct Gathering {
    name: String,
    author: String,
    kill_y: Option<String>,
    bounds: Option<(Point, Point)>,
    spawns: Vec<Point>,
    crystals: Vec<Point>,
    brushes: Vec<Brush>,
}

impl View for Gathering {
    type V = Gathered;

    closed spec fn view(&self) -> Gathered {
        Gathered {
            name: self.name@,
            author: self.author@,
            kill_y: match self.kill_y {
                Some(k) => Some(k@),
                None => None,
            },
            bounds: bounds_view(self.bounds),
            spawns: points_view(self.spawns@),
            crystals: points_view(self.crystals@),
            brushes: brushes_view(self.brushes@),
        }
    }
}

impl Gathering {
    fn add(&mut self, step: Step)
        ensures
            final(self)@ == gather(old(self)@, step@),
    {
        match step {
            Step::Skip => {},
            Step::Name(n) => {
                self.name = n;
            },
            Step::Author(a) => {
                self.author = a;
            },
            Step::KillY(k) => {
                self.kill_y = Some(k);
            },
            Step::Bounds(lo, hi) => {
                self.bounds = Some((lo, hi));
            },
            Step::Spawn(p) => {
                let ghost before = self.spawns@;
                self.spawns.push(p);
                assert(points_view(self.spawns@) =~= points_view(before).push(p@));
            },
            Step::Crystal(p) => {
                let ghost before = self.crystals@;
                self.crystals.push(p);
                assert(points_view(self.crystals@) =~= points_view(before).push(p@));
            },
            Step::Brush(b) => {
                let ghost before = self.brushes@;
                self.brushes.push(b);
                assert(brushes_view(self.brushes@) =~= brushes_view(before).push(b@));
            },
        }
    }
}

fn file_fault(reason: &str) -> (e: ParseError)
    ensures
        e@ == fault(0, reason@),
{
    let mut r = String::new();
    push_str(&mut r, reason);
    ParseError { line: 0, reason: r }
}

/// Parse a map file.
///
/// Fails on an unknown directive, a malformed number, a block id without
/// its namespace, a word left over after a directive's fields, a file with
/// no name, no spawn points or no `kill_y`, and reports the first such
/// fault with its line (0 for the checks on the file as a whole). Whether
/// the kill plane lies below every spawn is a comparison of floats, made by
/// whoever turns the decimal text into numbers.
pub fn parse(source: &str) -> (r: Result<MapSpec, ParseError>)
    ensures
        match read_map(source@) {
            Ok(m) => r matches Ok(x) && x@ == m,
            Err(f) => r matches Err(e) && e@ == f,
        },
{
    let chars = chars_of(source);
    let ls = split_lines(&chars);
    let mut acc = Gathering {
        name: String::new(),
        author: String::new(),
        kill_y: None,
        bounds: None,
        spawns: Vec::new(),
        crystals: Vec::new(),
        brushes: Vec::new(),
    };
    assert(points_view(acc.spawns@) =~= Seq::<Coords>::empty());
    assert(points_view(acc.crystals@) =~= Seq::<Coords>::empty());
    assert(brushes_view(acc.brushes@) =~= Seq::<Shape>::empty());
    assert(ls.deep_view().take(0) =~= Seq::<Seq<char>>::empty());
    let mut k: usize = 0;
    while k < ls.len()
        invariant
            k <= ls@.len(),
            ls.deep_view() == lines(source@),
            gather_lines(ls.deep_view().take(k as int)) == Ok::<Gathered, Fault>(acc@),
        decreases ls@.len() - k,
    {
        let text = text_of(&ls[k]);
        assert(ls@[k as int].deep_view() =~= ls@[k as int]@);
        assert(ls.deep_view().take(k + 1).drop_last() =~= ls.deep_view().take(k as int));
        assert(ls.deep_view().take(k + 1).last() == ls.deep_view()[k as int]);
        match parse_line(&text, k + 1) {
            Ok(step) => {
                acc.add(step);
            },
            Err(e) => {
                proof {
                    lemma_gather_fault_stays(ls.deep_view(), k + 1);
                }
                return Err(e);
            },
        }
        k += 1;
    }
    assert(ls.deep_view().take(k as int) =~= ls.deep_view());
    if acc.name.as_str().is_empty() {
        return Err(file_fault("no `name`"));
    }
    if acc.spawns.len() == 0 {
        return Err(file_fault("no `spawn` points, so nobody could stand on it"));
    }
    match acc.kill_y {
        None => Err(file_fault("no `kill_y`, so the map would have no death plane")),
        Some(kill_y) => Ok(
            MapSpec {
                name: acc.name,
                author: acc.author,
                kill_y,
                bounds: acc.bounds,
                spawns: acc.spawns,
                crystals: acc.crystals,
                brushes: acc.brushes,
            },
        ),
    }
}

} // verus!
