//! Text layout rules on characters: bidirectional classes, embedding levels
//! and the runs they form, and line break classes and the opportunities
//! between neighbouring characters.

use vstd::prelude::*;
use std::collections::HashMap;
use crate::error::Result;
use crate::text::{str_chars, push_char};

verus! {

/// Glyph flags
#[derive(Debug, Clone, Copy, PartialEq, Eq, Structural)]
pub struct GlyphFlags {
    /// Is ligature
    pub is_ligature: bool,
    /// Is mark
    pub is_mark: bool,
    /// Is base
    pub is_base: bool,
    /// Is combining
    pub is_combining: bool,
}

/// Text direction
#[derive(Debug, Clone, Copy, PartialEq, Eq, Structural)]
pub enum TextDirection {
    /// Left to right
    LeftToRight,
    /// Right to left
    RightToLeft,
    /// Top to bottom
    TopToBottom,
    /// Bottom to top
    BottomToTop,
}

/// Bidirectional class
#[derive(Debug, Clone, Copy, PartialEq, Eq, Structural)]
pub enum BidiClass {
    /// Left to right
    L,
    /// Right to left
    R,
    /// Arabic letter
    AL,
    /// European number
    EN,
    /// European separator
    ES,
    /// European terminator
    ET,
    /// Arabic number
    AN,
    /// Common separator
    CS,
    /// Non-spacing mark
    NSM,
    /// Boundary neutral
    BN,
    /// Paragraph separator
    B,
    /// Segment separator
    S,
    /// Whitespace
    WS,
    /// Other neutral
    ON,
}

/// Bidirectional run
#[derive(Debug)]
pub struct BidirectionalRun {
    /// Text content
    pub text: String,
    /// Text direction
    pub direction: TextDirection,
    /// Embedding level
    pub embedding_level: u8,
    /// Start index
    pub start_index: usize,
    /// End index
    pub end_index: usize,
}

/// Isolate
#[derive(Debug, Clone, Copy, PartialEq, Eq, Structural)]
pub struct Isolate {
    /// Start index
    pub start: usize,
    /// End index
    pub end: usize,
    /// Embedding level
    pub embedding_level: u8,
    /// Direction
    pub direction: TextDirection,
}

/// Unicode bidirectional algorithm
pub struct UnicodeBidiAlgorithm {
    /// Embedding levels
    embedding_levels: Vec<u8>,
    /// Direction overrides
    direction_overrides: Vec<Option<TextDirection>>,
    /// Isolates
    isolates: Vec<Isolate>,
}

/// Bidirectional text processor
pub struct BidirectionalProcessor {
    /// Unicode bidirectional algorithm
    bidi_algorithm: UnicodeBidiAlgorithm,
    /// Direction overrides
    direction_overrides: HashMap<usize, TextDirection>,
}

/// Line break class
#[derive(Debug, Clone, Copy, PartialEq, Eq, Structural)]
pub enum LineBreakClass {
    /// Mandatory break
    BK,
    /// Carriage return
    CR,
    /// Line feed
    LF,
    /// Next line
    NL,
    /// Space
    SP,
    /// Word joiner
    WJ,
    /// Zero width space
    ZW,
    /// Zero width joiner
    ZWJ,
    /// Non-breaking glue
    GL,
    /// Break opportunity before and after
    BA,
    /// Break opportunity after
    BB,
    /// Break opportunity before
    HY,
    /// Hangul LV syllable
    H2,
    /// Hangul LVT syllable
    H3,
    /// Close punctuation
    CL,
    /// Close parenthesis
    CP,
    /// Exclamation or interrogation
    EX,
    /// Inseparable
    IN,
    /// Nonstarter
    NS,
    /// Open punctuation
    OP,
    /// Quotation
    QU,
    /// Infix numeric separator
    IS,
    /// Numeric
    NU,
    /// Postfix numeric
    PO,
    /// Prefix numeric
    PR,
    /// Symbols allowing break after
    SY,
    /// Ambiguous
    AI,
    /// Alphabetic
    AL,
    /// Conditional Japanese starter
    CJ,
    /// Hebrew letter
    HL,
    /// Ideographic
    ID,
    /// Inseparable characters
    IN2,
    /// Hangul L jamo
    JL,
    /// Hangul V jamo
    JV,
    /// Hangul T jamo
    JT,
    /// Regional indicator
    RI,
    /// Complex context dependent
    SA,
    /// Surrogate
    SG,
    /// Space, second kind
    SP2,
    /// Unknown
    XX,
}

/// Line break type
#[derive(Debug, Clone, Copy, PartialEq, Eq, Structural)]
pub enum LineBreakType {
    /// Mandatory break
    Mandatory,
    /// Optional break
    Optional,
    /// Prohibited break
    Prohibited,
}

/// Line break priority
#[derive(Debug, Clone, Copy, PartialEq, Eq, Structural)]
pub enum LineBreakPriority {
    /// High priority
    High,
    /// Medium priority
    Medium,
    /// Low priority
    Low,
}

/// Line break opportunity
#[derive(Debug, Clone, Copy, PartialEq, Eq, Structural)]
pub struct LineBreakOpportunity {
    /// Position
    pub position: usize,
    /// Break type
    pub break_type: LineBreakType,
    /// Priority
    pub priority: LineBreakPriority,
}

/// Line break action
#[derive(Debug, Clone, Copy, PartialEq, Eq, Structural)]
pub enum LineBreakAction {
    /// Break
    Break,
    /// No break
    NoBreak,
    /// Break before
    BreakBefore,
    /// Break after
    BreakAfter,
}

/// Tailored rule
#[derive(Debug, Clone)]
pub struct TailoredRule {
    /// Rule pattern
    pub pattern: Vec<LineBreakClass>,
    /// Action
    pub action: LineBreakAction,
    /// Priority
    pub priority: u32,
}

/// Unicode line breaking algorithm
pub struct UnicodeLineBreakingAlgorithm {
    /// Line break classes
    break_classes: Vec<LineBreakClass>,
    /// Line break opportunities
    opportunities: Vec<LineBreakOpportunity>,
    /// Tailored rules
    tailored_rules: Vec<TailoredRule>,
}

/// Line breaker
pub struct LineBreaker {
    /// Unicode line breaking algorithm
    pub line_breaking_algorithm: UnicodeLineBreakingAlgorithm,
    /// Line breaking opportunities
    pub breaking_opportunities: Vec<LineBreakOpportunity>,
}

/// The line break class of a character: line feed, carriage return, space
/// and tab, ASCII letters and digits, and a few punctuation marks; every
/// other character is of unknown class.
pub open spec fn line_break_class(c: char) -> LineBreakClass {
    if c == '\n' {
        LineBreakClass::LF
    } else if c == '\r' {
        LineBreakClass::CR
    } else if c == ' ' || c == '\t' {
        LineBreakClass::SP
    } else if ('A' <= c && c <= 'Z') || ('a' <= c && c <= 'z') {
        LineBreakClass::AL
    } else if '0' <= c && c <= '9' {
        LineBreakClass::NU
    } else if c == '.' || c == ',' {
        LineBreakClass::IS
    } else if c == '!' || c == '?' {
        LineBreakClass::EX
    } else if c == '(' || c == '[' || c == '{' {
        LineBreakClass::OP
    } else if c == ')' || c == ']' || c == '}' {
        LineBreakClass::CL
    } else if c == '-' {
        LineBreakClass::HY
    } else {
        LineBreakClass::XX
    }
}

/// The break between two neighbouring classes: mandatory after a line feed
/// or a carriage return, optional after a space and before a space that
/// follows a letter, a number, a separator, an exclamation or a closing
/// mark, and prohibited otherwise.
pub open spec fn break_between(current: LineBreakClass, next: LineBreakClass) -> LineBreakType {
    match current {
        LineBreakClass::LF | LineBreakClass::CR => LineBreakType::Mandatory,
        LineBreakClass::SP => LineBreakType::Optional,
        LineBreakClass::AL | LineBreakClass::NU | LineBreakClass::IS | LineBreakClass::EX | LineBreakClass::CL => {
            if next is SP {
                LineBreakType::Optional
            } else {
                LineBreakType::Prohibited
            }
        },
        _ => LineBreakType::Prohibited,
    }
}

/// The priority of a break: mandatory breaks first, then optional ones.
pub open spec fn break_priority(t: LineBreakType) -> LineBreakPriority {
    match t {
        LineBreakType::Mandatory => LineBreakPriority::High,
        LineBreakType::Optional => LineBreakPriority::Medium,
        LineBreakType::Prohibited => LineBreakPriority::Low,
    }
}

/// The opportunities between the first `k` pairs of neighbours: for each
/// pair whose break is not prohibited, a break before the second of them.
pub open spec fn break_opportunities(classes: Seq<LineBreakClass>, k: nat) -> Seq<LineBreakOpportunity>
    decreases k,
{
    if k == 0 {
        Seq::empty()
    } else {
        let before = break_opportunities(classes, (k - 1) as nat);
        let t = break_between(classes[k - 1], classes[k as int]);
        if t is Prohibited {
            before
        } else {
            before.push(LineBreakOpportunity { position: k as usize, break_type: t, priority: break_priority(t) })
        }
    }
}

/// The position at which to break before `pos`: the last opportunity of the
/// list at or before it, or `pos` itself where there is none.
pub open spec fn best_break(ops: Seq<LineBreakOpportunity>, pos: usize) -> usize
    decreases ops.len(),
{
    if ops.len() == 0 {
        pos
    } else if ops.last().position <= pos {
        ops.last().position
    } else {
        best_break(ops.drop_last(), pos)
    }
}

/// The bidirectional class of a character, from the letters and digits of
/// Latin, the Hebrew letters, the Arabic letters and ASCII white space; every
/// other character counts as left to right.
pub open spec fn bidi_class(c: char) -> BidiClass {
    if ('A' <= c && c <= 'Z') || ('a' <= c && c <= 'z') || ('0' <= c && c <= '9') {
        BidiClass::L
    } else if '\u{05D0}' <= c && c <= '\u{05EA}' {
        BidiClass::R
    } else if '\u{0627}' <= c && c <= '\u{064A}' {
        BidiClass::AL
    } else if c == ' ' || c == '\t' || c == '\n' {
        BidiClass::WS
    } else {
        BidiClass::L
    }
}

/// The embedding level of a class: right-to-left classes one level above
/// the paragraph's, every other class at the paragraph's level.
pub open spec fn class_level(c: BidiClass) -> u8 {
    if c is R || c is AL {
        1
    } else {
        0
    }
}

/// The direction of an embedding level: even levels run left to right.
pub open spec fn level_direction(level: u8) -> TextDirection {
    if level % 2 == 0 {
        TextDirection::LeftToRight
    } else {
        TextDirection::RightToLeft
    }
}

/// A run holds the characters from its start to its end, all at its level,
/// and the character after it, if any, is at another level.
pub open spec fn run_fits(chars: Seq<char>, levels: Seq<u8>, r: BidirectionalRun) -> bool {
    &&& r.start_index < r.end_index <= chars.len()
    &&& r.text@ == chars.subrange(r.start_index as int, r.end_index as int)
    &&& r.embedding_level == levels[r.start_index as int]
    &&& r.direction == level_direction(r.embedding_level)
    &&& forall|i: int| r.start_index <= i < r.end_index ==> #[trigger] levels[i] == r.embedding_level
    &&& r.end_index < chars.len() ==> levels[r.end_index as int] != r.embedding_level
}

/// The runs cover the first `upto` characters, each one starting where the
/// one before ends.
pub open spec fn runs_cover(chars: Seq<char>, levels: Seq<u8>, runs: Seq<BidirectionalRun>, upto: int) -> bool {
    &&& (runs.len() == 0 <==> upto == 0)
    &&& runs.len() > 0 ==> runs[0].start_index == 0 && runs.last().end_index == upto
    &&& forall|k: int| 0 <= k < runs.len() ==> run_fits(chars, levels, #[trigger] runs[k])
    &&& forall|k: int, j: int|
        #![trigger runs[k], runs[j]]
        0 <= k && j == k + 1 && j < runs.len() ==> runs[k].end_index == runs[j].start_index
}

/// The runs of a text: the maximal stretches of characters at one level, in order.
pub open spec fn level_runs(chars: Seq<char>, levels: Seq<u8>, runs: Seq<BidirectionalRun>) -> bool {
    runs_cover(chars, levels, runs, chars.len() as int)
}

/// The embedding levels of a text's characters.
pub open spec fn text_levels(chars: Seq<char>) -> Seq<u8> {
    chars.map_values(|c: char| class_level(bidi_class(c)))
}

/// The texts of the runs, one after another.
pub open spec fn run_texts(runs: Seq<BidirectionalRun>) -> Seq<char>
    decreases runs.len(),
{
    if runs.len() == 0 {
        Seq::empty()
    } else {
        run_texts(runs.drop_last()) + runs.last().text@
    }
}

/// Runs that cover the first `upto` characters hold exactly those
/// characters, in order.
proof fn lemma_cover_texts(chars: Seq<char>, levels: Seq<u8>, runs: Seq<BidirectionalRun>, upto: int)
    requires
        runs_cover(chars, levels, runs, upto),
    ensures
        run_texts(runs) == chars.subrange(0, upto),
    decreases runs.len(),
{
    if runs.len() > 0 {
        let n = runs.len() - 1;
        let last = runs[n];
        let rest = runs.drop_last();
        assert(run_fits(chars, levels, last));
        if n > 0 {
            assert(run_fits(chars, levels, runs[n - 1]));
            assert(runs[n - 1].end_index == runs[n].start_index);
        }
        assert forall|k: int| 0 <= k < rest.len() implies run_fits(chars, levels, #[trigger] rest[k]) by {
            assert(rest[k] == runs[k]);
        }
        assert forall|k: int, j: int|
            #![trigger rest[k], rest[j]]
            0 <= k && j == k + 1 && j < rest.len() implies rest[k].end_index == rest[j].start_index by {
            assert(rest[k] == runs[k]);
            assert(rest[j] == runs[j]);
        }
        lemma_cover_texts(chars, levels, rest, last.start_index as int);
        assert(chars.subrange(0, upto) =~= chars.subrange(0, last.start_index as int) + chars.subrange(
            last.start_index as int,
            upto,
        ));
    }
}

/// The runs of a text, read one after another, give back the text.
pub proof fn lemma_runs_spell_text(chars: Seq<char>, levels: Seq<u8>, runs: Seq<BidirectionalRun>)
    requires
        level_runs(chars, levels, runs),
    ensures
        run_texts(runs) == chars,
{
    lemma_cover_texts(chars, levels, runs, chars.len() as int);
    assert(chars.subrange(0, chars.len() as int) =~= chars);
}

/// Neighbouring runs of a text are at different levels.
pub proof fn lemma_neighbour_runs_differ(chars: Seq<char>, levels: Seq<u8>, runs: Seq<BidirectionalRun>, k: int)
    requires
        level_runs(chars, levels, runs),
        0 <= k < runs.len() - 1,
    ensures
        runs[k].embedding_level != runs[k + 1].embedding_level,
{
    assert(run_fits(chars, levels, runs[k]));
    assert(run_fits(chars, levels, runs[k + 1]));
    assert(runs[k].end_index == runs[k + 1].start_index);
}

/// The opportunities between neighbours come in increasing order of
/// position, each after one of the first `k` characters and before the next,
/// and none of them is a prohibited break.
pub proof fn lemma_break_opportunities_ordered(classes: Seq<LineBreakClass>, k: nat)
    requires
        k < classes.len(),
        k <= usize::MAX,
    ensures
        forall|i: int|
            0 <= i < break_opportunities(classes, k).len() ==> {
                let o = #[trigger] break_opportunities(classes, k)[i];
                &&& 1 <= o.position <= k
                &&& !(o.break_type is Prohibited)
                &&& o.priority == break_priority(o.break_type)
            },
        forall|i: int, j: int|
            0 <= i < j < break_opportunities(classes, k).len() ==> (#[trigger] break_opportunities(classes, k)[i]).position
                < (#[trigger] break_opportunities(classes, k)[j]).position,
    decreases k,
{
    if k > 0 {
        lemma_break_opportunities_ordered(classes, (k - 1) as nat);
        let before = break_opportunities(classes, (k - 1) as nat);
        let now = break_opportunities(classes, k);
        assert forall|i: int| 0 <= i < before.len() implies (#[trigger] before[i]).position <= k - 1 by {}
        assert forall|i: int| 0 <= i < now.len() implies {
            let o = #[trigger] now[i];
            &&& 1 <= o.position <= k
            &&& !(o.break_type is Prohibited)
            &&& o.priority == break_priority(o.break_type)
        } by {
            if i < before.len() {
                assert(now[i] == before[i]);
            }
        }
        assert forall|i: int, j: int| 0 <= i < j < now.len() implies (#[trigger] now[i]).position
            < (#[trigger] now[j]).position by {
            if j < before.len() {
                assert(now[i] == before[i]);
                assert(now[j] == before[j]);
            } else {
                assert(now[i] == before[i]);
            }
        }
    }
}

/// An opportunity is found before position `m` exactly when the break
/// between the neighbours there is not prohibited, and it is that break.
proof fn lemma_opportunity_at(classes: Seq<LineBreakClass>, k: nat, m: nat)
    requires
        1 <= m <= k,
        k < classes.len(),
        k <= usize::MAX,
    ensures
        ({
            let t = break_between(classes[m - 1], classes[m as int]);
            let ops = break_opportunities(classes, k);
            &&& !(t is Prohibited) ==> ops.contains(
                LineBreakOpportunity { position: m as usize, break_type: t, priority: break_priority(t) },
            )
            &&& t is Prohibited ==> forall|i: int| 0 <= i < ops.len() ==> (#[trigger] ops[i]).position != m
        }),
    decreases k,
{
    let before = break_opportunities(classes, (k - 1) as nat);
    let ops = break_opportunities(classes, k);
    if m < k {
        lemma_opportunity_at(classes, (k - 1) as nat, m);
        let t = break_between(classes[m - 1], classes[m as int]);
        if !(t is Prohibited) {
            let o = LineBreakOpportunity { position: m as usize, break_type: t, priority: break_priority(t) };
            let i = choose|i: int| 0 <= i < before.len() && before[i] == o;
            assert(ops[i] == o);
        } else {
            assert forall|i: int| 0 <= i < ops.len() implies (#[trigger] ops[i]).position != m by {
                if i < before.len() {
                    assert(ops[i] == before[i]);
                }
            }
        }
    } else {
        lemma_break_opportunities_ordered(classes, (k - 1) as nat);
        assert forall|i: int| 0 <= i < before.len() implies (#[trigger] before[i]).position != m by {
            assert(before[i].position <= k - 1);
        }
        let t = break_between(classes[m - 1], classes[m as int]);
        if !(t is Prohibited) {
            assert(ops[ops.len() - 1] == LineBreakOpportunity { position: m as usize, break_type: t, priority: break_priority(t) });
        } else {
            assert(ops == before);
        }
    }
}

/// An ASCII letter or digit.
pub open spec fn letter_or_digit(c: char) -> bool {
    ('A' <= c && c <= 'Z') || ('a' <= c && c <= 'z') || ('0' <= c && c <= '9')
}

/// Where a text may break: before a space or tab that follows a letter, a
/// digit, a comma or full stop, an exclamation or question mark or a closing
/// bracket, and before whatever follows a space or tab, optionally at medium
/// priority; after a line feed or carriage return, mandatorily at high
/// priority; and never between two letters or digits.
pub proof fn lemma_breaks_around_spaces(text: Seq<char>, m: int)
    requires
        1 <= m < text.len(),
        text.len() <= usize::MAX,
    ensures
        ({
            let ops = break_opportunities(text.map_values(|c: char| line_break_class(c)), (text.len() - 1) as nat);
            let optional = LineBreakOpportunity {
                position: m as usize,
                break_type: LineBreakType::Optional,
                priority: LineBreakPriority::Medium,
            };
            let prev = text[m - 1];
            &&& (text[m] == ' ' || text[m] == '\t') && (letter_or_digit(prev) || prev == ',' || prev == '.' || prev
                == '!' || prev == '?' || prev == ')' || prev == ']' || prev == '}') ==> ops.contains(optional)
            &&& (prev == ' ' || prev == '\t') ==> ops.contains(optional)
            &&& (prev == '\n' || prev == '\r') ==> ops.contains(
                LineBreakOpportunity {
                    position: m as usize,
                    break_type: LineBreakType::Mandatory,
                    priority: LineBreakPriority::High,
                },
            )
            &&& letter_or_digit(prev) && letter_or_digit(text[m]) ==> forall|i: int|
                0 <= i < ops.len() ==> (#[trigger] ops[i]).position != m
        }),
{
    let classes = text.map_values(|c: char| line_break_class(c));
    assert(classes[m - 1] == line_break_class(text[m - 1]));
    assert(classes[m] == line_break_class(text[m]));
    lemma_opportunity_at(classes, (text.len() - 1) as nat, m as nat);
}

impl UnicodeBidiAlgorithm {
    /// Whether no levels, overrides or isolates are held.
    pub closed spec fn is_clear(&self) -> bool {
        self.embedding_levels@.len() == 0 && self.direction_overrides@.len() == 0 && self.isolates@.len() == 0
    }

    /// Create new Unicode bidirectional algorithm
    pub fn new() -> (r: Self)
        ensures
            r.is_clear(),
    {
        Self { embedding_levels: Vec::new(), direction_overrides: Vec::new(), isolates: Vec::new() }
    }

    /// Compute embedding levels: right-to-left characters one level above
    /// the others; the base direction leaves the levels as they are.
    pub fn compute_embedding_levels(&mut self, bidi_classes: &[BidiClass], base_direction: TextDirection) -> (r:
        Result<Vec<u8>>)
        ensures
            r matches Ok(levels) && levels@ == bidi_classes@.map_values(|c: BidiClass| class_level(c)),
    {
        let mut embedding_levels: Vec<u8> = Vec::new();
        let current_level: u8 = 0;
        let mut i: usize = 0;
        while i < bidi_classes.len()
            invariant
                i <= bidi_classes@.len(),
                current_level == 0,
                embedding_levels@ == bidi_classes@.take(i as int).map_values(|c: BidiClass| class_level(c)),
            decreases bidi_classes@.len() - i,
        {
            let level: u8 = match bidi_classes[i] {
                BidiClass::L => current_level,
                BidiClass::R | BidiClass::AL => current_level + 1,
                BidiClass::EN | BidiClass::AN => current_level,
                BidiClass::WS | BidiClass::CS | BidiClass::ES | BidiClass::ET => current_level,
                _ => current_level,
            };
            embedding_levels.push(level);
            assert(bidi_classes@.take(i + 1).map_values(|c: BidiClass| class_level(c)) =~= bidi_classes@.take(
                i as int,
            ).map_values(|c: BidiClass| class_level(c)).push(class_level(bidi_classes@[i as int])));
            i = i + 1;
        }
        assert(bidi_classes@.take(bidi_classes@.len() as int) =~= bidi_classes@);
        Ok(embedding_levels)
    }
}

impl BidirectionalProcessor {
    /// Whether the processor holds no overrides and its algorithm is clear.
    pub closed spec fn is_clear(&self) -> bool {
        self.bidi_algorithm.is_clear() && self.direction_overrides@.len() == 0
    }

    /// Create new bidirectional processor
    pub fn new() -> (r: Self)
        ensures
            r.is_clear(),
    {
        Self { bidi_algorithm: UnicodeBidiAlgorithm::new(), direction_overrides: HashMap::new() }
    }

    /// Process bidirectional text: the text cut into runs of one embedding
    /// level, right-to-left letters one level above the rest.
    pub fn process_bidirectional_text(&mut self, text: &str, base_direction: TextDirection) -> (r: Result<
        Vec<BidirectionalRun>,
    >)
        ensures
            r matches Ok(runs) && level_runs(text@, text_levels(text@), runs@),
    {
        let chars = str_chars(text);
        let mut bidi_classes: Vec<BidiClass> = Vec::new();
        let mut i: usize = 0;
        while i < chars.len()
            invariant
                i <= chars@.len(),
                chars@ == text@,
                bidi_classes@ == chars@.take(i as int).map_values(|c: char| bidi_class(c)),
            decreases chars@.len() - i,
        {
            let bidi = self.get_bidi_class(chars[i]);
            bidi_classes.push(bidi);
            assert(chars@.take(i + 1).map_values(|c: char| bidi_class(c)) =~= chars@.take(i as int).map_values(
                |c: char| bidi_class(c),
            ).push(bidi_class(chars@[i as int])));
            i = i + 1;
        }
        assert(chars@.take(chars@.len() as int) =~= chars@);
        let embedding_levels = match self.bidi_algorithm.compute_embedding_levels(
            bidi_classes.as_slice(),
            base_direction,
        ) {
            Ok(levels) => levels,
            Err(e) => return Err(e),
        };
        assert(embedding_levels@ =~= text_levels(text@));
        self.create_bidirectional_runs(chars.as_slice(), embedding_levels.as_slice())
    }

    /// Get bidirectional class for character
    fn get_bidi_class(&self, ch: char) -> (r: BidiClass)
        ensures
            r == bidi_class(ch),
    {
        if ('A' <= ch && ch <= 'Z') || ('a' <= ch && ch <= 'z') || ('0' <= ch && ch <= '9') {
            BidiClass::L
        } else if '\u{05D0}' <= ch && ch <= '\u{05EA}' {
            BidiClass::R
        } else if '\u{0627}' <= ch && ch <= '\u{064A}' {
            BidiClass::AL
        } else if ch == ' ' || ch == '\t' || ch == '\n' {
            BidiClass::WS
        } else {
            BidiClass::L
        }
    }

    /// Create bidirectional runs: a new run wherever the level changes.
    fn create_bidirectional_runs(&self, chars: &[char], embedding_levels: &[u8]) -> (r: Result<
        Vec<BidirectionalRun>,
    >)
        requires
            chars@.len() == embedding_levels@.len(),
        ensures
            r matches Ok(runs) && level_runs(chars@, embedding_levels@, runs@),
    {
        let ghost levels = embedding_levels@;
        let mut runs: Vec<BidirectionalRun> = Vec::new();
        let mut current_text = String::new();
        let mut current_direction = TextDirection::LeftToRight;
        let mut current_level: u8 = 0;
        let mut current_start: usize = 0;
        let mut i: usize = 0;
        while i < chars.len()
            invariant
                chars@.len() == levels.len(),
                levels == embedding_levels@,
                i <= chars@.len(),
                current_start <= i,
                current_direction == level_direction(current_level),
                i == 0 ==> current_text@.len() == 0 && current_level == 0,
                i > 0 ==> current_start < i && current_level == levels[current_start as int],
                current_text@ == chars@.subrange(current_start as int, i as int),
                forall|j: int| current_start <= j < i ==> #[trigger] levels[j] == current_level,
                runs_cover(chars@, levels, runs@, current_start as int),
                runs@.len() > 0 ==> levels[current_start as int] != runs@.last().embedding_level,
            decreases chars@.len() - i,
        {
            let ch = chars[i];
            let level = embedding_levels[i];
            let direction = if level % 2 == 0 {
                TextDirection::LeftToRight
            } else {
                TextDirection::RightToLeft
            };
            if current_direction != direction || current_level != level {
                if !current_text.as_str().is_empty() {
                    let finished = BidirectionalRun {
                        text: current_text,
                        direction: current_direction,
                        embedding_level: current_level,
                        start_index: current_start,
                        end_index: i,
                    };
                    let ghost before = runs@;
                    runs.push(finished);
                    proof {
                        assert(runs@ == before.push(finished));
                        assert(run_fits(chars@, levels, finished));
                        assert forall|k: int, j: int|
                            #![trigger runs@[k], runs@[j]]
                            0 <= k && j == k + 1 && j < runs@.len() implies runs@[k].end_index
                            == runs@[j].start_index by {
                            if j < before.len() {
                                assert(runs@[k] == before[k]);
                                assert(runs@[j] == before[j]);
                            }
                        }
                        assert forall|k: int| 0 <= k < runs@.len() implies run_fits(
                            chars@,
                            levels,
                            #[trigger] runs@[k],
                        ) by {
                            if k < before.len() {
                                assert(runs@[k] == before[k]);
                            }
                        }
                    }
                }
                let mut fresh = String::new();
                push_char(&mut fresh, ch);
                current_text = fresh;
                current_direction = direction;
                current_level = level;
                current_start = i;
            } else {
                push_char(&mut current_text, ch);
            }
            assert(current_text@ =~= chars@.subrange(current_start as int, i + 1));
            i = i + 1;
        }
        if !current_text.as_str().is_empty() {
            let last = BidirectionalRun {
                text: current_text,
                direction: current_direction,
                embedding_level: current_level,
                start_index: current_start,
                end_index: chars.len(),
            };
            let ghost before = runs@;
            runs.push(last);
            proof {
                assert(runs@ == before.push(last));
                assert(run_fits(chars@, levels, last));
                assert forall|k: int, j: int|
                    #![trigger runs@[k], runs@[j]]
                    0 <= k && j == k + 1 && j < runs@.len() implies runs@[k].end_index == runs@[j].start_index by {
                    if j < before.len() {
                        assert(runs@[k] == before[k]);
                        assert(runs@[j] == before[j]);
                    }
                }
                assert forall|k: int| 0 <= k < runs@.len() implies run_fits(chars@, levels, #[trigger] runs@[k]) by {
                    if k < before.len() {
                        assert(runs@[k] == before[k]);
                    }
                }
            }
        }
        Ok(runs)
    }
}

impl UnicodeLineBreakingAlgorithm {
    /// The classes of the text last examined.
    pub closed spec fn classes(&self) -> Seq<LineBreakClass> {
        self.break_classes@
    }

    /// The opportunities found so far, over every text examined.
    pub closed spec fn found(&self) -> Seq<LineBreakOpportunity> {
        self.opportunities@
    }

    /// Create new Unicode line breaking algorithm
    pub fn new() -> (r: Self)
        ensures
            r.classes().len() == 0,
            r.found().len() == 0,
    {
        Self { break_classes: Vec::new(), opportunities: Vec::new(), tailored_rules: Vec::new() }
    }

    /// Get breaking opportunities: those of the text, added to the ones
    /// found before, all of which are returned.
    pub fn get_breaking_opportunities(&mut self, text: &str) -> (r: Result<Vec<LineBreakOpportunity>>)
        requires
            text@.len() > 0,
        ensures
            final(self).classes() == text@.map_values(|c: char| line_break_class(c)),
            final(self).found() == old(self).found() + break_opportunities(
                final(self).classes(),
                (text@.len() - 1) as nat,
            ),
            r matches Ok(v) && v@ == final(self).found(),
    {
        self.break_classes = match self.parse_line_break_classes(text) {
            Ok(classes) => classes,
            Err(e) => return Err(e),
        };
        match self.apply_line_breaking_rules() {
            Ok(()) => {},
            Err(e) => return Err(e),
        }
        match self.apply_tailored_rules() {
            Ok(()) => {},
            Err(e) => return Err(e),
        }
        Ok(self.opportunities.clone())
    }

    /// Parse line break classes
    fn parse_line_break_classes(&self, text: &str) -> (r: Result<Vec<LineBreakClass>>)
        ensures
            r matches Ok(classes) && classes@ == text@.map_values(|c: char| line_break_class(c)),
    {
        let chars = str_chars(text);
        let mut classes: Vec<LineBreakClass> = Vec::new();
        let mut i: usize = 0;
        while i < chars.len()
            invariant
                i <= chars@.len(),
                chars@ == text@,
                classes@ == chars@.take(i as int).map_values(|c: char| line_break_class(c)),
            decreases chars@.len() - i,
        {
            let class = self.get_line_break_class(chars[i]);
            classes.push(class);
            assert(chars@.take(i + 1).map_values(|c: char| line_break_class(c)) =~= chars@.take(
                i as int,
            ).map_values(|c: char| line_break_class(c)).push(line_break_class(chars@[i as int])));
            i = i + 1;
        }
        assert(chars@.take(chars@.len() as int) =~= chars@);
        Ok(classes)
    }

    /// Get line break class for character
    fn get_line_break_class(&self, ch: char) -> (r: LineBreakClass)
        ensures
            r == line_break_class(ch),
    {
        if ch == '\n' {
            LineBreakClass::LF
        } else if ch == '\r' {
            LineBreakClass::CR
        } else if ch == ' ' || ch == '\t' {
            LineBreakClass::SP
        } else if ('A' <= ch && ch <= 'Z') || ('a' <= ch && ch <= 'z') {
            LineBreakClass::AL
        } else if '0' <= ch && ch <= '9' {
            LineBreakClass::NU
        } else if ch == '.' || ch == ',' {
            LineBreakClass::IS
        } else if ch == '!' || ch == '?' {
            LineBreakClass::EX
        } else if ch == '(' || ch == '[' || ch == '{' {
            LineBreakClass::OP
        } else if ch == ')' || ch == ']' || ch == '}' {
            LineBreakClass::CL
        } else if ch == '-' {
            LineBreakClass::HY
        } else {
            LineBreakClass::XX
        }
    }

    /// Apply line breaking rules to each pair of neighbouring classes.
    fn apply_line_breaking_rules(&mut self) -> (r: Result<()>)
        requires
            old(self).break_classes@.len() > 0,
        ensures
            r is Ok,
            final(self).break_classes == old(self).break_classes,
            final(self).opportunities@ == old(self).opportunities@ + break_opportunities(
                old(self).break_classes@,
                (old(self).break_classes@.len() - 1) as nat,
            ),
    {
        let ghost start = self.opportunities@;
        let last = self.break_classes.len() - 1;
        let mut i: usize = 0;
        while i < last
            invariant
                i <= last,
                last == self.break_classes@.len() - 1,
                self.break_classes == old(self).break_classes,
                start == old(self).opportunities@,
                self.opportunities@ == start + break_opportunities(self.break_classes@, i as nat),
            decreases last - i,
        {
            let current = self.break_classes[i];
            let next = self.break_classes[i + 1];
            let break_type = match current {
                LineBreakClass::LF | LineBreakClass::CR => LineBreakType::Mandatory,
                LineBreakClass::SP => LineBreakType::Optional,
                LineBreakClass::AL | LineBreakClass::NU | LineBreakClass::IS | LineBreakClass::EX
                | LineBreakClass::CL => match next {
                    LineBreakClass::SP => LineBreakType::Optional,
                    _ => LineBreakType::Prohibited,
                },
                _ => LineBreakType::Prohibited,
            };
            match break_type {
                LineBreakType::Prohibited => {},
                _ => {
                    let priority = match break_type {
                        LineBreakType::Mandatory => LineBreakPriority::High,
                        LineBreakType::Optional => LineBreakPriority::Medium,
                        LineBreakType::Prohibited => LineBreakPriority::Low,
                    };
                    self.opportunities.push(LineBreakOpportunity { position: i + 1, break_type, priority });
                },
            }
            assert(self.opportunities@ =~= start + break_opportunities(self.break_classes@, (i + 1) as nat));
            i = i + 1;
        }
        Ok(())
    }

    /// Apply tailored rules: none are defined, so nothing changes.
    fn apply_tailored_rules(&mut self) -> (r: Result<()>)
        ensures
            r is Ok,
            final(self).break_classes == old(self).break_classes,
            final(self).opportunities == old(self).opportunities,
    {
        Ok(())
    }
}

impl LineBreaker {
    /// Create new line breaker
    pub fn new() -> (r: Self)
        ensures
            r.line_breaking_algorithm.classes().len() == 0,
            r.line_breaking_algorithm.found().len() == 0,
    {
        Self { line_breaking_algorithm: UnicodeLineBreakingAlgorithm::new(), breaking_opportunities: Vec::new() }
    }

    /// Find best break opportunity: the last one at or before the current
    /// position, else the current position itself.
    pub fn find_best_break_opportunity(&self, opportunities: &[LineBreakOpportunity], current_pos: usize) -> (r:
        Result<usize>)
        ensures
            r matches Ok(p) && p == best_break(opportunities@, current_pos),
    {
        let mut j: usize = opportunities.len();
        assert(opportunities@.take(j as int) =~= opportunities@);
        while j > 0
            invariant
                j <= opportunities@.len(),
                best_break(opportunities@, current_pos) == best_break(opportunities@.take(j as int), current_pos),
            decreases j,
        {
            let opportunity = opportunities[j - 1];
            assert(opportunities@.take(j as int).drop_last() =~= opportunities@.take(j - 1));
            if opportunity.position <= current_pos {
                return Ok(opportunity.position);
            }
            j = j - 1;
        }
        Ok(current_pos)
    }
}

} // verus!
