//! Topics and topic patterns.

use vstd::prelude::*;

use crate::text;
use crate::text::CharClass;

verus! {

/// One level of a topic pattern.
#[derive(Debug)]
pub enum Segment {
    /// This level.
    Lit(String),
    /// Any one level, `+`.
    One,
    /// All levels from here on, `#`.
    Multi,
}

/// The contents of a [`Segment`].
#[verifier::ext_equal]
pub enum SegmentView {
    Lit(Seq<char>),
    One,
    Multi,
}

impl View for Segment {
    type V = SegmentView;

    open spec fn view(&self) -> SegmentView {
        match self {
            Segment::Lit(s) => SegmentView::Lit(s@),
            Segment::One => SegmentView::One,
            Segment::Multi => SegmentView::Multi,
        }
    }
}

impl Clone for Segment {
    fn clone(&self) -> (copy: Self)
        ensures
            copy@ == self@,
    {
        match self {
            Segment::Lit(s) => Segment::Lit(s.clone()),
            Segment::One => Segment::One,
            Segment::Multi => Segment::Multi,
        }
    }
}

/// Topic filter that supports `+` (single level) and `#` (multi level)
/// wildcards.
#[derive(Debug)]
pub struct TopicPattern {
    segments: Vec<Segment>,
    device_id_index: Option<usize>,
}

/// Why a text is no topic pattern.
#[derive(Debug)]
pub enum TopicPatternError {
    /// It has no levels.
    Empty,
    /// It has a level without characters. The pattern without the slashes
    /// around it is given.
    EmptySegment(String),
    /// It has a `#` before the last level. The pattern without the slashes
    /// around it is given.
    MultiNotLast(String),
}

/// The ways in which a text is no topic pattern.
pub enum PatternFault {
    Empty,
    EmptySegment,
    MultiNotLast,
}

/// In which way a text is no topic pattern, if it is none. The first level that
/// is at fault decides.
pub open spec fn pattern_fault(raw: Seq<char>) -> Option<PatternFault> {
    let levels = topic_levels(raw);
    if bare_topic(raw).len() == 0 {
        Some(PatternFault::Empty)
    } else {
        match first_bad_level(levels, 0) {
            Some(i) => if levels[i].len() == 0 {
                Some(PatternFault::EmptySegment)
            } else {
                Some(PatternFault::MultiNotLast)
            },
            None => None,
        }
    }
}

impl TopicPatternError {
    /// Whether this is the error of such a fault in `raw`.
    pub open spec fn is_fault(&self, fault: PatternFault, raw: Seq<char>) -> bool {
        match fault {
            PatternFault::Empty => *self is Empty,
            PatternFault::EmptySegment => *self matches TopicPatternError::EmptySegment(s) && s@
                == bare_topic(raw),
            PatternFault::MultiNotLast => *self matches TopicPatternError::MultiNotLast(s) && s@
                == bare_topic(raw),
        }
    }

    pub fn message(&self) -> (s: String)
        ensures
            s@ == (match self {
                TopicPatternError::Empty => "topic pattern must not be empty"@,
                TopicPatternError::EmptySegment(raw) => "topic pattern contains empty segment: '"@
                    + raw@ + "'"@,
                TopicPatternError::MultiNotLast(raw) =>
                    "'#' must be the last segment in topic pattern: '"@ + raw@ + "'"@,
            }),
    {
        match self {
            TopicPatternError::Empty => String::from_str("topic pattern must not be empty"),
            TopicPatternError::EmptySegment(raw) => {
                let mut s = String::from_str("topic pattern contains empty segment: '");
                s.append(raw.as_str());
                s.append("'");
                s
            },
            TopicPatternError::MultiNotLast(raw) => {
                let mut s = String::from_str("'#' must be the last segment in topic pattern: '");
                s.append(raw.as_str());
                s.append("'");
                s
            },
        }
    }
}

/// A topic without the white space around it, and without the slashes around
/// that.
pub open spec fn bare_topic(topic: Seq<char>) -> Seq<char> {
    text::trim_both(text::trimmed(topic), CharClass::Slash)
}

/// The levels of a topic.
pub open spec fn topic_levels(topic: Seq<char>) -> Seq<Seq<char>> {
    text::split_on(bare_topic(topic), '/')
}

/// What a level of a pattern stands for.
pub open spec fn level_segment(level: Seq<char>) -> SegmentView {
    if level == "+"@ {
        SegmentView::One
    } else if level == "#"@ {
        SegmentView::Multi
    } else {
        SegmentView::Lit(level)
    }
}

/// What the levels of a pattern stand for.
pub open spec fn level_segments(levels: Seq<Seq<char>>) -> Seq<SegmentView> {
    levels.map_values(|level: Seq<char>| level_segment(level))
}

/// Whether this level of a pattern makes it no pattern.
pub open spec fn bad_level(levels: Seq<Seq<char>>, i: int) -> bool {
    levels[i].len() == 0 || (levels[i] == "#"@ && i != levels.len() - 1)
}

/// The first level that makes the text no pattern, from level `i` on.
pub open spec fn first_bad_level(levels: Seq<Seq<char>>, i: int) -> Option<int>
    decreases levels.len() - i,
{
    if i < 0 || i >= levels.len() {
        None
    } else if bad_level(levels, i) {
        Some(i)
    } else {
        first_bad_level(levels, i + 1)
    }
}

/// The first `+` among the levels of a pattern, from level `i` on.
pub open spec fn first_plus(levels: Seq<Seq<char>>, i: int) -> Option<int>
    decreases levels.len() - i,
{
    if i < 0 || i >= levels.len() {
        None
    } else if levels[i] == "+"@ {
        Some(i)
    } else {
        first_plus(levels, i + 1)
    }
}

/// Which level of a topic names the device: the first one that is `+` in the
/// pattern, or else the second one of a pattern that starts with `smarthome`.
pub open spec fn device_level(levels: Seq<Seq<char>>) -> Option<nat> {
    match first_plus(levels, 0) {
        Some(i) => Some(i as nat),
        None => if levels.len() >= 2 && levels[0] == "smarthome"@ {
            Some(1)
        } else {
            None
        },
    }
}

/// Whether a pattern matches the levels of a topic. `#` matches any number of
/// levels, also none; `+` one level that has characters.
pub open spec fn pattern_matches(pattern: Seq<SegmentView>, levels: Seq<Seq<char>>) -> bool
    decreases pattern.len(),
{
    if pattern.len() == 0 {
        levels.len() == 0
    } else {
        match pattern[0] {
            SegmentView::Multi => pattern.len() == 1,
            SegmentView::One => levels.len() > 0 && levels[0].len() > 0 && pattern_matches(
                pattern.drop_first(),
                levels.drop_first(),
            ),
            SegmentView::Lit(level) => levels.len() > 0 && levels[0] == level && pattern_matches(
                pattern.drop_first(),
                levels.drop_first(),
            ),
        }
    }
}

/// The contents of some segments.
pub open spec fn segment_views(segments: Seq<Segment>) -> Seq<SegmentView> {
    segments.map_values(|s: Segment| s@)
}

/// A topic without the white space and the slashes around it.
fn trim_topic(topic: &str) -> (r: String)
    ensures
        r@ == bare_topic(topic@),
{
    let trimmed = text::trim(topic, CharClass::Whitespace);
    text::trim(trimmed.as_str(), CharClass::Slash)
}

impl TopicPattern {
    /// The levels of the pattern.
    pub closed spec fn spec_segments(&self) -> Seq<SegmentView> {
        segment_views(self.segments@)
    }

    /// Which level of a topic names the device.
    pub closed spec fn spec_device_level(&self) -> Option<nat> {
        match self.device_id_index {
            Some(i) => Some(i as nat),
            None => None,
        }
    }

    /// Reads a pattern. It fails on a text without levels, and at the first
    /// level that has no characters or is a `#` before the last.
    pub fn new(raw: &str) -> (r: Result<Self, TopicPatternError>)
        ensures
            match pattern_fault(raw@) {
                Some(fault) => r matches Err(e) && e.is_fault(fault, raw@),
                None => {
                    &&& r is Ok
                    &&& r->Ok_0.spec_segments() == level_segments(topic_levels(raw@))
                    &&& r->Ok_0.spec_device_level() == device_level(topic_levels(raw@))
                },
            },
    {
        let bare = trim_topic(raw);
        let ghost levels = topic_levels(raw@);
        if text::chars_of(bare.as_str()).len() == 0 {
            return Err(TopicPatternError::Empty);
        }
        let parts = text::split(bare.as_str(), '/');
        let mut segments: Vec<Segment> = Vec::new();
        let mut device_id_index: Option<usize> = None;
        let mut i: usize = 0;
        proof {
            assert(segment_views(segments@) =~= level_segments(levels).take(0));
        }
        while i < parts.len()
            invariant
                i <= parts@.len(),
                levels == topic_levels(raw@),
                bare@ == bare_topic(raw@),
                bare@.len() > 0,
                text::views(parts@) == levels,
                segment_views(segments@) == level_segments(levels).take(i as int),
                first_bad_level(levels, 0) == first_bad_level(levels, i as int),
                device_id_index is None ==> first_plus(levels, 0) == first_plus(levels, i as int),
                device_id_index matches Some(k) ==> first_plus(levels, 0) == Some(k as int),
            decreases parts@.len() - i,
        {
            let part = parts[i].as_str();
            let ghost before = segments@;
            proof {
                reveal_strlit("+");
                reveal_strlit("#");
                assert(levels[i as int] == part@);
                assert("+"@[0] != "#"@[0]);
            }
            if text::chars_of(part).len() == 0 {
                return Err(TopicPatternError::EmptySegment(bare));
            }
            if text::same_text(part, "+") {
                if device_id_index.is_none() {
                    device_id_index = Some(i);
                }
                segments.push(Segment::One);
            } else if text::same_text(part, "#") {
                if i != parts.len() - 1 {
                    return Err(TopicPatternError::MultiNotLast(bare));
                }
                segments.push(Segment::Multi);
            } else {
                segments.push(Segment::Lit(String::from_str(part)));
            }
            proof {
                assert(segment_views(segments@) =~= segment_views(before).push(
                    level_segment(levels[i as int]),
                ));
                assert(level_segments(levels).take(i + 1) =~= level_segments(levels).take(
                    i as int,
                ).push(level_segment(levels[i as int])));
            }
            i = i + 1;
        }
        if device_id_index.is_none() && parts.len() >= 2 && text::same_text(
            parts[0].as_str(),
            "smarthome",
        ) {
            device_id_index = Some(1);
        }
        proof {
            assert(levels[0] == parts@[0]@);
            assert(level_segments(levels).take(i as int) =~= level_segments(levels));
        }
        Ok(TopicPattern { segments, device_id_index })
    }

    /// Whether the pattern matches a topic.
    pub fn matches(&self, topic: &str) -> (r: bool)
        ensures
            r == pattern_matches(self.spec_segments(), topic_levels(topic@)),
    {
        let bare = trim_topic(topic);
        let parts = text::split(bare.as_str(), '/');
        let ghost pattern = self.spec_segments();
        let ghost levels = topic_levels(topic@);
        let mut i: usize = 0;
        proof {
            assert(pattern.skip(0) =~= pattern);
            assert(levels.skip(0) =~= levels);
        }
        while i < self.segments.len()
            invariant
                i <= self.segments@.len(),
                i <= parts@.len(),
                pattern == segment_views(self.segments@),
                levels == topic_levels(topic@),
                text::views(parts@) == levels,
                pattern_matches(pattern, levels) == pattern_matches(
                    pattern.skip(i as int),
                    levels.skip(i as int),
                ),
            decreases self.segments@.len() - i,
        {
            proof {
                assert(pattern.skip(i as int)[0] == self.segments@[i as int]@);
                assert(pattern.skip(i as int).drop_first() =~= pattern.skip(i + 1));
                if i < parts@.len() {
                    assert(levels.skip(i as int)[0] == parts@[i as int]@);
                    assert(levels.skip(i as int).drop_first() =~= levels.skip(i + 1));
                }
            }
            match &self.segments[i] {
                Segment::Multi => {
                    return i == self.segments.len() - 1;
                },
                Segment::One => {
                    if i >= parts.len() {
                        return false;
                    }
                    if text::chars_of(parts[i].as_str()).len() == 0 {
                        return false;
                    }
                },
                Segment::Lit(lit) => {
                    if i >= parts.len() {
                        return false;
                    }
                    if !text::same_text(parts[i].as_str(), lit.as_str()) {
                        return false;
                    }
                },
            }
            i = i + 1;
        }
        i == parts.len()
    }

    /// The level of a topic that names the device, if the topic has it.
    pub fn device_id_from_topic<'a>(&self, topic: &'a str) -> (id: Option<&'a str>)
        ensures
            match self.spec_device_level() {
                Some(i) => if i < topic_levels(topic@).len() {
                    id matches Some(s) && s@ == topic_levels(topic@)[i as int]
                } else {
                    id is None
                },
                None => id is None,
            },
    {
        let wanted: usize = match self.device_id_index {
            Some(i) => i,
            None => {
                return None;
            },
        };
        let cs = text::chars_of(topic);
        let (lo, hi) = text::trim_range(&cs, 0, cs.len(), CharClass::Whitespace);
        let (lo, hi) = text::trim_range(&cs, lo, hi, CharClass::Slash);
        proof {
            assert(cs@.subrange(0, cs@.len() as int) =~= topic@);
        }
        match text::piece_range(&cs, lo, hi, '/', wanted) {
            Some((start, end)) => Some(topic.substring_char(start, end)),
            None => None,
        }
    }
}

/// A pattern without wildcards matches the topics with its own levels, and no
/// others.
pub proof fn law_literal_pattern_matches_only_itself(
    literals: Seq<Seq<char>>,
    levels: Seq<Seq<char>>,
)
    ensures
        pattern_matches(
            literals.map_values(|l: Seq<char>| SegmentView::Lit(l)),
            levels,
        ) <==> levels == literals,
    decreases literals.len(),
{
    let pattern = literals.map_values(|l: Seq<char>| SegmentView::Lit(l));
    if literals.len() == 0 {
        assert(levels.len() == 0 ==> levels =~= literals);
    } else {
        assert(pattern.drop_first() =~= literals.drop_first().map_values(
            |l: Seq<char>| SegmentView::Lit(l),
        ));
        if levels.len() > 0 {
            law_literal_pattern_matches_only_itself(literals.drop_first(), levels.drop_first());
            if levels[0] == literals[0] && levels.drop_first() == literals.drop_first() {
                assert(levels =~= seq![levels[0]] + levels.drop_first());
                assert(literals =~= seq![literals[0]] + literals.drop_first());
            }
        }
    }
}

/// Whether `#` occurs in a pattern only as its last level.
pub open spec fn multi_only_last(pattern: Seq<SegmentView>) -> bool {
    forall|i: int| 0 <= i < pattern.len() - 1 ==> !(#[trigger] pattern[i] is Multi)
}

/// A topic that a pattern matches has a level with characters wherever the
/// pattern has `+`: if a `+` names the device, the device has a name.
pub proof fn law_matched_topic_names_the_device(
    pattern: Seq<SegmentView>,
    levels: Seq<Seq<char>>,
    at: int,
)
    requires
        multi_only_last(pattern),
        0 <= at < pattern.len(),
        pattern[at] is One,
        pattern_matches(pattern, levels),
    ensures
        at < levels.len(),
        levels[at].len() > 0,
    decreases pattern.len(),
{
    let rest = pattern.drop_first();
    if at > 0 {
        assert(!(pattern[0] is Multi));
        assert(rest[at - 1] == pattern[at]);
        assert forall|i: int| 0 <= i < rest.len() - 1 implies !(#[trigger] rest[i] is Multi) by {
            assert(rest[i] == pattern[i + 1]);
        }
        law_matched_topic_names_the_device(rest, levels.drop_first(), at - 1);
        assert(levels.drop_first()[at - 1] == levels[at]);
    }
}

/// Every pattern that [`TopicPattern::new`] takes has `#` only as its last
/// level.
pub proof fn law_accepted_pattern_has_multi_last(levels: Seq<Seq<char>>)
    requires
        first_bad_level(levels, 0) is None,
    ensures
        multi_only_last(level_segments(levels)),
{
    assert forall|i: int| 0 <= i < levels.len() - 1 implies !(#[trigger] level_segments(
        levels,
    )[i] is Multi) by {
        lemma_no_bad_level(levels, 0, i);
    }
}

proof fn lemma_no_bad_level(levels: Seq<Seq<char>>, from: int, i: int)
    requires
        0 <= from <= i < levels.len(),
        first_bad_level(levels, from) is None,
    ensures
        !bad_level(levels, i),
    decreases i - from,
{
    if from < i {
        lemma_no_bad_level(levels, from + 1, i);
    }
}

/// Slashes around a topic that has no white space around it make no
/// difference.
pub proof fn law_slashes_around_a_topic_are_ignored(topic: Seq<char>)
    requires
        text::trimmed(topic) == topic,
    ensures
        topic_levels(seq!['/'] + topic + seq!['/']) == topic_levels(topic),
        topic_levels(seq!['/'] + topic) == topic_levels(topic),
        topic_levels(topic.push('/')) == topic_levels(topic),
{
    let class = CharClass::Slash;
    let white = CharClass::Whitespace;
    let a = seq!['/'] + topic;
    let b = topic.push('/');
    let c = seq!['/'] + topic + seq!['/'];
    assert(c =~= a.push('/'));
    assert(a.drop_first() =~= topic);
    lemma_trim_push(topic, class, '/');
    lemma_trim_push(a, class, '/');
    lemma_untrimmed(topic, white);
    assert(text::trimmed(a) == a) by {
        if topic.len() > 0 {
            assert(a.last() == topic.last());
        }
    }
    assert(text::trimmed(b) == b) by {
        assert(topic.len() > 0 ==> b[0] == topic[0]);
    }
    assert(text::trimmed(c) == c);
}

/// A text that trimming leaves as it is begins and ends with other characters.
proof fn lemma_untrimmed(s: Seq<char>, class: CharClass)
    requires
        text::trim_both(s, class) == s,
    ensures
        s.len() > 0 ==> !class.spec_has(s[0]) && !class.spec_has(s.last()),
{
    lemma_trim_start_len(s, class);
    lemma_trim_end_len(text::trim_start(s, class), class);
    if s.len() > 0 && class.spec_has(s[0]) {
        lemma_trim_start_len(s.drop_first(), class);
    }
    if s.len() > 0 && class.spec_has(s.last()) && !class.spec_has(s[0]) {
        lemma_trim_end_len(s.drop_last(), class);
    }
}

proof fn lemma_trim_start_len(s: Seq<char>, class: CharClass)
    ensures
        text::trim_start(s, class).len() <= s.len(),
    decreases s.len(),
{
    if s.len() > 0 {
        lemma_trim_start_len(s.drop_first(), class);
    }
}

proof fn lemma_trim_end_len(s: Seq<char>, class: CharClass)
    ensures
        text::trim_end(s, class).len() <= s.len(),
    decreases s.len(),
{
    if s.len() > 0 {
        lemma_trim_end_len(s.drop_last(), class);
    }
}

/// A character of the class at the end makes no difference to trimming.
proof fn lemma_trim_push(s: Seq<char>, class: CharClass, c: char)
    requires
        class.spec_has(c),
    ensures
        text::trim_both(s.push(c), class) == text::trim_both(s, class),
    decreases s.len(),
{
    let t = s.push(c);
    if s.len() == 0 {
        assert(t.drop_first() =~= s);
    } else if class.spec_has(s[0]) {
        assert(t.drop_first() =~= s.drop_first().push(c));
        lemma_trim_push(s.drop_first(), class, c);
    } else {
        assert(t.drop_last() =~= s);
    }
}

/// A pattern takes a topic level by level: a literal takes that level, a plus sign
/// any level that is not empty, and a number sign at the end all that is left,
/// even nothing. Without one, the topic has as many levels as the pattern.
pub proof fn law_patterns_match_level_by_level(
    pattern: Seq<SegmentView>,
    levels: Seq<Seq<char>>,
)
    requires
        multi_only_last(pattern),
    ensures
        ({
            let open = pattern.len() > 0 && pattern.last() is Multi;
            let fixed = if open {
                pattern.len() - 1
            } else {
                pattern.len() as int
            };
            pattern_matches(pattern, levels) <==> {
                &&& if open {
                    levels.len() >= fixed
                } else {
                    levels.len() == fixed
                }
                &&& forall|i: int|
                    0 <= i < fixed ==> match #[trigger] pattern[i] {
                        SegmentView::Lit(level) => levels[i] == level,
                        SegmentView::One => levels[i].len() > 0,
                        SegmentView::Multi => false,
                    }
            }
        }),
    decreases pattern.len(),
{
    if pattern.len() > 0 && !(pattern[0] is Multi) {
        let open = pattern.last() is Multi;
        let fixed = if open {
            pattern.len() - 1
        } else {
            pattern.len() as int
        };
        let rest = pattern.drop_first();
        assert forall|i: int| 0 <= i < rest.len() - 1 implies !(#[trigger] rest[i] is Multi) by {
            assert(rest[i] == pattern[i + 1]);
        }
        if levels.len() > 0 {
            let left = levels.drop_first();
            law_patterns_match_level_by_level(rest, left);
            if pattern_matches(pattern, levels) {
                assert forall|i: int| 0 <= i < fixed implies match #[trigger] pattern[i] {
                    SegmentView::Lit(level) => levels[i] == level,
                    SegmentView::One => levels[i].len() > 0,
                    SegmentView::Multi => false,
                } by {
                    if i > 0 {
                        assert(rest[i - 1] == pattern[i]);
                        assert(left[i - 1] == levels[i]);
                    }
                }
            }
            if levels.len() >= fixed && (forall|i: int|
                0 <= i < fixed ==> match #[trigger] pattern[i] {
                    SegmentView::Lit(level) => levels[i] == level,
                    SegmentView::One => levels[i].len() > 0,
                    SegmentView::Multi => false,
                }) {
                assert(fixed > 0);
                assert(match pattern[0] {
                    SegmentView::Lit(level) => levels[0] == level,
                    SegmentView::One => levels[0].len() > 0,
                    SegmentView::Multi => false,
                });
                assert forall|i: int| 0 <= i < fixed - 1 implies match #[trigger] rest[i] {
                    SegmentView::Lit(level) => left[i] == level,
                    SegmentView::One => left[i].len() > 0,
                    SegmentView::Multi => false,
                } by {
                    assert(rest[i] == pattern[i + 1]);
                    assert(left[i] == levels[i + 1]);
                }
            }
        }
    }
}

/// A level that is a plus sign alone stands for one level, one that is a number
/// sign alone for all that follow, and any other for itself.
pub proof fn law_only_lone_signs_are_wildcards(level: Seq<char>)
    ensures
        level_segment(level) is One <==> level.len() == 1 && level[0] == '+',
        level_segment(level) is Multi <==> level.len() == 1 && level[0] == '#',
        level_segment(level) matches SegmentView::Lit(l) ==> l == level,
{
    reveal_strlit("+");
    reveal_strlit("#");
    if level.len() == 1 && level[0] == '+' {
        assert(level =~= "+"@);
    }
    if level.len() == 1 && level[0] == '#' {
        assert(level =~= "#"@);
    }
}

/// A text is a pattern if and only if it has levels, none of them is empty, and a
/// number sign is the last of them.
pub proof fn law_patterns_are_well_formed(raw: Seq<char>)
    ensures
        pattern_fault(raw) is None <==> {
            &&& bare_topic(raw).len() > 0
            &&& forall|i: int|
                0 <= i < topic_levels(raw).len() ==> (#[trigger] topic_levels(raw)[i]).len() > 0
            &&& multi_only_last(level_segments(topic_levels(raw)))
        },
        pattern_fault(raw) == Some(PatternFault::Empty) <==> bare_topic(raw).len() == 0,
        pattern_fault(raw) == Some(PatternFault::EmptySegment) ==> exists|i: int|
            0 <= i < topic_levels(raw).len() && (#[trigger] topic_levels(raw)[i]).len() == 0,
        pattern_fault(raw) == Some(PatternFault::MultiNotLast) ==> !multi_only_last(
            level_segments(topic_levels(raw)),
        ),
{
    let levels = topic_levels(raw);
    let segments = level_segments(levels);
    match first_bad_level(levels, 0) {
        None => {
            law_accepted_pattern_has_multi_last(levels);
            assert forall|i: int| 0 <= i < levels.len() implies (#[trigger] levels[i]).len()
                > 0 by {
                lemma_no_bad_level(levels, 0, i);
            }
        },
        Some(i) => {
            lemma_bad_level(levels, 0);
            law_only_lone_signs_are_wildcards(levels[i]);
            if levels[i].len() > 0 {
                reveal_strlit("#");
                assert(segments[i] is Multi);
            }
        },
    }
}

proof fn lemma_bad_level(levels: Seq<Seq<char>>, from: int)
    requires
        0 <= from,
        first_bad_level(levels, from) is Some,
    ensures
        0 <= first_bad_level(levels, from)->0 < levels.len(),
        bad_level(levels, first_bad_level(levels, from)->0),
    decreases levels.len() - from,
{
    if !bad_level(levels, from) {
        lemma_bad_level(levels, from + 1);
    }
}

/// The level that names the device is the first plus sign. A pattern without one
/// has it behind `smarthome`, if it starts so, and else names no device.
pub proof fn law_first_plus_names_the_device(levels: Seq<Seq<char>>, at: int)
    ensures
        0 <= at < levels.len() && levels[at] == "+"@ && (forall|i: int|
            0 <= i < at ==> #[trigger] levels[i] != "+"@) ==> device_level(levels) == Some(
            at as nat,
        ),
        (forall|i: int| 0 <= i < levels.len() ==> #[trigger] levels[i] != "+"@) ==> {
            &&& device_level(levels) == Some(1nat) <==> levels.len() >= 2 && levels[0]
                == "smarthome"@
            &&& device_level(levels) is None <==> levels.len() < 2 || levels[0] != "smarthome"@
        },
{
    if 0 <= at < levels.len() && levels[at] == "+"@ && (forall|i: int|
        0 <= i < at ==> #[trigger] levels[i] != "+"@) {
        lemma_first_plus(levels, 0, at);
    }
    if forall|i: int| 0 <= i < levels.len() ==> #[trigger] levels[i] != "+"@ {
        lemma_first_plus(levels, 0, levels.len() as int);
    }
}

proof fn lemma_first_plus(levels: Seq<Seq<char>>, from: int, at: int)
    requires
        0 <= from <= at <= levels.len(),
        forall|i: int| from <= i < at ==> #[trigger] levels[i] != "+"@,
        at < levels.len() ==> levels[at] == "+"@,
    ensures
        first_plus(levels, from) == (if at < levels.len() {
            Some(at)
        } else {
            None
        }),
    decreases at - from,
{
    if from < at {
        assert(levels[from] != "+"@);
        lemma_first_plus(levels, from + 1, at);
    }
}

/// A pattern takes its own text as a topic, if it has no wildcards, and no topic
/// of another length.
pub proof fn law_pattern_without_wildcards_takes_itself(
    raw: &str,
    pattern: TopicPattern,
    topic: &str,
    taken: bool,
)
    requires
        call_ensures(
            TopicPattern::new,
            (raw,),
            Ok::<TopicPattern, TopicPatternError>(pattern),
        ),
        call_ensures(TopicPattern::matches, (&pattern, topic), taken),
        forall|i: int|
            0 <= i < topic_levels(raw@).len() ==> #[trigger] topic_levels(raw@)[i] != "+"@
                && topic_levels(raw@)[i] != "#"@,
    ensures
        taken <==> topic_levels(topic@) == topic_levels(raw@),
{
    let levels = topic_levels(raw@);
    law_literal_pattern_matches_only_itself(levels, topic_levels(topic@));
    assert(level_segments(levels) =~= levels.map_values(
        |l: Seq<char>| SegmentView::Lit(l),
    ));
}

/// The device of a topic that a pattern with a plus sign takes is the level that
/// stands there.
pub proof fn law_device_stands_at_the_plus(
    raw: &str,
    pattern: TopicPattern,
    topic: &str,
    id: Option<&str>,
    at: int,
)
    requires
        call_ensures(
            TopicPattern::new,
            (raw,),
            Ok::<TopicPattern, TopicPatternError>(pattern),
        ),
        call_ensures(TopicPattern::matches, (&pattern, topic), true),
        call_ensures(TopicPattern::device_id_from_topic, (&pattern, topic), id),
        0 <= at < topic_levels(raw@).len(),
        topic_levels(raw@)[at] == "+"@,
        forall|i: int| 0 <= i < at ==> #[trigger] topic_levels(raw@)[i] != "+"@,
    ensures
        id matches Some(s) && s@ == topic_levels(topic@)[at] && s@.len() > 0,
{
    let levels = topic_levels(raw@);
    law_first_plus_names_the_device(levels, at);
    law_patterns_are_well_formed(raw@);
    law_matched_topic_names_the_device(level_segments(levels), topic_levels(topic@), at);
}

/// A pattern that ends with a number sign takes every topic that starts with the
/// levels before it, however it goes on.
pub proof fn law_number_sign_takes_all_that_follows(
    levels: Seq<Seq<char>>,
    more: Seq<Seq<char>>,
)
    ensures
        pattern_matches(
            levels.map_values(|l: Seq<char>| SegmentView::Lit(l)).push(SegmentView::Multi),
            levels + more,
        ),
{
    let pattern = levels.map_values(|l: Seq<char>| SegmentView::Lit(l)).push(SegmentView::Multi);
    law_patterns_match_level_by_level(pattern, levels + more);
}

/// Whitespace around a topic or a pattern is ignored, and so is what stands around
/// the slashes that are.
pub proof fn law_whitespace_around_a_topic_is_ignored(topic: Seq<char>)
    ensures
        topic_levels(text::trimmed(topic)) == topic_levels(topic),
        bare_topic(topic).len() > 0 ==> bare_topic(topic)[0] != '/' && bare_topic(topic).last()
            != '/',
{
    text::law_trim_idempotent(topic, CharClass::Whitespace);
    text::lemma_trim_ends(text::trimmed(topic), CharClass::Slash);
}

} // verus!
