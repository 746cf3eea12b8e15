//! Telling a layer's role from the name of its file.
//!
//! A detector holds an ordered table of rules. A rule names a pattern and a
//! layer type; it matches a filename when the pattern occurs anywhere in
//! the filename, letter case of the filename aside. The first rule that
//! matches decides. A filename that no rule matches has no role: the
//! detector never guesses.

use crate::layer::{LayerType, Side};
use vstd::prelude::*;
use vstd::string::*;

verus! {

/// One detection rule: filenames that contain `pattern` are of `layer_type`.
/// Patterns are written in lower case.
#[derive(Clone, Debug)]
pub struct DetectionRule {
    pub pattern: String,
    pub layer_type: LayerType,
}

/// An ordered table of detection rules.
#[derive(Clone, Debug)]
pub struct LayerDetector {
    pub rules: Vec<DetectionRule>,
}

/// `c` with an upper-case ASCII letter replaced by its lower-case form.
pub open spec fn to_lower(c: char) -> char {
    if 'A' <= c && c <= 'Z' {
        ((c as u8) + 32) as char
    } else {
        c
    }
}

/// `s` with every character lowered.
pub open spec fn lowercase(s: Seq<char>) -> Seq<char> {
    Seq::new(s.len(), |i: int| to_lower(s[i]))
}

/// Whether `pattern` stands in `text` starting at index `at`.
pub open spec fn occurs_at(text: Seq<char>, pattern: Seq<char>, at: int) -> bool {
    &&& 0 <= at
    &&& at + pattern.len() <= text.len()
    &&& forall|k: int| 0 <= k < pattern.len() ==> text[at + k] == pattern[k]
}

/// Whether `pattern` occurs somewhere in `text`.
pub open spec fn contains_pattern(text: Seq<char>, pattern: Seq<char>) -> bool {
    exists|at: int| occurs_at(text, pattern, at)
}

/// Whether a rule with `pattern` matches the file called `name`.
pub open spec fn pattern_matches(pattern: Seq<char>, name: Seq<char>) -> bool {
    contains_pattern(lowercase(name), pattern)
}

/// Whether rule `i` of `rules` is the first one that matches `name`.
pub open spec fn is_first_match(rules: Seq<(Seq<char>, LayerType)>, name: Seq<char>, i: int) -> bool {
    &&& 0 <= i < rules.len()
    &&& pattern_matches(rules[i].0, name)
    &&& forall|j: int| 0 <= j < i ==> !pattern_matches(#[trigger] rules[j].0, name)
}

/// What a table of rules makes of `name`: the layer type of the first rule
/// that matches, or nothing when none does.
pub open spec fn spec_detect(rules: Seq<(Seq<char>, LayerType)>, name: Seq<char>) -> Option<
    LayerType,
> {
    if exists|i: int| is_first_match(rules, name, i) {
        Some(rules[choose|i: int| is_first_match(rules, name, i)].1)
    } else {
        None
    }
}

/// The built-in table. KiCad layer names come first (with `_` or `.` as
/// the separator), then board-outline keywords, then Protel extensions.
pub open spec fn default_rules() -> Seq<(Seq<char>, LayerType)> {
    seq![
        ("f_cu"@, LayerType::Copper(1)),
        ("f.cu"@, LayerType::Copper(1)),
        ("b_cu"@, LayerType::Copper(2)),
        ("b.cu"@, LayerType::Copper(2)),
        ("in1_cu"@, LayerType::Copper(3)),
        ("in1.cu"@, LayerType::Copper(3)),
        ("in2_cu"@, LayerType::Copper(4)),
        ("in2.cu"@, LayerType::Copper(4)),
        ("f_silk"@, LayerType::Silkscreen(Side::Top)),
        ("f.silk"@, LayerType::Silkscreen(Side::Top)),
        ("b_silk"@, LayerType::Silkscreen(Side::Bottom)),
        ("b.silk"@, LayerType::Silkscreen(Side::Bottom)),
        ("f_mask"@, LayerType::Soldermask(Side::Top)),
        ("f.mask"@, LayerType::Soldermask(Side::Top)),
        ("b_mask"@, LayerType::Soldermask(Side::Bottom)),
        ("b.mask"@, LayerType::Soldermask(Side::Bottom)),
        ("f_paste"@, LayerType::Paste(Side::Top)),
        ("f.paste"@, LayerType::Paste(Side::Top)),
        ("b_paste"@, LayerType::Paste(Side::Bottom)),
        ("b.paste"@, LayerType::Paste(Side::Bottom)),
        ("edge_cuts"@, LayerType::MechanicalOutline),
        ("edge.cuts"@, LayerType::MechanicalOutline),
        ("outline"@, LayerType::MechanicalOutline),
        (".gtl"@, LayerType::Copper(1)),
        (".gbl"@, LayerType::Copper(2)),
        (".gto"@, LayerType::Silkscreen(Side::Top)),
        (".gbo"@, LayerType::Silkscreen(Side::Bottom)),
        (".gts"@, LayerType::Soldermask(Side::Top)),
        (".gbs"@, LayerType::Soldermask(Side::Bottom)),
        (".gtp"@, LayerType::Paste(Side::Top)),
        (".gbp"@, LayerType::Paste(Side::Bottom)),
        (".gko"@, LayerType::MechanicalOutline),
        (".gm1"@, LayerType::MechanicalOutline),
    ]
}

impl View for DetectionRule {
    type V = (Seq<char>, LayerType);

    open spec fn view(&self) -> (Seq<char>, LayerType) {
        (self.pattern@, self.layer_type)
    }
}

impl View for LayerDetector {
    type V = Seq<(Seq<char>, LayerType)>;

    /// The table as a sequence of patterns with their layer types.
    open spec fn view(&self) -> Seq<(Seq<char>, LayerType)> {
        Seq::new(self.rules@.len(), |i: int| self.rules@[i]@)
    }
}

/// The first matching rule is unique, so it decides what is detected.
pub proof fn lemma_first_match_decides(
    rules: Seq<(Seq<char>, LayerType)>,
    name: Seq<char>,
    i: int,
)
    requires
        is_first_match(rules, name, i),
    ensures
        spec_detect(rules, name) == Some(rules[i].1),
{
    let j = choose|j: int| is_first_match(rules, name, j);
    if j < i {
        assert(!pattern_matches(rules[j].0, name));
    } else if i < j {
        assert(!pattern_matches(rules[i].0, name));
    }
}

/// Where no rule matches, nothing is detected.
pub proof fn lemma_no_match_detects_nothing(rules: Seq<(Seq<char>, LayerType)>, name: Seq<char>)
    requires
        forall|j: int| 0 <= j < rules.len() ==> !pattern_matches(#[trigger] rules[j].0, name),
    ensures
        spec_detect(rules, name).is_none(),
{
    if exists|i: int| is_first_match(rules, name, i) {
        let i = choose|i: int| is_first_match(rules, name, i);
        assert(!pattern_matches(rules[i].0, name));
    }
}

/// Lowers one character.
pub fn lower_char(c: char) -> (lowered: char)
    ensures
        lowered == to_lower(c),
{
    if 'A' <= c && c <= 'Z' {
        ((c as u8) + 32) as char
    } else {
        c
    }
}

/// The characters of `s`, in order.
pub fn chars_of(s: &str) -> (chars: Vec<char>)
    ensures
        chars@ == s@,
{
    let n: usize = s.unicode_len();
    let mut chars: Vec<char> = Vec::new();
    let mut i: usize = 0;
    while i < n
        invariant
            n == s@.len(),
            i <= n,
            chars@ == s@.subrange(0, i as int),
        decreases n - i,
    {
        chars.push(s.get_char(i));
        assert(s@.subrange(0, i as int).push(s@[i as int]) =~= s@.subrange(0, i + 1));
        i = i + 1;
    }
    assert(s@.subrange(0, n as int) =~= s@);
    chars
}

/// The characters of `s`, each lowered.
pub fn lowercase_chars(s: &str) -> (chars: Vec<char>)
    ensures
        chars@ == lowercase(s@),
{
    let plain: Vec<char> = chars_of(s);
    let mut chars: Vec<char> = Vec::new();
    let mut i: usize = 0;
    while i < plain.len()
        invariant
            plain@ == s@,
            i <= plain.len(),
            chars@.len() == i,
            forall|k: int| 0 <= k < i ==> chars@[k] == to_lower(s@[k]),
        decreases plain.len() - i,
    {
        chars.push(lower_char(plain[i]));
        i = i + 1;
    }
    assert(chars@ =~= lowercase(s@));
    chars
}

/// Whether `pattern` stands in `text` at index `at`.
pub fn matches_at(text: &Vec<char>, pattern: &Vec<char>, at: usize) -> (b: bool)
    ensures
        b == occurs_at(text@, pattern@, at as int),
{
    if pattern.len() > text.len() || at > text.len() - pattern.len() {
        return false;
    }
    let mut k: usize = 0;
    while k < pattern.len()
        invariant
            at + pattern.len() <= text.len(),
            k <= pattern.len(),
            forall|m: int| 0 <= m < k ==> text@[at + m] == pattern@[m],
        decreases pattern.len() - k,
    {
        if text[at + k] != pattern[k] {
            return false;
        }
        k = k + 1;
    }
    true
}

/// The first index at which `pattern` occurs in `text`, if it occurs.
pub fn find_pattern(text: &Vec<char>, pattern: &Vec<char>) -> (found: Option<usize>)
    ensures
        match found {
            Some(at) => occurs_at(text@, pattern@, at as int) && forall|j: int|
                0 <= j < at ==> !occurs_at(text@, pattern@, j),
            None => !contains_pattern(text@, pattern@),
        },
{
    if pattern.len() > text.len() {
        return None;
    }
    let last: usize = text.len() - pattern.len();
    let mut at: usize = 0;
    while at <= last
        invariant
            last == text.len() - pattern.len(),
            at <= last + 1,
            forall|j: int| 0 <= j < at ==> !occurs_at(text@, pattern@, j),
        decreases last + 1 - at,
    {
        if matches_at(text, pattern, at) {
            return Some(at);
        }
        at = at + 1;
    }
    None
}

impl DetectionRule {
    pub fn new(pattern: &str, layer_type: LayerType) -> (rule: DetectionRule)
        ensures
            rule@ == (pattern@, layer_type),
    {
        DetectionRule { pattern: pattern.to_owned(), layer_type }
    }

    /// Whether this rule matches the file called `filename`: whether the
    /// pattern occurs in the lowered filename.
    pub fn matches(&self, filename: &str) -> (b: bool)
        ensures
            b == pattern_matches(self.pattern@, filename@),
    {
        let text: Vec<char> = lowercase_chars(filename);
        let pattern: Vec<char> = chars_of(self.pattern.as_str());
        find_pattern(&text, &pattern).is_some()
    }
}

impl LayerDetector {
    /// A detector with the built-in table.
    pub fn new() -> (detector: LayerDetector)
        ensures
            detector@ == default_rules(),
    {
        let mut rules: Vec<DetectionRule> = Vec::new();
        rules.push(DetectionRule::new("f_cu", LayerType::Copper(1)));
        rules.push(DetectionRule::new("f.cu", LayerType::Copper(1)));
        rules.push(DetectionRule::new("b_cu", LayerType::Copper(2)));
        rules.push(DetectionRule::new("b.cu", LayerType::Copper(2)));
        rules.push(DetectionRule::new("in1_cu", LayerType::Copper(3)));
        rules.push(DetectionRule::new("in1.cu", LayerType::Copper(3)));
        rules.push(DetectionRule::new("in2_cu", LayerType::Copper(4)));
        rules.push(DetectionRule::new("in2.cu", LayerType::Copper(4)));
        rules.push(DetectionRule::new("f_silk", LayerType::Silkscreen(Side::Top)));
        rules.push(DetectionRule::new("f.silk", LayerType::Silkscreen(Side::Top)));
        rules.push(DetectionRule::new("b_silk", LayerType::Silkscreen(Side::Bottom)));
        rules.push(DetectionRule::new("b.silk", LayerType::Silkscreen(Side::Bottom)));
        rules.push(DetectionRule::new("f_mask", LayerType::Soldermask(Side::Top)));
        rules.push(DetectionRule::new("f.mask", LayerType::Soldermask(Side::Top)));
        rules.push(DetectionRule::new("b_mask", LayerType::Soldermask(Side::Bottom)));
        rules.push(DetectionRule::new("b.mask", LayerType::Soldermask(Side::Bottom)));
        rules.push(DetectionRule::new("f_paste", LayerType::Paste(Side::Top)));
        rules.push(DetectionRule::new("f.paste", LayerType::Paste(Side::Top)));
        rules.push(DetectionRule::new("b_paste", LayerType::Paste(Side::Bottom)));
        rules.push(DetectionRule::new("b.paste", LayerType::Paste(Side::Bottom)));
        rules.push(DetectionRule::new("edge_cuts", LayerType::MechanicalOutline));
        rules.push(DetectionRule::new("edge.cuts", LayerType::MechanicalOutline));
        rules.push(DetectionRule::new("outline", LayerType::MechanicalOutline));
        rules.push(DetectionRule::new(".gtl", LayerType::Copper(1)));
        rules.push(DetectionRule::new(".gbl", LayerType::Copper(2)));
        rules.push(DetectionRule::new(".gto", LayerType::Silkscreen(Side::Top)));
        rules.push(DetectionRule::new(".gbo", LayerType::Silkscreen(Side::Bottom)));
        rules.push(DetectionRule::new(".gts", LayerType::Soldermask(Side::Top)));
        rules.push(DetectionRule::new(".gbs", LayerType::Soldermask(Side::Bottom)));
        rules.push(DetectionRule::new(".gtp", LayerType::Paste(Side::Top)));
        rules.push(DetectionRule::new(".gbp", LayerType::Paste(Side::Bottom)));
        rules.push(DetectionRule::new(".gko", LayerType::MechanicalOutline));
        rules.push(DetectionRule::new(".gm1", LayerType::MechanicalOutline));
        let detector = LayerDetector { rules };
        assert(detector@ =~= default_rules());
        detector
    }

    /// A detector with a table of the caller's own.
    pub fn with_rules(rules: Vec<DetectionRule>) -> (detector: LayerDetector)
        ensures
            detector.rules == rules,
    {
        LayerDetector { rules }
    }

    /// Classifies a filename: the layer type of the first rule whose
    /// pattern occurs in the lowered filename, or `None` when no rule
    /// matches.
    pub fn detect_layer_type(&self, filename: &str) -> (detected: Option<LayerType>)
        ensures
            detected == spec_detect(self@, filename@),
    {
        let text: Vec<char> = lowercase_chars(filename);
        let mut i: usize = 0;
        while i < self.rules.len()
            invariant
                i <= self.rules.len(),
                text@ == lowercase(filename@),
                forall|j: int| 0 <= j < i ==> !pattern_matches(#[trigger] self@[j].0, filename@),
            decreases self.rules.len() - i,
        {
            let pattern: Vec<char> = chars_of(self.rules[i].pattern.as_str());
            assert(self@[i as int].0 == pattern@);
            if find_pattern(&text, &pattern).is_some() {
                proof {
                    assert(is_first_match(self@, filename@, i as int));
                    lemma_first_match_decides(self@, filename@, i as int);
                }
                return Some(self.rules[i].layer_type);
            }
            i = i + 1;
        }
        proof {
            lemma_no_match_detects_nothing(self@, filename@);
        }
        None
    }
}

} // verus!
