//! A label that changes its text one character at a time.

use vstd::prelude::*;
use vstd::string::StringExecFns;

verus! {

/// The frames from one step of the animation to the next.
pub const FRAMES_PER_STEP: i64 = 4;

/// Whether `current` has at the place `at` the character that `text` has
/// there.
pub open spec fn agrees_at(text: Seq<char>, current: Seq<char>, at: int) -> bool {
    0 <= at < text.len() && at < current.len() && text[at] == current[at]
}

/// The first place, from `from` on, at which `text` has a character that
/// `current` does not have there; the length of `text` where there is none.
pub open spec fn first_difference(text: Seq<char>, current: Seq<char>, from: int) -> int
    decreases text.len() - from,
{
    if from >= text.len() {
        text.len() as int
    } else if agrees_at(text, current, from) {
        first_difference(text, current, from + 1)
    } else {
        from
    }
}

/// What the label shows one step after it showed `current`, on its way to
/// `text`: `text` up to and with the first character in which the two differ,
/// then what `current` has after that place. Where `text` differs nowhere it
/// is shown as it is.
pub open spec fn spec_mix(text: Seq<char>, current: Seq<char>) -> Seq<char> {
    let at = first_difference(text, current, 0);
    if at >= text.len() {
        text
    } else if at < current.len() {
        text.take(at + 1) + current.skip(at + 1)
    } else {
        text.take(at + 1)
    }
}

proof fn lemma_first_difference(text: Seq<char>, current: Seq<char>, from: int)
    requires
        0 <= from <= text.len(),
    ensures
        from <= first_difference(text, current, from) <= text.len(),
        forall|i: int|
            from <= i < first_difference(text, current, from) ==> #[trigger] agrees_at(
                text,
                current,
                i,
            ),
        first_difference(text, current, from) < text.len() ==> !agrees_at(
            text,
            current,
            first_difference(text, current, from),
        ),
    decreases text.len() - from,
{
    if agrees_at(text, current, from) {
        lemma_first_difference(text, current, from + 1);
    }
}

proof fn lemma_agreement(text: Seq<char>, current: Seq<char>, from: int, upto: int)
    requires
        0 <= from <= upto <= text.len(),
        forall|i: int| from <= i < upto ==> #[trigger] agrees_at(text, current, i),
    ensures
        first_difference(text, current, from) >= upto,
    decreases upto - from,
{
    if from < upto {
        assert(agrees_at(text, current, from));
        lemma_agreement(text, current, from + 1, upto);
    } else {
        lemma_first_difference(text, current, from);
    }
}

/// Every step brings the label nearer to its text: where the label differs
/// from the text, the first difference lies further on after the step than
/// before it, and where it does not differ, the step leaves the text itself.
/// A label that shows its text stays as it is.
pub proof fn lemma_mix_advances(text: Seq<char>, current: Seq<char>)
    ensures
        first_difference(text, current, 0) < text.len() ==> first_difference(
            text,
            spec_mix(text, current),
            0,
        ) > first_difference(text, current, 0),
        first_difference(text, current, 0) >= text.len() ==> spec_mix(text, current) == text,
        spec_mix(text, text) == text,
{
    let at = first_difference(text, current, 0);
    let mixed = spec_mix(text, current);
    lemma_first_difference(text, current, 0);
    if at < text.len() {
        assert forall|i: int| 0 <= i < at + 1 implies #[trigger] agrees_at(text, mixed, i) by {}
        lemma_agreement(text, mixed, 0, at + 1);
    }
    assert forall|i: int| 0 <= i < text.len() implies #[trigger] agrees_at(text, text, i) by {}
    lemma_agreement(text, text, 0, text.len() as int);
}

/// What the label shows one step after it showed `current`, on its way to
/// `text`.
pub fn mix(text: &str, current: &str) -> (mixed: String)
    ensures
        mixed@ == spec_mix(text@, current@),
{
    let wanted = text.unicode_len();
    let shown = current.unicode_len();
    let mut i: usize = 0;
    while i < wanted
        invariant
            i <= wanted,
            wanted == text@.len(),
            shown == current@.len(),
            first_difference(text@, current@, 0) == first_difference(text@, current@, i as int),
        decreases wanted - i,
    {
        if i >= shown {
            let mixed = String::from_str(text.substring_char(0, i + 1));
            proof {
                assert(text@.subrange(0, i + 1) =~= text@.take(i + 1));
            }
            return mixed;
        }
        if text.get_char(i) != current.get_char(i) {
            let mut mixed = String::from_str(text.substring_char(0, i + 1));
            mixed.append(current.substring_char(i + 1, shown));
            proof {
                assert(text@.subrange(0, i + 1) =~= text@.take(i + 1));
                assert(current@.subrange(i + 1, shown as int) =~= current@.skip(i + 1));
            }
            return mixed;
        }
        i += 1;
    }
    String::from_str(text)
}

/// A label whose text changes into another one character at a time.
pub struct AniLabel {
    animated_text: String,
    label: String,
}

/// What an `AniLabel` holds.
pub struct AniLabelView {
    /// The text that the label is on its way to.
    pub animated_text: Seq<char>,
    /// The text that the label shows.
    pub label: Seq<char>,
}

impl View for AniLabel {
    type V = AniLabelView;

    closed spec fn view(&self) -> AniLabelView {
        AniLabelView { animated_text: self.animated_text@, label: self.label@ }
    }
}

impl Default for AniLabel {
    fn default() -> (label: AniLabel)
        ensures
            label@.animated_text.len() == 0,
            label@.label.len() == 0,
    {
        AniLabel { animated_text: String::new(), label: String::new() }
    }
}

impl AniLabel {
    /// Sets the text that the label changes into. What it shows stays.
    pub fn set_animated_text(&mut self, text: String)
        ensures
            final(self)@.animated_text == text@,
            final(self)@.label == old(self)@.label,
    {
        self.animated_text = text;
    }

    /// The text that the label is on its way to.
    pub fn animated_text(&self) -> (text: &str)
        ensures
            text@ == self@.animated_text,
    {
        self.animated_text.as_str()
    }

    /// The text that the label shows.
    pub fn label(&self) -> (text: &str)
        ensures
            text@ == self@.label,
    {
        self.label.as_str()
    }

    /// One frame of the display. Every fourth frame is a step of the
    /// animation; on the others the label stays as it is.
    pub fn tick(&mut self, frame_counter: i64)
        ensures
            final(self)@.animated_text == old(self)@.animated_text,
            final(self)@.label == if frame_counter % 4 == 0 {
                spec_mix(old(self)@.animated_text, old(self)@.label)
            } else {
                old(self)@.label
            },
    {
        if frame_counter % FRAMES_PER_STEP != 0 {
            return ;
        }
        let mixed = mix(self.animated_text.as_str(), self.label.as_str());
        self.label = mixed;
    }
}

} // verus!
