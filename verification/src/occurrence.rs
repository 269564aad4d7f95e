//! Occurrences: what the agenda lists.

use crate::label::{
    label_before,
    label_precedes,
    lemma_label_before_irreflexive,
    lemma_label_before_total,
    lemma_label_before_transitive,
};
use crate::time::{timeline_text, Instant};
use vstd::prelude::*;
use vstd::std_specs::cmp::PartialEqSpecImpl;
use vstd::string::StringExecFns;

verus! {

/// One agenda entry: a time and the headline it belongs to.
#[derive(Clone, Debug, Eq, PartialOrd, Ord, Hash)]
pub struct Occurrence {
    /// When it takes place.
    pub time: Instant,
    /// The display text of the owning headline, verbatim.
    pub label: String,
}

/// An occurrence as a mathematical value.
pub struct OccurrenceView {
    /// Seconds since the start of 1970.
    pub time: int,
    /// The characters of the label.
    pub label: Seq<char>,
}

impl View for Occurrence {
    type V = OccurrenceView;

    open spec fn view(&self) -> OccurrenceView {
        OccurrenceView { time: self.time.seconds as int, label: self.label@ }
    }
}

/// The occurrences of a sequence as mathematical values, in the same
/// order.
pub open spec fn occurrence_views(entries: Seq<Occurrence>) -> Seq<OccurrenceView> {
    entries.map_values(|o: Occurrence| o@)
}

impl PartialEq for Occurrence {
    /// Two occurrences are equal when their times and their labels are.
    fn eq(&self, other: &Occurrence) -> (r: bool) {
        self.time.seconds == other.time.seconds && self.label == other.label
    }
}

impl PartialEqSpecImpl for Occurrence {
    open spec fn obeys_eq_spec() -> bool {
        true
    }

    open spec fn eq_spec(&self, other: &Occurrence) -> bool {
        self.time.seconds == other.time.seconds && self.label@ == other.label@
    }
}

/// The agenda's order: earlier first, and at the same time the label that
/// comes first.
pub open spec fn occurrence_before(a: OccurrenceView, b: OccurrenceView) -> bool {
    a.time < b.time || (a.time == b.time && label_before(a.label, b.label))
}

/// No occurrence comes before itself.
pub proof fn lemma_before_irreflexive(a: OccurrenceView)
    ensures
        !occurrence_before(a, a),
{
    lemma_label_before_irreflexive(a.label);
}

/// The agenda's order is transitive.
pub proof fn lemma_before_transitive(a: OccurrenceView, b: OccurrenceView, c: OccurrenceView)
    requires
        occurrence_before(a, b),
        occurrence_before(b, c),
    ensures
        occurrence_before(a, c),
{
    if a.time == b.time && b.time == c.time {
        lemma_label_before_transitive(a.label, b.label, c.label);
    }
}

/// The agenda's order is total: two occurrences are equal or one comes
/// before the other.
pub proof fn lemma_before_total(a: OccurrenceView, b: OccurrenceView)
    ensures
        a == b || occurrence_before(a, b) || occurrence_before(b, a),
{
    lemma_label_before_total(a.label, b.label);
}

/// The line that shows an occurrence: the time in square brackets, a
/// space, the label.
pub open spec fn line_text(time_text: Seq<char>, label: Seq<char>) -> Seq<char> {
    seq!['['] + time_text + seq![']', ' '] + label
}

/// Puts a line together from the text of a time and a label.
pub fn compose_line(time_text: &str, label: &str) -> (r: String)
    ensures
        r@ == line_text(time_text@, label@),
{
    let mut line = String::from_str("[");
    line.append(time_text);
    line.append("] ");
    line.append(label);
    proof {
        reveal_strlit("[");
        reveal_strlit("] ");
    }
    line
}

impl Occurrence {
    /// Whether this occurrence comes strictly before `other` on the agenda.
    pub fn precedes(&self, other: &Occurrence) -> (r: bool)
        ensures
            r == occurrence_before(self@, other@),
    {
        if self.time.seconds != other.time.seconds {
            self.time.seconds < other.time.seconds
        } else {
            label_precedes(self.label.as_str(), other.label.as_str())
        }
    }

    /// The line that shows this occurrence, such as
    /// `[2024-03-01 09:00:00] Dentist`; `None` where the time lies outside
    /// the years that can be written.
    pub fn line(&self) -> (r: Option<String>)
        ensures
            match timeline_text(self.time.seconds as int) {
                Some(t) => r matches Some(l) && l@ == line_text(t, self.label@),
                None => r is None,
            },
    {
        match self.time.text() {
            Some(t) => Some(compose_line(t.as_str(), self.label.as_str())),
            None => None,
        }
    }
}

} // verus!
