//! Scheduling annotations and how each resolves into occurrences.

use crate::occurrence::{occurrence_views, Occurrence, OccurrenceView};
use crate::time::Instant;
use vstd::prelude::*;

verus! {

/// One instant named by an annotation, with what the outline adds to it.
///
/// The repeat interval and the warning lead time are kept as written and
/// never expanded: only the instant itself reaches the agenda.
#[derive(Clone, Debug, PartialEq, Eq)]
pub struct TimePoint {
    /// The instant itself.
    pub at: Instant,
    /// The repeat interval, such as `+1w`, where the outline gives one.
    pub repeat: Option<String>,
    /// The warning lead time, such as `-2d`, where the outline gives one.
    pub warning: Option<String>,
}

/// A scheduling marker on a headline, in one of five shapes.
#[derive(Clone, Debug, PartialEq, Eq)]
pub enum Annotation {
    /// One instant, shown on the agenda.
    Single(TimePoint),
    /// One instant, recorded but never shown.
    SinglePassive(TimePoint),
    /// An interval from the first instant to the second, shown on the agenda.
    Range(TimePoint, TimePoint),
    /// An interval, recorded but never shown.
    RangePassive(TimePoint, TimePoint),
    /// A diary-style expression that names no instant.
    FreeForm(String),
}

/// An annotation that cannot be placed on the agenda.
#[derive(Clone, Debug, PartialEq, Eq)]
pub struct UnsupportedAnnotation {
    /// The label of the headline that carries the annotation.
    pub label: String,
    /// The expression as the outline has it.
    pub expression: String,
}

/// An [`UnsupportedAnnotation`] as a mathematical value.
pub struct UnsupportedView {
    /// The characters of the headline's label.
    pub label: Seq<char>,
    /// The characters of the expression.
    pub expression: Seq<char>,
}

impl View for UnsupportedAnnotation {
    type V = UnsupportedView;

    open spec fn view(&self) -> UnsupportedView {
        UnsupportedView { label: self.label@, expression: self.expression@ }
    }
}

impl TimePoint {
    /// A point at `at` that neither repeats nor warns ahead.
    pub fn new(at: Instant) -> (r: TimePoint)
        ensures
            r.at == at,
            r.repeat is None,
            r.warning is None,
    {
        TimePoint { at, repeat: None, warning: None }
    }
}

/// The occurrence at `point` for the headline `label`.
pub open spec fn occurrence_at(point: TimePoint, label: Seq<char>) -> OccurrenceView {
    OccurrenceView { time: point.at.seconds as int, label }
}

/// What an annotation on the headline `label` resolves into: a point
/// gives one occurrence, an interval one at each end, a passive shape
/// none, and a free-form expression cannot be resolved.
pub open spec fn resolution(annotation: Annotation, label: Seq<char>) -> Result<
    Seq<OccurrenceView>,
    UnsupportedView,
> {
    match annotation {
        Annotation::Single(point) => Ok(seq![occurrence_at(point, label)]),
        Annotation::SinglePassive(_) => Ok(seq![]),
        Annotation::Range(start, end) => Ok(
            seq![occurrence_at(start, label), occurrence_at(end, label)],
        ),
        Annotation::RangePassive(_, _) => Ok(seq![]),
        Annotation::FreeForm(expression) => Err(UnsupportedView { label, expression: expression@ }),
    }
}

/// Resolves one annotation of the headline `label` into its occurrences,
/// or reports it as unsupported.
pub fn resolve(annotation: &Annotation, label: &str) -> (r: Result<
    Vec<Occurrence>,
    UnsupportedAnnotation,
>)
    ensures
        match resolution(*annotation, label@) {
            Ok(found) => r matches Ok(v) && occurrence_views(v@) == found && v@.len()
                == found.len(),
            Err(unsupported) => r matches Err(e) && e@ == unsupported,
        },
{
    let mut found: Vec<Occurrence> = Vec::new();
    match annotation {
        Annotation::Single(point) => {
            found.push(Occurrence { time: point.at, label: label.to_owned() });
        },
        Annotation::Range(start, end) => {
            found.push(Occurrence { time: start.at, label: label.to_owned() });
            found.push(Occurrence { time: end.at, label: label.to_owned() });
        },
        Annotation::SinglePassive(_) => {},
        Annotation::RangePassive(_, _) => {},
        Annotation::FreeForm(expression) => {
            return Err(
                UnsupportedAnnotation { label: label.to_owned(), expression: expression.clone() },
            );
        },
    }
    Ok(found)
}

} // verus!
