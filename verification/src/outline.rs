//! Parsed documents and the scan that finds their annotations.

use crate::annotation::{
    occurrence_at,
    resolution,
    resolve,
    Annotation,
    TimePoint,
    UnsupportedAnnotation,
    UnsupportedView,
};
use crate::occurrence::{occurrence_views, Occurrence, OccurrenceView};
use vstd::prelude::*;

verus! {

/// The planning block of a headline: up to three annotations.
#[derive(Clone, Debug, PartialEq, Eq)]
pub struct Planning {
    /// When the entry is scheduled.
    pub scheduled: Option<Annotation>,
    /// When the entry is due.
    pub deadline: Option<Annotation>,
    /// When the entry was closed.
    pub closed: Option<Annotation>,
}

/// One outline entry.
#[derive(Clone, Debug, PartialEq, Eq)]
pub struct Headline {
    /// The display text of the entry.
    pub label: String,
    /// Its planning block, where it has one.
    pub planning: Option<Planning>,
}

/// A document that has been loaded and parsed.
#[derive(Clone, Debug, PartialEq, Eq)]
pub struct OrgFile {
    /// The name of the file the document was read from.
    pub filename: String,
    /// The complete text of the document.
    pub contents: String,
    /// The headlines of the document, in the order of the text.
    pub headlines: Vec<Headline>,
}

/// What a scan yields for one annotation: an occurrence, or the notice
/// that the annotation is unsupported.
pub type Finding = Result<Occurrence, UnsupportedAnnotation>;

/// A [`Finding`] as a mathematical value.
pub type FindingView = Result<OccurrenceView, UnsupportedView>;

/// The mathematical value of one finding.
pub open spec fn finding_view(finding: Finding) -> FindingView {
    match finding {
        Ok(occurrence) => Ok(occurrence@),
        Err(unsupported) => Err(unsupported@),
    }
}

/// The mathematical values of a sequence of findings, in the same order.
pub open spec fn finding_views(findings: Seq<Finding>) -> Seq<FindingView> {
    findings.map_values(|f: Finding| finding_view(f))
}

/// What one annotation slot of the headline `label` yields: nothing
/// where it is empty, else the occurrences of its annotation or the notice
/// that the annotation is unsupported.
pub open spec fn slot_findings(slot: Option<Annotation>, label: Seq<char>) -> Seq<FindingView> {
    match slot {
        None => seq![],
        Some(annotation) => match resolution(annotation, label) {
            Ok(found) => found.map_values(
                |o: OccurrenceView| Ok::<OccurrenceView, UnsupportedView>(o),
            ),
            Err(unsupported) => seq![Err(unsupported)],
        },
    }
}

/// What one headline yields: its scheduled, deadline and closed slots in
/// that order, and nothing without a planning block.
pub open spec fn headline_findings(headline: Headline) -> Seq<FindingView> {
    match headline.planning {
        None => seq![],
        Some(planning) => slot_findings(planning.scheduled, headline.label@) + slot_findings(
            planning.deadline,
            headline.label@,
        ) + slot_findings(planning.closed, headline.label@),
    }
}

/// What a sequence of headlines yields, headline after headline.
pub open spec fn outline_findings(headlines: Seq<Headline>) -> Seq<FindingView>
    decreases headlines.len(),
{
    if headlines.len() == 0 {
        seq![]
    } else {
        outline_findings(headlines.drop_last()) + headline_findings(headlines.last())
    }
}

/// The slot is empty or holds a passive annotation.
pub open spec fn is_quiet(slot: Option<Annotation>) -> bool {
    match slot {
        None => true,
        Some(annotation) => annotation is SinglePassive || annotation is RangePassive,
    }
}

/// A headline that carries nothing but passive annotations yields
/// nothing: no occurrence of it reaches an agenda.
pub proof fn lemma_passive_headline_yields_nothing(headline: Headline)
    requires
        headline.planning matches Some(planning) ==> is_quiet(planning.scheduled) && is_quiet(
            planning.deadline,
        ) && is_quiet(planning.closed),
    ensures
        headline_findings(headline) == Seq::<FindingView>::empty(),
{
}

/// A headline scheduled over an interval, and nothing else, yields
/// exactly two occurrences: one at the start and one at the end, both
/// under its label.
pub proof fn lemma_scheduled_range_yields_both_ends(
    headline: Headline,
    start: TimePoint,
    end: TimePoint,
)
    requires
        headline.planning matches Some(planning) && planning.scheduled == Some(
            Annotation::Range(start, end),
        ) && planning.deadline is None && planning.closed is None,
    ensures
        headline_findings(headline) == seq![
            Ok::<OccurrenceView, UnsupportedView>(occurrence_at(start, headline.label@)),
            Ok::<OccurrenceView, UnsupportedView>(occurrence_at(end, headline.label@)),
        ],
{
    assert(headline_findings(headline) =~= seq![
        Ok::<OccurrenceView, UnsupportedView>(occurrence_at(start, headline.label@)),
        Ok::<OccurrenceView, UnsupportedView>(occurrence_at(end, headline.label@)),
    ]);
}

/// Appends to `findings` what one annotation slot of the headline `label`
/// yields.
fn scan_slot(slot: &Option<Annotation>, label: &str, findings: &mut Vec<Finding>)
    ensures
        finding_views(final(findings)@) == finding_views(old(findings)@) + slot_findings(
            *slot,
            label@,
        ),
{
    match slot {
        None => {
            assert(finding_views(findings@) =~= finding_views(old(findings)@) + slot_findings(
                *slot,
                label@,
            ));
        },
        Some(annotation) => match resolve(annotation, label) {
            Ok(found) => {
                let ghost before = findings@;
                let ghost views = occurrence_views(found@);
                for occurrence in it: found
                    invariant
                        it.seq().len() == views.len(),
                        forall|i: int|
                            0 <= i < views.len() ==> (#[trigger] it.seq()[i])@ == views[i],
                        findings@.len() == before.len() + it.index(),
                        forall|i: int| 0 <= i < before.len() ==> findings@[i] == before[i],
                        forall|j: int|
                            before.len() <= j < findings@.len() ==> finding_view(
                                #[trigger] findings@[j],
                            ) == Ok::<OccurrenceView, UnsupportedView>(views[j - before.len()]),
                {
                    findings.push(Ok(occurrence));
                }
                assert(finding_views(findings@) =~= finding_views(before) + slot_findings(
                    *slot,
                    label@,
                ));
            },
            Err(unsupported) => {
                findings.push(Err(unsupported));
                assert(finding_views(findings@) =~= finding_views(old(findings)@) + slot_findings(
                    *slot,
                    label@,
                ));
            },
        },
    }
}

/// Scans one document: every annotation of every headline, resolved, in
/// the order of the text. An unsupported annotation is passed on as such,
/// in its place.
pub fn scan(document: &OrgFile) -> (r: Vec<Finding>)
    ensures
        finding_views(r@) == outline_findings(document.headlines@),
        r@.len() == outline_findings(document.headlines@).len(),
{
    let mut findings: Vec<Finding> = Vec::new();
    let n = document.headlines.len();
    for i in 0..n
        invariant
            n == document.headlines@.len(),
            finding_views(findings@) == outline_findings(document.headlines@.take(i as int)),
    {
        let headline = &document.headlines[i];
        match &headline.planning {
            None => {},
            Some(planning) => {
                scan_slot(&planning.scheduled, headline.label.as_str(), &mut findings);
                scan_slot(&planning.deadline, headline.label.as_str(), &mut findings);
                scan_slot(&planning.closed, headline.label.as_str(), &mut findings);
            },
        }
        proof {
            let done = document.headlines@.take(i + 1);
            assert(done.drop_last() =~= document.headlines@.take(i as int));
        }
    }
    assert(document.headlines@.take(n as int) =~= document.headlines@);
    findings
}

} // verus!
