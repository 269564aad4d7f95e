//! Building the agenda of a set of documents.

use crate::agenda::{
    is_ascending,
    lemma_ascending_unique,
    lemma_with_entry_ascending,
    lemma_with_entry_contains,
    with_entry,
    Agenda,
};
use crate::annotation::{UnsupportedAnnotation, UnsupportedView};
use crate::occurrence::OccurrenceView;
use crate::outline::{finding_view, finding_views, outline_findings, scan, FindingView, OrgFile};
use vstd::prelude::*;

verus! {

/// What a sequence of documents yields, document after document.
pub open spec fn library_findings(files: Seq<OrgFile>) -> Seq<FindingView>
    decreases files.len(),
{
    if files.len() == 0 {
        seq![]
    } else {
        library_findings(files.drop_last()) + outline_findings(files.last().headlines@)
    }
}

/// The occurrences among `findings`, each put in its place in turn.
pub open spec fn merged(findings: Seq<FindingView>) -> Seq<OccurrenceView>
    decreases findings.len(),
{
    if findings.len() == 0 {
        seq![]
    } else {
        match findings.last() {
            Ok(occurrence) => with_entry(merged(findings.drop_last()), occurrence),
            Err(_) => merged(findings.drop_last()),
        }
    }
}

/// The unsupported annotations among `findings`, in the order found.
pub open spec fn skipped_of(findings: Seq<FindingView>) -> Seq<UnsupportedView>
    decreases findings.len(),
{
    if findings.len() == 0 {
        seq![]
    } else {
        match findings.last() {
            Ok(_) => skipped_of(findings.drop_last()),
            Err(unsupported) => skipped_of(findings.drop_last()).push(unsupported),
        }
    }
}

/// The unsupported annotations of a sequence as mathematical values, in
/// the same order.
pub open spec fn unsupported_views(skipped: Seq<UnsupportedAnnotation>) -> Seq<UnsupportedView> {
    skipped.map_values(|u: UnsupportedAnnotation| u@)
}

/// `agenda` and `skipped` are what `findings` come to: the agenda is
/// ascending and lists exactly the occurrences found, and `skipped` holds
/// the unsupported annotations in the order found.
pub open spec fn is_report_of(
    agenda: Seq<OccurrenceView>,
    skipped: Seq<UnsupportedView>,
    findings: Seq<FindingView>,
) -> bool {
    &&& is_ascending(agenda)
    &&& forall|o: OccurrenceView|
        agenda.contains(o) <==> findings.contains(Ok::<OccurrenceView, UnsupportedView>(o))
    &&& skipped == skipped_of(findings)
}

/// Merging yields an ascending sequence that lists exactly the
/// occurrences found.
pub proof fn lemma_merged_lists(findings: Seq<FindingView>)
    ensures
        is_report_of(merged(findings), skipped_of(findings), findings),
    decreases findings.len(),
{
    if findings.len() == 0 {
    } else {
        let head = findings.drop_last();
        lemma_merged_lists(head);
        assert forall|o: OccurrenceView|
            merged(findings).contains(o) <==> findings.contains(
                Ok::<OccurrenceView, UnsupportedView>(o),
            ) by {
            let wanted = Ok::<OccurrenceView, UnsupportedView>(o);
            if findings.contains(wanted) {
                let i = choose|i: int| 0 <= i < findings.len() && findings[i] == wanted;
                if i < head.len() {
                    assert(head[i] == wanted);
                }
            }
            match findings.last() {
                Ok(occurrence) => {
                    lemma_with_entry_contains(merged(head), occurrence, o);
                },
                Err(_) => {},
            }
        }
        match findings.last() {
            Ok(occurrence) => {
                lemma_with_entry_ascending(merged(head), occurrence);
            },
            Err(_) => {},
        }
    }
}

/// Building is deterministic: two reports of the same documents hold the
/// same agenda, entry for entry, and the same skipped annotations.
pub proof fn lemma_build_deterministic(
    files: Seq<OrgFile>,
    agenda: Seq<OccurrenceView>,
    skipped: Seq<UnsupportedView>,
    other_agenda: Seq<OccurrenceView>,
    other_skipped: Seq<UnsupportedView>,
)
    requires
        is_report_of(agenda, skipped, library_findings(files)),
        is_report_of(other_agenda, other_skipped, library_findings(files)),
    ensures
        agenda == other_agenda,
        skipped == other_skipped,
{
    lemma_ascending_unique(agenda, other_agenda);
}

/// The agenda does not depend on the order in which occurrences are
/// found, nor on how often: findings that hold the same occurrences merge
/// into the same agenda.
pub proof fn lemma_merged_ignores_order(findings: Seq<FindingView>, others: Seq<FindingView>)
    requires
        forall|o: OccurrenceView|
            findings.contains(Ok::<OccurrenceView, UnsupportedView>(o)) <==> others.contains(
                Ok::<OccurrenceView, UnsupportedView>(o),
            ),
    ensures
        merged(findings) == merged(others),
{
    lemma_merged_lists(findings);
    lemma_merged_lists(others);
    lemma_ascending_unique(merged(findings), merged(others));
}

/// An agenda together with what had to be left out of it.
#[derive(Debug)]
pub struct AgendaReport {
    /// The occurrences of all documents, merged.
    pub agenda: Agenda,
    /// The annotations that could not be placed, in the order found.
    pub skipped: Vec<UnsupportedAnnotation>,
}

impl AgendaReport {
    /// The number of annotations that could not be placed.
    pub fn skipped_count(&self) -> (r: usize)
        ensures
            r == self.skipped@.len(),
    {
        self.skipped.len()
    }
}

/// Builds the agenda of `files`: scans each document and merges what it
/// finds. An unsupported annotation is set aside and the rest goes on.
pub fn build_agenda(files: &[OrgFile]) -> (r: AgendaReport)
    ensures
        r.agenda@ == merged(library_findings(files@)),
        is_report_of(r.agenda@, unsupported_views(r.skipped@), library_findings(files@)),
        r.skipped@.len() == skipped_of(library_findings(files@)).len(),
{
    let mut agenda = Agenda::new();
    let mut skipped: Vec<UnsupportedAnnotation> = Vec::new();
    let n = files.len();
    for i in 0..n
        invariant
            n == files@.len(),
            agenda@ == merged(library_findings(files@.take(i as int))),
            unsupported_views(skipped@) == skipped_of(library_findings(files@.take(i as int))),
    {
        let findings = scan(&files[i]);
        let ghost done = library_findings(files@.take(i as int));
        let ghost found = finding_views(findings@);
        for finding in it: findings
            invariant
                it.seq().len() == found.len(),
                forall|k: int|
                    0 <= k < found.len() ==> finding_view(#[trigger] it.seq()[k]) == found[k],
                agenda@ == merged(done + found.take(it.index() as int)),
                unsupported_views(skipped@) == skipped_of(done + found.take(it.index() as int)),
        {
            let ghost prior = done + found.take(it.index() as int);
            let ghost next = done + found.take(it.index() + 1);
            assert(next.drop_last() =~= prior);
            match finding {
                Ok(occurrence) => {
                    agenda.insert(occurrence);
                },
                Err(unsupported) => {
                    skipped.push(unsupported);
                },
            }
        }
        proof {
            let now = files@.take(i + 1);
            assert(now.drop_last() =~= files@.take(i as int));
            assert(found.take(found.len() as int) =~= found);
        }
    }
    proof {
        assert(files@.take(n as int) =~= files@);
        lemma_merged_lists(library_findings(files@));
    }
    AgendaReport { agenda, skipped }
}

} // verus!
