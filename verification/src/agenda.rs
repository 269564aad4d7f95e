//! The agenda: occurrences in strictly ascending order.

use crate::occurrence::{
    lemma_before_irreflexive,
    lemma_before_total,
    lemma_before_transitive,
    occurrence_before,
    occurrence_views,
    Occurrence,
    OccurrenceView,
};
use vstd::prelude::*;

verus! {

/// Every entry comes strictly before every later one, so no entry is
/// listed twice.
pub open spec fn is_ascending(entries: Seq<OccurrenceView>) -> bool {
    forall|i: int, j: int| 0 <= i < j < entries.len() ==> occurrence_before(entries[i], entries[j])
}

/// How many entries come before `occurrence` at the head of `entries`:
/// in an ascending sequence, the place where `occurrence` belongs.
pub open spec fn rank(entries: Seq<OccurrenceView>, occurrence: OccurrenceView) -> int
    decreases entries.len(),
{
    if entries.len() == 0 {
        0
    } else if occurrence_before(entries.last(), occurrence) {
        entries.len() as int
    } else {
        rank(entries.drop_last(), occurrence)
    }
}

/// `entries` with `occurrence` put in its place, or unchanged where it is
/// listed already.
pub open spec fn with_entry(entries: Seq<OccurrenceView>, occurrence: OccurrenceView) -> Seq<
    OccurrenceView,
> {
    if entries.contains(occurrence) {
        entries
    } else {
        entries.insert(rank(entries, occurrence), occurrence)
    }
}

/// `occurrence` is the entry at `place` and at no other place.
pub open spec fn listed_only_at(
    entries: Seq<OccurrenceView>,
    occurrence: OccurrenceView,
    place: int,
) -> bool {
    &&& 0 <= place < entries.len()
    &&& entries[place] == occurrence
    &&& forall|j: int| 0 <= j < entries.len() && entries[j] == occurrence ==> j == place
}

/// The rank of an occurrence is the first place whose entry does not come
/// before it.
pub proof fn lemma_rank_found(entries: Seq<OccurrenceView>, occurrence: OccurrenceView, place: int)
    requires
        is_ascending(entries),
        0 <= place <= entries.len(),
        forall|j: int| 0 <= j < place ==> occurrence_before(entries[j], occurrence),
        place < entries.len() ==> !occurrence_before(entries[place], occurrence),
    ensures
        rank(entries, occurrence) == place,
    decreases entries.len(),
{
    if entries.len() == 0 {
    } else if occurrence_before(entries.last(), occurrence) {
        if place < entries.len() - 1 {
            lemma_before_transitive(entries[place], entries.last(), occurrence);
        }
    } else {
        lemma_rank_found(entries.drop_last(), occurrence, place);
    }
}

/// An ascending sequence stays ascending when an occurrence is put at its
/// rank.
pub proof fn lemma_with_entry_ascending(entries: Seq<OccurrenceView>, occurrence: OccurrenceView)
    requires
        is_ascending(entries),
    ensures
        is_ascending(with_entry(entries, occurrence)),
        0 <= rank(entries, occurrence) <= entries.len(),
{
    lemma_rank_splits(entries, occurrence);
    if !entries.contains(occurrence) {
        let place = rank(entries, occurrence);
        let grown = entries.insert(place, occurrence);
        assert forall|i: int, j: int| 0 <= i < j < grown.len() implies occurrence_before(
            grown[i],
            grown[j],
        ) by {
            if i == place {
                lemma_before_total(occurrence, entries[j - 1]);
                if j - 1 > place {
                    lemma_before_total(occurrence, entries[place]);
                    lemma_before_transitive(occurrence, entries[place], entries[j - 1]);
                }
            }
        }
    }
}

/// In an ascending sequence the entries before the rank of an occurrence
/// come before it, and the entry at its rank does not.
pub proof fn lemma_rank_splits(entries: Seq<OccurrenceView>, occurrence: OccurrenceView)
    requires
        is_ascending(entries),
    ensures
        0 <= rank(entries, occurrence) <= entries.len(),
        forall|j: int|
            0 <= j < rank(entries, occurrence) ==> occurrence_before(
                #[trigger] entries[j],
                occurrence,
            ),
        rank(entries, occurrence) < entries.len() ==> !occurrence_before(
            entries[rank(entries, occurrence)],
            occurrence,
        ),
    decreases entries.len(),
{
    if entries.len() == 0 {
    } else if occurrence_before(entries.last(), occurrence) {
        assert forall|j: int| 0 <= j < entries.len() implies occurrence_before(
            #[trigger] entries[j],
            occurrence,
        ) by {
            if j < entries.len() - 1 {
                lemma_before_transitive(entries[j], entries.last(), occurrence);
            }
        }
    } else {
        let head = entries.drop_last();
        lemma_rank_splits(head, occurrence);
        assert forall|j: int| 0 <= j < rank(entries, occurrence) implies occurrence_before(
            #[trigger] entries[j],
            occurrence,
        ) by {
            assert(entries[j] == head[j]);
        }
    }
}

/// Putting an occurrence in adds it to what is listed and nothing else.
pub proof fn lemma_with_entry_contains(
    entries: Seq<OccurrenceView>,
    occurrence: OccurrenceView,
    other: OccurrenceView,
)
    requires
        is_ascending(entries),
    ensures
        with_entry(entries, occurrence).contains(other) <==> (entries.contains(other) || other
            == occurrence),
{
    lemma_rank_splits(entries, occurrence);
    if !entries.contains(occurrence) {
        let place = rank(entries, occurrence);
        let grown = entries.insert(place, occurrence);
        assert(grown[place] == occurrence);
        if entries.contains(other) {
            let i = choose|i: int| 0 <= i < entries.len() && entries[i] == other;
            if i < place {
                assert(grown[i] == other);
            } else {
                assert(grown[i + 1] == other);
            }
        }
    }
}

/// Putting the same occurrence in twice is the same as putting it in
/// once, and it is then listed at exactly one place.
pub proof fn lemma_with_entry_idempotent(entries: Seq<OccurrenceView>, occurrence: OccurrenceView)
    requires
        is_ascending(entries),
    ensures
        with_entry(with_entry(entries, occurrence), occurrence) == with_entry(entries, occurrence),
        exists|i: int| listed_only_at(with_entry(entries, occurrence), occurrence, i),
{
    let once = with_entry(entries, occurrence);
    lemma_with_entry_contains(entries, occurrence, occurrence);
    lemma_with_entry_ascending(entries, occurrence);
    let i = choose|i: int| 0 <= i < once.len() && once[i] == occurrence;
    assert forall|j: int| 0 <= j < once.len() && once[j] == occurrence implies j == i by {
        lemma_before_irreflexive(occurrence);
    }
    assert(listed_only_at(once, occurrence, i));
}

/// Two ascending sequences that list the same occurrences are the same
/// sequence.
pub proof fn lemma_ascending_unique(a: Seq<OccurrenceView>, b: Seq<OccurrenceView>)
    requires
        is_ascending(a),
        is_ascending(b),
        forall|o: OccurrenceView| a.contains(o) <==> b.contains(o),
    ensures
        a == b,
    decreases a.len(),
{
    if a.len() == 0 {
        if b.len() > 0 {
            assert(b.contains(b[0]));
        }
    } else {
        assert(a.contains(a.last()));
        let j = choose|j: int| 0 <= j < b.len() && b[j] == a.last();
        assert(b.contains(b.last()));
        let i = choose|i: int| 0 <= i < a.len() && a[i] == b.last();
        lemma_before_irreflexive(a.last());
        if j < b.len() - 1 {
            if i < a.len() - 1 {
                lemma_before_transitive(a.last(), b.last(), a.last());
            }
        }
        let head_a = a.drop_last();
        let head_b = b.drop_last();
        assert forall|o: OccurrenceView| head_a.contains(o) <==> head_b.contains(o) by {
            lemma_before_irreflexive(o);
            if head_a.contains(o) {
                let m = choose|m: int| 0 <= m < head_a.len() && head_a[m] == o;
                assert(a.contains(o));
                let n = choose|n: int| 0 <= n < b.len() && b[n] == o;
                assert(head_b[n] == o);
            }
            if head_b.contains(o) {
                let m = choose|m: int| 0 <= m < head_b.len() && head_b[m] == o;
                assert(b.contains(o));
                let n = choose|n: int| 0 <= n < a.len() && a[n] == o;
                assert(head_a[n] == o);
            }
        }
        lemma_ascending_unique(head_a, head_b);
        assert(b =~= head_b.push(b.last()));
    }
}

/// The occurrences of any number of documents, merged: strictly
/// ascending by time and then by label, each listed once.
#[derive(Debug)]
pub struct Agenda {
    entries: Vec<Occurrence>,
}

impl View for Agenda {
    type V = Seq<OccurrenceView>;

    closed spec fn view(&self) -> Seq<OccurrenceView> {
        occurrence_views(self.entries@)
    }
}

impl Agenda {
    #[verifier::type_invariant]
    spec fn ordered(self) -> bool {
        is_ascending(occurrence_views(self.entries@))
    }

    /// The agenda that lists nothing.
    pub fn new() -> (r: Agenda)
        ensures
            r@ == Seq::<OccurrenceView>::empty(),
    {
        let entries: Vec<Occurrence> = Vec::new();
        Agenda { entries }
    }

    /// The number of entries.
    pub fn len(&self) -> (r: usize)
        ensures
            r == self@.len(),
    {
        self.entries.len()
    }

    /// The entries, in ascending order.
    pub fn entries(&self) -> (r: &[Occurrence])
        ensures
            occurrence_views(r@) == self@,
            r@.len() == self@.len(),
            is_ascending(self@),
    {
        proof {
            use_type_invariant(self);
        }
        self.entries.as_slice()
    }

    /// Puts `occurrence` in its place. Returns whether it was added: an
    /// occurrence that is listed already is not listed again.
    pub fn insert(&mut self, occurrence: Occurrence) -> (added: bool)
        ensures
            final(self)@ == with_entry(old(self)@, occurrence@),
            added == !old(self)@.contains(occurrence@),
            is_ascending(final(self)@),
    {
        proof {
            use_type_invariant(&*self);
        }
        let ghost listed = self@;
        let n = self.entries.len();
        let mut place: usize = 0;
        while place < n && self.entries[place].precedes(&occurrence)
            invariant
                n == self.entries@.len(),
                place <= n,
                listed == occurrence_views(self.entries@),
                forall|j: int|
                    0 <= j < place ==> occurrence_before(#[trigger] listed[j], occurrence@),
            decreases n - place,
        {
            place += 1;
        }
        proof {
            lemma_rank_found(listed, occurrence@, place as int);
            lemma_with_entry_ascending(listed, occurrence@);
        }
        if place < n && self.entries[place] == occurrence {
            assert(listed[place as int] == occurrence@);
            return false;
        }
        proof {
            assert forall|j: int| 0 <= j < listed.len() implies listed[j] != occurrence@ by {
                lemma_before_irreflexive(occurrence@);
                if j > place {
                    lemma_before_total(listed[place as int], occurrence@);
                    lemma_before_transitive(occurrence@, listed[place as int], listed[j]);
                }
            }
        }
        let mut entries: Vec<Occurrence> = Vec::new();
        core::mem::swap(&mut self.entries, &mut entries);
        entries.insert(place, occurrence);
        assert(occurrence_views(entries@) =~= listed.insert(place as int, occurrence@));
        self.entries = entries;
        true
    }
}

} // verus!
