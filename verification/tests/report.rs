use org_agenda::annotation::{Annotation, TimePoint, UnsupportedAnnotation};
use org_agenda::occurrence::Occurrence;
use org_agenda::outline::{Headline, OrgFile, Planning};
use org_agenda::report::build_agenda;
use org_agenda::time::Instant;

fn civil(year: u16, month: u8, day: u8, hour: u8, minute: u8) -> Instant {
    match Instant::from_civil(year, month, day, Some(hour), Some(minute)) {
        Some(instant) => instant,
        None => panic!("no such time"),
    }
}

fn point(seconds: i64) -> TimePoint {
    TimePoint::new(Instant { seconds })
}

fn at(seconds: i64, label: &str) -> Occurrence {
    Occurrence { time: Instant { seconds }, label: label.to_string() }
}

fn scheduled(label: &str, annotation: Annotation) -> Headline {
    Headline {
        label: label.to_string(),
        planning: Some(Planning { scheduled: Some(annotation), deadline: None, closed: None }),
    }
}

fn document(filename: &str, headlines: Vec<Headline>) -> OrgFile {
    OrgFile { filename: filename.to_string(), contents: String::new(), headlines }
}

fn diary(label: &str, expression: &str) -> UnsupportedAnnotation {
    UnsupportedAnnotation { label: label.to_string(), expression: expression.to_string() }
}

#[test]
fn no_documents_give_an_empty_agenda() {
    let report = build_agenda(&[]);
    assert!(report.agenda.entries().is_empty());
    assert_eq!(report.skipped_count(), 0);
}

#[test]
fn documents_without_annotations_give_an_empty_agenda() {
    let plain = Headline { label: "Ideas".to_string(), planning: None };
    let report = build_agenda(&[document("a.org", vec![]), document("b.org", vec![plain])]);
    assert!(report.agenda.entries().is_empty());
    assert_eq!(report.skipped_count(), 0);
}

#[test]
fn two_documents_end_to_end() {
    let a = document(
        "a.org",
        vec![scheduled(
            "Dentist",
            Annotation::Single(TimePoint::new(civil(2024, 3, 1, 9, 0))),
        )],
    );
    let b = document(
        "b.org",
        vec![scheduled(
            "Conference",
            Annotation::Range(
                TimePoint::new(civil(2024, 3, 5, 0, 0)),
                TimePoint::new(civil(2024, 3, 7, 0, 0)),
            ),
        )],
    );
    let report = build_agenda(&[a, b]);
    assert_eq!(
        report.agenda.entries(),
        &[
            Occurrence { time: civil(2024, 3, 1, 9, 0), label: "Dentist".to_string() },
            Occurrence { time: civil(2024, 3, 5, 0, 0), label: "Conference".to_string() },
            Occurrence { time: civil(2024, 3, 7, 0, 0), label: "Conference".to_string() },
        ]
    );
    assert_eq!(
        report.agenda.entries(),
        &[
            at(1_709_283_600, "Dentist"),
            at(1_709_596_800, "Conference"),
            at(1_709_769_600, "Conference"),
        ]
    );
    assert_eq!(report.skipped_count(), 0);
    assert!(report.skipped.is_empty());
    let lines: Vec<Option<String>> = report.agenda.entries().iter().map(|o| o.line()).collect();
    assert_eq!(
        lines,
        vec![
            Some("[2024-03-01 09:00:00] Dentist".to_string()),
            Some("[2024-03-05 00:00:00] Conference".to_string()),
            Some("[2024-03-07 00:00:00] Conference".to_string()),
        ]
    );
}

#[test]
fn the_order_of_the_documents_does_not_show() {
    let a = document("a.org", vec![scheduled("Dentist", Annotation::Single(point(100)))]);
    let b = document(
        "b.org",
        vec![scheduled("Conference", Annotation::Range(point(500), point(50)))],
    );
    let expected = [at(50, "Conference"), at(100, "Dentist"), at(500, "Conference")];
    assert_eq!(build_agenda(&[a.clone(), b.clone()]).agenda.entries(), &expected);
    assert_eq!(build_agenda(&[b, a]).agenda.entries(), &expected);
}

#[test]
fn the_agenda_is_sorted_by_time_then_label() {
    let mut headlines = Vec::new();
    let mut state: u64 = 99;
    for _ in 0..300 {
        state = state.wrapping_mul(6364136223846793005).wrapping_add(1442695040888963407);
        let seconds = ((state >> 33) % 11) as i64 * 60;
        let labels = ["Write", "Call", "Read", "", "Zoo", "\u{c9}cole"];
        let label = labels[((state >> 45) % 6) as usize];
        headlines.push(scheduled(label, Annotation::Single(point(seconds))));
    }
    let report = build_agenda(&[document("big.org", headlines)]);
    let entries = report.agenda.entries();
    assert!(entries.len() > 1);
    for pair in entries.windows(2) {
        let (earlier, later) = (&pair[0], &pair[1]);
        assert!(
            earlier.time.seconds < later.time.seconds
                || (earlier.time.seconds == later.time.seconds
                    && earlier.label.as_str() < later.label.as_str()),
            "{:?} {:?}",
            earlier,
            later
        );
    }
}

#[test]
fn building_twice_gives_the_same_report() {
    let documents = [
        document(
            "a.org",
            vec![
                scheduled("Write", Annotation::Range(point(900), point(30))),
                scheduled("Call", Annotation::FreeForm("%%(diary-anniversary 3 1)".to_string())),
            ],
        ),
        document("b.org", vec![scheduled("Call", Annotation::Single(point(30)))]),
    ];
    let first = build_agenda(&documents);
    let second = build_agenda(&documents);
    assert_eq!(first.agenda.entries(), second.agenda.entries());
    assert_eq!(first.skipped, second.skipped);
    let first_lines: Vec<Option<String>> =
        first.agenda.entries().iter().map(|o| o.line()).collect();
    let second_lines: Vec<Option<String>> =
        second.agenda.entries().iter().map(|o| o.line()).collect();
    assert_eq!(first_lines, second_lines);
}

#[test]
fn coinciding_deadline_and_closed_give_one_entry() {
    let h = Headline {
        label: "Report".to_string(),
        planning: Some(Planning {
            scheduled: None,
            deadline: Some(Annotation::Single(point(700))),
            closed: Some(Annotation::Single(point(700))),
        }),
    };
    let report = build_agenda(&[document("a.org", vec![h])]);
    assert_eq!(report.agenda.entries(), &[at(700, "Report")]);
    assert_eq!(report.agenda.len(), 1);
}

#[test]
fn the_same_occurrence_in_two_documents_is_listed_once() {
    let a = document("a.org", vec![scheduled("Standup", Annotation::Single(point(60)))]);
    let b = document("b.org", vec![scheduled("Standup", Annotation::Single(point(60)))]);
    let report = build_agenda(&[a, b]);
    assert_eq!(report.agenda.entries(), &[at(60, "Standup")]);
}

#[test]
fn the_same_time_under_two_labels_is_listed_twice() {
    let a = document("a.org", vec![scheduled("Standup", Annotation::Single(point(60)))]);
    let b = document("b.org", vec![scheduled("Retro", Annotation::Single(point(60)))]);
    let report = build_agenda(&[a, b]);
    assert_eq!(report.agenda.entries(), &[at(60, "Retro"), at(60, "Standup")]);
}

#[test]
fn a_range_that_starts_and_ends_together_gives_one_entry() {
    let a = document("a.org", vec![scheduled("Blink", Annotation::Range(point(5), point(5)))]);
    assert_eq!(build_agenda(&[a]).agenda.entries(), &[at(5, "Blink")]);
}

#[test]
fn a_headline_with_only_a_passive_point_adds_nothing() {
    let logged = scheduled("Logged", Annotation::SinglePassive(point(100)));
    let kept = scheduled("Kept", Annotation::Single(point(200)));
    let report = build_agenda(&[document("a.org", vec![logged, kept])]);
    assert_eq!(report.agenda.entries(), &[at(200, "Kept")]);
    assert_eq!(report.skipped_count(), 0);
}

#[test]
fn passive_ranges_add_nothing() {
    let logged = scheduled("Logged", Annotation::RangePassive(point(100), point(300)));
    let report = build_agenda(&[document("a.org", vec![logged])]);
    assert!(report.agenda.entries().is_empty());
    assert_eq!(report.skipped_count(), 0);
}

#[test]
fn one_unsupported_annotation_among_three_documents() {
    let first = document(
        "first.org",
        vec![
            scheduled("Alpha", Annotation::Single(point(300))),
            scheduled("Beta", Annotation::Range(point(100), point(400))),
        ],
    );
    let second = document(
        "second.org",
        vec![
            scheduled("Gamma", Annotation::Single(point(200))),
            Headline {
                label: "Delta".to_string(),
                planning: Some(Planning {
                    scheduled: Some(Annotation::Single(point(250))),
                    deadline: Some(Annotation::FreeForm("%%(diary-float t 1 1)".to_string())),
                    closed: Some(Annotation::Single(point(150))),
                }),
            },
            scheduled("Epsilon", Annotation::Single(point(50))),
        ],
    );
    let third = document("third.org", vec![scheduled("Zeta", Annotation::Single(point(350)))]);
    let report = build_agenda(&[first, second, third]);
    assert_eq!(
        report.agenda.entries(),
        &[
            at(50, "Epsilon"),
            at(100, "Beta"),
            at(150, "Delta"),
            at(200, "Gamma"),
            at(250, "Delta"),
            at(300, "Alpha"),
            at(350, "Zeta"),
            at(400, "Beta"),
        ]
    );
    assert_eq!(report.skipped_count(), 1);
    assert_eq!(report.skipped, vec![diary("Delta", "%%(diary-float t 1 1)")]);
}

#[test]
fn skipped_annotations_are_reported_in_the_order_found() {
    let a = document(
        "a.org",
        vec![
            scheduled("One", Annotation::FreeForm("%%(first)".to_string())),
            scheduled("Two", Annotation::Single(point(1))),
        ],
    );
    let b = document(
        "b.org",
        vec![
            scheduled("Three", Annotation::FreeForm("%%(second)".to_string())),
            scheduled("One", Annotation::FreeForm("%%(first)".to_string())),
        ],
    );
    let report = build_agenda(&[a, b]);
    assert_eq!(report.agenda.entries(), &[at(1, "Two")]);
    assert_eq!(report.skipped_count(), 3);
    assert_eq!(
        report.skipped,
        vec![diary("One", "%%(first)"), diary("Three", "%%(second)"), diary("One", "%%(first)")]
    );
}

#[test]
fn only_unsupported_annotations_leave_the_agenda_empty() {
    let a = document("a.org", vec![scheduled("One", Annotation::FreeForm("%%(x)".to_string()))]);
    let report = build_agenda(&[a]);
    assert!(report.agenda.entries().is_empty());
    assert_eq!(report.skipped_count(), 1);
}
