use moqtail::model::common::tuple::{Tuple, TupleField};
use moqtail::model::data::full_track_name::FullTrackName;
use moqtail::model::filter::top_n::{
    TieBreakPolicy, TopNRanker, TopNRankerConfig, SPEECH_SILENT, SPEECH_SPEAKING, SPEECH_START,
};

fn make_ftn(ns: &str, name: &str) -> FullTrackName {
    let ns_tuple = Tuple::from_utf8_path(ns);
    FullTrackName::new(ns_tuple, TupleField::from_utf8(name)).unwrap()
}

fn make_ranker() -> TopNRanker {
    TopNRanker::new(TopNRankerConfig {
        property_type: 0x12,
        tie_break_policy: TieBreakPolicy::OldestWins,
    })
}

#[test]
fn test_top_n_basic() {
    let mut r = make_ranker();
    let a = make_ftn("/room/alice", "audio");
    let b = make_ftn("/room/bob", "audio");
    let c = make_ftn("/room/carol", "audio");

    r.observe_value(&a, vec![10], SPEECH_SPEAKING, 1);
    r.observe_value(&b, vec![20], SPEECH_START, 2);
    r.observe_value(&c, vec![30], SPEECH_SPEAKING, 3);

    let top2 = r.compute_top_n(99, 2);
    assert_eq!(top2.len(), 2);
    assert_eq!(top2[0], b);
    assert_eq!(top2[1], a);
}

#[test]
fn test_silent_excluded() {
    let mut r = make_ranker();
    let a = make_ftn("/room/alice", "audio");
    let b = make_ftn("/room/bob", "audio");

    r.observe_value(&a, vec![10], SPEECH_SPEAKING, 1);
    r.observe_value(&b, vec![20], SPEECH_SILENT, 2);

    let top2 = r.compute_top_n(99, 2);
    assert_eq!(top2.len(), 1);
    assert_eq!(top2[0], a);
}

#[test]
fn test_self_exclusion() {
    let mut r = make_ranker();
    let a = make_ftn("/room/alice", "audio");
    let b = make_ftn("/room/bob", "audio");

    r.observe_value(&a, vec![10], SPEECH_SPEAKING, 1);
    r.observe_value(&b, vec![20], SPEECH_SPEAKING, 2);

    let top2 = r.compute_top_n(10, 2);
    assert_eq!(top2.len(), 1);
    assert_eq!(top2[0], b);
}

#[test]
fn test_unranked_tracks_not_in_ranker() {
    let mut r = make_ranker();
    let a = make_ftn("/room/alice", "audio");
    let v = make_ftn("/room/alice", "video");

    r.observe_value(&a, vec![10], SPEECH_SPEAKING, 1);

    assert!(r.has_entry(&a));
    assert!(!r.has_entry(&v));
    let top = r.compute_top_n(99, 5);
    assert_eq!(top, vec![a]);
}

#[test]
fn test_remove_publisher() {
    let mut r = make_ranker();
    let a = make_ftn("/room/alice", "audio");
    let b = make_ftn("/room/bob", "audio");

    r.observe_value(&a, vec![10], SPEECH_SPEAKING, 1);
    r.observe_value(&b, vec![20], SPEECH_SPEAKING, 2);

    r.remove_publisher(10);

    assert!(!r.has_entry(&a));
    assert!(r.has_entry(&b));
}

#[test]
fn test_oldest_wins_tiebreak() {
    let mut r = make_ranker();
    let a = make_ftn("/room/alice", "audio");
    let b = make_ftn("/room/bob", "audio");
    let c = make_ftn("/room/carol", "audio");

    r.observe_value(&a, vec![10], SPEECH_SPEAKING, 1);
    r.observe_value(&b, vec![20], SPEECH_SPEAKING, 2);
    r.observe_value(&c, vec![30], SPEECH_SPEAKING, 3);

    let top2 = r.compute_top_n(99, 2);
    assert_eq!(top2, vec![a, b]);
}

#[test]
fn test_speech_start_priority_over_speaking() {
    let mut r = make_ranker();
    let a = make_ftn("/room/alice", "audio");
    let b = make_ftn("/room/bob", "audio");

    r.observe_value(&a, vec![10], SPEECH_SPEAKING, 1);
    r.observe_value(&b, vec![20], SPEECH_START, 2);

    let top1 = r.compute_top_n(99, 1);
    assert_eq!(top1, vec![b]);
}

#[test]
fn observe_reports_only_ranking_changes() {
    let mut r = make_ranker();
    let a = make_ftn("/room/alice", "audio");
    assert!(r.observe_value(&a, vec![10], SPEECH_SPEAKING, 1));
    assert!(!r.observe_value(&a, vec![10, 11], SPEECH_SPEAKING, 2));
    assert!(r.observe_value(&a, vec![10], SPEECH_START, 3));
    assert_eq!(r.entry_count(), 1);
}

#[test]
fn zero_slots_give_nothing() {
    let mut r = make_ranker();
    let a = make_ftn("/room/alice", "audio");
    r.observe_value(&a, vec![10], SPEECH_START, 1);
    assert!(r.compute_top_n(99, 0).is_empty());
}

#[test]
fn remove_track_hands_back_entry() {
    let mut r = make_ranker();
    let a = make_ftn("/room/alice", "audio");
    let b = make_ftn("/room/bob", "audio");
    r.observe_value(&a, vec![10], SPEECH_SPEAKING, 1);
    r.observe_value(&b, vec![20], SPEECH_SILENT, 2);
    assert_eq!(r.entry_count(), 2);
    let e = r.remove_track(&a).unwrap();
    assert_eq!(e.property_value, SPEECH_SPEAKING);
    assert_eq!(e.arrival_seq, 0);
    assert_eq!(e.publisher_connection_ids, vec![10]);
    assert!(r.remove_track(&a).is_none());
    assert_eq!(r.entry_count(), 1);
}

#[test]
fn remove_publisher_drops_every_track_it_publishes() {
    let mut r = make_ranker();
    let a = make_ftn("/room/alice", "audio");
    let b = make_ftn("/room/bob", "audio");
    let c = make_ftn("/room/carol", "audio");
    r.observe_value(&a, vec![10, 11], SPEECH_SPEAKING, 1);
    r.observe_value(&b, vec![], SPEECH_SPEAKING, 2);
    r.observe_value(&c, vec![11], SPEECH_START, 3);
    // a is published by 10 among others: it goes. b and c stay untouched.
    assert!(r.remove_publisher(10));
    assert!(!r.has_entry(&a));
    assert!(r.has_entry(&b));
    assert!(r.has_entry(&c));
    assert_eq!(r.compute_top_n(99, 5), vec![c.clone(), b.clone()]);
    // Nobody left publishes through 10.
    assert!(!r.remove_publisher(10));
    assert!(r.remove_publisher(11));
    assert!(!r.has_entry(&c));
    assert_eq!(r.entry_count(), 1);
}

#[test]
fn most_recent_wins_tiebreak() {
    let mut r = TopNRanker::new(TopNRankerConfig {
        property_type: 0x12,
        tie_break_policy: TieBreakPolicy::MostRecentWins,
    });
    let a = make_ftn("/room/alice", "audio");
    let b = make_ftn("/room/bob", "audio");
    r.observe_value(&a, vec![10], SPEECH_SPEAKING, 1);
    r.observe_value(&b, vec![20], SPEECH_SPEAKING, 5);
    assert_eq!(r.compute_top_n(99, 2), vec![b.clone(), a.clone()]);
    // a changes value and back: its last update moves past b's
    r.observe_value(&a, vec![10], SPEECH_START, 6);
    r.observe_value(&a, vec![10], SPEECH_SPEAKING, 7);
    assert_eq!(r.compute_top_n(99, 2), vec![a, b]);
}

#[test]
fn readd_after_removal_ranks_as_newest() {
    let mut r = make_ranker();
    let a = make_ftn("/room/alice", "audio");
    let b = make_ftn("/room/bob", "audio");
    r.observe_value(&a, vec![10], SPEECH_SPEAKING, 1);
    r.observe_value(&b, vec![20], SPEECH_SPEAKING, 2);
    assert!(r.remove_track(&a).is_some());
    r.observe_value(&a, vec![10], SPEECH_SPEAKING, 3);
    // Under OldestWins, bob (arrived before alice came back) now wins the tie.
    assert_eq!(r.compute_top_n(99, 1), vec![b.clone()]);
    assert_eq!(r.compute_top_n(99, 2), vec![b, a]);
}
