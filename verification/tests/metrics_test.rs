use brinsfield_silence_simulation::metrics::{primary_motive_counts, team_tally};
use brinsfield_silence_simulation::motives::MotiveLabel;

#[test]
fn primary_counts_cover_every_silent_employee() {
    let p = [
        MotiveLabel::Defensive,
        MotiveLabel::Defensive,
        MotiveLabel::Relational,
    ];
    let c = primary_motive_counts(&p);
    assert_eq!(c, vec![0, 1, 2, 0, 0, 0]);
    assert_eq!(c.iter().sum::<u64>(), 3);
    // The defensive share of the motive mix is 2/3.
    assert!((c[MotiveLabel::Defensive.index()] as f64 / 3.0 - 2.0 / 3.0).abs() < 1e-12);
}

#[test]
fn primary_counts_zero_without_silence() {
    assert_eq!(primary_motive_counts(&[]), vec![0; 6]);
}

#[test]
fn team_tally_counts_members_and_hits() {
    let members = [(0, true), (1, false), (0, false), (2, true), (2, true), (0, true)];
    let (sizes, hits) = team_tally(&members, 4);
    assert_eq!(sizes, vec![3, 1, 2, 0]);
    assert_eq!(hits, vec![2, 0, 2, 0]);
    assert_eq!(sizes.iter().sum::<u64>(), members.len() as u64);
}

#[test]
fn team_tally_empty_teams() {
    let (sizes, hits) = team_tally(&[], 3);
    assert_eq!(sizes, vec![0, 0, 0]);
    assert_eq!(hits, vec![0, 0, 0]);
    let (sizes, hits) = team_tally(&[], 0);
    assert!(sizes.is_empty() && hits.is_empty());
}
