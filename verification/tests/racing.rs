use reflex_arcade::race::BranchStatus;
use reflex_arcade::race::settle_race;

#[test]
fn first_eligible_branch_wins_and_the_rest_are_cancelled() {
    let (winner, statuses) = settle_race(&vec![false, true, true, false]);
    assert_eq!(winner, Some(1));
    assert_eq!(
        statuses,
        vec![
            BranchStatus::Cancelled,
            BranchStatus::Won,
            BranchStatus::Cancelled,
            BranchStatus::Cancelled,
        ]
    );
    let winners = statuses.iter().filter(|s| **s == BranchStatus::Won).count();
    assert_eq!(winners, 1);
}

#[test]
fn no_eligible_branch_keeps_everyone_pending() {
    let (winner, statuses) = settle_race(&vec![false, false, false]);
    assert_eq!(winner, None);
    assert_eq!(
        statuses,
        vec![BranchStatus::Pending, BranchStatus::Pending, BranchStatus::Pending]
    );
}

#[test]
fn a_single_branch_race_settles_to_it() {
    let (winner, statuses) = settle_race(&vec![true]);
    assert_eq!(winner, Some(0));
    assert_eq!(statuses, vec![BranchStatus::Won]);
}
