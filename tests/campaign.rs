use crowdfunding::campaign::CrowdfundingContract;
use crowdfunding::error::CampaignError;
use crowdfunding::leaderboard::TopDonor;
use crowdfunding::ledger::DonationRecord;
use crowdfunding::streak::StreakInfo;
use crowdfunding::Identity;

const DAY: u64 = 86400;

fn id(n: u64) -> Identity {
    Identity::new(n)
}

// A campaign set up at time 0 with a goal of 100 units of 10^7 and a day to run.
fn setup_campaign() -> (CrowdfundingContract, Identity, i128, u64, Identity) {
    let mut client = CrowdfundingContract::new();
    let owner = id(1);
    let goal = 1000_000_000i128;
    let deadline = 0 + DAY;
    let token = id(99);
    client.initialize(owner, goal, deadline, token);
    (client, owner, goal, deadline, token)
}

fn top(donor: Identity, total_donation: i128) -> TopDonor {
    TopDonor { donor, total_donation }
}

#[test]
fn test_initialize_campaign() {
    let (client, _, goal, deadline, _) = setup_campaign();
    assert_eq!(client.get_total_raised(), 0);
    assert_eq!(client.get_goal(), goal);
    assert_eq!(client.get_deadline(), deadline);
    assert!(client.get_is_already_init());
}

#[test]
fn test_donate_zero_amount() {
    let (mut client, _, _, _, _) = setup_campaign();
    let donor = id(2);
    assert_eq!(client.donate(donor, 0, 0), Err(CampaignError::InvalidAmount));
}

#[test]
fn test_donate_after_deadline() {
    let (mut client, _, _, deadline, _) = setup_campaign();
    let donor = id(2);
    assert_eq!(
        client.donate(donor, 100_000_000, deadline + 1),
        Err(CampaignError::CampaignEnded)
    );
}

#[test]
fn test_is_ended() {
    let (client, _, _, deadline, _) = setup_campaign();
    assert!(!client.is_ended(0));
    assert!(client.is_ended(deadline + 1));
}

#[test]
fn test_get_donation_history_is_initially_empty() {
    let (client, _, _, _, _) = setup_campaign();
    let history: Vec<DonationRecord> = client.get_donation_history();
    assert_eq!(history.len(), 0);
}

#[test]
fn test_leaderboard_is_initially_empty() {
    let (client, _, _, _, _) = setup_campaign();
    let leaderboard: Vec<TopDonor> = client.get_leaderboard();
    assert_eq!(leaderboard.len(), 0);
}

#[test]
fn test_streak_info_is_initially_zero() {
    let (client, _, _, _, _) = setup_campaign();
    let new_donor = id(2);
    let streak_info: StreakInfo = client.get_streak_info(new_donor);
    assert_eq!(streak_info.last_donation_day, 0);
    assert_eq!(streak_info.streak_days, 0);
}

#[test]
fn test_get_progress_percentage() {
    let (client, _, _, _, _) = setup_campaign();
    assert_eq!(client.get_progress_percentage(), 0);
}

#[test]
fn test_refund_before_deadline() {
    let (mut client, _, _, _, _) = setup_campaign();
    let donor = id(2);
    assert_eq!(client.refund(donor, 0), Err(CampaignError::CampaignNotEnded));
}

#[test]
fn test_refund_when_goal_is_met() {
    let mut client = CrowdfundingContract::new();
    let owner = id(1);
    let donor = id(2);
    let goal = 0i128;
    let deadline = 0 + 100;
    client.initialize(owner, goal, deadline, id(99));
    assert_eq!(client.refund(donor, deadline + 1), Err(CampaignError::GoalReached));
}

#[test]
fn test_refund_with_no_donation() {
    let (mut client, _, _, deadline, _) = setup_campaign();
    let non_donor = id(3);
    assert_eq!(client.refund(non_donor, deadline + 1), Err(CampaignError::NoDonation));
}

#[test]
fn fresh_campaign_reports_no_progress_and_is_running() {
    let mut client = CrowdfundingContract::new();
    let now = 5_000u64;
    client.initialize(id(1), 1000, now + DAY, id(99));
    assert_eq!(client.get_progress_percentage(), 0);
    assert!(!client.is_ended(now));
}

#[test]
fn zero_donation_leaves_state_unchanged() {
    let (mut client, _, _, _, _) = setup_campaign();
    let alice = id(2);
    client.donate(alice, 40, 10).unwrap();
    assert_eq!(client.donate(alice, 0, 20), Err(CampaignError::InvalidAmount));
    assert_eq!(client.donate(alice, -5, 20), Err(CampaignError::InvalidAmount));
    assert_eq!(client.get_total_raised(), 40);
    assert_eq!(client.get_donation(alice), 40);
    assert_eq!(client.get_donation_history().len(), 1);
    assert_eq!(client.get_leaderboard(), vec![top(alice, 40)]);
    assert_eq!(client.get_streak_info(alice), StreakInfo { last_donation_day: 0, streak_days: 1 });
}

#[test]
fn leaderboard_orders_three_donors() {
    let (mut client, _, _, _, _) = setup_campaign();
    let (a, b, c) = (id(2), id(3), id(4));
    client.donate(a, 300, 10).unwrap();
    client.donate(b, 500, 20).unwrap();
    client.donate(c, 200, 30).unwrap();
    assert_eq!(client.get_leaderboard(), vec![top(b, 500), top(a, 300), top(c, 200)]);
}

#[test]
fn leaderboard_keeps_top_three_when_fourth_is_smaller() {
    let (mut client, _, _, _, _) = setup_campaign();
    let (a, b, c, d) = (id(2), id(3), id(4), id(5));
    client.donate(a, 300, 10).unwrap();
    client.donate(b, 500, 20).unwrap();
    client.donate(c, 200, 30).unwrap();
    client.donate(d, 100, 40).unwrap();
    assert_eq!(client.get_leaderboard(), vec![top(b, 500), top(a, 300), top(c, 200)]);
    assert_eq!(client.get_donation(d), 100);
    assert_eq!(client.get_total_raised(), 1100);
}

#[test]
fn leaderboard_evicts_the_lowest_and_moves_a_repeat_donor() {
    let (mut client, _, _, _, _) = setup_campaign();
    let (a, b, c, d) = (id(2), id(3), id(4), id(5));
    client.donate(a, 300, 10).unwrap();
    client.donate(b, 500, 20).unwrap();
    client.donate(c, 200, 30).unwrap();
    client.donate(d, 400, 40).unwrap();
    assert_eq!(client.get_leaderboard(), vec![top(b, 500), top(d, 400), top(a, 300)]);
    client.donate(a, 300, 50).unwrap();
    assert_eq!(client.get_leaderboard(), vec![top(a, 600), top(b, 500), top(d, 400)]);
}

#[test]
fn leaderboard_places_an_equal_total_after_the_earlier_one() {
    let (mut client, _, _, _, _) = setup_campaign();
    let (a, b) = (id(2), id(3));
    client.donate(a, 500, 10).unwrap();
    client.donate(b, 500, 20).unwrap();
    assert_eq!(client.get_leaderboard(), vec![top(a, 500), top(b, 500)]);
}

#[test]
fn streak_counts_consecutive_days_only() {
    let (mut client, _, _, _, _) = setup_campaign();
    client.initialize(id(1), 1000, 100 * DAY, id(99));
    let donor = id(2);
    client.donate(donor, 10, 10 * DAY + 5).unwrap();
    client.donate(donor, 10, 11 * DAY + 7).unwrap();
    assert_eq!(client.get_streak_info(donor), StreakInfo { last_donation_day: 11, streak_days: 2 });
    client.donate(donor, 10, 13 * DAY).unwrap();
    assert_eq!(client.get_streak_info(donor), StreakInfo { last_donation_day: 13, streak_days: 1 });
    client.donate(donor, 10, 13 * DAY + 600).unwrap();
    assert_eq!(client.get_streak_info(donor), StreakInfo { last_donation_day: 13, streak_days: 1 });
}

#[test]
fn streak_ignores_repeat_donations_on_one_day() {
    let (mut client, _, _, _, _) = setup_campaign();
    client.initialize(id(1), 1000, 100 * DAY, id(99));
    let donor = id(2);
    client.donate(donor, 10, 20 * DAY).unwrap();
    client.donate(donor, 10, 21 * DAY).unwrap();
    client.donate(donor, 10, 21 * DAY + 100).unwrap();
    client.donate(donor, 10, 22 * DAY - 1).unwrap();
    assert_eq!(client.get_streak_info(donor), StreakInfo { last_donation_day: 21, streak_days: 2 });
    assert!(client.get_streak_info(donor).streak_days >= 1);
}

#[test]
fn refund_zeroes_the_donor_once() {
    let (mut client, _, _, deadline, _) = setup_campaign();
    let (alice, bob) = (id(2), id(3));
    client.donate(alice, 300, 10).unwrap();
    client.donate(bob, 200, 20).unwrap();
    assert_eq!(client.refund(alice, deadline + 1), Ok(300));
    assert_eq!(client.get_donation(alice), 0);
    assert_eq!(client.get_donation(bob), 200);
    assert_eq!(client.get_total_raised(), 200);
    assert_eq!(client.get_donation_history().len(), 2);
    assert_eq!(client.refund(alice, deadline + 2), Err(CampaignError::NoDonation));
    assert_eq!(client.get_total_raised(), 200);
}

#[test]
fn total_is_the_sum_of_donations() {
    let (mut client, _, _, deadline, _) = setup_campaign();
    let (a, b, c) = (id(2), id(3), id(4));
    client.donate(a, 7, 1).unwrap();
    client.donate(b, 11, 2).unwrap();
    client.donate(a, 13, 3).unwrap();
    client.donate(c, 17, 4).unwrap();
    let sum = client.get_donation(a) + client.get_donation(b) + client.get_donation(c);
    assert_eq!(client.get_total_raised(), sum);
    assert_eq!(client.get_donation(a), 20);
    client.refund(b, deadline + 1).unwrap();
    let sum = client.get_donation(a) + client.get_donation(b) + client.get_donation(c);
    assert_eq!(client.get_total_raised(), sum);
    assert_eq!(sum, 37);
}

#[test]
fn history_records_each_donation_in_order() {
    let (mut client, _, _, _, _) = setup_campaign();
    let (a, b) = (id(2), id(3));
    client.donate(a, 5, 100).unwrap();
    client.donate(b, 6, 200).unwrap();
    client.donate(a, 7, 300).unwrap();
    assert_eq!(
        client.get_donation_history(),
        vec![
            DonationRecord { donor: a, amount: 5, timestamp: 100 },
            DonationRecord { donor: b, amount: 6, timestamp: 200 },
            DonationRecord { donor: a, amount: 7, timestamp: 300 },
        ]
    );
}

#[test]
fn reads_repeat_without_change() {
    let (mut client, _, _, _, _) = setup_campaign();
    let a = id(2);
    client.donate(a, 250_000_000, 10).unwrap();
    assert_eq!(client.get_progress_percentage(), client.get_progress_percentage());
    assert_eq!(client.get_leaderboard(), client.get_leaderboard());
    assert_eq!(client.get_streak_info(a), client.get_streak_info(a));
    assert_eq!(client.get_donation_history(), client.get_donation_history());
    assert_eq!(client.get_total_raised(), client.get_total_raised());
    assert_eq!(client.get_donation(a), client.get_donation(a));
}

#[test]
fn progress_percentage_rounds_down() {
    let (mut client, _, _, _, _) = setup_campaign();
    client.initialize(id(1), 1000, DAY, id(99));
    client.donate(id(2), 255, 10).unwrap();
    assert_eq!(client.get_progress_percentage(), 25);
    client.donate(id(3), 1000, 10).unwrap();
    assert_eq!(client.get_progress_percentage(), 125);
    assert!(client.is_goal_reached());
}

#[test]
fn progress_percentage_with_zero_or_negative_goal() {
    let mut client = CrowdfundingContract::new();
    client.initialize(id(1), 0, DAY, id(99));
    client.donate(id(2), 50, 10).unwrap();
    assert_eq!(client.get_progress_percentage(), 0);
    assert!(client.is_goal_reached());
    client.initialize(id(1), -3, DAY, id(99));
    client.donate(id(2), 1, 10).unwrap();
    assert_eq!(client.get_progress_percentage(), -34);
    assert!(client.is_goal_reached());
}

#[test]
fn goal_reached_blocks_refund_after_deadline() {
    let mut client = CrowdfundingContract::new();
    client.initialize(id(1), 100, DAY, id(99));
    client.donate(id(2), 100, 10).unwrap();
    assert!(client.is_goal_reached());
    assert_eq!(client.refund(id(2), DAY + 1), Err(CampaignError::GoalReached));
    assert_eq!(client.get_donation(id(2)), 100);
}

#[test]
fn uninitialized_campaign_reads_defaults_and_refuses_changes() {
    let mut client = CrowdfundingContract::new();
    assert!(!client.get_is_already_init());
    assert_eq!(client.get_goal(), 0);
    assert_eq!(client.get_deadline(), 0);
    assert_eq!(client.get_total_raised(), 0);
    assert_eq!(client.get_donation(id(2)), 0);
    assert_eq!(client.get_progress_percentage(), 0);
    assert!(client.is_goal_reached());
    assert!(!client.is_ended(0));
    assert!(client.is_ended(1));
    assert_eq!(client.donate(id(2), 10, 0), Err(CampaignError::NotInitialized));
    assert_eq!(client.refund(id(2), 10), Err(CampaignError::NotInitialized));
}

#[test]
fn donating_on_the_deadline_is_accepted() {
    let (mut client, _, _, deadline, _) = setup_campaign();
    assert_eq!(client.donate(id(2), 10, deadline), Ok(()));
    assert_eq!(client.refund(id(2), deadline), Err(CampaignError::CampaignNotEnded));
}

#[test]
fn initialize_again_discards_earlier_state() {
    let (mut client, _, _, _, _) = setup_campaign();
    client.donate(id(2), 10, 10).unwrap();
    client.initialize(id(5), 7, 50, id(98));
    assert_eq!(client.get_total_raised(), 0);
    assert_eq!(client.get_donation(id(2)), 0);
    assert_eq!(client.get_goal(), 7);
    assert_eq!(client.get_deadline(), 50);
    assert_eq!(client.get_leaderboard().len(), 0);
    assert_eq!(client.get_donation_history().len(), 0);
    assert_eq!(client.get_streak_info(id(2)), StreakInfo { last_donation_day: 0, streak_days: 0 });
}

#[test]
fn consistency_check_accepts_built_state_and_rejects_tampering() {
    let mut client = CrowdfundingContract::new();
    assert!(client.is_consistent());
    client.ledger.rows.push((id(2), 5));
    assert!(!client.is_consistent());

    let (mut client, _, _, _, _) = setup_campaign();
    client.donate(id(2), 30, 10).unwrap();
    client.donate(id(3), 20, 10).unwrap();
    assert!(client.is_consistent());
    client.ledger.total_raised = 49;
    assert!(!client.is_consistent());
    client.ledger.total_raised = 50;
    assert!(client.is_consistent());
    client.leaderboard.entries.swap(0, 1);
    assert!(!client.is_consistent());
}
