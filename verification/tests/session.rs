use test_providers::config::{ProviderConfig, DEFAULT_SAMPLE_SIZE};
use test_providers::providers::Providers;
use test_providers::ranges::Ranges;
use test_providers::session::{Action, Session};
use test_providers::success_rate::SuccessRate;

fn small_session() -> Session {
    let zero = SuccessRate::default();
    Session::new(
        2,
        vec![Providers::PandaGeth(zero), Providers::Infura(zero)],
        vec![Ranges::Frontier((vec![11, 12], zero)), Ranges::Merge((vec![21, 22], zero))],
    )
}

/// Runs a session to its end and gives back the actions.
fn play(session: &mut Session, answer: impl Fn(usize, Action) -> bool) -> Vec<Action> {
    let mut actions = vec![];
    let mut current: usize = 0;
    loop {
        let action = session.action();
        actions.push(action);
        if let Action::Connect { provider } = action {
            current = provider;
        }
        if action == Action::Finish {
            return actions;
        }
        session.advance(answer(current, action));
    }
}

fn failures(session: &Session) -> (Vec<u64>, Vec<u64>) {
    let by_range = session.ranges().iter().map(|range| match range {
        Ranges::Frontier((_, rate)) | Ranges::Merge((_, rate)) => rate.failures,
        _ => unreachable!(),
    });
    let by_provider = session.providers().iter().map(|provider| match provider {
        Providers::PandaGeth(rate) | Providers::Infura(rate) => rate.failures,
        _ => unreachable!(),
    });
    (by_range.collect(), by_provider.collect())
}

#[test]
fn requests_come_in_order() {
    let mut session = small_session();
    let actions = play(&mut session, |_, _| true);
    let block = |block: u64| {
        vec![
            Action::LookupEpochAcc { block },
            Action::GetHeader { block },
            Action::GetReceipts { block },
            Action::GetBlockBody { block },
        ]
    };
    let mut expected = vec![];
    for provider in 0..2 {
        expected.push(Action::Connect { provider });
        for range in 0..2 {
            expected.push(Action::StartRange { range });
            expected.extend(block([11, 21][range]));
            expected.extend(block([12, 22][range]));
            expected.push(Action::EndRange { provider, range, failures: 0, total: 6 });
        }
        expected.push(Action::EndProvider { provider, failures: 0, total: 12 });
    }
    expected.push(Action::Finish);
    assert_eq!(actions, expected);
    assert_eq!(failures(&session), (vec![0, 0], vec![0, 0]));
}

#[test]
fn a_missing_accumulator_costs_three_and_skips_the_block() {
    let mut session = small_session();
    let actions = play(&mut session, |_, action| action != Action::LookupEpochAcc { block: 12 });
    assert!(!actions.contains(&Action::GetHeader { block: 12 }));
    assert!(actions.contains(&Action::GetHeader { block: 11 }));
    assert_eq!(failures(&session), (vec![6, 0], vec![3, 3]));
}

#[test]
fn a_bad_header_costs_three_and_skips_the_rest() {
    let mut session = small_session();
    let actions = play(&mut session, |provider, action| {
        provider == 0 || action != Action::GetHeader { block: 21 }
    });
    let asked = actions.iter().filter(|action| **action == Action::GetReceipts { block: 21 });
    assert_eq!(asked.count(), 1);
    assert_eq!(failures(&session), (vec![0, 3], vec![0, 3]));
}

#[test]
fn bad_receipts_and_bodies_cost_one_each() {
    let mut session = small_session();
    play(&mut session, |_, action| action != Action::GetReceipts { block: 11 });
    assert_eq!(failures(&session), (vec![2, 0], vec![1, 1]));
    let mut session = small_session();
    play(&mut session, |_, action| {
        action != Action::GetReceipts { block: 22 } && action != Action::GetBlockBody { block: 22 }
    });
    assert_eq!(failures(&session), (vec![0, 4], vec![2, 2]));
}

#[test]
fn providers_that_never_answer_fail_everything() {
    let mut session = small_session();
    play(&mut session, |_, _| false);
    assert_eq!(
        *session.providers(),
        vec![
            Providers::PandaGeth(SuccessRate { failures: 12, total: 12 }),
            Providers::Infura(SuccessRate { failures: 12, total: 12 }),
        ]
    );
    assert_eq!(
        *session.ranges(),
        vec![
            Ranges::Frontier((vec![11, 12], SuccessRate { failures: 12, total: 12 })),
            Ranges::Merge((vec![21, 22], SuccessRate { failures: 12, total: 12 })),
        ]
    );
}

#[test]
fn failures_are_booked_once_by_range_and_once_by_provider() {
    let mut session = small_session();
    let actions = play(&mut session, |provider, action| match action {
        Action::LookupEpochAcc { block } => block != 11 + 10 * provider as u64,
        Action::GetReceipts { block } => block % 2 == 1,
        _ => true,
    });
    let (by_range, by_provider) = failures(&session);
    assert_eq!(by_range, vec![3 + 2, 3 + 2]);
    assert_eq!(by_provider, vec![3 + 2, 3 + 2]);
    assert!(actions.contains(&Action::EndRange { provider: 0, range: 0, failures: 4, total: 6 }));
    assert!(actions.contains(&Action::EndRange { provider: 1, range: 0, failures: 1, total: 6 }));
    assert!(actions.contains(&Action::EndProvider { provider: 1, failures: 5, total: 12 }));
}

#[test]
fn outcomes_of_bookkeeping_do_not_matter() {
    let mut session = small_session();
    play(&mut session, |_, action| {
        matches!(
            action,
            Action::LookupEpochAcc { .. }
                | Action::GetHeader { .. }
                | Action::GetReceipts { .. }
                | Action::GetBlockBody { .. }
        )
    });
    assert_eq!(failures(&session), (vec![0, 0], vec![0, 0]));
}

#[test]
fn a_finished_session_stays_finished() {
    let mut session = small_session();
    play(&mut session, |_, _| true);
    session.advance(false);
    assert_eq!(session.action(), Action::Finish);
    assert_eq!(failures(&session), (vec![0, 0], vec![0, 0]));
}

#[test]
fn a_session_without_providers_is_finished() {
    let session = Session::new(1, vec![], vec![]);
    assert_eq!(session.action(), Action::Finish);
    assert_eq!(
        session.report(),
        vec!["Range Summary:", "Provider Summary:", "Finished testing providers"]
    );
}

#[test]
fn empty_samples_make_no_requests() {
    let config = ProviderConfig { sample_size: 0 };
    let mut session = Session::start(&config, 19_000_000);
    let actions = play(&mut session, |_, _| false);
    assert_eq!(actions.len(), 4 * (2 + 9 * 2) + 1);
    assert_eq!(
        session.providers()[0],
        Providers::PandaGeth(SuccessRate { failures: 0, total: 0 })
    );
}

#[test]
fn sessions_end_within_their_bound() {
    let mut session = small_session();
    let steps = play(&mut session, |_, _| true).len() - 1;
    assert_eq!(steps, 2 * (2 + 2 * (2 + 4 * 2)));
}

#[test]
fn whole_sessions_report_every_range_and_provider() {
    let config = ProviderConfig { sample_size: DEFAULT_SAMPLE_SIZE };
    assert_eq!(config, ProviderConfig { sample_size: 5 });
    let mut session = Session::start(&config, 19_000_000);
    let before: Vec<Vec<u64>> =
        session.ranges().iter().map(|range| range.blocks().clone()).collect();
    play(&mut session, |provider, action| match action {
        Action::GetBlockBody { .. } => provider != 3,
        _ => true,
    });
    let after: Vec<Vec<u64>> =
        session.ranges().iter().map(|range| range.blocks().clone()).collect();
    assert_eq!(before, after);
    assert_eq!(
        session.report(),
        vec![
            "Range Summary:",
            "Range: Frontier // Failure Rate: 5/60",
            "Range: Homestead // Failure Rate: 5/60",
            "Range: Byzantium // Failure Rate: 5/60",
            "Range: Constantinople // Failure Rate: 5/60",
            "Range: Istanbul // Failure Rate: 5/60",
            "Range: Berlin // Failure Rate: 5/60",
            "Range: London // Failure Rate: 5/60",
            "Range: Merge // Failure Rate: 5/60",
            "Range: Shanghai // Failure Rate: 5/60",
            "Provider Summary:",
            "Provider: PandaGeth // Failure Rate: 0 / 135",
            "Provider: PandaErigon // Failure Rate: 0 / 135",
            "Provider: PandaArchive // Failure Rate: 0 / 135",
            "Provider: Infura // Failure Rate: 45 / 135",
            "Finished testing providers",
        ]
    );
}
