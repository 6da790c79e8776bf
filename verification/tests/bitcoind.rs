use fedimint_server::bitcoind::{HistoryStep, ScriptHistory, MAX_TX_HISTORY};

#[test]
fn an_empty_page_completes_the_history() {
    let mut history: ScriptHistory<String> = ScriptHistory::new();
    assert_eq!(history.add_page::<u32>(vec![]), HistoryStep::Complete);
    assert_eq!(history.len(), 0);
    assert_eq!(history.into_transactions(), Vec::<String>::new());
}

#[test]
fn pages_are_appended_in_order_and_name_the_next_page() {
    let mut history: ScriptHistory<String> = ScriptHistory::new();
    assert_eq!(
        history.add_page(vec![(1u32, "a".to_string()), (2, "b".to_string())]),
        HistoryStep::NextPage { last_seen: 2 }
    );
    assert_eq!(
        history.add_page(vec![(3u32, "c".to_string())]),
        HistoryStep::NextPage { last_seen: 3 }
    );
    assert_eq!(history.add_page::<u32>(vec![]), HistoryStep::Complete);
    assert_eq!(history.len(), 3);
    assert_eq!(history.into_transactions(), vec!["a", "b", "c"]);
}

#[test]
fn a_history_of_a_thousand_transactions_is_refused() {
    assert_eq!(MAX_TX_HISTORY, 1000);
    let mut history: ScriptHistory<u32> = ScriptHistory::new();
    let page: Vec<(u32, u32)> = (0..999).map(|n| (n, n)).collect();
    assert_eq!(history.add_page(page), HistoryStep::NextPage { last_seen: 998 });
    assert_eq!(history.add_page(vec![(999, 999)]), HistoryStep::LimitExceeded);
    assert_eq!(history.len(), 1000);

    let mut history: ScriptHistory<u32> = ScriptHistory::new();
    let page: Vec<(u32, u32)> = (0..1500).map(|n| (n, n)).collect();
    assert_eq!(history.add_page(page), HistoryStep::LimitExceeded);
    assert_eq!(history.len(), 1500);
}
