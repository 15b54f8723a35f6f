use crossfury::connectors::common::batch_subscription::{batch_id_of, BatchOutcome, BatchSubscriptionManager};
use crossfury::types::common::DataType;
use crossfury::types::config::SubscriptionStatus;

#[test]
fn test_batch_subscription_manager_creation() {
    let manager = BatchSubscriptionManager::with_default_config();
    let stats = manager.get_stats();
    assert_eq!(stats.total_requests, 0);
    assert_eq!(stats.queue_length, 0);
}

#[test]
fn test_add_subscription_request() {
    let mut manager = BatchSubscriptionManager::with_default_config();
    let result = manager.add_subscription_request("BTCUSDT".to_string(), vec![DataType::OrderBook], Some(1));
    assert!(result.is_ok());
    assert_eq!(manager.get_queue_length(), 1);
    assert!(matches!(manager.get_subscription_status("BTCUSDT"), Some(SubscriptionStatus::Pending)));
}

fn run_batch(manager: &mut BatchSubscriptionManager, fail: &[&str]) -> (Vec<String>, usize, usize) {
    let (id, batch) = manager.begin_next_batch().expect("a batch");
    let symbols: Vec<String> = batch.iter().map(|r| r.symbol.clone()).collect();
    let answers = batch
        .iter()
        .map(|r| {
            let bad = fail.contains(&r.symbol.as_str());
            (r.symbol.clone(), !bad, if bad { Some("拒绝".to_string()) } else { None })
        })
        .collect();
    let result = manager.finish_batch(&id, &batch, &BatchOutcome::Answered(answers), 5);
    (symbols, result.successful, result.failed)
}

#[test]
fn test_batch_processing() {
    let mut manager = BatchSubscriptionManager::with_default_config();
    for i in 0..5 {
        manager.add_subscription_request(format!("SYMBOL{}", i), vec![DataType::OrderBook], None).unwrap();
    }
    let (_, successful, failed) = run_batch(&mut manager, &[]);
    assert!(successful > 0);
    assert_eq!(failed, 0);
    assert!(matches!(manager.get_subscription_status("SYMBOL3"), Some(SubscriptionStatus::Active)));
}

#[test]
fn test_priority_ordering() {
    let mut manager = BatchSubscriptionManager::with_default_config();
    manager.add_subscription_request("LOW".to_string(), vec![DataType::OrderBook], Some(100)).unwrap();
    manager.add_subscription_request("HIGH".to_string(), vec![DataType::OrderBook], Some(1)).unwrap();
    manager.add_subscription_request("MEDIUM".to_string(), vec![DataType::OrderBook], Some(50)).unwrap();
    let (symbols, _, _) = run_batch(&mut manager, &[]);
    assert_eq!(symbols, vec!["HIGH".to_string(), "MEDIUM".to_string(), "LOW".to_string()]);
}

#[test]
fn test_retry_failed_subscriptions() {
    let mut manager = BatchSubscriptionManager::with_default_config();
    manager.state.subscription_status.insert("FAILED1".to_string(), SubscriptionStatus::Failed("测试失败".to_string()));
    manager.state.subscription_status.insert("FAILED2".to_string(), SubscriptionStatus::Failed("测试失败".to_string()));
    let retry_count = manager.retry_failed_subscriptions().unwrap();
    assert_eq!(retry_count, 2);
    assert_eq!(manager.get_queue_length(), 2);
}

#[test]
fn test_failed_answers_and_batch_size() {
    let mut manager = BatchSubscriptionManager::with_default_config();
    for i in 0..12 {
        manager.add_subscription_request(format!("S{:02}", i), vec![DataType::Trade], None).unwrap();
    }
    let (symbols, successful, failed) = run_batch(&mut manager, &["S01"]);
    assert_eq!(symbols.len(), 10);
    assert_eq!((successful, failed), (9, 1));
    assert_eq!(manager.get_queue_length(), 2);
    assert!(matches!(manager.get_subscription_status("S01"), Some(SubscriptionStatus::Failed(_))));
    assert_eq!(manager.get_stats().total_batches, 1);
}

#[test]
fn test_batch_id_takes_first_eight_characters() {
    assert_eq!(batch_id_of("1b4e28ba-2fa1-11d2-883f-0016d3cca427"), "batch_1b4e28ba");
    assert_eq!(batch_id_of("12345678"), "batch_12345678");
}
