use slam::transaction::Transaction;
use std::sync::{Arc, Mutex};

type Rollback = Box<dyn Fn() -> Result<(), String> + Send>;

fn new_transaction() -> Transaction<Rollback> {
    Transaction::new()
}

#[test]
fn test_transaction_new() {
    let transaction = new_transaction();
    assert_eq!(transaction.rollsbacks.len(), 0);
    assert!(!transaction.committed);
}

#[test]
fn test_add_rollback() {
    let mut transaction = new_transaction();

    transaction.add_rollback(Box::new(|| Ok(())));
    assert_eq!(transaction.rollsbacks.len(), 1);

    transaction.add_rollback(Box::new(|| Ok(())));
    assert_eq!(transaction.rollsbacks.len(), 2);
}

#[test]
fn test_commit() {
    let mut transaction = new_transaction();

    transaction.add_rollback(Box::new(|| Ok(())));
    transaction.add_rollback(Box::new(|| Ok(())));
    assert_eq!(transaction.rollsbacks.len(), 2);
    assert!(!transaction.committed);

    transaction.commit();
    assert_eq!(transaction.rollsbacks.len(), 0);
    assert!(transaction.committed);
}

#[test]
fn test_rollback_successful_actions() {
    let counter = Arc::new(Mutex::new(0));
    let mut transaction = new_transaction();

    // Add rollback actions that increment the counter
    let counter_clone1 = Arc::clone(&counter);
    transaction.add_rollback(Box::new(move || {
        let mut count = counter_clone1.lock().unwrap();
        *count += 1;
        Ok(())
    }));

    let counter_clone2 = Arc::clone(&counter);
    transaction.add_rollback(Box::new(move || {
        let mut count = counter_clone2.lock().unwrap();
        *count += 10;
        Ok(())
    }));

    transaction.rollback();

    // Actions should be executed in reverse order: 10 first, then 1
    let final_count = *counter.lock().unwrap();
    assert_eq!(final_count, 11);
    assert_eq!(transaction.rollsbacks.len(), 0);
}

#[test]
fn test_rollback_with_failing_actions() {
    let counter = Arc::new(Mutex::new(0));
    let mut transaction = new_transaction();

    // Add a successful rollback action
    let counter_clone1 = Arc::clone(&counter);
    transaction.add_rollback(Box::new(move || {
        let mut count = counter_clone1.lock().unwrap();
        *count += 1;
        Ok(())
    }));

    // Add a failing rollback action
    transaction.add_rollback(Box::new(|| Err("Rollback failed".to_string())));

    // Add another successful rollback action
    let counter_clone2 = Arc::clone(&counter);
    transaction.add_rollback(Box::new(move || {
        let mut count = counter_clone2.lock().unwrap();
        *count += 10;
        Ok(())
    }));

    let outcomes = transaction.rollback();

    // All actions should be attempted, even if some fail
    // Successful actions: 10 + 1 = 11
    let final_count = *counter.lock().unwrap();
    assert_eq!(final_count, 11);
    assert_eq!(transaction.rollsbacks.len(), 0);
    assert_eq!(outcomes, vec![Ok(()), Err("Rollback failed".to_string()), Ok(())]);
}

#[test]
fn test_rollback_empty_transaction() {
    let mut transaction = new_transaction();

    // Should not panic on empty rollback
    transaction.rollback();
    assert_eq!(transaction.rollsbacks.len(), 0);
}

#[test]
fn test_multiple_rollbacks() {
    let counter = Arc::new(Mutex::new(0));
    let mut transaction = new_transaction();

    let counter_clone = Arc::clone(&counter);
    transaction.add_rollback(Box::new(move || {
        let mut count = counter_clone.lock().unwrap();
        *count += 1;
        Ok(())
    }));

    // First rollback
    transaction.rollback();
    assert_eq!(*counter.lock().unwrap(), 1);
    assert_eq!(transaction.rollsbacks.len(), 0);

    // Second rollback should do nothing
    transaction.rollback();
    assert_eq!(*counter.lock().unwrap(), 1);
}

#[test]
fn test_commit_after_rollback() {
    let mut transaction = new_transaction();

    transaction.add_rollback(Box::new(|| Ok(())));
    transaction.rollback();

    // Commit after rollback should work but do nothing
    transaction.commit();
    assert!(transaction.committed);
    assert_eq!(transaction.rollsbacks.len(), 0);
}

#[test]
fn rollback_calls_the_latest_action_first() {
    let order = Arc::new(Mutex::new(Vec::new()));
    let mut transaction = new_transaction();
    for name in ["first", "second", "third"] {
        let order = Arc::clone(&order);
        transaction.add_rollback(Box::new(move || {
            order.lock().unwrap().push(name);
            Err(name.to_string())
        }));
    }
    let outcomes = transaction.rollback();
    assert_eq!(*order.lock().unwrap(), vec!["third", "second", "first"]);
    assert_eq!(outcomes[0], Err("third".to_string()));
    assert!(!transaction.committed);
}

#[test]
fn next_rollback_takes_the_latest_action() {
    let mut transaction: Transaction<u8> = Transaction::new();
    transaction.add_rollback(1);
    transaction.add_rollback(2);
    assert_eq!(transaction.next_rollback(), Some(2));
    assert_eq!(transaction.next_rollback(), Some(1));
    assert_eq!(transaction.next_rollback(), None);
}
