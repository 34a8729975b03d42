use lighter_client::errors::SignerClientError;
use lighter_client::nonce_manager::{validate_key_range, ApiNonceManager, NonceManagerType, NonceState, OptimisticNonceManager};

#[test]
fn key_ranges_are_checked() {
    assert_eq!(validate_key_range(0, 0), Ok(()));
    assert_eq!(validate_key_range(3, 254), Ok(()));
    assert_eq!(
        validate_key_range(5, 4),
        Err(SignerClientError::Nonce("invalid api key range start=5 end=4".to_string()))
    );
    assert_eq!(
        validate_key_range(-1, 4),
        Err(SignerClientError::Nonce("invalid api key range start=-1 end=4".to_string()))
    );
    assert_eq!(
        validate_key_range(0, 255),
        Err(SignerClientError::Nonce("invalid api key range start=0 end=255".to_string()))
    );
}

#[test]
fn fetched_nonces_are_kept_one_lower() {
    let state = NonceState::from_fetched(9, 2, 4, &vec![10, 20, 30]);
    assert_eq!(state.account_index(), 9);
    assert_eq!(state.current_api_key(), 4);
    assert_eq!(state.nonce_of(2), Some(9));
    assert_eq!(state.nonce_of(3), Some(19));
    assert_eq!(state.nonce_of(4), Some(29));
    assert_eq!(state.nonce_of(5), None);
}

#[test]
fn keys_are_used_in_turn() {
    let mut state = NonceState::from_fetched(0, 2, 4, &vec![1, 1, 1]);
    let keys: Vec<i32> = (0..7).map(|_| state.increment_current_api_key()).collect();
    assert_eq!(keys, vec![2, 3, 4, 2, 3, 4, 2]);
}

#[test]
fn optimistic_nonces_count_up_per_key() {
    let state = NonceState::from_fetched(0, 0, 1, &vec![100, 200]);
    let mut manager = OptimisticNonceManager::new(state);
    assert_eq!(manager.next_nonce(), Ok((0, 100)));
    assert_eq!(manager.next_nonce(), Ok((1, 200)));
    assert_eq!(manager.next_nonce(), Ok((0, 101)));
    manager.acknowledge_failure(0);
    assert_eq!(manager.next_nonce(), Ok((1, 201)));
    assert_eq!(manager.next_nonce(), Ok((0, 101)));
    manager.apply_hard_refresh(1, 500);
    assert_eq!(manager.next_nonce(), Ok((1, 500)));
    assert_eq!(manager.state().nonce_of(1), Some(500));
}

#[test]
fn failure_on_a_single_key_reuses_the_nonce() {
    let mut manager = OptimisticNonceManager::new(NonceState::from_fetched(0, 7, 7, &vec![42]));
    let (key, nonce) = manager.next_nonce().unwrap();
    assert_eq!((key, nonce), (7, 42));
    manager.acknowledge_failure(key);
    assert_eq!(manager.next_nonce(), Ok((7, 42)));
    manager.acknowledge_failure(99);
    assert_eq!(manager.next_nonce(), Ok((7, 43)));
}

#[test]
fn api_nonces_record_what_was_fetched() {
    let mut manager = ApiNonceManager::new(NonceState::from_fetched(0, 0, 1, &vec![5, 6]));
    assert_eq!(manager.next_api_key(), 0);
    assert_eq!(manager.record_fetched_nonce(0, 77), (0, 77));
    assert_eq!(manager.state().nonce_of(0), Some(77));
    assert_eq!(manager.next_api_key(), 1);
    manager.acknowledge_failure(0);
    assert_eq!(manager.state().nonce_of(0), Some(76));
    manager.apply_hard_refresh(1, 10);
    assert_eq!(manager.state().nonce_of(1), Some(9));
    assert_ne!(NonceManagerType::Api, NonceManagerType::Optimistic);
}

#[test]
fn the_next_key_can_be_peeked() {
    let mut state = NonceState::from_fetched(0, 1, 2, &vec![3, 4]);
    assert_eq!(state.peek_next_api_key(), 1);
    assert_eq!(state.increment_current_api_key(), 1);
    assert_eq!(state.peek_next_api_key(), 2);
}
