use jepsen_rs::nemesis::register::{NemesisRegister, NemesisRegisterStrategy};

#[test]
fn test_nemesis_register() {
    let mut register = NemesisRegister::new(NemesisRegisterStrategy::FIFO(2));
    assert_eq!(register.put(1), None);
    assert_eq!(register.put(2), None);
    assert_eq!(register.put(3), Some(1));
    assert_eq!(register.put(4), Some(2));

    let mut register = NemesisRegister::new(NemesisRegisterStrategy::RandomQueue(2));
    assert_eq!(register.put(1), None);
    assert_eq!(register.put(2), None);
    assert!(matches!(register.put(3), Some(_)));
    assert!(matches!(register.put(4), Some(_)));
}

#[test]
fn fifo_first_eviction_is_on_put_after_capacity() {
    let k = 5;
    let mut register = NemesisRegister::new(NemesisRegisterStrategy::FIFO(k));
    for i in 0..k as u64 {
        assert_eq!(register.put(i), None);
    }
    // The (k+1)-th put evicts, and always the earliest still-queued record.
    for i in k as u64..3 * k as u64 {
        assert_eq!(register.put(i), Some(i - k as u64));
    }
}

#[test]
fn random_queue_length_never_exceeds_capacity() {
    let k = 3;
    let mut register = NemesisRegister::new(NemesisRegisterStrategy::RandomQueue(k));
    for i in 0u64..50 {
        let evicted = register.put(i);
        assert!(register.len() <= k);
        if i < k as u64 {
            assert_eq!(evicted, None);
        } else {
            // Every eviction removes a record that was present right after
            // the new record was appended.
            assert!(evicted.is_some());
            assert!(evicted.unwrap() <= i);
        }
    }
}

#[test]
fn default_strategy_is_fifo_one() {
    assert_eq!(
        NemesisRegisterStrategy::default(),
        NemesisRegisterStrategy::FIFO(1)
    );
    let mut register = NemesisRegister::new(NemesisRegisterStrategy::default());
    assert_eq!(register.put("a"), None);
    assert_eq!(register.put("b"), Some("a"));
}

#[test]
fn with_strategy_replaces_the_policy() {
    let mut register =
        NemesisRegister::new(NemesisRegisterStrategy::FIFO(1)).with_strategy(NemesisRegisterStrategy::FIFO(2));
    assert_eq!(register.put(10), None);
    assert_eq!(register.put(20), None);
    assert_eq!(register.put(30), Some(10));
    register.set_strategy(NemesisRegisterStrategy::FIFO(1));
    assert_eq!(register.put(40), Some(20));
    assert_eq!(register.put(50), Some(30));
}
