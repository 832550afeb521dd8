use dqn::dqn_memory::DQNMemory;

fn record_state(tag: i64) -> Vec<i64> {
    vec![tag, tag + 1, tag + 2]
}

#[test]
fn scenario_fifo_eviction_order() {
    // Capacity three; storing four records keeps the three most recent in
    // their original relative order.
    let mut memory = DQNMemory::new(3);
    for tag in 0..4i64 {
        memory.store_experience(record_state(tag), 0, tag, record_state(tag + 10), false);
    }
    assert_eq!(memory.len(), 3);
    assert_eq!(memory.replay_buffer[0].reward, 1);
    assert_eq!(memory.replay_buffer[1].reward, 2);
    assert_eq!(memory.replay_buffer[2].reward, 3);
    assert_eq!(memory.replay_buffer[0].state, record_state(1));
    assert_eq!(memory.replay_buffer[2].state, record_state(3));
}

#[test]
fn length_never_exceeds_capacity() {
    let mut memory = DQNMemory::new(5);
    for tag in 0..50i64 {
        memory.store_experience(record_state(tag), 1, tag, record_state(tag), tag % 2 == 0);
        assert!(memory.len() <= 5);
    }
    assert_eq!(memory.len(), 5);
    // The five most recent rewards survive.
    let rewards: Vec<i64> = memory.replay_buffer.iter().map(|r| r.reward).collect();
    assert_eq!(rewards, vec![45, 46, 47, 48, 49]);
}

#[test]
fn zero_capacity_memory_stays_empty() {
    let mut memory = DQNMemory::new(0);
    memory.store_experience(record_state(0), 0, 7, record_state(1), true);
    assert_eq!(memory.len(), 0);
}

#[test]
fn sample_returns_stored_records_with_replacement() {
    let mut memory = DQNMemory::new(10);
    for tag in 0..3i64 {
        memory.store_experience(record_state(tag), tag as usize, tag * 100, record_state(tag), false);
    }
    // Sampling more than stored is fine: draws are with replacement.
    let batch = memory.sample(32);
    assert_eq!(batch.len(), 32);
    for rec in &batch {
        assert!(rec.reward == 0 || rec.reward == 100 || rec.reward == 200);
        assert_eq!(rec.action as i64 * 100, rec.reward);
    }
}

#[test]
fn duplicate_copies_all_fields() {
    let mut memory = DQNMemory::new(4);
    memory.store_experience(record_state(5), 2, -33, record_state(6), true);
    let copy = memory.replay_buffer[0].duplicate();
    assert_eq!(copy.state, record_state(5));
    assert_eq!(copy.action, 2);
    assert_eq!(copy.reward, -33);
    assert_eq!(copy.next_state, record_state(6));
    assert!(copy.done);
}
