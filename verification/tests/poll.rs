use arbscan::{count_cycles, PollState};

#[test]
fn repeated_blocks_run_once() {
    // Observations [5, 5, 5, 6, 6, 7] execute exactly 3 cycles: one each for
    // blocks 5, 6 and 7, never 6.
    assert_eq!(count_cycles(&vec![5, 5, 5, 6, 6, 7]), 3);
}

#[test]
fn first_block_is_always_processed() {
    let st = PollState::new();
    assert_eq!(st.last_block, 0);
    assert!(st.should_process(1));
    assert!(st.should_process(12345));
}

#[test]
fn gate_blocks_stale_observations() {
    let mut st = PollState::new();
    assert!(st.should_process(7));
    st.record_processed(7);
    assert!(!st.should_process(7));
    assert!(!st.should_process(5));
    assert!(st.should_process(8));
}

#[test]
fn cycle_counting_edges() {
    assert_eq!(count_cycles(&vec![]), 0);
    assert_eq!(count_cycles(&vec![0, 0, 0]), 0);
    assert_eq!(count_cycles(&vec![3, 2, 1]), 1);
    assert_eq!(count_cycles(&vec![1, 2, 3]), 3);
}
