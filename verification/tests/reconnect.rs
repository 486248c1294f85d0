use synkmusic_rpc::reconnect::{Backoff, CONNECT_ATTEMPTS, MAX_RECONNECT_DELAY_SECS};

#[test]
fn backoff_round_doubles_then_gives_up() {
    let mut b = Backoff::new();
    let mut pauses = Vec::new();
    loop {
        let (pause, again) = b.on_failure();
        pauses.push(pause);
        if !again {
            break;
        }
    }
    assert_eq!(pauses, vec![1, 2, 4, 8, 16]);
    assert_eq!(pauses.len(), CONNECT_ATTEMPTS as usize);
    assert!(pauses.iter().all(|p| *p <= MAX_RECONNECT_DELAY_SECS));
}
