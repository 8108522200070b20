use north_pole::bucket::{decode_state, encode_state, try_withdraw, BucketState, MAX_BUCKET_LEVEL};
use north_pole::bucket_service::{BucketHandle, WithdrawOutcome};

#[test]
fn test_encode_round_trip() {
    let bucket_size = 10;
    let timestamp_ms = 1_614_000_000_000u64; // Example timestamp
    let encoded = encode_state(bucket_size, timestamp_ms);
    let (d_bucket_size, d_timestamp_ms) = decode_state(encoded);

    assert_eq!(bucket_size, d_bucket_size,);
    assert_eq!(timestamp_ms, d_timestamp_ms,);
}

#[test]
fn encode_truncates_stamp_to_256ms() {
    let encoded = encode_state(3, 1000);
    let (level, stamp) = decode_state(encoded);
    assert_eq!(level, 3);
    assert_eq!(stamp, 768);
}

#[test]
fn withdraw_refill_math() {
    let start = BucketState { level: 0, last_ms: 0 };

    // Half a second: no refill yet, the bucket stays empty.
    assert!(try_withdraw(start, 500).is_none());

    // One full second refills one unit, the withdrawal takes it back.
    let after_1s = try_withdraw(start, 1000).unwrap();
    assert_eq!(after_1s.level, 0);
    assert_eq!(after_1s.last_ms, 1000);

    // Five seconds refill to the cap of 5; one unit leaves.
    let after_5s = try_withdraw(start, 5000).unwrap();
    assert_eq!(after_5s.level, 4);
    assert_eq!(after_5s.last_ms, 5000);
}

#[test]
fn withdraw_is_pure_under_retry() {
    // Recomputing the transition on the same inputs gives the same output,
    // which is what makes compare-and-swap retries safe.
    let s = BucketState { level: 2, last_ms: 2048 };
    let a = try_withdraw(s, 4096).unwrap();
    let b = try_withdraw(s, 4096).unwrap();
    assert_eq!(a, b);
}

#[test]
fn full_bucket_drains_in_exactly_five_withdrawals() {
    let handle = BucketHandle::new();
    let now = 1_614_000_000_000u64; // a multiple of 256: the stamp is exact
    handle.refill(now);
    let (level, _) = decode_state(handle.peek());
    assert_eq!(level, MAX_BUCKET_LEVEL);

    for expected in (0..5).rev() {
        match handle.withdraw(now) {
            WithdrawOutcome::Withdrawn(word) => {
                let (level, stamp) = decode_state(word);
                assert_eq!(level, expected);
                assert_eq!(stamp, now);
            }
            _ => panic!("withdrawal {} should succeed", 5 - expected),
        }
    }
    assert!(matches!(handle.withdraw(now), WithdrawOutcome::Empty));
    let (level, _) = decode_state(handle.peek());
    assert_eq!(level, 0);
}

#[test]
fn interleaved_withdrawals_never_double_spend() {
    // Two clients share one bucket and interleave their attempts; every
    // attempt goes through the same compare-and-swap transition, so exactly
    // the five units the bucket held are granted between them.
    let handle = std::sync::Arc::new(BucketHandle::new());
    let now = 1_614_000_000_000u64;
    handle.refill(now);

    let first = std::sync::Arc::clone(&handle);
    let second = std::sync::Arc::clone(&handle);
    let mut granted = 0u32;
    for _ in 0..4 {
        if matches!(first.withdraw(now), WithdrawOutcome::Withdrawn(_)) {
            granted += 1;
        }
        if matches!(second.withdraw(now), WithdrawOutcome::Withdrawn(_)) {
            granted += 1;
        }
    }
    assert_eq!(granted, 5);
    let (level, _) = decode_state(handle.peek());
    assert_eq!(level, 0);
}

#[test]
fn service_refill_math_from_epoch() {
    // A fresh bucket is empty with its stamp at the epoch.
    let handle = BucketHandle::new();
    assert!(matches!(handle.withdraw(500), WithdrawOutcome::Empty));
    match handle.withdraw(1000) {
        WithdrawOutcome::Withdrawn(word) => {
            let (level, stamp) = decode_state(word);
            assert_eq!(level, 0);
            // The stored stamp keeps only multiples of 256 ms.
            assert_eq!(stamp, 768);
        }
        _ => panic!("one unit should have refilled by the one-second mark"),
    }

    let handle = BucketHandle::new();
    match handle.withdraw(5000) {
        WithdrawOutcome::Withdrawn(word) => {
            let (level, _) = decode_state(word);
            assert_eq!(level, 4);
        }
        _ => panic!("five seconds should refill the bucket to its cap"),
    }
}

#[test]
fn refill_resets_to_capacity() {
    let handle = BucketHandle::new();
    assert!(matches!(handle.withdraw(0), WithdrawOutcome::Empty));
    handle.refill(512);
    let (level, stamp) = decode_state(handle.peek());
    assert_eq!(level, 5);
    assert_eq!(stamp, 512);
}
