use ton_vanity::address::ton_v4r2_address_from_private;
use ton_vanity::keys::derive_seed;
use ton_vanity::planner::{plan, try_plan, PlanError};
use ton_vanity::search::{
    check_index, keys_per_second, scan_chunk, search_vanity, str_starts_with, try_search_vanity,
    ConfigError,
};

#[test]
fn plan_is_an_exact_partition() {
    let start: u64 = 5;
    let end: u64 = 100005;
    let mut chunks = plan(start, end, 100, 1000);
    assert!(!chunks.is_empty());
    chunks.sort();
    assert_eq!(chunks[0].0, start);
    assert_eq!(chunks[chunks.len() - 1].1, end);
    let mut sum: u64 = 0;
    let mut short: usize = 0;
    for (j, &(cs, ce)) in chunks.iter().enumerate() {
        assert!(cs < ce);
        assert!(ce - cs <= 1000);
        if ce - cs < 100 {
            short += 1;
        }
        if j > 0 {
            // Contiguous when sorted by start, hence pairwise disjoint.
            assert_eq!(chunks[j - 1].1, cs);
        }
        sum += ce - cs;
    }
    assert_eq!(sum, end - start);
    assert!(short <= 1);
}

#[test]
fn plan_single_short_range() {
    let chunks = plan(10, 12, 100, 1000);
    assert_eq!(chunks, vec![(10, 12)]);
}

#[test]
fn try_plan_rejects_bad_configuration() {
    assert_eq!(try_plan(5, 5, 1, 10), Err(PlanError::EmptyRange));
    assert_eq!(try_plan(0, 10, 0, 10), Err(PlanError::ZeroMinChunk));
    assert_eq!(try_plan(0, 10, 20, 10), Err(PlanError::ChunkBoundsInverted));
    let chunks = try_plan(0, 10, 2, 4).expect("valid configuration");
    let total: u64 = chunks.iter().map(|&(cs, ce)| ce - cs).sum();
    assert_eq!(total, 10);
}

#[test]
fn starts_with_behaves_like_std() {
    assert!(str_starts_with("EQabc", "EQ"));
    assert!(str_starts_with("EQabc", ""));
    assert!(!str_starts_with("EQabc", "Eq"));
    assert!(!str_starts_with("EQ", "EQabc"));
}

#[test]
fn search_finds_planted_match() {
    // The full address of index 42 is a pattern with exactly one match in
    // [0, 100): any other index would need the same contract state hash.
    let target = ton_v4r2_address_from_private(derive_seed(42));
    let found = search_vanity(&target, 0, 100, 4).expect("index 42 must be found");
    assert_eq!(found.1, target);
    assert_eq!(found.0, hex::encode(derive_seed(42)));
}

#[test]
fn search_result_round_trips() {
    let target = ton_v4r2_address_from_private(derive_seed(42));
    let prefix = &target[..6];
    let (key_hex, addr) = search_vanity(prefix, 0, 100, 2).expect("a match must exist");
    assert!(addr.starts_with(prefix));
    let secret = hex::decode(&key_hex).unwrap();
    assert_eq!(ton_v4r2_address_from_private(secret), addr);
}

#[test]
fn search_negative_is_reproducible() {
    // '!' never appears in the URL-safe base64 alphabet, so no address can
    // start with it.
    assert_eq!(search_vanity("!never", 0, 60, 1), None);
    assert_eq!(search_vanity("!never", 0, 60, 1), None);
}

#[test]
fn search_agrees_across_thread_counts() {
    let target = ton_v4r2_address_from_private(derive_seed(17));
    let prefix = &target[..4];
    let r1 = search_vanity(prefix, 0, 40, 1);
    let rn = search_vanity(prefix, 0, 40, 4);
    assert_eq!(r1.is_some(), rn.is_some());
    let a1 = r1.expect("index 17 matches").1;
    let an = rn.expect("index 17 matches").1;
    assert!(a1.starts_with(prefix));
    assert!(an.starts_with(prefix));
    assert_eq!(search_vanity("!no", 5, 25, 1), search_vanity("!no", 5, 25, 3));
}

#[test]
fn config_errors_are_rejected_before_work() {
    assert_eq!(try_search_vanity("", 0, 1, 1), Err(ConfigError::EmptyPattern));
    assert_eq!(try_search_vanity("EQ", 5, 5, 1), Err(ConfigError::EmptyRange));
    assert_eq!(try_search_vanity("EQ", 0, 1, 0), Err(ConfigError::ZeroThreads));
}

#[test]
fn try_search_runs_when_config_is_valid() {
    let target = ton_v4r2_address_from_private(derive_seed(3));
    let r = try_search_vanity(&target, 0, 10, 1).expect("valid configuration");
    assert_eq!(r.expect("index 3 must be found").1, target);
}

#[test]
fn check_index_and_scan_chunk_agree() {
    let target = ton_v4r2_address_from_private(derive_seed(9));
    assert!(check_index(&target, 8).is_none());
    let hit = check_index(&target, 9).expect("index 9 matches its own address");
    assert_eq!(hit.1, target);
    let scanned = scan_chunk(&target, 0, 20).expect("the chunk holds index 9");
    assert_eq!(scanned, hit);
    assert_eq!(scan_chunk(&target, 10, 20), None);
}

#[test]
fn keys_per_second_rounds_down() {
    assert_eq!(keys_per_second(5000, 2000), 2500);
    assert_eq!(keys_per_second(999, 1000), 999);
    assert_eq!(keys_per_second(10, 0), 10000);
    assert_eq!(keys_per_second(0, 5000), 0);
}
