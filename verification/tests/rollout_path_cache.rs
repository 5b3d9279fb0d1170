use wsl_interop::rollout_path_cache::{RolloutPathCache, ThreadId, MAX_CACHED_ROLLOUT_PATHS};

fn id(n: u128) -> ThreadId {
    ThreadId { value: n }
}

#[test]
fn remembered_location_is_found_and_moves_to_front() {
    let mut cache = RolloutPathCache::new();
    assert_eq!(cache.take_cached(id(1)), None);
    cache.remember(id(1), Some(b"/rollouts/1.jsonl".to_vec()));
    cache.remember(id(2), Some(b"/rollouts/2.jsonl".to_vec()));
    assert_eq!(cache.take_cached(id(1)), Some(b"/rollouts/1.jsonl".to_vec()));
    assert_eq!(cache.take_cached(id(1)), Some(b"/rollouts/1.jsonl".to_vec()));
    assert_eq!(cache.take_cached(id(2)), Some(b"/rollouts/2.jsonl".to_vec()));
}

#[test]
fn a_miss_is_not_cached_and_forgets_a_stale_location() {
    let mut cache = RolloutPathCache::new();
    cache.remember(id(7), Some(b"/old.jsonl".to_vec()));
    cache.remember(id(7), None);
    assert_eq!(cache.take_cached(id(7)), None);
    cache.remember(id(7), Some(b"/new.jsonl".to_vec()));
    cache.remember(id(7), Some(b"/newer.jsonl".to_vec()));
    assert_eq!(cache.take_cached(id(7)), Some(b"/newer.jsonl".to_vec()));
}

#[test]
fn least_recently_used_location_is_dropped_beyond_the_limit() {
    let mut cache = RolloutPathCache::new();
    let limit = MAX_CACHED_ROLLOUT_PATHS as u128;
    for n in 0..limit {
        cache.remember(id(n), Some(format!("/r/{n}").into_bytes()));
    }
    // Use the oldest entry so that the second oldest becomes the least recent.
    assert_eq!(cache.take_cached(id(0)), Some(b"/r/0".to_vec()));
    cache.remember(id(limit), Some(b"/r/new".to_vec()));
    assert_eq!(cache.take_cached(id(1)), None);
    assert_eq!(cache.take_cached(id(0)), Some(b"/r/0".to_vec()));
    assert_eq!(cache.take_cached(id(limit)), Some(b"/r/new".to_vec()));
    assert_eq!(cache.take_cached(id(limit - 1)), Some(format!("/r/{}", limit - 1).into_bytes()));
}
