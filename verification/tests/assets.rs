use pinpoint::asset_store::{
    decoded_texture_bytes, refused_message, svg_size_allowed, AssetStore, LoadOutcome, LoadTicket, Prefetch,
};
use pinpoint::memory::{
    adaptive_loader_limit, adaptive_texture_budget, effective_memory_bytes, media_prefetch_slots, mem_total,
    prefetch_slots, read_number, status_value,
};
use pinpoint::texture_cache::TextureCache;

#[test]
fn memory_limits_come_from_meminfo_and_cgroups() {
    let meminfo = "MemFree:  100 kB\nMemTotal:       16314216 kB\r\nSwapTotal: 0 kB\n";
    assert_eq!(mem_total(meminfo), Some(16314216 * 1024));
    assert_eq!(mem_total("MemTotal: lots\nMemTotal: 2 kB\n"), Some(2048));
    assert_eq!(mem_total("nothing here"), None);
    assert_eq!(read_number(" 1073741824\n"), Some(1073741824));
    assert_eq!(read_number("max\n"), None);
    assert_eq!(read_number("0"), None);
    assert_eq!(effective_memory_bytes(None, None, None), 4 * 1024 * 1024 * 1024);
    assert_eq!(effective_memory_bytes(Some(meminfo), Some("max"), Some("1073741824")), 1073741824);
    assert_eq!(effective_memory_bytes(Some("MemTotal: 1024 kB"), Some("999999999"), None), 1048576);
}

#[test]
fn budgets_and_slots_are_bounded() {
    assert_eq!(adaptive_texture_budget(0), 64 * 1024 * 1024);
    assert_eq!(adaptive_texture_budget(48 * 100 * 1024 * 1024), 100 * 1024 * 1024);
    assert_eq!(adaptive_texture_budget(u64::MAX), 512 * 1024 * 1024);
    assert_eq!(adaptive_loader_limit(1), 1);
    assert_eq!(adaptive_loader_limit(8), 2);
    assert_eq!(adaptive_loader_limit(9), 3);
    assert_eq!(prefetch_slots(64 * 1024 * 1024), 4);
    assert_eq!(prefetch_slots(0), 3);
    assert_eq!(prefetch_slots(u64::MAX), 64);
    assert_eq!(media_prefetch_slots(64 * 1024 * 1024), 2);
    assert_eq!(media_prefetch_slots(512 * 1024 * 1024), 8);
    assert_eq!(media_prefetch_slots(256 * 1024 * 1024), 4);
}

#[test]
fn process_status_values() {
    let status = "Name:\tpinpoint\nVmHWM:\t  204800 kB\nVmRSS:\t  102400 kB\n";
    assert_eq!(status_value(status, "VmRSS:"), 102400);
    assert_eq!(status_value(status, "VmHWM:"), 204800);
    assert_eq!(status_value(status, "VmSwap:"), 0);
    assert_eq!(status_value("VmRSS: x\nVmRSS: 5\n", "VmRSS:"), 0);
}

#[test]
fn texture_cache_evicts_least_recently_used_but_keeps_the_new_one() {
    let mut cache = TextureCache::new(100);
    cache.insert(1, 40);
    cache.insert(2, 40);
    assert!(cache.texture(1));
    cache.insert(3, 40);
    assert!(cache.contains(1));
    assert!(!cache.contains(2));
    assert!(cache.contains(3));
    assert_eq!(cache.texture_bytes, 80);
    cache.insert(4, 100);
    assert!(cache.contains(4));
    assert_eq!(cache.entries.len(), 1);
    assert_eq!(cache.texture_bytes, 100);
    cache.remove(4);
    assert_eq!(cache.texture_bytes, 0);
}

#[test]
fn store_loads_with_a_loader_limit_and_answers_waiters() {
    let mut store = AssetStore::new(1, 1000);
    let Prefetch::Queued(first) = store.prefetch_texture(1) else { panic!("queued") };
    assert_eq!(first, vec![LoadTicket { key: 1, generation: 0, path_generation: 0 }]);
    let Prefetch::Queued(second) = store.prefetch_texture(2) else { panic!("queued") };
    assert!(second.is_empty());
    assert!(matches!(store.prefetch_texture(2), Prefetch::Waiting));
    let finish = store.finish_load(first[0], LoadOutcome::Decoded { width: 10, height: 10 });
    assert_eq!(finish.notify, Some(Ok(())));
    assert_eq!(finish.start, vec![LoadTicket { key: 2, generation: 0, path_generation: 0 }]);
    assert!(matches!(store.prefetch_texture(1), Prefetch::Ready));
    let finish = store.finish_load(finish.start[0], LoadOutcome::Decoded { width: 100, height: 100 });
    assert_eq!(
        finish.notify,
        Some(Err("decoded image requires 0 MiB, exceeding the 0 MiB texture budget".to_string()))
    );
    match store.prefetch_texture(2) {
        Prefetch::Failed(error) => assert!(error.contains("texture budget")),
        _ => panic!("expected the recorded failure"),
    }
    let stats = store.stats();
    assert_eq!((stats.textures, stats.pending, stats.failures, stats.active_loaders), (1, 0, 1, 0));
    assert_eq!(stats.texture_bytes, 400);
}

#[test]
fn stale_and_invalidated_loads_are_ignored() {
    let mut store = AssetStore::new(2, 1 << 20);
    let Prefetch::Queued(tickets) = store.prefetch_texture(7) else { panic!("queued") };
    assert!(store.invalidate(7));
    let finish = store.finish_load(tickets[0], LoadOutcome::Decoded { width: 1, height: 1 });
    assert_eq!(finish.notify, None);
    assert!(!store.textures.contains(7));
    let Prefetch::Queued(tickets) = store.prefetch_texture(8) else { panic!("queued") };
    let cancelled = store.clear();
    assert_eq!(cancelled, vec![8]);
    let finish = store.finish_load(tickets[0], LoadOutcome::Failed("gone".into()));
    assert_eq!(finish.notify, None);
    assert!(store.failure(8).is_none());
    let Prefetch::Queued(tickets) = store.prefetch_texture(9) else { panic!("queued") };
    let finish = store.finish_load(tickets[0], LoadOutcome::Failed("bad image".into()));
    assert_eq!(finish.notify, Some(Err("bad image".to_string())));
    assert_eq!(store.failure(9), Some("bad image".to_string()));
    assert_eq!(store.failed_keys(), vec![9]);
}

#[test]
fn store_small_rules() {
    assert_eq!(decoded_texture_bytes(1920, 1080), 1920 * 1080 * 4);
    assert_eq!(decoded_texture_bytes(-1, 1080), 0);
    assert_eq!(refused_message(), "too many distinct image loads are pending");
    assert!(svg_size_allowed(16 * 1024 * 1024).is_ok());
    assert_eq!(svg_size_allowed(16 * 1024 * 1024 + 1).unwrap_err(), "SVG exceeds the 16 MiB safety limit");
    let mut store = AssetStore::new(1, 1000);
    for key in 0..64 {
        store.svg_loaded(key);
    }
    assert!(store.svg_cached(0));
    store.svg_loaded(64);
    assert!(!store.svg_cached(0));
    assert!(store.svg_cached(64));
    assert_eq!(store.stats().svg_sources, 1);
    assert_eq!(store.prefetch_slots(), 3);
    assert_eq!(store.media_prefetch_slots(), 2);
}

#[test]
fn a_waiting_request_is_answered_once() {
    let mut store = AssetStore::new(1, 1 << 20);
    let Prefetch::Queued(tickets) = store.prefetch_texture(4) else { panic!("queued") };
    assert!(matches!(store.prefetch_texture(4), Prefetch::Waiting));
    let finish = store.finish_load(tickets[0], LoadOutcome::Decoded { width: 2, height: 2 });
    assert_eq!(finish.notify, Some(Ok(())));
    assert_eq!(store.stats().pending, 0);
    assert!(matches!(store.prefetch_texture(4), Prefetch::Ready));
}
