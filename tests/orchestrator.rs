use scraper::cursor::{Cursor, CursorMode, CursorStrategy, RangeStep, REORG_OVERLAP};
use scraper::scraper::{build_indexer, ChainScraper, Scraper};
use scraper::settings::{
    split_list, ChainConfig, ChainRegistry, ConfigFieldError, Domain, IndexSettings,
    RawScraperSettings, ScraperSettings,
};
use scraper::store::{EventRecord, EventTable};
use scraper::supervisor::{plan_tasks, Supervisor, TaskStatus, TaskTag};
use scraper::sync::{
    backoff_ms, EventKind, Phase, SyncAction, SyncError, SyncEvent, SyncTask, MAX_ATTEMPTS,
};

fn index(from: u64, chunk_size: u64, min_interval_ms: u64) -> IndexSettings {
    IndexSettings { from, chunk_size, min_interval_ms }
}

fn chain(id: u32, name: &str) -> ChainConfig {
    ChainConfig { domain: Domain { id, name: name.to_string() }, index: index(0, 100, 0) }
}

fn registry() -> ChainRegistry {
    ChainRegistry { chains: vec![chain(1, "ethereum"), chain(137, "polygon"), chain(10, "optimism")] }
}

fn raw(db: Option<&str>, list: Option<&str>) -> RawScraperSettings {
    RawScraperSettings { db: db.map(|s| s.to_string()), chainstoscrape: list.map(|s| s.to_string()) }
}

fn unknown_name(e: &ConfigFieldError) -> Option<String> {
    match e {
        ConfigFieldError::UnknownChain(n) => Some(n.clone()),
        _ => None,
    }
}

#[test]
fn split_keeps_empty_entries() {
    assert_eq!(split_list("a,b"), vec!["a".to_string(), "b".to_string()]);
    assert_eq!(split_list(""), vec!["".to_string()]);
    assert_eq!(split_list("a,,b,"), vec!["a", "", "b", ""].iter().map(|s| s.to_string()).collect::<Vec<_>>());
}

#[test]
fn valid_configuration_resolves_every_chain() {
    let r = ScraperSettings::from_config_filtered(raw(Some("postgres://db"), Some("polygon,ethereum")), &registry());
    let s = match r {
        Ok(s) => s,
        Err(_) => panic!("expected valid settings"),
    };
    assert_eq!(s.db, "postgres://db");
    let ids: Vec<u32> = s.chains_to_scrape.iter().map(|c| c.domain.id).collect();
    assert_eq!(ids, vec![137, 1]);
}

#[test]
fn missing_db_reported_once_and_chains_still_checked() {
    let r = ScraperSettings::from_config_filtered(raw(None, Some("ethereum,nowhere")), &registry());
    let e = match r {
        Err(e) => e,
        Ok(_) => panic!("expected errors"),
    };
    assert_eq!(e.errors.len(), 2);
    assert!(matches!(e.errors[0], ConfigFieldError::MissingDb));
    assert_eq!(e.errors.iter().filter(|x| matches!(x, ConfigFieldError::MissingDb)).count(), 1);
    assert_eq!(unknown_name(&e.errors[1]), Some("nowhere".to_string()));
}

#[test]
fn missing_db_alone() {
    let r = ScraperSettings::from_config_filtered(raw(None, Some("ethereum")), &registry());
    let e = match r {
        Err(e) => e,
        Ok(_) => panic!("expected errors"),
    };
    assert_eq!(e.errors.len(), 1);
    assert!(matches!(e.errors[0], ConfigFieldError::MissingDb));
}

#[test]
fn one_unknown_name_among_valid_ones() {
    let reg = registry();
    let r = ScraperSettings::from_config_filtered(raw(Some("db"), Some("ethereum,solana,polygon")), &reg);
    let e = match r {
        Err(e) => e,
        Ok(_) => panic!("expected errors"),
    };
    assert_eq!(e.errors.len(), 1);
    assert_eq!(unknown_name(&e.errors[0]), Some("solana".to_string()));
    let names = split_list("ethereum,solana,polygon");
    let (found, errors) = reg.resolve_names(&names);
    assert_eq!(errors.len(), 1);
    let ids: Vec<u32> = found.iter().map(|c| c.domain.id).collect();
    assert_eq!(ids, vec![1, 137]);
}

#[test]
fn every_missing_field_reported() {
    let r = ScraperSettings::from_config_filtered(raw(None, None), &registry());
    let e = match r {
        Err(e) => e,
        Ok(_) => panic!("expected errors"),
    };
    assert_eq!(e.errors.len(), 2);
    assert!(matches!(e.errors[0], ConfigFieldError::MissingDb));
    assert!(matches!(e.errors[1], ConfigFieldError::MissingChainList));
}

#[test]
fn empty_chain_list_rejected() {
    let r = ScraperSettings::from_config_filtered(raw(Some("db"), Some("")), &registry());
    let e = match r {
        Err(e) => e,
        Ok(_) => panic!("expected errors"),
    };
    assert_eq!(e.errors.len(), 1);
    assert!(matches!(e.errors[0], ConfigFieldError::EmptyChainList));
}

#[test]
fn two_unknown_names_each_reported() {
    let r = ScraperSettings::from_config_filtered(raw(Some("db"), Some("a,ethereum,b")), &registry());
    let e = match r {
        Err(e) => e,
        Ok(_) => panic!("expected errors"),
    };
    let names: Vec<Option<String>> = e.errors.iter().map(unknown_name).collect();
    assert_eq!(names, vec![Some("a".to_string()), Some("b".to_string())]);
}

#[test]
fn lookup_returns_first_match() {
    let reg = registry();
    assert_eq!(reg.lookup_domain(&"optimism".to_string()).map(|c| c.domain.id), Some(10));
    assert!(reg.lookup_domain(&"Optimism".to_string()).is_none());
}

fn collect_ranges(c: &mut Cursor) -> Vec<(u64, u64)> {
    let mut out = Vec::new();
    while let RangeStep::Range(from, to) = c.next_range(0) {
        out.push((from, to));
        c.advance(to, 0);
    }
    out
}

#[test]
fn forward_cursor_range_generation() {
    let settings = index(0, 100, 0);
    let mut c = Cursor::resume(CursorStrategy::Forward, &settings, None, 1000);
    let ranges = collect_ranges(&mut c);
    let expected: Vec<(u64, u64)> = (0..10).map(|i| (i * 100, i * 100 + 100)).collect();
    assert_eq!(ranges, expected);
    for w in ranges.windows(2) {
        assert!(w[0].0 < w[0].1);
        assert_eq!(w[0].1, w[1].0);
    }
    assert_eq!(c.next_range(0), RangeStep::Idle);
    let restarted = Cursor::resume(CursorStrategy::Forward, &settings, Some(500), 1000);
    assert_eq!(restarted.next_range(0), RangeStep::Range(500, 600));
}

#[test]
fn last_range_cut_at_tip() {
    let settings = index(0, 100, 0);
    let mut c = Cursor::resume(CursorStrategy::Forward, &settings, None, 250);
    assert_eq!(collect_ranges(&mut c), vec![(0, 100), (100, 200), (200, 250)]);
}

#[test]
fn resumed_forward_cursor_matches_uninterrupted_run() {
    let settings = index(0, 100, 0);
    let mut running = Cursor::resume(CursorStrategy::Forward, &settings, None, 1000);
    for _ in 0..3 {
        if let RangeStep::Range(_, to) = running.next_range(0) {
            running.advance(to, 0);
        }
    }
    let p = running.position();
    assert_eq!(p, 300);
    let mut resumed = Cursor::resume(CursorStrategy::Forward, &settings, Some(p), 1000);
    assert_eq!(collect_ranges(&mut resumed), collect_ranges(&mut running));
}

#[test]
fn rate_limited_cursor_resumes_with_overlap() {
    let settings = index(0, 100, 0);
    let c = Cursor::resume(CursorStrategy::RateLimited, &settings, Some(500), 1000);
    assert_eq!(c.position(), 500 - REORG_OVERLAP);
    let near_start = Cursor::resume(CursorStrategy::RateLimited, &index(495, 100, 0), Some(500), 1000);
    assert_eq!(near_start.position(), 495);
}

#[test]
fn start_above_genesis_is_never_undercut() {
    let settings = index(300, 100, 0);
    let c = Cursor::resume(CursorStrategy::Forward, &settings, Some(100), 1000);
    assert_eq!(c.position(), 300);
    let fresh = Cursor::resume(CursorStrategy::Forward, &settings, None, 1000);
    assert_eq!(fresh.next_range(0), RangeStep::Range(300, 400));
}

#[test]
fn rate_limited_cursor_pauses_between_batches() {
    let settings = index(0, 100, 1000);
    let mut c = Cursor::resume(CursorStrategy::RateLimited, &settings, None, 1000);
    assert_eq!(c.next_range(0), RangeStep::Range(0, 100));
    c.advance(100, 50);
    assert_eq!(c.next_range(60), RangeStep::Wait(1050));
    assert_eq!(c.mode(60), CursorMode::Paused);
    assert_eq!(c.next_range(1050), RangeStep::Range(100, 200));
}

#[test]
fn cursor_modes() {
    let settings = index(0, 100, 0);
    let mut c = Cursor::resume(CursorStrategy::Forward, &settings, None, 1000);
    assert_eq!(c.mode(0), CursorMode::Backfilling);
    c.advance(997, 0);
    assert_eq!(c.mode(0), CursorMode::CaughtUp);
    c.update_tip(2000);
    assert_eq!(c.tip(), 2000);
    c.update_tip(10);
    assert_eq!(c.tip(), 2000);
    assert_eq!(c.mode(0), CursorMode::Backfilling);
}

fn record(block: u64, log: u64, payload: u8) -> EventRecord {
    EventRecord { chain_id: 1, block_number: block, tx_index: 0, log_index: log, kind: EventKind::Dispatch, payload: vec![payload] }
}

#[test]
fn upsert_twice_equals_once() {
    let batch = vec![record(10, 0, 1), record(10, 1, 2), record(11, 0, 3)];
    let mut once = EventTable::new();
    once.upsert_events(&batch);
    let mut twice = EventTable::new();
    twice.upsert_events(&batch);
    twice.upsert_events(&batch);
    assert_eq!(once.len(), 3);
    assert_eq!(twice.len(), 3);
    assert!(twice.contains_key(1, EventKind::Dispatch, 10, 1));
    assert!(!twice.contains_key(1, EventKind::Delivery, 10, 1));
}

#[test]
fn duplicate_key_within_batch_kept_once() {
    let batch = vec![record(10, 0, 1), record(10, 0, 9)];
    let mut t = EventTable::new();
    t.upsert_events(&batch);
    assert_eq!(t.len(), 1);
}

#[test]
fn backoff_doubles_up_to_cap() {
    assert_eq!(backoff_ms(1), 500);
    assert_eq!(backoff_ms(2), 1000);
    assert_eq!(backoff_ms(4), 4000);
    assert_eq!(backoff_ms(20), 30000);
}

#[test]
fn event_kind_labels_and_strategies() {
    assert_eq!(EventKind::Dispatch.label(), "message_dispatch");
    assert_eq!(EventKind::Delivery.label(), "message_delivery");
    assert_eq!(EventKind::GasPayment.label(), "gas_payment");
    assert_eq!(EventKind::Dispatch.strategy(), CursorStrategy::Forward);
    assert_eq!(EventKind::Delivery.strategy(), CursorStrategy::RateLimited);
    assert_eq!(EventKind::GasPayment.strategy(), CursorStrategy::RateLimited);
}

#[test]
fn sync_iteration_commits_after_store() {
    let mut t = SyncTask::new(1, EventKind::Dispatch, &index(0, 100, 0), None, 0);
    assert_eq!(t.step(SyncEvent::Tick { now: 0, tip: 250 }), SyncAction::Fetch { from: 0, to: 100, delay_ms: 0 });
    assert_eq!(t.step(SyncEvent::Fetched { count: 7 }), SyncAction::Upsert { from: 0, to: 100, count: 7, delay_ms: 0 });
    assert_eq!(t.cursor().position(), 0);
    assert_eq!(t.step(SyncEvent::Stored { now: 5 }), SyncAction::Commit { to: 100, count: 7, lag: 150 });
    assert_eq!(t.cursor().position(), 100);
    assert_eq!(t.phase(), Phase::Ready);
}

#[test]
fn sync_idle_at_tip_sleeps() {
    let mut t = SyncTask::new(1, EventKind::Dispatch, &index(0, 100, 0), Some(50), 50);
    assert_eq!(t.step(SyncEvent::Tick { now: 10, tip: 50 }), SyncAction::Sleep { until: 5010 });
    assert_eq!(t.step(SyncEvent::Stored { now: 10 }), SyncAction::Ignore);
}

#[test]
fn provider_error_retried_then_fatal() {
    let mut t = SyncTask::new(1, EventKind::Delivery, &index(0, 100, 0), None, 0);
    t.step(SyncEvent::Tick { now: 0, tip: 1000 });
    for n in 1..MAX_ATTEMPTS {
        assert_eq!(t.step(SyncEvent::FetchFailed), SyncAction::Fetch { from: 0, to: 100, delay_ms: backoff_ms(n) });
        assert!(!t.is_terminated());
    }
    assert_eq!(t.step(SyncEvent::FetchFailed), SyncAction::Terminate(SyncError::Provider));
    assert!(t.is_terminated());
    assert_eq!(t.step(SyncEvent::Tick { now: 0, tip: 1000 }), SyncAction::Terminate(SyncError::Provider));
    assert_eq!(t.cursor().position(), 0);
}

#[test]
fn decode_error_fatal_immediately() {
    let mut t = SyncTask::new(1, EventKind::GasPayment, &index(0, 100, 0), None, 0);
    t.step(SyncEvent::Tick { now: 0, tip: 1000 });
    assert_eq!(t.step(SyncEvent::DecodeFailed), SyncAction::Terminate(SyncError::Decode));
    assert_eq!(t.phase(), Phase::Failed(SyncError::Decode));
}

#[test]
fn store_failures() {
    let mut t = SyncTask::new(1, EventKind::Dispatch, &index(0, 100, 0), None, 0);
    t.step(SyncEvent::Tick { now: 0, tip: 1000 });
    t.step(SyncEvent::Fetched { count: 2 });
    assert_eq!(t.step(SyncEvent::StoreFailed { transient: true }), SyncAction::Upsert { from: 0, to: 100, count: 2, delay_ms: 500 });
    assert_eq!(t.step(SyncEvent::StoreFailed { transient: false }), SyncAction::Terminate(SyncError::Store));
    assert_eq!(t.cursor().position(), 0);
}

#[test]
fn plan_has_three_tasks_per_chain() {
    let tags = plan_tasks(&vec![7, 9]);
    assert_eq!(tags.len(), 6);
    assert_eq!(tags[0], TaskTag { chain_id: 7, kind: EventKind::Dispatch });
    assert_eq!(tags[4], TaskTag { chain_id: 9, kind: EventKind::Delivery });
    assert_eq!(tags[5], TaskTag { chain_id: 9, kind: EventKind::GasPayment });
}

#[test]
fn one_failed_task_leaves_five_running() {
    let mut sup = Supervisor::new(&vec![1, 137]);
    assert_eq!(sup.len(), 6);
    assert_eq!(sup.running_count(), 6);
    // drive the fourth task's fetch past its budget
    let tag = sup.tag(3);
    let mut task = SyncTask::new(tag.chain_id, tag.kind, &index(0, 100, 0), None, 0);
    task.step(SyncEvent::Tick { now: 0, tip: 1000 });
    let mut last = SyncAction::Ignore;
    for _ in 0..MAX_ATTEMPTS {
        last = task.step(SyncEvent::FetchFailed);
    }
    let cause = match last {
        SyncAction::Terminate(e) => e,
        _ => panic!("expected termination"),
    };
    sup.report_exit(3, cause);
    assert_eq!(sup.running_count(), 5);
    for i in 0..6 {
        if i != 3 {
            assert_eq!(sup.status(i), TaskStatus::Running);
        }
    }
    assert_eq!(sup.aggregate(), Some((TaskTag { chain_id: 137, kind: EventKind::Dispatch }, SyncError::Provider)));
    sup.report_exit(0, SyncError::Decode);
    assert_eq!(sup.aggregate(), Some((TaskTag { chain_id: 137, kind: EventKind::Dispatch }, SyncError::Provider)));
}

#[test]
fn orchestrator_builds_contexts_and_tasks() {
    let settings = ScraperSettings {
        db: "db".to_string(),
        chains_to_scrape: vec![chain(1, "ethereum"), chain(137, "polygon"), chain(1, "ethereum")],
    };
    let s = Scraper::from_settings(&settings);
    assert_eq!(s.domain_ids(), vec![1, 137]);
    let sup = s.supervisor();
    assert_eq!(sup.len(), 6);
    assert!(s.scrape(5, None, None, None, 100).is_none());
    let tasks = s.scrape(137, Some(500), Some(500), None, 1000).unwrap();
    assert_eq!(tasks.len(), 3);
    assert_eq!(tasks[0].kind(), EventKind::Dispatch);
    assert_eq!(tasks[0].cursor().position(), 500);
    assert_eq!(tasks[0].cursor().strategy(), CursorStrategy::Forward);
    assert_eq!(tasks[1].cursor().position(), 490);
    assert_eq!(tasks[1].cursor().strategy(), CursorStrategy::RateLimited);
    assert_eq!(tasks[2].cursor().position(), 0);
    assert_eq!(tasks[2].chain_id(), 137);
}

#[test]
fn builder_used_for_every_kind() {
    let c = ChainScraper { domain: Domain { id: 3, name: "x".to_string() }, index_settings: index(20, 10, 0) };
    let t = build_indexer(&c, EventKind::GasPayment, None, 100);
    assert_eq!(t.chain_id(), 3);
    assert_eq!(t.cursor().position(), 20);
    assert_eq!(t.phase(), Phase::Ready);
}

#[test]
fn field_paths_name_the_offending_field() {
    assert_eq!(ConfigFieldError::MissingDb.field_path(), "db");
    assert_eq!(ConfigFieldError::MissingChainList.field_path(), "chainstoscrape");
    assert_eq!(ConfigFieldError::UnknownChain("solana".to_string()).field_path(), "chains.solana");
}
