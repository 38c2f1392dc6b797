use bangumi_rss::encode::hex_text;
use bangumi_rss::files::{demo_state, FileOps, MockFileSystem, DEMO_FEED};
use bangumi_rss::handle::OpenFailure;
use bangumi_rss::semaphore::Semaphore;
use bangumi_rss::stream::{Cursor, FileStream};
use bangumi_rss::task_pool::{Patience, Spawned, TaskPool, MIN_THREADS};
use bangumi_rss::text::{
    decimal2_text, decimal_text, find_chars, parse_uint, replace_text, rfind_chars, split,
    strip_prefix, strip_suffix, trim,
};
use bangumi_rss::timer::{TimerManager, LONGEST_SLEEP};
use std::sync::atomic::Ordering;

// ── Timers ──

#[test]
fn single_timer_fires_and_stops() {
    // The timer is stopped when it is due for the fifth time.
    let mut hits = 0;
    let mut tm = TimerManager::new();
    tm.add(5_000_000, 0, 0);
    let mut now: u64 = 0;
    while now < 100_000_000 {
        if tm.len() > 0 && tm.due(0, now).is_some() {
            if hits >= 4 {
                tm.remove(&vec![0]);
            } else {
                hits += 1;
                tm.fired(0, now);
            }
        }
        now += 1_000_000;
    }
    assert_eq!(hits, 4, "expected exactly 4 fires, got {hits}");
}

#[test]
fn late_timers_keep_their_cadence() {
    let mut tm = TimerManager::new();
    tm.add(10, 7, 0);
    assert_eq!(tm.due(0, 9), None);
    assert_eq!(tm.due(0, 10), Some(7));
    // Two and a half intervals late: what was missed is skipped.
    tm.fired(0, 35);
    assert_eq!(tm.due(0, 39), None);
    assert_eq!(tm.due(0, 40), Some(7));
}

#[test]
fn sleep_ends_with_the_next_timer() {
    let mut tm = TimerManager::new();
    assert_eq!(tm.sleep_time(0), LONGEST_SLEEP);
    tm.add(700, 1, 0);
    tm.add(300, 2, 0);
    assert_eq!(tm.sleep_time(100), 200);
    assert_eq!(tm.sleep_time(400), 0);
    tm.remove(&vec![1]);
    assert_eq!(tm.len(), 1);
    assert_eq!(tm.sleep_time(100), 600);
    let stop = tm.shutdown_handle();
    assert!(!stop.load(Ordering::SeqCst));
}

// ── Semaphore ──

#[test]
fn acquire_release() {
    let mut sem = Semaphore::new(2);
    let p1 = sem.try_acquire();
    let p2 = sem.try_acquire();
    sem.release(p1.unwrap());
    let p3 = sem.try_acquire(); // now one slot is free again
    assert!(p3.is_some());
    sem.release(p2.unwrap());
    assert_eq!(sem.available(), 1);
}

#[test]
fn try_acquire_works() {
    let mut sem = Semaphore::new(1);
    let p1 = sem.try_acquire();
    // All tokens taken; try_acquire should return None.
    assert!(sem.try_acquire().is_none());
    sem.release(p1.unwrap());
    // Token returned; try_acquire should succeed.
    assert!(sem.try_acquire().is_some());
}

#[test]
fn acquire_timeout_returns_none() {
    let mut sem = Semaphore::new(0);
    assert!(sem.try_acquire().is_none());
}

// ── Task pool ──

#[test]
fn basic_spawn_and_execute() {
    let (mut pool, threads) = TaskPool::new();
    assert_eq!(threads, MIN_THREADS);
    for _ in 0..threads {
        assert_eq!(pool.begin_wait(), Patience::Forever);
    }
    assert_eq!(pool.spawn("task"), Spawned::Queued);
    assert!(!pool.end_wait(false));
    assert_eq!(pool.take(), Some("task"));
    assert_eq!(pool.take(), None);
}

/// A pool whose first threads all wait for a task.
fn idle_pool<T>(max_threads: Option<usize>, max_queue: Option<usize>) -> (TaskPool<T>, usize) {
    let (mut pool, threads) = TaskPool::new_with_limits(max_threads, max_queue);
    for _ in 0..threads {
        pool.begin_wait();
    }
    (pool, threads)
}

#[test]
fn thread_cap_limits_active_tasks() {
    let (mut pool, threads) = idle_pool(Some(2), None);
    assert_eq!(threads, 2);
    for i in 0..3 {
        // Only two threads can exist, and they do.
        assert_eq!(pool.spawn(i), Spawned::Queued);
    }
    for i in 0..2 {
        assert!(!pool.end_wait(false));
        assert_eq!(pool.take(), Some(i));
    }
    // Both threads are busy: the third task is still queued.
    assert_eq!(pool.active(), 2);
    assert!(pool.active() <= 2 + MIN_THREADS);
    assert_eq!(pool.take(), Some(2));
}

#[test]
fn queue_limit_drops_excess() {
    let (mut pool, threads) = idle_pool(Some(1), Some(1));
    assert_eq!(threads, 1);
    let mut ran = 0;
    // First task: the one thread takes it.
    assert_eq!(pool.spawn(1), Spawned::Queued);
    assert!(!pool.end_wait(false));
    assert_eq!(pool.take(), Some(1));
    ran += 1;
    // Second task: queued (queue limit allows 1).
    assert_eq!(pool.spawn(2), Spawned::Queued);
    // Third task: queue full → dropped.
    assert_eq!(pool.spawn(3), Spawned::Dropped(3));
    while pool.take().is_some() {
        ran += 1;
    }
    assert_eq!(ran, 2, "third task should be dropped");
}

#[test]
fn full_queue_drops_nothing_below_the_thread_cap() {
    let (mut pool, _) = idle_pool(None, Some(0));
    for i in 0..100 {
        assert_eq!(pool.spawn(i), Spawned::Start(i));
    }
    let (mut pool, threads) = idle_pool(Some(5), Some(0));
    assert_eq!(threads, MIN_THREADS);
    assert_eq!(pool.spawn('a'), Spawned::Start('a'));
    assert_eq!(pool.spawn('b'), Spawned::Dropped('b'));
    assert_eq!(pool.active(), 5);
}

#[test]
fn spawn_returns_after_queue_full_unlimited_threads() {
    // Without limits a task is never dropped.
    let (mut pool, _) = TaskPool::new_with_limits(None, None);
    for i in 0..100 {
        assert!(!matches!(pool.spawn(i), Spawned::Dropped(_)));
    }
}

#[test]
fn unlimited_threads_clean_up() {
    let (mut pool, mut running) = idle_pool(None, None);
    for i in 0..5 {
        match pool.spawn(i) {
            Spawned::Start(_) => running += 1,
            _ => {
                assert!(!pool.end_wait(false));
                assert_eq!(pool.take(), Some(i));
            }
        }
    }
    assert_eq!(running, 5);
    assert_eq!(pool.active(), running);
    // The threads have nothing more to do: those above the least number leave after a while.
    for _ in 0..running {
        assert_eq!(pool.take(), None);
        if pool.begin_wait() == Patience::AWhile {
            assert!(pool.end_wait(true));
        }
    }
    let active = pool.active();
    // Should have settled back to at most MIN_THREADS.
    assert!(active <= MIN_THREADS, "idle threads did not clean up");
}

#[test]
fn threads_of_a_closed_pool_leave() {
    let (mut pool, threads) = TaskPool::<u8>::new_with_limits(Some(3), None);
    assert_eq!(threads, 3);
    pool.close();
    for _ in 0..threads {
        assert_eq!(pool.begin_wait(), Patience::AWhile);
        assert!(pool.end_wait(true));
    }
    assert_eq!(pool.active(), 0);
}

// ── Files ──

#[test]
fn written_files_are_read_back() {
    let mut fs = MockFileSystem::new(b"clip".to_vec());
    assert!(!fs.path_exists("/a"));
    let missing = fs.read_to_string("/a").unwrap_err();
    assert!(missing.starts_with("mock file not found: ") && missing.contains("/a"));
    fs.write_bytes("/bad", vec![0xff]);
    assert!(fs.read_to_string("/bad").unwrap_err().starts_with("mock file not valid UTF-8: "));
    fs.write_string("/a", "text").unwrap();
    assert_eq!(fs.read_to_string("/a").unwrap(), "text");
    fs.move_file("/a", "/b").unwrap();
    assert_eq!(fs.move_count(), 1);
    fs.write_bytes("/c", b"0123".to_vec());
    let file = fs.open_file("/c").unwrap();
    assert_eq!(file.size(), 4);
    assert_eq!(file.into_range(1, 2).unwrap().read_to_end().unwrap(), b"12");
    assert!(matches!(fs.open_file("/nowhere"), Err(OpenFailure::NotFound) | Ok(_)));
}

#[test]
fn demo_state_holds_a_feed() {
    let state = demo_state();
    assert!(state.feeds.len() > 0);
    assert_eq!(state.feeds.key_at(0).bits, DEMO_FEED);
}

#[test]
fn ranges_end_with_their_length() {
    let stream = FileStream::new(Cursor::new(b"0123456789".to_vec()), 10);
    assert_eq!(FileStream::new(7u8, 1).into_inner(), 7);
    let mut part = stream.into_range(3, 4).unwrap();
    assert_eq!(part.read_some(3).unwrap(), b"345");
    assert_eq!(part.read_some(3).unwrap(), b"6");
    assert!(part.read_some(3).unwrap().is_empty());
}

// ── Text ──

#[test]
fn white_space_is_what_unicode_says() {
    let white = [
        '\t', '\n', '\u{b}', '\u{c}', '\r', ' ', '\u{85}', '\u{a0}', '\u{1680}', '\u{2000}',
        '\u{2001}', '\u{2002}', '\u{2003}', '\u{2004}', '\u{2005}', '\u{2006}', '\u{2007}',
        '\u{2008}', '\u{2009}', '\u{200a}', '\u{2028}', '\u{2029}', '\u{202f}', '\u{205f}',
        '\u{3000}',
    ];
    for c in '\0'..=char::MAX {
        assert_eq!(trim(&c.to_string()).is_empty(), white.contains(&c), "{c:?}");
    }
}

#[test]
fn texts_are_searched_like_in_the_standard_library() {
    let texts = ["", "a", "abcabc", "★ab★", "  x\u{3000}", "a--b--"];
    for t in texts {
        assert_eq!(trim(t), t.trim());
        for part in ["a", "bc", "★", "--", "zz"] {
            assert_eq!(strip_prefix(t, part).as_deref(), t.strip_prefix(part));
            assert_eq!(strip_suffix(t, part).as_deref(), t.strip_suffix(part));
            assert_eq!(replace_text(t, part, "<>"), t.replace(part, "<>"));
            let chars: Vec<char> = t.chars().collect();
            let wanted: Vec<char> = part.chars().collect();
            let place = |at: Option<usize>| at.map(|i| t[..i].chars().count());
            assert_eq!(find_chars(&chars, &wanted), place(t.find(part)));
            assert_eq!(rfind_chars(&chars, &wanted), place(t.rfind(part)));
        }
        let parts: Vec<String> = t.split('-').map(|s| s.to_string()).collect();
        assert_eq!(split(t, '-'), parts);
    }
}

#[test]
fn numbers_are_printed_and_read() {
    for n in [0u64, 9, 10, 99, 100, 12345, u64::MAX] {
        assert_eq!(decimal_text(n), n.to_string());
        assert_eq!(decimal2_text(n), format!("{n:02}"));
        assert_eq!(parse_uint(&decimal_text(n), u64::MAX), Some(n));
        assert_eq!(hex_text(n as u128, 1, false), format!("{n:x}"));
    }
    for text in ["", "+", "+7", "-7", "7 ", "18446744073709551616", "00", "1_0"] {
        assert_eq!(parse_uint(text, u64::MAX), text.parse::<u64>().ok(), "{text}");
    }
    assert_eq!(parse_uint("256", 255), None);
    assert_eq!(parse_uint("255", 255), Some(255));
}
