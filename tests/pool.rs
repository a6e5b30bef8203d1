use phantomdb::{
    create_pool, create_pool_with_config, AcquireStep, PhantomDBPool, PoolConfig, PoolError,
    PooledConnection,
};

fn config(min: usize, max: usize, acquire_timeout: u64, idle_timeout: u64) -> PoolConfig {
    PoolConfig {
        base_url: "http://localhost:8080".to_string(),
        min_connections: min,
        max_connections: max,
        acquire_timeout,
        idle_timeout,
    }
}

/// One acquire at `now`: reuses an idle connection or opens `fresh`.
fn acquire_now(
    pool: &mut PhantomDBPool<u32>,
    now: u64,
    fresh: u32,
) -> Result<PooledConnection<u32>, PoolError> {
    match pool.try_acquire(now, now)? {
        AcquireStep::Ready(lease) => Ok(lease),
        AcquireStep::Create(ticket) => pool.finish_create(ticket, Ok(fresh)),
        AcquireStep::Wait => Err(PoolError::AcquireTimeout),
    }
}

#[test]
fn default_config_values() {
    let c = PoolConfig::default();
    assert_eq!(c.base_url, "http://localhost:8080");
    assert_eq!(c.min_connections, 2);
    assert_eq!(c.max_connections, 10);
    assert_eq!(c.acquire_timeout, 30_000);
    assert_eq!(c.idle_timeout, 60_000);
    assert!(c.is_valid());
    assert!(!config(3, 2, 0, 0).is_valid());
    assert!(!config(0, 0, 0, 0).is_valid());
}

#[test]
fn default_pool_keeps_two_warm_connections() {
    let pool = create_pool(vec![1u32, 2, 3], 0);
    let s = pool.status();
    assert_eq!((s.available, s.used, s.min, s.max), (2, 0, 2, 10));
}

#[test]
fn fewer_warm_connections_are_tolerated() {
    let pool = create_pool_with_config(config(3, 4, 10, 10), vec![1u32], 0);
    let s = pool.status();
    assert_eq!((s.available, s.used, s.min, s.max), (1, 0, 3, 4));
}

#[test]
fn two_of_two_scenario() {
    let mut pool = PhantomDBPool::new(config(2, 2, 10, 60_000), vec![1u32, 2], 0);
    let s = pool.status();
    assert_eq!((s.available, s.used), (2, 0));

    let mut a = acquire_now(&mut pool, 1, 100).unwrap();
    let b = acquire_now(&mut pool, 1, 101).unwrap();
    assert_eq!(*a.inner().unwrap(), 2);
    assert_eq!(*b.inner().unwrap(), 1);
    let s = pool.status();
    assert_eq!((s.available, s.used), (0, 2));

    assert!(matches!(pool.try_acquire(5, 5), Ok(AcquireStep::Wait)));
    assert!(matches!(pool.try_acquire(5, 15), Err(PoolError::AcquireTimeout)));

    assert_eq!(pool.release(&mut a, 20), Ok(()));
    let s = pool.status();
    assert_eq!((s.available, s.used), (1, 1));

    let c = acquire_now(&mut pool, 21, 102).unwrap();
    assert_eq!(*c.inner().unwrap(), 2);
}

#[test]
fn timeout_leaves_gate_usable() {
    let mut pool = PhantomDBPool::new(config(0, 1, 50, 60_000), Vec::<u32>::new(), 0);
    let mut first = acquire_now(&mut pool, 0, 7).unwrap();
    assert!(matches!(pool.try_acquire(100, 149), Ok(AcquireStep::Wait)));
    assert!(matches!(pool.try_acquire(100, 150), Err(PoolError::AcquireTimeout)));
    let s = pool.status();
    assert_eq!((s.available, s.used), (0, 1));
    pool.release(&mut first, 151).unwrap();
    match pool.try_acquire(152, 152) {
        Ok(AcquireStep::Ready(lease)) => assert_eq!(*lease.inner().unwrap(), 7),
        _ => panic!("expected an idle connection"),
    }
}

#[test]
fn closed_pool_refuses_and_discards() {
    let mut pool = PhantomDBPool::new(config(1, 2, 10, 60_000), vec![1u32], 0);
    let mut lease = acquire_now(&mut pool, 1, 9).unwrap();
    pool.close();
    assert!(pool.is_closed());
    assert!(matches!(pool.try_acquire(2, 2), Err(PoolError::PoolClosed)));
    assert!(matches!(pool.try_acquire(2, 100_000), Err(PoolError::PoolClosed)));
    assert_eq!(pool.release(&mut lease, 3), Ok(()));
    let s = pool.status();
    assert_eq!((s.available, s.used), (0, 0));
    pool.close();
    assert!(matches!(pool.try_acquire(4, 4), Err(PoolError::PoolClosed)));
}

#[test]
fn second_release_changes_nothing() {
    let mut pool = PhantomDBPool::new(config(1, 2, 10, 60_000), vec![1u32], 0);
    let mut lease = acquire_now(&mut pool, 1, 9).unwrap();
    assert_eq!(pool.release(&mut lease, 2), Ok(()));
    let s = pool.status();
    assert_eq!((s.available, s.used), (1, 0));
    assert!(lease.is_released());
    assert_eq!(pool.release(&mut lease, 3), Err(PoolError::UseAfterRelease));
    let s = pool.status();
    assert_eq!((s.available, s.used), (1, 0));
    assert!(matches!(lease.inner(), Err(PoolError::UseAfterRelease)));
}

#[test]
fn stale_idle_connection_is_replaced() {
    let mut pool = PhantomDBPool::new(config(1, 2, 10, 100), vec![5u32], 0);
    match pool.try_acquire(100, 100) {
        Ok(AcquireStep::Create(ticket)) => {
            assert_eq!(pool.status().available, 0);
            let lease = pool.finish_create(ticket, Ok(9)).unwrap();
            assert_eq!(*lease.inner().unwrap(), 9);
        }
        _ => panic!("a stale connection must not be handed out"),
    }
}

#[test]
fn fresh_idle_connection_is_reused() {
    let mut pool = PhantomDBPool::new(config(1, 2, 10, 100), vec![5u32], 0);
    match pool.try_acquire(99, 99) {
        Ok(AcquireStep::Ready(lease)) => assert_eq!(*lease.inner().unwrap(), 5),
        _ => panic!("expected the warm connection"),
    }
}

#[test]
fn stale_entries_are_skipped_for_an_older_fresh_one() {
    let mut pool = PhantomDBPool::new(config(0, 3, 10, 100), Vec::<u32>::new(), 0);
    let mut a = acquire_now(&mut pool, 0, 1).unwrap();
    let mut b = acquire_now(&mut pool, 0, 2).unwrap();
    pool.release(&mut a, 50).unwrap();
    pool.release(&mut b, 10).unwrap();
    // the last returned is stamped 10 and stale at 120; the one stamped 50 is fresh
    match pool.try_acquire(120, 120) {
        Ok(AcquireStep::Ready(lease)) => assert_eq!(*lease.inner().unwrap(), 1),
        _ => panic!("expected the fresh connection"),
    }
    assert_eq!(pool.status().available, 0);
}

#[test]
fn failed_creation_frees_the_slot() {
    let mut pool = PhantomDBPool::new(config(0, 1, 10, 100), Vec::<u32>::new(), 0);
    match pool.try_acquire(0, 0) {
        Ok(AcquireStep::Create(ticket)) => {
            let r = pool.finish_create(ticket, Err("refused".to_string()));
            assert!(matches!(r, Err(PoolError::ConnectionCreateError(m)) if m == "refused"));
        }
        _ => panic!("expected a ticket"),
    }
    let s = pool.status();
    assert_eq!((s.available, s.used), (0, 0));
    assert!(acquire_now(&mut pool, 1, 3).is_ok());
}

#[test]
fn close_during_creation_drops_the_connection() {
    let mut pool = PhantomDBPool::new(config(0, 1, 10, 100), Vec::<u32>::new(), 0);
    match pool.try_acquire(0, 0) {
        Ok(AcquireStep::Create(ticket)) => {
            pool.close();
            assert!(matches!(pool.finish_create(ticket, Ok(4)), Err(PoolError::PoolClosed)));
        }
        _ => panic!("expected a ticket"),
    }
    assert_eq!(pool.status().used, 0);
}

#[test]
fn lease_ids_are_distinct() {
    let mut pool = PhantomDBPool::new(config(0, 3, 10, 100), Vec::<u32>::new(), 0);
    let a = acquire_now(&mut pool, 0, 1).unwrap();
    let b = acquire_now(&mut pool, 0, 2).unwrap();
    assert_ne!(a.id(), b.id());
    assert!(pool.can_issue());
}

#[test]
fn many_acquirers_stay_within_bound() {
    let max = 3;
    let mut pool = PhantomDBPool::new(config(1, max, 5, 1_000), vec![0u32], 0);
    let mut held = Vec::new();
    for i in 0..20u64 {
        match acquire_now(&mut pool, i, i as u32) {
            Ok(mut lease) => {
                if i % 2 == 0 {
                    pool.release(&mut lease, i).unwrap();
                } else {
                    held.push(lease);
                }
            }
            Err(e) => assert_eq!(e, PoolError::AcquireTimeout),
        }
        let s = pool.status();
        assert!(s.available + s.used <= max);
        if i % 5 == 4 {
            if let Some(mut lease) = held.pop() {
                pool.release(&mut lease, i).unwrap();
            }
        }
        let s = pool.status();
        assert!(s.available + s.used <= max);
    }
}

#[test]
fn inner_mut_changes_the_held_connection() {
    let mut pool = PhantomDBPool::new(config(1, 1, 10, 1_000), vec![1u32], 0);
    let mut lease = acquire_now(&mut pool, 1, 2).unwrap();
    *lease.inner_mut().unwrap() = 40;
    assert_eq!(*lease.inner().unwrap(), 40);
    pool.release(&mut lease, 2).unwrap();
    assert!(matches!(lease.inner_mut(), Err(PoolError::UseAfterRelease)));
    match pool.try_acquire(3, 3) {
        Ok(AcquireStep::Ready(back)) => assert_eq!(*back.inner().unwrap(), 40),
        _ => panic!("expected the returned connection"),
    }
}
