use encrypted_env::cipher::XorBlockCipher;
use encrypted_env::env::Env;
use encrypted_env::env::EnvKind;
use encrypted_env::env::Runtime;

#[test]
fn default_pool_sizes_are_one() {
    let mut rt: Runtime<XorBlockCipher> = Runtime::new();
    let env = Env::mem_env(&mut rt).unwrap();
    let res = rt.envs[env.id].unwrap();
    assert_eq!(res.kind, EnvKind::Mem);
    assert_eq!(res.refs, 1);
    assert_eq!(res.low_threads, 1);
    assert_eq!(res.high_threads, 1);
    assert_eq!(res.bottom_threads, 1);
    assert_eq!(res.workers, 0);
    env.release(&mut rt);
}

#[test]
fn resizing_pools_starts_workers_only_on_growth() {
    let mut rt: Runtime<XorBlockCipher> = Runtime::new();
    let env = Env::new(&mut rt).unwrap();
    env.set_background_threads(&mut rt, 4);
    assert_eq!(rt.envs[0].unwrap().low_threads, 4);
    assert_eq!(rt.envs[0].unwrap().workers, 3);

    env.set_background_threads(&mut rt, 2);
    assert_eq!(rt.envs[0].unwrap().low_threads, 2);
    assert_eq!(rt.envs[0].unwrap().workers, 3);

    env.set_high_priority_background_threads(&mut rt, 3);
    assert_eq!(rt.envs[0].unwrap().high_threads, 3);
    assert_eq!(rt.envs[0].unwrap().workers, 5);

    env.set_low_priority_background_threads(&mut rt, 6);
    assert_eq!(rt.envs[0].unwrap().low_threads, 6);
    assert_eq!(rt.envs[0].unwrap().workers, 9);

    env.set_bottom_priority_background_threads(&mut rt, 2);
    assert_eq!(rt.envs[0].unwrap().bottom_threads, 2);
    assert_eq!(rt.envs[0].unwrap().workers, 10);
    env.release(&mut rt);
}

#[test]
fn join_all_threads_returns_with_none_pending() {
    let mut rt: Runtime<XorBlockCipher> = Runtime::new();
    let env = Env::new(&mut rt).unwrap();
    env.set_background_threads(&mut rt, 8);
    env.set_high_priority_background_threads(&mut rt, 4);
    assert_eq!(rt.envs[0].unwrap().workers, 10);

    env.join_all_threads(&mut rt);
    assert_eq!(rt.envs[0].unwrap().workers, 0);
    // Pool configuration survives the join.
    assert_eq!(rt.envs[0].unwrap().low_threads, 8);
    assert_eq!(rt.envs[0].unwrap().high_threads, 4);

    // With nothing pending it returns at once, leaving the count at zero.
    env.join_all_threads(&mut rt);
    assert_eq!(rt.envs[0].unwrap().workers, 0);
    env.release(&mut rt);
}

#[test]
fn priority_demotions_set_their_flag_only() {
    let mut rt: Runtime<XorBlockCipher> = Runtime::new();
    let env = Env::new(&mut rt).unwrap();
    let before = rt.envs[0].unwrap();
    assert!(!before.low_pool_io_lowered);
    assert!(!before.high_pool_io_lowered);
    assert!(!before.low_pool_cpu_lowered);
    assert!(!before.high_pool_cpu_lowered);

    env.lower_thread_pool_io_priority(&mut rt);
    assert!(rt.envs[0].unwrap().low_pool_io_lowered);
    assert!(!rt.envs[0].unwrap().high_pool_io_lowered);

    env.lower_high_priority_thread_pool_io_priority(&mut rt);
    assert!(rt.envs[0].unwrap().high_pool_io_lowered);

    env.lower_thread_pool_cpu_priority(&mut rt);
    assert!(rt.envs[0].unwrap().low_pool_cpu_lowered);
    assert!(!rt.envs[0].unwrap().high_pool_cpu_lowered);

    env.lower_high_priority_thread_pool_cpu_priority(&mut rt);
    assert!(rt.envs[0].unwrap().high_pool_cpu_lowered);
    env.release(&mut rt);
}

#[test]
fn cloned_handles_share_one_resource() {
    let mut rt: Runtime<XorBlockCipher> = Runtime::new();
    let env = Env::mem_env(&mut rt).unwrap();
    let second = env.clone_handle(&mut rt);
    assert_eq!(second.id, env.id);
    assert_eq!(rt.envs[env.id].unwrap().refs, 2);

    // Configuration through one handle is seen through the other.
    env.set_background_threads(&mut rt, 5);
    assert_eq!(rt.envs[second.id].unwrap().low_threads, 5);

    second.release(&mut rt);
    assert_eq!(rt.envs[env.id].unwrap().refs, 1);
    assert!(rt.envs[env.id].is_some());
    env.release(&mut rt);
    assert!(rt.envs[0].is_none());
}
