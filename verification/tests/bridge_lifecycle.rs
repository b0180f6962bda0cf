use encrypted_env::Error;
use encrypted_env::bridge;
use encrypted_env::cipher::CustomCipher;
use encrypted_env::cipher::XorBlockCipher;
use encrypted_env::env::Env;
use encrypted_env::env::EnvKind;
use encrypted_env::env::Runtime;

fn block(n: usize, seed: u8) -> Vec<u8> {
    let mut v = Vec::new();
    let mut b = seed;
    for _ in 0..n {
        v.push(b);
        b = b.wrapping_mul(31).wrapping_add(7);
    }
    v
}

#[test]
fn round_trip_single_block() {
    let mut rt: Runtime<XorBlockCipher> = Runtime::new();
    let env = Env::encrypted(&mut rt, XorBlockCipher { key: 0x5a }, 4, 16).unwrap();
    assert_eq!(env.id, 0);

    let plain = block(16, 3);
    let mut data = plain.clone();
    let mut metadata = vec![0u8; 4];
    let ok = bridge::encrypt_block(&rt.bridges, 0, 11, &mut data, &mut metadata);
    assert!(ok);
    assert_ne!(data, plain);
    let ok2 = bridge::decrypt_block(&rt.bridges, 0, 11, &mut data, &metadata);
    assert!(ok2);
    assert_eq!(data, plain);
    env.release(&mut rt);
}

#[test]
fn keystream_exact_values() {
    // key 0x0f over block index 0x1234 masks each byte with 0x0f ^ 0x34.
    let cipher = XorBlockCipher { key: 0x0f };
    let mut data = vec![0x00u8, 0xff, 0x3b];
    let mut metadata = vec![0xaau8, 0xbb];
    let ok = cipher.encrypt_block(0x1234, &mut data, &mut metadata);
    assert!(ok);
    assert_eq!(data, vec![0x3b, 0xc4, 0x00]);
    assert_eq!(metadata, vec![0xaa, 0xbb]);
    let ok2 = cipher.decrypt_block(0x1234, &mut data, &metadata);
    assert!(ok2);
    assert_eq!(data, vec![0x00, 0xff, 0x3b]);
}

#[test]
fn teardown_fires_exactly_once_on_last_release() {
    let mut rt: Runtime<XorBlockCipher> = Runtime::new();
    let env = Env::encrypted(&mut rt, XorBlockCipher { key: 1 }, 2, 8).unwrap();
    let second = env.clone_handle(&mut rt);
    assert_eq!(second.id, env.id);
    assert_eq!(rt.envs[0].unwrap().refs, 2);

    second.release(&mut rt);
    assert!(rt.envs[0].is_some());
    assert!(rt.bridges.slots[0].is_some());
    assert_eq!(rt.bridges.destroy_log.len(), 0);

    env.release(&mut rt);
    assert!(rt.envs[0].is_none());
    assert!(rt.bridges.slots[0].is_none());
    assert_eq!(rt.bridges.destroy_log, vec![0]);
}

#[test]
fn no_calls_after_destroy() {
    let mut rt: Runtime<XorBlockCipher> = Runtime::new();
    let env = Env::encrypted(&mut rt, XorBlockCipher { key: 9 }, 2, 8).unwrap();
    env.release(&mut rt);
    // The bridge record is gone and its address is never reused, so the
    // entry points' precondition (a live address) can never hold again.
    assert!(rt.bridges.slots[0].is_none());
    assert_eq!(
        rt.bridges.destroy_log.iter().filter(|a| **a == 0).count(),
        1
    );
}

#[test]
fn independent_environments_have_independent_bridges() {
    let mut rt: Runtime<XorBlockCipher> = Runtime::new();
    let first = Env::encrypted(&mut rt, XorBlockCipher { key: 0x11 }, 2, 8).unwrap();
    let second = Env::encrypted(&mut rt, XorBlockCipher { key: 0x22 }, 2, 8).unwrap();
    assert_eq!(rt.envs[first.id].unwrap().kind, EnvKind::Encrypted(0));
    assert_eq!(rt.envs[second.id].unwrap().kind, EnvKind::Encrypted(1));

    first.release(&mut rt);
    assert!(rt.bridges.slots[0].is_none());
    assert!(rt.bridges.slots[1].is_some());

    let plain = block(8, 40);
    let mut data = plain.clone();
    let mut metadata = vec![0u8; 2];
    assert!(bridge::encrypt_block(&rt.bridges, 1, 5, &mut data, &mut metadata));
    assert!(bridge::decrypt_block(&rt.bridges, 1, 5, &mut data, &metadata));
    assert_eq!(data, plain);
    second.release(&mut rt);
    assert_eq!(rt.bridges.destroy_log, vec![0, 1]);
}

#[test]
fn eight_distinct_block_indices_round_trip() {
    let mut rt: Runtime<XorBlockCipher> = Runtime::new();
    let env = Env::encrypted(&mut rt, XorBlockCipher { key: 0x77 }, 4, 32).unwrap();
    let addr = 0;
    assert_eq!(rt.bridges.slots[addr].as_ref().unwrap().block_size, 32);
    assert_eq!(rt.bridges.slots[addr].as_ref().unwrap().metadata_size, 4);

    let mut blocks = Vec::new();
    for i in 0..8u64 {
        let plain = block(32, i as u8);
        let mut data = plain.clone();
        let mut metadata = vec![0u8; 4];
        let index = 1000 + 17 * i;
        assert!(bridge::encrypt_block(&rt.bridges, addr, index, &mut data, &mut metadata));
        blocks.push((index, plain, data, metadata));
    }
    // The cached sizes are unchanged by any number of calls.
    assert_eq!(rt.bridges.slots[addr].as_ref().unwrap().block_size, 32);
    assert_eq!(rt.bridges.slots[addr].as_ref().unwrap().metadata_size, 4);
    for (index, plain, enc, metadata) in blocks {
        let mut data = enc.clone();
        assert!(bridge::decrypt_block(&rt.bridges, addr, index, &mut data, &metadata));
        assert_eq!(data, plain);
    }
    env.release(&mut rt);
}

#[test]
fn construction_failure_releases_the_bridge() {
    let mut rt: Runtime<XorBlockCipher> = Runtime::new();
    rt.fail_next_create = true;
    let r = Env::encrypted(&mut rt, XorBlockCipher { key: 5 }, 2, 8);
    assert_eq!(r.unwrap_err(), Error::EnvCreationFailed);
    // The already-allocated record was released by the constructing side:
    // no slot is left over, and destroy never fired.
    assert_eq!(rt.bridges.slots.len(), 0);
    assert_eq!(rt.bridges.destroy_log.len(), 0);
    assert_eq!(rt.envs.len(), 0);

    // The next construction succeeds and is unaffected.
    let env = Env::encrypted(&mut rt, XorBlockCipher { key: 5 }, 2, 8).unwrap();
    assert!(rt.bridges.slots[0].is_some());
    env.release(&mut rt);
}

#[test]
fn plain_construction_failure_retains_nothing() {
    let mut rt: Runtime<XorBlockCipher> = Runtime::new();
    rt.fail_next_create = true;
    let r = Env::new(&mut rt);
    assert_eq!(r.unwrap_err(), Error::EnvCreationFailed);
    assert_eq!(rt.envs.len(), 0);

    rt.fail_next_create = true;
    let r2 = Env::mem_env(&mut rt);
    assert_eq!(r2.unwrap_err(), Error::EnvCreationFailed);
    assert_eq!(rt.envs.len(), 0);
}
