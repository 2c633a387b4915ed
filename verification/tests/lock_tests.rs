use registry_core::lock::InMemoryRwLock;

#[test]
fn concurrent_readers_share_a_key() {
    let mut t = InMemoryRwLock::new();
    assert!(t.try_read_lock("sha256:aaa"));
    assert!(t.try_read_lock("sha256:aaa"));
    assert!(t.try_read_lock("sha256:aaa"));
    t.release_read_lock("sha256:aaa");
    t.release_read_lock("sha256:aaa");
    t.release_read_lock("sha256:aaa");
}

#[test]
fn writer_waits_for_all_readers() {
    let mut t = InMemoryRwLock::new();
    assert!(t.try_read_lock("d"));
    assert!(t.try_read_lock("d"));
    assert!(!t.try_write_lock("d"));
    t.release_read_lock("d");
    assert!(!t.try_write_lock("d"));
    t.release_read_lock("d");
    assert!(t.try_write_lock("d"));
    t.release_write_lock("d");
}

#[test]
fn readers_wait_for_the_writer() {
    let mut t = InMemoryRwLock::new();
    assert!(t.try_write_lock("d"));
    assert!(!t.try_read_lock("d"));
    assert!(!t.try_write_lock("d"));
    t.release_write_lock("d");
    assert!(t.try_read_lock("d"));
    t.release_read_lock("d");
}

#[test]
fn keys_are_independent() {
    let mut t = InMemoryRwLock::new();
    assert!(t.try_write_lock("one"));
    assert!(t.try_read_lock("two"));
    assert!(t.try_read_lock("two"));
    t.release_write_lock("one");
    t.release_read_lock("two");
    t.release_read_lock("two");
}
