use udp::pool::Pool;

#[test]
fn a_pool_serves_as_many_as_it_has_slots() {
    let mut pool: Pool<3> = Pool::new();
    assert_eq!(pool.allocate(), Some(0));
    assert_eq!(pool.allocate(), Some(1));
    assert_eq!(pool.allocate(), Some(2));
    assert_eq!(pool.allocate(), None);
    assert_eq!(pool.used, [true, true, true]);
}

#[test]
fn the_first_free_slot_is_taken() {
    let mut pool: Pool<4> = Pool::new();
    for _ in 0..4 {
        pool.allocate();
    }
    pool.free(2);
    pool.free(1);
    assert_eq!(pool.used, [true, false, false, true]);
    assert_eq!(pool.allocate(), Some(1));
    assert_eq!(pool.allocate(), Some(2));
    assert_eq!(pool.allocate(), None);
}

#[test]
fn an_empty_pool_serves_nobody() {
    let mut pool: Pool<0> = Pool::new();
    assert_eq!(pool.allocate(), None);
}

#[test]
fn freeing_undoes_allocating() {
    let mut pool: Pool<2> = Pool::new();
    pool.allocate();
    let before = pool.used;
    let slot = pool.allocate().unwrap();
    pool.free(slot);
    assert_eq!(pool.used, before);
}
