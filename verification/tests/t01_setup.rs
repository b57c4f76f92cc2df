use ring_io::Ring;

#[test]
fn t01_01_setup() {
    let ring = Ring::with_entries(32).setup().unwrap();
    println!("{:?}", ring.ring_fd());
    println!("{:?}", ring.cq_entries());
    println!("{:?}", ring.sq_entries());
    println!("{:?}", ring.features());
    drop(ring);
}

#[test]
fn setup_reports_requested_geometry() {
    let ring = Ring::with_entries(32).setup().unwrap();
    assert_eq!(ring.sq_entries(), 32);
    assert_eq!(ring.cq_entries(), 64);
    assert_eq!(ring.sq.available(), 32);
    assert_eq!(ring.sq.prepared(), 0);
    assert_eq!(ring.cq.ready(), 0);
}

#[test]
fn setup_with_one_entry_is_usable() {
    // The smallest ring works end to end.
    let mut ring = Ring::with_entries(1).setup().unwrap();
    assert_eq!(ring.sq_entries(), 1);
    assert_eq!(ring.sq.available(), 1);
    let idx = ring.sq.pop_sqe().unwrap();
    assert_eq!(ring.sq.pop_sqe(), None);
    ring.sq.push_sqe(idx);
    assert_eq!(ring.sq.prepared(), 1);
    let submitted = ring.submit_and_wait(1).unwrap();
    assert_eq!(submitted, 1);
    assert_eq!(ring.cq.ready(), 1);
    assert!(ring.cq.pop_cqe().is_some());
}

#[test]
fn setup_rounds_up_to_power_of_two() {
    let ring = Ring::with_entries(33).setup().unwrap();
    assert_eq!(ring.sq_entries(), 64);
    assert_eq!(ring.cq_entries(), 128);
}

#[test]
fn setup_rejects_zero_entries() {
    let err = match Ring::with_entries(0).setup() {
        Err(e) => e,
        Ok(_) => panic!("setup accepted zero entries"),
    };
    assert_eq!(err.raw_os_error(), 22);
}

#[test]
fn setup_rejects_oversized_rings() {
    let err = match Ring::with_entries(40000).setup() {
        Err(e) => e,
        Ok(_) => panic!("setup accepted an oversized ring"),
    };
    assert_eq!(err.raw_os_error(), 22);
}
