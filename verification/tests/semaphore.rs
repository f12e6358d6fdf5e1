use dns_checker::semaphore::Semaphore;

#[test]
fn permits_run_out_and_come_back() {
    let mut sem = Semaphore::new(2);
    assert!(sem.acquire());
    assert!(sem.acquire());
    assert!(!sem.acquire());
    assert!(sem.release());
    assert!(sem.acquire());
    assert!(!sem.acquire());
}

#[test]
fn no_permits_are_never_granted() {
    let mut sem = Semaphore::new(0);
    assert!(!sem.acquire());
    assert!(!sem.release());
    assert!(!sem.acquire());
}

#[test]
fn full_semaphore_takes_nothing_back() {
    let mut sem = Semaphore::new(1);
    assert!(!sem.release());
    assert!(sem.acquire());
    assert!(sem.release());
    assert!(!sem.release());
}
