use jara::registry::JobRegistry;

#[test]
fn insert_then_take() {
    let mut r: JobRegistry<u32> = JobRegistry::new();
    assert!(r.insert("a".to_string(), 1).is_ok());
    assert!(r.insert("b".to_string(), 2).is_ok());
    assert!(r.contains("a"));
    assert_eq!(r.remove_and_take("a"), Some(1));
    assert!(!r.contains("a"));
    assert!(r.contains("b"));
    assert_eq!(r.remove_and_take("b"), Some(2));
}

#[test]
fn second_take_receives_nothing() {
    let mut r: JobRegistry<u32> = JobRegistry::new();
    r.insert("job".to_string(), 7).ok();
    assert_eq!(r.remove_and_take("job"), Some(7));
    assert_eq!(r.remove_and_take("job"), None);
}

#[test]
fn take_of_unknown_job_is_none() {
    let mut r: JobRegistry<u32> = JobRegistry::new();
    assert_eq!(r.remove_and_take("missing"), None);
    assert!(!r.contains("missing"));
}

#[test]
fn duplicate_insert_hands_handle_back() {
    let mut r: JobRegistry<u32> = JobRegistry::new();
    assert!(r.insert("x".to_string(), 1).is_ok());
    assert_eq!(r.insert("x".to_string(), 2), Err(2));
    assert_eq!(r.remove_and_take("x"), Some(1));
}

#[test]
fn identifier_is_reusable_after_take() {
    let mut r: JobRegistry<u32> = JobRegistry::new();
    r.insert("x".to_string(), 1).ok();
    r.remove_and_take("x");
    assert!(r.insert("x".to_string(), 3).is_ok());
    assert_eq!(r.remove_and_take("x"), Some(3));
}

#[test]
fn repeated_takes_hand_out_each_handle_once() {
    let mut r: JobRegistry<usize> = JobRegistry::new();
    let mut handed_out = 0usize;
    for round in 0..50usize {
        for k in 0..8usize {
            r.insert(format!("job{}", k), round * 8 + k).ok();
        }
        for k in 0..8usize {
            let id = format!("job{}", k);
            let first = r.remove_and_take(&id);
            let second = r.remove_and_take(&id);
            assert_eq!(first, Some(round * 8 + k));
            assert_eq!(second, None);
            handed_out += 1;
        }
    }
    assert_eq!(handed_out, 400);
}
