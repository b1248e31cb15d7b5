use baroboard::icon_cache::IconCache;

fn s(x: &str) -> String {
    x.to_string()
}

#[test]
fn shared_icon_survives_until_last_user_leaves() {
    let p = s("icons/app.png");
    let (a, b) = (s("uuid-a"), s("uuid-b"));
    let mut c = IconCache::new();
    c.register(&p, &a);
    c.register(&p, &b);

    c.unregister(&p, &a);
    c.mark_for_cleanup(p.clone());
    assert!(c.sweep().is_empty());
    assert!(c.is_cached(&p));
    assert_eq!(c.dependent_count(&p), 1);

    c.unregister(&p, &b);
    c.mark_for_cleanup(p.clone());
    assert_eq!(c.sweep(), vec![p.clone()]);
    assert!(!c.is_cached(&p));
}

#[test]
fn both_users_leave_in_one_frame() {
    let p = s("shared.png");
    let (a, b) = (s("a"), s("b"));
    let mut c = IconCache::new();
    c.register(&p, &a);
    c.register(&p, &b);
    c.unregister(&p, &a);
    c.mark_for_cleanup(p.clone());
    c.unregister(&p, &b);
    c.mark_for_cleanup(p.clone());
    // Staged twice, released twice: forgetting an image twice is harmless.
    assert_eq!(c.sweep(), vec![p.clone(), p.clone()]);
    assert!(!c.is_cached(&p));
}

#[test]
fn registering_twice_counts_once() {
    let p = s("x.png");
    let a = s("a");
    let mut c = IconCache::new();
    c.register(&p, &a);
    c.register(&p, &a);
    assert_eq!(c.dependent_count(&p), 1);
    c.unregister(&p, &a);
    assert_eq!(c.dependent_count(&p), 0);
    assert!(c.is_cached(&p));
}

#[test]
fn sweep_without_staging_evicts_nothing() {
    let p = s("x.png");
    let a = s("a");
    let mut c = IconCache::new();
    c.register(&p, &a);
    c.unregister(&p, &a);
    assert!(c.sweep().is_empty());
    assert!(c.is_cached(&p));
}

#[test]
fn unknown_path_is_released_when_staged() {
    let mut c = IconCache::new();
    let p = s("never-shown.png");
    c.mark_for_cleanup(p.clone());
    assert_eq!(c.sweep(), vec![p]);
    assert!(c.sweep().is_empty());
}

#[test]
fn unregister_unknown_path_creates_empty_entry() {
    let mut c = IconCache::new();
    let p = s("p.png");
    c.unregister(&p, &s("a"));
    assert!(c.is_cached(&p));
    assert_eq!(c.dependent_count(&p), 0);
}

#[test]
fn sweep_keeps_used_and_releases_unused_in_staging_order() {
    let mut c = IconCache::new();
    let (first, second, third) = (s("1.png"), s("2.png"), s("3.png"));
    c.register(&first, &s("a"));
    c.register(&second, &s("b"));
    c.register(&third, &s("c"));
    c.unregister(&third, &s("c"));
    c.unregister(&first, &s("a"));
    c.mark_for_cleanup(third.clone());
    c.mark_for_cleanup(second.clone());
    c.mark_for_cleanup(first.clone());
    assert_eq!(c.sweep(), vec![third.clone(), first.clone()]);
    assert!(c.is_cached(&second));
    assert!(!c.is_cached(&first));
    assert!(!c.is_cached(&third));
}
