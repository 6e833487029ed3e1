use power_profiles::holds::HoldRegistry;
use power_profiles::types::PowerProfileHold;

fn hold(application_id: &str, profile: &str, reason: &str) -> PowerProfileHold {
    PowerProfileHold::new(application_id.to_string(), profile.to_string(), reason.to_string())
}

#[test]
fn a_hold_keeps_what_it_was_made_of() {
    let made = hold("app1", "performance", "lap");
    assert_eq!(made.application_id, "app1");
    assert_eq!(made.profile, "performance");
    assert_eq!(made.reason, "lap");
    assert_eq!(made.clone(), made);
}

#[test]
fn a_new_registry_has_no_hold() {
    let registry = HoldRegistry::new();
    assert_eq!(registry.len(), 0);
    assert!(registry.list().is_empty());
    assert!(!registry.contains(0));
}

#[test]
fn cookies_differ_across_repeated_holds() {
    let mut registry = HoldRegistry::new();
    let mut cookies = Vec::new();
    for i in 0..100 {
        cookies.push(registry.insert(hold("app", "performance", &i.to_string())).unwrap());
    }
    for i in 0..cookies.len() {
        for j in 0..i {
            assert_ne!(cookies[i], cookies[j]);
        }
    }
    assert_eq!(registry.len(), 100);
}

#[test]
fn cookies_differ_after_releases() {
    let mut registry = HoldRegistry::new();
    let first = registry.insert(hold("app1", "performance", "a")).unwrap();
    assert_eq!(registry.remove(first), Some(hold("app1", "performance", "a")));
    let second = registry.insert(hold("app2", "performance", "b")).unwrap();
    assert_ne!(first, second);
    let third = registry.insert(hold("app3", "power-saver", "c")).unwrap();
    assert_eq!(registry.remove(second), Some(hold("app2", "performance", "b")));
    assert_eq!(registry.remove(third), Some(hold("app3", "power-saver", "c")));
    let fourth = registry.insert(hold("app4", "performance", "d")).unwrap();
    assert!(fourth != first && fourth != second && fourth != third);
    assert_eq!(registry.len(), 1);
}

#[test]
fn the_first_cookies_count_up_from_zero() {
    let mut registry = HoldRegistry::new();
    assert_eq!(registry.insert(hold("a", "p", "r")), Some(0));
    assert_eq!(registry.insert(hold("b", "p", "r")), Some(1));
    assert_eq!(registry.remove(0), Some(hold("a", "p", "r")));
    assert_eq!(registry.insert(hold("c", "p", "r")), Some(2));
}

#[test]
fn releasing_a_cookie_without_a_hold_changes_nothing() {
    let mut registry = HoldRegistry::new();
    assert_eq!(registry.remove(0), None);
    let first = registry.insert(hold("app1", "performance", "a")).unwrap();
    let second = registry.insert(hold("app2", "power-saver", "b")).unwrap();
    assert_eq!(registry.remove(77), None);
    assert_eq!(registry.len(), 2);
    assert!(registry.contains(first));
    assert!(registry.contains(second));
    assert_eq!(
        registry.list(),
        vec![(first, hold("app1", "performance", "a")), (second, hold("app2", "power-saver", "b"))]
    );
}

#[test]
fn a_release_leaves_the_other_holds() {
    let mut registry = HoldRegistry::new();
    let first = registry.insert(hold("app1", "performance", "a")).unwrap();
    let second = registry.insert(hold("app2", "power-saver", "b")).unwrap();
    let third = registry.insert(hold("app3", "performance", "c")).unwrap();
    assert_eq!(registry.remove(second), Some(hold("app2", "power-saver", "b")));
    assert!(registry.contains(first));
    assert!(!registry.contains(second));
    assert!(registry.contains(third));
    assert_eq!(
        registry.list(),
        vec![(first, hold("app1", "performance", "a")), (third, hold("app3", "performance", "c"))]
    );
    assert_eq!(registry.remove(second), None);
    assert_eq!(registry.len(), 2);
}

#[test]
fn holds_are_listed_in_the_order_taken() {
    let mut registry = HoldRegistry::new();
    registry.insert(hold("z", "performance", "1"));
    registry.insert(hold("a", "power-saver", "2"));
    registry.insert(hold("m", "performance", "3"));
    assert_eq!(
        registry.list(),
        vec![
            (0, hold("z", "performance", "1")),
            (1, hold("a", "power-saver", "2")),
            (2, hold("m", "performance", "3"))
        ]
    );
}

#[test]
fn once_every_cookie_is_issued_no_hold_is_taken() {
    let mut registry = HoldRegistry::starting_at(u32::MAX - 1);
    assert_eq!(registry.insert(hold("a", "p", "r")), Some(u32::MAX - 1));
    assert_eq!(registry.insert(hold("b", "p", "r")), Some(u32::MAX));
    assert_eq!(registry.insert(hold("c", "p", "r")), None);
    assert_eq!(registry.len(), 2);
    assert_eq!(registry.remove(u32::MAX), Some(hold("b", "p", "r")));
    assert_eq!(registry.insert(hold("d", "p", "r")), None);
    assert_eq!(registry.list(), vec![(u32::MAX - 1, hold("a", "p", "r"))]);
}

#[test]
fn many_holds_are_listed_by_rising_cookie() {
    let mut registry = HoldRegistry::starting_at(1000);
    for i in 0..200u32 {
        assert_eq!(registry.insert(hold("app", "performance", &i.to_string())), Some(1000 + i));
    }
    for i in 0..200u32 {
        if i % 3 == 1 {
            assert!(registry.remove(1000 + i).is_some());
        }
    }
    let listed = registry.list();
    assert_eq!(listed.len(), registry.len());
    let expected: Vec<(u32, PowerProfileHold)> = (0..200u32)
        .filter(|i| i % 3 != 1)
        .map(|i| (1000 + i, hold("app", "performance", &i.to_string())))
        .collect();
    assert_eq!(listed, expected);
}
