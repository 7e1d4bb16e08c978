use bagel_browser::tabs::TabManager;

fn ids(m: &TabManager) -> Vec<u128> {
    m.get_all_tabs().iter().map(|t| t.id).collect()
}

#[test]
fn first_tab_becomes_active() {
    let mut m = TabManager::new();
    assert!(!m.has_tabs());
    assert!(m.get_active_tab().is_none());
    let a = m.create_tab("https://a.com".to_string(), None);
    assert_eq!(m.get_active_tab().map(|t| t.id), Some(a));
    let b = m.create_tab("https://b.com".to_string(), Some("B".to_string()));
    assert_eq!(m.get_active_tab().map(|t| t.id), Some(a));
    assert_ne!(a, b);
    assert_eq!(m.tab_count(), 2);
}

#[test]
fn new_tab_fields() {
    let mut m = TabManager::default();
    let a = m.create_tab("https://a.com".to_string(), None);
    let b = m.create_tab("https://b.com".to_string(), Some("Bee".to_string()));
    let ta = m.get_tab(a).unwrap();
    assert_eq!(ta.id, a);
    assert_eq!(ta.title, "New Tab");
    assert_eq!(ta.url, "https://a.com");
    assert!(ta.favicon.is_none());
    assert!(!ta.is_loading && !ta.can_go_back && !ta.can_go_forward);
    assert!(!ta.is_pinned && !ta.is_muted);
    assert_eq!(ta.created_at, ta.last_accessed);
    assert_eq!(m.get_tab(b).unwrap().title, "Bee");
    assert!(m.get_tab(a ^ b ^ 1).is_none() || a ^ b ^ 1 == a || a ^ b ^ 1 == b);
}

#[test]
fn closing_inactive_tab_keeps_active() {
    let mut m = TabManager::new();
    let a = m.create_tab("a".to_string(), None);
    let b = m.create_tab("b".to_string(), None);
    let c = m.create_tab("c".to_string(), None);
    assert!(m.close_tab(c));
    assert_eq!(m.get_active_tab().map(|t| t.id), Some(a));
    assert!(m.close_tab(b));
    assert_eq!(m.get_active_tab().map(|t| t.id), Some(a));
    assert_eq!(ids(&m), vec![a]);
}

#[test]
fn closing_active_middle_tab_selects_next() {
    let mut m = TabManager::new();
    let a = m.create_tab("a".to_string(), None);
    let b = m.create_tab("b".to_string(), None);
    let c = m.create_tab("c".to_string(), None);
    assert!(m.set_active_tab(b));
    assert!(m.close_tab(b));
    assert_eq!(m.get_active_tab().map(|t| t.id), Some(c));
    assert_eq!(ids(&m), vec![a, c]);
}

#[test]
fn closing_active_last_tab_selects_previous() {
    let mut m = TabManager::new();
    let a = m.create_tab("a".to_string(), None);
    let b = m.create_tab("b".to_string(), None);
    assert!(m.set_active_tab(b));
    assert!(m.close_tab(b));
    assert_eq!(m.get_active_tab().map(|t| t.id), Some(a));
}

#[test]
fn closing_only_tab_leaves_none_active() {
    let mut m = TabManager::new();
    let a = m.create_tab("a".to_string(), None);
    assert!(m.close_tab(a));
    assert!(m.get_active_tab().is_none());
    assert!(!m.has_tabs());
    assert_eq!(m.tab_count(), 0);
}

#[test]
fn closing_absent_tab_is_refused() {
    let mut m = TabManager::new();
    let a = m.create_tab("a".to_string(), None);
    assert!(m.close_tab(a));
    assert!(!m.close_tab(a));
    let b = m.create_tab("b".to_string(), None);
    assert_eq!(m.get_active_tab().map(|t| t.id), Some(b));
}

#[test]
fn move_first_to_last() {
    let mut m = TabManager::new();
    let a = m.create_tab("a".to_string(), None);
    let b = m.create_tab("b".to_string(), None);
    let c = m.create_tab("c".to_string(), None);
    assert!(m.move_tab(0, 2));
    assert_eq!(ids(&m), vec![b, c, a]);
    assert_eq!(m.get_active_tab().map(|t| t.id), Some(a));
}

#[test]
fn move_out_of_bounds_is_refused() {
    let mut m = TabManager::new();
    let a = m.create_tab("a".to_string(), None);
    let b = m.create_tab("b".to_string(), None);
    assert!(!m.move_tab(0, 2));
    assert!(!m.move_tab(2, 0));
    assert_eq!(ids(&m), vec![a, b]);
}

#[test]
fn moves_keep_length_and_ids() {
    let mut m = TabManager::new();
    let mut made = Vec::new();
    for i in 0..5 {
        made.push(m.create_tab(format!("t{}", i), None));
    }
    let moves = [(0usize, 4usize), (3, 1), (2, 2), (4, 0), (1, 3), (7, 1)];
    for (from, to) in moves {
        m.move_tab(from, to);
        let mut now = ids(&m);
        assert_eq!(now.len(), 5);
        now.sort();
        let mut want = made.clone();
        want.sort();
        assert_eq!(now, want);
    }
}

#[test]
fn active_tab_stays_live_over_operations() {
    let mut m = TabManager::new();
    let mut live: Vec<u128> = Vec::new();
    let mut seed: u64 = 7;
    for step in 0..200u32 {
        seed = seed.wrapping_mul(6364136223846793005).wrapping_add(1442695040888963407);
        let pick = (seed >> 33) as usize;
        match pick % 3 {
            0 => live.push(m.create_tab(format!("s{}", step), None)),
            1 => {
                if !live.is_empty() {
                    let id = live.remove(pick % live.len());
                    assert!(m.close_tab(id));
                }
            }
            _ => {
                let n = m.tab_count().max(1);
                m.move_tab(pick % n, (pick / 7) % n);
            }
        }
        let active = m.get_active_tab().map(|t| t.id);
        assert_eq!(active.is_none(), !m.has_tabs());
        if let Some(a) = active {
            assert!(ids(&m).contains(&a));
            assert!(m.get_tab(a).is_some());
        }
    }
}

#[test]
fn setters_change_one_tab() {
    let mut m = TabManager::new();
    let a = m.create_tab("a".to_string(), None);
    let b = m.create_tab("b".to_string(), None);
    m.update_tab_url(a, "https://x.org".to_string());
    m.update_tab_title(a, "X".to_string());
    m.set_tab_loading(a, true);
    m.set_tab_navigation_state(a, true, false);
    m.pin_tab(a);
    let t = m.get_tab(a).unwrap();
    assert_eq!(t.url, "https://x.org");
    assert_eq!(t.title, "X");
    assert!(t.is_loading && t.can_go_back && !t.can_go_forward && t.is_pinned);
    m.unpin_tab(a);
    assert!(!m.get_tab(a).unwrap().is_pinned);
    let tb = m.get_tab(b).unwrap();
    assert_eq!(tb.url, "b");
    assert!(!tb.is_loading && !tb.is_pinned);
}

#[test]
fn setters_ignore_absent_tab() {
    let mut m = TabManager::new();
    let a = m.create_tab("a".to_string(), None);
    assert!(m.close_tab(a));
    m.update_tab_url(a, "x".to_string());
    m.pin_tab(a);
    assert!(m.get_tab(a).is_none());
    assert!(!m.set_active_tab(a));
    assert_eq!(m.tab_count(), 0);
}

#[test]
fn set_active_switches_focus() {
    let mut m = TabManager::new();
    let a = m.create_tab("a".to_string(), None);
    let b = m.create_tab("b".to_string(), None);
    assert!(m.set_active_tab(b));
    assert_eq!(m.get_active_tab().map(|t| t.id), Some(b));
    assert!(m.get_tab(b).unwrap().last_accessed >= m.get_tab(a).unwrap().created_at);
    assert!(m.get_recently_closed().is_empty());
}
