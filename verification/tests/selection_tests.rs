use devwizard::event::{Event, EventKind};
use devwizard::selection::{cards_showing, Selection};

fn s(x: &str) -> String {
    x.to_string()
}

#[test]
fn toggle_adds_then_removes() {
    let mut sel = Selection::new();
    assert!(sel.toggle(&s("rust")));
    assert!(sel.toggle(&s("go")));
    assert_eq!(sel.ids(), &vec![s("rust"), s("go")]);
    assert!(!sel.toggle(&s("rust")));
    assert_eq!(sel.ids(), &vec![s("go")]);
    assert!(sel.contains(&s("go")));
    assert!(!sel.contains(&s("rust")));
}

#[test]
fn toggling_twice_keeps_the_same_packages() {
    let mut sel = Selection::new();
    sel.toggle(&s("a"));
    sel.toggle(&s("b"));
    sel.toggle(&s("c"));
    // An unselected package: the selection comes back exactly.
    sel.toggle(&s("d"));
    sel.toggle(&s("d"));
    assert_eq!(sel.ids(), &vec![s("a"), s("b"), s("c")]);
    // A selected package: same packages, it moves to the end.
    sel.toggle(&s("b"));
    sel.toggle(&s("b"));
    assert_eq!(sel.ids(), &vec![s("a"), s("c"), s("b")]);
}

#[test]
fn unselect_removes_only_that_package() {
    let mut sel = Selection::new();
    sel.toggle(&s("a"));
    sel.toggle(&s("b"));
    sel.unselect(&s("a"));
    assert_eq!(sel.ids(), &vec![s("b")]);
    sel.unselect(&s("zzz"));
    assert_eq!(sel.ids(), &vec![s("b")]);
}

#[test]
fn event_kinds() {
    assert_eq!(Event::select_package(s("a")).kind(), EventKind::SelectPackage);
    assert_eq!(Event::unselect_package(s("a")).kind(), EventKind::UnselectPackage);
    assert_eq!(Event::install_completed().kind(), EventKind::InstallCompleted);
    assert_eq!(Event { name: s("resize"), package_id: s("a") }.kind(), EventKind::Unknown);
    assert_eq!(Event::select_package(s("a")).name, "select-package");
    assert_eq!(Event::unselect_package(s("a")).name, "unselect-package");
    assert_eq!(Event::install_completed().name, "install-completed");
    assert_eq!(Event::install_completed().package_id, "");
}

#[test]
fn handle_event_follows_the_main_window() {
    let mut sel = Selection::new();
    let u = sel.handle_event(&Event::select_package(s("a")));
    assert_eq!(u.len(), 1);
    assert_eq!(u[0].package_id, "a");
    assert!(u[0].selected);
    sel.handle_event(&Event::select_package(s("b")));
    let u = sel.handle_event(&Event::select_package(s("a")));
    assert!(!u[0].selected);
    assert_eq!(sel.ids(), &vec![s("b")]);

    sel.handle_event(&Event::select_package(s("c")));
    let u = sel.handle_event(&Event::unselect_package(s("b")));
    assert_eq!(u.len(), 1);
    assert!(!u[0].selected);
    assert_eq!(sel.ids(), &vec![s("c")]);

    let u = sel.handle_event(&Event { name: s("other"), package_id: s("c") });
    assert!(u.is_empty());
    assert_eq!(sel.ids(), &vec![s("c")]);

    sel.handle_event(&Event::select_package(s("d")));
    let u = sel.handle_event(&Event::install_completed());
    assert_eq!(u.len(), 2);
    assert_eq!((u[0].package_id.as_str(), u[0].selected), ("c", false));
    assert_eq!((u[1].package_id.as_str(), u[1].selected), ("d", false));
    assert!(sel.ids().is_empty());
}

#[test]
fn first_window_only_toggles() {
    let mut sel = Selection::new();
    sel.handle_select_event(&Event::select_package(s("a")));
    sel.handle_select_event(&Event::unselect_package(s("a")));
    sel.handle_select_event(&Event::install_completed());
    assert_eq!(sel.ids(), &vec![s("a")]);
    sel.handle_select_event(&Event::select_package(s("a")));
    assert!(sel.ids().is_empty());
}

#[test]
fn cards_showing_a_package() {
    let cards = vec![s("a"), s("b"), s("a"), s("c")];
    assert_eq!(cards_showing(&cards, &s("a")), vec![0, 2]);
    assert_eq!(cards_showing(&cards, &s("c")), vec![3]);
    assert!(cards_showing(&cards, &s("z")).is_empty());
}
