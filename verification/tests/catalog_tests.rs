use devwizard::card::{button_look, fallback_icon_name, icon_choice, Card, IconChoice};
use devwizard::catalog::{packages_to_install, section_of, sections, SECTION_COUNT};
use devwizard::package_info::{PackageGroup, PackageInfo};

fn pkg(id: &str, group: PackageGroup) -> PackageInfo {
    PackageInfo {
        id: id.to_string(),
        name: id.to_uppercase(),
        description: String::new(),
        url: String::new(),
        icon: None,
        group,
        install_steps: vec![],
    }
}

#[test]
fn sections_follow_the_groups() {
    assert_eq!(section_of(&PackageGroup::CodeEditor), 0);
    assert_eq!(section_of(&PackageGroup::ProgrammingLanguage), 1);
    assert_eq!(section_of(&PackageGroup::Framework), 2);
    assert_eq!(section_of(&PackageGroup::Tooling), 3);
    assert_eq!(section_of(&PackageGroup::AIAgent), 4);
    assert_eq!(section_of(&PackageGroup::Browser), 5);
    assert_eq!(section_of(&PackageGroup::Other), 6);
}

#[test]
fn every_package_goes_to_its_section_in_order() {
    let ps = vec![
        pkg("firefox", PackageGroup::Browser),
        pkg("rust", PackageGroup::ProgrammingLanguage),
        pkg("chromium", PackageGroup::Browser),
        pkg("misc", PackageGroup::Other),
        pkg("go", PackageGroup::ProgrammingLanguage),
    ];
    let s = sections(&ps);
    assert_eq!(s.len(), SECTION_COUNT);
    assert_eq!(s, vec![vec![], vec![1, 4], vec![], vec![], vec![], vec![0, 2], vec![3]]);
}

#[test]
fn install_list_follows_the_catalogue() {
    let ps = vec![pkg("a", PackageGroup::Other), pkg("b", PackageGroup::Other), pkg("c", PackageGroup::Other)];
    assert_eq!(packages_to_install(&ps, &vec!["c".to_string(), "a".to_string()]), Some(vec![0, 2]));
    assert_eq!(packages_to_install(&ps, &vec![]), None);
    assert_eq!(packages_to_install(&ps, &vec!["zzz".to_string()]), None);
}

#[test]
fn card_clicks_toggle_the_button() {
    let (mut card, _) = Card::new(&pkg("rust", PackageGroup::ProgrammingLanguage));
    assert!(!card.is_added);
    let click = card.on_add_btn_clicked(&"rust".to_string());
    assert!(card.is_added);
    assert_eq!(click.look.label, "Unselect");
    assert!(!click.look.suggested);
    assert_eq!(click.event.name, "select-package");
    assert_eq!(click.event.package_id, "rust");
    let click = card.on_add_btn_clicked(&"rust".to_string());
    assert!(!card.is_added);
    assert_eq!(click.look.label, "Add");
    assert!(click.look.suggested);
    let look = card.set_selected(true);
    assert!(card.is_added);
    assert_eq!(look.label, "Unselect");
    assert_eq!(button_look(false).label, "Add");
}

#[test]
fn card_icons() {
    match icon_choice(&Some("https://example.org/icon.png".to_string())) {
        IconChoice::Download(u) => assert_eq!(u, "https://example.org/icon.png"),
        other => panic!("unexpected {:?}", other),
    }
    match icon_choice(&None) {
        IconChoice::Named(n) => assert_eq!(n, "application-x-executable-symbolic"),
        other => panic!("unexpected {:?}", other),
    }
    assert_eq!(fallback_icon_name(), "application-x-executable-symbolic");
}

#[test]
fn showing_a_package_resets_the_card() {
    let (mut card, first) = Card::new(&pkg("rust", PackageGroup::ProgrammingLanguage));
    assert_eq!(first.title, "RUST");
    assert!(matches!(first.icon, IconChoice::Named(ref n) if n == "application-x-executable-symbolic"));
    card.set_selected(true);
    let mut p = pkg("firefox", PackageGroup::Browser);
    p.description = "Web browser".to_string();
    p.icon = Some("https://example.org/firefox.png".to_string());
    let view = card.show(&p);
    assert!(!card.is_added);
    assert_eq!(view.title, "FIREFOX");
    assert_eq!(view.description, "Web browser");
    assert!(matches!(view.icon, IconChoice::Download(u) if u == "https://example.org/firefox.png"));
}
