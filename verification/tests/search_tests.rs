use devwizard::package_info::{PackageGroup, PackageInfo};
use devwizard::search::{search_packages, search_page, summary_line, SearchHit, SearchPage};

fn pkg(id: &str, name: &str, description: &str, group: PackageGroup) -> PackageInfo {
    PackageInfo {
        id: id.to_string(),
        name: name.to_string(),
        description: description.to_string(),
        url: String::new(),
        icon: None,
        group,
        install_steps: vec![],
    }
}

fn catalogue() -> Vec<PackageInfo> {
    vec![
        pkg("org.mozilla.firefox", "Firefox", "Fast and private web browser", PackageGroup::Browser),
        pkg("com.visualstudio.code", "Visual Studio Code", "Code editor from Microsoft", PackageGroup::CodeEditor),
        pkg("rust", "Rust", "Systems programming language", PackageGroup::ProgrammingLanguage),
        pkg("code-oss", "Code - OSS", "Open source build of the editor", PackageGroup::CodeEditor),
        pkg("chromium", "Chromium", "Open source web browser", PackageGroup::Browser),
    ]
}

fn hit(score: u8, index: usize) -> SearchHit {
    SearchHit { score, index }
}

#[test]
fn exact_name_scores_best() {
    assert_eq!(search_packages(&catalogue(), "firefox"), vec![hit(0, 0)]);
    assert_eq!(search_packages(&catalogue(), "rust"), vec![hit(0, 2)]);
}

#[test]
fn search_ignores_case() {
    assert_eq!(search_packages(&catalogue(), "FIRE"), vec![hit(1, 0)]);
    assert_eq!(search_packages(&catalogue(), "Chromium"), vec![hit(0, 4)]);
}

#[test]
fn results_are_ordered_by_score_then_name() {
    // "code": Code - OSS starts with it (1), Visual Studio Code contains it (2).
    assert_eq!(search_packages(&catalogue(), "code"), vec![hit(1, 3), hit(2, 1)]);
    // "web browser": both browsers match by description only, ordered by name.
    assert_eq!(search_packages(&catalogue(), "web browser"), vec![hit(3, 4), hit(3, 0)]);
}

#[test]
fn every_word_must_match() {
    assert_eq!(search_packages(&catalogue(), "open browser"), vec![hit(3, 4)]);
    assert_eq!(search_packages(&catalogue(), "open editor"), vec![hit(3, 3)]);
    assert_eq!(search_packages(&catalogue(), "browser editor"), Vec::<SearchHit>::new());
}

#[test]
fn equal_names_keep_catalogue_order() {
    let ps = vec![
        pkg("b", "Same", "x", PackageGroup::Other),
        pkg("a", "same", "x", PackageGroup::Other),
        pkg("c", "Same", "x", PackageGroup::Other),
    ];
    assert_eq!(search_packages(&ps, "x"), vec![hit(3, 0), hit(3, 1), hit(3, 2)]);
    assert_eq!(search_packages(&ps, "sa"), vec![hit(1, 0), hit(1, 1), hit(1, 2)]);
}

#[test]
fn summary_lines() {
    assert_eq!(summary_line(1), "1 package found");
    assert_eq!(summary_line(2), "2 packages found");
    assert_eq!(summary_line(12), "12 packages found");
}

#[test]
fn blank_query_shows_the_categories() {
    assert!(matches!(search_page(&catalogue(), "", &vec![]), SearchPage::Categories));
    assert!(matches!(search_page(&catalogue(), "  \t ", &vec![]), SearchPage::Categories));
}

#[test]
fn no_match_shows_the_empty_page() {
    match search_page(&catalogue(), "  zzz  ", &vec![]) {
        SearchPage::NoResults { title } => assert_eq!(title, "No packages found for \"zzz\""),
        other => panic!("unexpected page {:?}", other),
    }
}

#[test]
fn results_page_marks_selected_packages() {
    let selected = vec!["chromium".to_string()];
    match search_page(&catalogue(), " Browser ", &selected) {
        SearchPage::Results { summary, hits, selected } => {
            assert_eq!(summary, "2 packages found");
            assert_eq!(hits, vec![hit(3, 4), hit(3, 0)]);
            assert_eq!(selected, vec![true, false]);
        },
        other => panic!("unexpected page {:?}", other),
    }
    match search_page(&catalogue(), "rust", &selected) {
        SearchPage::Results { summary, hits, selected } => {
            assert_eq!(summary, "1 package found");
            assert_eq!(hits, vec![hit(0, 2)]);
            assert_eq!(selected, vec![false]);
        },
        other => panic!("unexpected page {:?}", other),
    }
}
