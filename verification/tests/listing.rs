use pcloud_rust::browser::{GuiEvent, GuiState, SortBy, SortOrder};
use pcloud_rust::listing::{arrange, breadcrumbs, presentation_order};
use pcloud_rust::types::FileItem;

fn item(name: &str, isfolder: bool, size: u64, modified: Option<&str>) -> FileItem {
    FileItem { name: name.to_string(), isfolder, size, created: None, modified: modified.map(|m| m.to_string()) }
}

fn copy(i: &FileItem) -> FileItem {
    item(&i.name, i.isfolder, i.size, i.modified.as_deref())
}

/// The browser's listing order, written with the standard sort.
fn reference(items: &[FileItem], filter: &str, by: SortBy, order: SortOrder) -> Vec<String> {
    let filter_lower = filter.to_lowercase();
    let mut shown: Vec<&FileItem> = if filter.is_empty() {
        items.iter().collect()
    } else {
        items.iter().filter(|i| i.name.to_lowercase().contains(&filter_lower)).collect()
    };
    shown.sort_by(|a, b| match (a.isfolder, b.isfolder) {
        (true, false) => std::cmp::Ordering::Less,
        (false, true) => std::cmp::Ordering::Greater,
        _ => {
            let c = match by {
                SortBy::Name => a.name.to_lowercase().cmp(&b.name.to_lowercase()),
                SortBy::Size => a.size.cmp(&b.size),
                SortBy::Date => a.modified.cmp(&b.modified),
            };
            match order {
                SortOrder::Ascending => c,
                SortOrder::Descending => c.reverse(),
            }
        }
    });
    shown.iter().map(|i| i.name.clone()).collect()
}

fn sample() -> Vec<FileItem> {
    vec![
        item("b.txt", false, 10, Some("2024-01-02")),
        item("Archive", true, 0, Some("2023-05-01")),
        item("a.txt", false, 5, None),
        item("code", true, 0, None),
        item("B.TXT", false, 10, Some("2024-01-02")),
        item("Été.doc", false, 7, Some("2022-12-31")),
        item("zeta", false, 0, Some("2024-01-01")),
    ]
}

fn names(v: &[FileItem]) -> Vec<String> {
    v.iter().map(|i| i.name.clone()).collect()
}

#[test]
fn name_order_folders_first() {
    let items = sample();
    assert_eq!(
        names(&arrange(&items, "", SortBy::Name, SortOrder::Ascending)),
        vec!["Archive", "code", "a.txt", "b.txt", "B.TXT", "zeta", "Été.doc"]
    );
    assert_eq!(
        names(&arrange(&items, "", SortBy::Name, SortOrder::Descending)),
        vec!["code", "Archive", "Été.doc", "zeta", "b.txt", "B.TXT", "a.txt"]
    );
}

#[test]
fn size_and_date_orders() {
    let items = sample();
    assert_eq!(
        names(&arrange(&items, "", SortBy::Size, SortOrder::Ascending)),
        vec!["Archive", "code", "zeta", "a.txt", "Été.doc", "b.txt", "B.TXT"]
    );
    assert_eq!(
        names(&arrange(&items, "", SortBy::Date, SortOrder::Ascending)),
        vec!["code", "Archive", "a.txt", "Été.doc", "zeta", "b.txt", "B.TXT"]
    );
}

#[test]
fn search_ignores_case() {
    let items = sample();
    assert_eq!(names(&arrange(&items, "TXT", SortBy::Name, SortOrder::Ascending)), vec!["a.txt", "b.txt", "B.TXT"]);
    assert_eq!(names(&arrange(&items, "été", SortBy::Name, SortOrder::Ascending)), vec!["Été.doc"]);
    assert!(arrange(&items, "nothing", SortBy::Name, SortOrder::Ascending).is_empty());
    assert_eq!(presentation_order(&items, "CODE", SortBy::Size, SortOrder::Descending), vec![3]);
}

#[test]
fn agrees_with_the_standard_sort() {
    let mut x: u64 = 12345;
    let words = ["alpha", "Beta", "beta", "Gamma", "delta", "a", "", "ALPHA", "z", "Zed"];
    for round in 0..200 {
        let mut items = Vec::new();
        for _ in 0..(round % 9) {
            x = x.wrapping_mul(6364136223846793005).wrapping_add(1442695040888963407);
            let w = words[(x >> 33) as usize % words.len()];
            let isfolder = (x >> 20) % 3 == 0;
            let size = (x >> 40) % 4;
            let modified = match (x >> 50) % 3 {
                0 => None,
                1 => Some("2024"),
                _ => Some("2023"),
            };
            items.push(item(w, isfolder, size, modified));
        }
        for filter in ["", "a", "ET", "zz"] {
            for by in [SortBy::Name, SortBy::Size, SortBy::Date] {
                for order in [SortOrder::Ascending, SortOrder::Descending] {
                    let got = names(&arrange(&items, filter, by, order));
                    let listing: Vec<FileItem> = items.iter().map(copy).collect();
                    assert_eq!(got, reference(&listing, filter, by, order));
                }
            }
        }
    }
}

#[test]
fn browser_shows_its_listing() {
    let mut g: GuiState<()> = GuiState::new(2);
    g.update(GuiEvent::ListResult(Ok(sample())));
    g.update(GuiEvent::SortByChanged(SortBy::Size));
    g.update(GuiEvent::SearchFilterChanged("t".to_string()));
    assert_eq!(names(&g.visible_items()), vec!["zeta", "a.txt", "Été.doc", "b.txt", "B.TXT"]);
}

fn crumbs(path: &str) -> Vec<(String, String)> {
    breadcrumbs(path)
}

fn pairs(v: &[(&str, &str)]) -> Vec<(String, String)> {
    v.iter().map(|(a, b)| (a.to_string(), b.to_string())).collect()
}

#[test]
fn breadcrumb_trail() {
    assert!(crumbs("/").is_empty());
    assert!(crumbs("").is_empty());
    assert_eq!(crumbs("/a/b"), pairs(&[("a", "/a"), ("b", "/a/b")]));
    assert_eq!(crumbs("/Photos//2024/"), pairs(&[("Photos", "/Photos"), ("2024", "/Photos/2024")]));
    assert_eq!(crumbs("docs"), pairs(&[("docs", "/docs")]));
}
