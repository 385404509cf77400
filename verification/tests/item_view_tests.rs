use krun::config::{Category, Config, LaunchItem};
use krun::item_view::Scope;
use krun::search::ItemRef;

fn config_with(counts: &[usize]) -> Config {
    let categories = counts
        .iter()
        .enumerate()
        .map(|(index, count)| {
            let mut category = Category::new(&format!("category-{index}"), &format!("分类{index}"));
            category.items = (0..*count)
                .map(|item| LaunchItem {
                    name: format!("项目{item}"),
                    ..LaunchItem::default()
                })
                .collect();
            category
        })
        .collect::<Vec<_>>();
    let active_category = categories
        .first()
        .map(|first| first.id.clone())
        .unwrap_or_else(|| Config::default().active_category);
    Config {
        categories,
        active_category,
        ..Config::default()
    }
}

#[test]
fn category_scope_indexes_matched_only_category() {
    let config = config_with(&[180, 40, 300]);
    let scope = Scope::new(&config, false, "", &[]);
    assert_eq!(scope.len(&config), 180);
    assert_eq!(scope.get(&config, 179), Some(ItemRef { category: 0, item: 179 }));
    assert_eq!(scope.get(&config, 180), None);

    let mut page = Vec::new();
    scope.write_page(&config, 176, 100, &mut page);
    assert_eq!(page.len(), 4);
    assert_eq!(page[0], ItemRef { category: 0, item: 176 });
}

#[test]
fn empty_search_lists_every_item_across_categories() {
    let config = config_with(&[3, 2, 4]);
    let scope = Scope::new(&config, true, "   ", &[]);
    assert_eq!(scope.len(&config), 9);
    assert_eq!(scope.get(&config, 3), Some(ItemRef { category: 1, item: 0 }));
    assert_eq!(scope.get(&config, 8), Some(ItemRef { category: 2, item: 3 }));
    assert_eq!(scope.get(&config, 9), None);
}

#[test]
fn empty_search_page_can_span_categories_with_large_offset() {
    let config = config_with(&[1000, 5, 2000]);
    let scope = Scope::new(&config, true, "", &[]);
    let mut page = Vec::new();
    scope.write_page(&config, 1000, 20, &mut page);
    assert_eq!(page.len(), 20);
    assert_eq!(page[0], ItemRef { category: 1, item: 0 });
    assert_eq!(page[4], ItemRef { category: 1, item: 4 });
    assert_eq!(page[5], ItemRef { category: 2, item: 0 });
    assert_eq!(page[19], ItemRef { category: 2, item: 14 });

    // A page starting past the end yields nothing instead of panicking.
    scope.write_page(&config, 10_000, 24, &mut page);
    assert!(page.is_empty());
}

#[test]
fn matches_scope_is_a_borrowed_window_over_results() {
    let config = config_with(&[10]);
    let results: Vec<ItemRef> = (0..40).map(|item| ItemRef { category: 0, item: item % 10 }).collect();
    let scope = Scope::new(&config, true, "a", &results);
    assert_eq!(scope.len(&config), 40);
    assert_eq!(scope.get(&config, 7), Some(results[7]));

    let mut page = Vec::new();
    scope.write_page(&config, 36, 24, &mut page);
    assert_eq!(page.len(), 4);
    assert_eq!(page[0], results[36]);
}

#[test]
fn missing_category_is_treated_as_empty() {
    let config = config_with(&[]);
    let scope = Scope::Category(3);
    assert_eq!(scope.len(&config), 0);
    assert_eq!(scope.get(&config, 0), None);
    let mut page = vec![ItemRef { category: 0, item: 0 }];
    scope.write_page(&config, 0, 10, &mut page);
    assert!(page.is_empty());
}

#[test]
fn lazy_lookup_stays_correct_on_large_categories() {
    let config = config_with(&[50_000, 7]);
    let scope = Scope::new(&config, false, "", &[]);
    assert_eq!(scope.len(&config), 50_000);
    assert_eq!(scope.get(&config, 49_999), Some(ItemRef { category: 0, item: 49_999 }));

    // A page near the end resolves only the requested window.
    let mut page = Vec::new();
    scope.write_page(&config, 49_996, 24, &mut page);
    assert_eq!(page.len(), 4);
    assert_eq!(page[3], ItemRef { category: 0, item: 49_999 });
}

/// Counting and indexing answer from the category sizes alone.
#[test]
fn count_and_index_lookups_allocate_nothing() {
    let small = config_with(&[4]);
    let large = config_with(&[50_000]);
    let scope = Scope::Category(0);
    assert_eq!(scope.len(&small), 4);
    assert_eq!(scope.get(&small, 3), Some(ItemRef { category: 0, item: 3 }));
    assert_eq!(scope.len(&large), 50_000);
    assert_eq!(scope.get(&large, 49_999), Some(ItemRef { category: 0, item: 49_999 }));
}

#[test]
fn page_entries_match_single_lookups() {
    let config = config_with(&[7, 0, 5]);
    let scope = Scope::All;
    let mut page = Vec::new();
    scope.write_page(&config, 3, 6, &mut page);
    for (k, reference) in page.iter().enumerate() {
        assert_eq!(Some(*reference), scope.get(&config, 3 + k));
    }
    assert_eq!(page.len(), 6);
}

#[test]
fn item_count_of_missing_category_is_zero() {
    let config = config_with(&[2]);
    assert_eq!(krun::item_view::item_count(&config, 0), 2);
    assert_eq!(krun::item_view::item_count(&config, 4), 0);
}
