use krun::config::{apply_category_deletion, Category, Config, LaunchItem, WindowConfig};

#[test]
fn defaults_use_one_centered_category() {
    let config = Config::default();
    assert_eq!(config.categories.len(), 1);
    assert_eq!(config.categories[0].name, "常用");
    assert!(config.window.centered);
    assert!(!config.window.movable);
    assert!(config.double_click_launch);
}

#[test]
fn centered_always_disables_moving() {
    let mut window = WindowConfig {
        centered: true,
        movable: true,
        ..WindowConfig::default()
    };
    window.normalize();
    assert!(!window.movable);
}

#[test]
fn category_ids_are_unique() {
    let config = Config::default();
    let first = config.unique_category_id("测试");
    let mut with_first = config;
    with_first.categories.push(Category::new(&first, "测试"));
    assert_ne!(first, with_first.unique_category_id("测试"));
}

#[test]
fn deleting_categories_moves_items_to_expected_neighbor() {
    let item = |name: &str| LaunchItem {
        id: name.into(),
        name: name.into(),
        path: format!("C:\\{name}.exe"),
        ..LaunchItem::default()
    };
    let mut first = Category::new("first", "第一");
    first.items.push(item("a"));
    let mut middle = Category::new("middle", "第二");
    middle.items.extend([item("b"), item("c")]);
    let mut last = Category::new("last", "第三");
    last.items.push(item("d"));
    let mut config = Config {
        categories: vec![first, middle, last],
        active_category: "middle".into(),
        ..Config::default()
    };

    assert_eq!(apply_category_deletion(&mut config, 1), Some(0));
    assert_eq!(
        config.categories[0]
            .items
            .iter()
            .map(|item| item.name.as_str())
            .collect::<Vec<_>>(),
        vec!["a", "b", "c"]
    );
    assert_eq!(config.active_category, "first");

    assert_eq!(apply_category_deletion(&mut config, 0), Some(0));
    assert_eq!(
        config.categories[0]
            .items
            .iter()
            .map(|item| item.name.as_str())
            .collect::<Vec<_>>(),
        vec!["d", "a", "b", "c"]
    );
    assert_eq!(apply_category_deletion(&mut config, 0), None);
}

#[test]
fn custom_icon_source_falls_back_to_target() {
    let mut item = LaunchItem {
        path: "C:\\App.exe".into(),
        ..LaunchItem::default()
    };
    assert_eq!(item.icon_source(), item.path);
    item.icon_path = "C:\\App.ico".into();
    assert_eq!(item.icon_source(), item.icon_path);
    item.icon_path.clear();
    assert_eq!(item.icon_source(), item.path);
}

#[test]
fn normalizing_twice_changes_nothing_more() {
    let mut config = Config {
        categories: Vec::new(),
        active_category: "missing".into(),
        ..Config::default()
    };
    config.window.width = 5000;
    config.window.height = 10;
    config.normalize();
    let once = config.clone();
    config.normalize();
    assert_eq!(config, once);
    assert_eq!(once.window.width, 1600);
    assert_eq!(once.window.height, 400);
    assert_eq!(once.categories.len(), 1);
    assert_eq!(once.active_category, once.categories[0].id);
}

#[test]
fn normalize_keeps_a_known_active_category() {
    let mut config = Config::default();
    config.categories.push(Category::new("tools", "工具"));
    config.active_category = "tools".into();
    config.normalize();
    assert_eq!(config.active_category, "tools");
    assert_eq!(config.version, 3);
}

#[test]
fn deleting_keeps_every_item() {
    let mut config = Config::default();
    config.categories.push(Category::new("tools", "工具"));
    config.categories[0].items.push(LaunchItem { name: "a".into(), ..LaunchItem::default() });
    config.categories[1].items.push(LaunchItem { name: "b".into(), ..LaunchItem::default() });
    config.categories[1].items.push(LaunchItem { name: "c".into(), ..LaunchItem::default() });
    assert_eq!(apply_category_deletion(&mut config, 1), Some(0));
    assert_eq!(config.categories.len(), 1);
    assert_eq!(config.categories[0].items.len(), 3);
}

#[test]
fn deleting_out_of_range_is_refused() {
    let mut config = Config::default();
    config.categories.push(Category::new("tools", "工具"));
    let before = config.clone();
    assert_eq!(apply_category_deletion(&mut config, 5), None);
    assert_eq!(config, before);
}

#[test]
fn category_ids_are_hash_derived_hex() {
    let config = Config::default();
    let id = config.unique_category_id("工具");
    assert!(id.starts_with("category-"));
    assert_eq!(id.len(), "category-".len() + 16);
    assert!(id["category-".len()..].chars().all(|c| c.is_ascii_hexdigit()));
    assert_eq!(id, config.unique_category_id("工具"));
}

#[test]
fn category_names_follow_categories() {
    let mut config = Config::default();
    config.categories.push(Category::new("tools", "工具"));
    assert_eq!(krun::config::category_names(&config), vec!["常用".to_string(), "工具".to_string()]);
}

#[test]
fn normalizing_repairs_sizes_categories_and_active_id() {
    let mut config = Config::default();
    config.categories.clear();
    config.active_category = "missing".to_string();
    config.window.width = 5000;
    config.window.height = 10;
    config.window.centered = true;
    config.window.movable = true;
    config.version = 1;
    config.normalize();
    assert_eq!(config.version, 3);
    assert_eq!(config.window.width, 1600);
    assert_eq!(config.window.height, 400);
    assert!(!config.window.movable);
    assert_eq!(config.categories.len(), 1);
    assert_eq!(config.categories[0].id, "frequent");
    assert_eq!(config.categories[0].name, "常用");
    assert_eq!(config.active_category, "frequent");
}
