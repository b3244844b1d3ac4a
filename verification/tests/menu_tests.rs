use tunnlto::menu::{MenuNode, MenuRegistry};

fn node_desc(node: &MenuNode) -> String {
    match node {
        MenuNode::Item { id, label } => format!("item:{id}={label}"),
        MenuNode::Submenu { title, items } => {
            let mut s = format!("submenu:{title}[");
            for leaf in items {
                s.push_str(&format!("{}={};", leaf.id, leaf.label));
            }
            s.push(']');
            s
        }
        MenuNode::Separator => String::from("separator"),
    }
}

fn tree_desc(nodes: &[MenuNode]) -> Vec<String> {
    nodes.iter().map(node_desc).collect()
}

#[test]
fn empty_registry_renders_reserved_items_only() {
    let registry = MenuRegistry::new();
    let tree = registry.rebuild();
    assert_eq!(
        tree_desc(&tree),
        vec!["item:minimize=Minimize to Tray", "item:exit=Exit"],
        "no separator and nothing else without entries"
    );
}

#[test]
fn plain_items_render_in_id_order_with_separator() {
    let mut registry = MenuRegistry::new();
    registry.upsert_item("settings", "Settings");
    registry.upsert_item("about", "About");
    let tree = registry.rebuild();
    assert_eq!(
        tree_desc(&tree),
        vec![
            "item:about=About",
            "item:settings=Settings",
            "separator",
            "item:minimize=Minimize to Tray",
            "item:exit=Exit",
        ]
    );
}

#[test]
fn connect_members_render_in_one_submenu_first() {
    let mut registry = MenuRegistry::new();
    registry.upsert_item("disconnect", "Disconnect");
    registry.upsert_submenu_item("connect", "t2", "Office");
    registry.upsert_submenu_item("connect", "t1", "Home");
    let tree = registry.rebuild();
    assert_eq!(
        tree_desc(&tree),
        vec![
            "submenu:Connect[t1=Home;t2=Office;]",
            "item:disconnect=Disconnect",
            "separator",
            "item:minimize=Minimize to Tray",
            "item:exit=Exit",
        ]
    );
}

#[test]
fn rebuild_depends_on_contents_not_on_mutation_order() {
    let mut first = MenuRegistry::new();
    first.upsert_item("b", "Bravo");
    first.upsert_submenu_item("connect", "a", "Alfa");
    first.upsert_item("c", "Charlie");
    first.remove_item("c");

    let mut second = MenuRegistry::new();
    second.upsert_submenu_item("connect", "a", "Alfa");
    second.upsert_item("b", "Wrong label");
    second.upsert_item("b", "Bravo");

    assert_eq!(tree_desc(&first.rebuild()), tree_desc(&second.rebuild()));
}

#[test]
fn upsert_is_idempotent_and_updates_labels() {
    let mut registry = MenuRegistry::new();
    registry.upsert_item("x", "Old");
    registry.upsert_item("x", "New");
    registry.upsert_item("x", "New");
    let tree = registry.rebuild();
    assert_eq!(
        tree_desc(&tree),
        vec!["item:x=New", "separator", "item:minimize=Minimize to Tray", "item:exit=Exit"]
    );
}

#[test]
fn remove_item_removes_and_unknown_id_is_a_noop() {
    let mut registry = MenuRegistry::new();
    registry.upsert_item("x", "X");
    registry.remove_item("missing");
    registry.remove_item("x");
    let tree = registry.rebuild();
    assert_eq!(tree_desc(&tree), vec!["item:minimize=Minimize to Tray", "item:exit=Exit"]);
}

#[test]
fn remove_submenu_item_spares_plain_items() {
    let mut registry = MenuRegistry::new();
    registry.upsert_item("plain", "Plain");
    registry.upsert_submenu_item("connect", "t1", "Home");
    registry.remove_submenu_item("connect", "plain");
    registry.remove_submenu_item("connect", "t1");
    let tree = registry.rebuild();
    assert_eq!(
        tree_desc(&tree),
        vec!["item:plain=Plain", "separator", "item:minimize=Minimize to Tray", "item:exit=Exit"]
    );
}

#[test]
fn reserved_ids_cannot_be_changed_or_removed() {
    let mut registry = MenuRegistry::new();
    registry.upsert_item("minimize", "Hijacked");
    registry.upsert_submenu_item("connect", "exit", "Hijacked");
    registry.remove_item("minimize");
    registry.remove_item("exit");
    let tree = registry.rebuild();
    assert_eq!(tree_desc(&tree), vec!["item:minimize=Minimize to Tray", "item:exit=Exit"]);
}

#[test]
fn reserved_items_are_always_last() {
    let mut registry = MenuRegistry::new();
    registry.upsert_item("zzz", "Late alphabet");
    registry.upsert_submenu_item("connect", "t1", "Home");
    let tree = registry.rebuild();
    let n = tree.len();
    assert_eq!(node_desc(&tree[n - 2]), "item:minimize=Minimize to Tray");
    assert_eq!(node_desc(&tree[n - 1]), "item:exit=Exit");
}
