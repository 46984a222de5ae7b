use acl_engine::migrate::{command, AddPluginOptions};

#[test]
fn migration_plans_one_add_per_plugin() {
    let plugins = vec!["dialog".to_string(), "fs".to_string()];
    let plans = command(&plugins);
    assert_eq!(
        plans,
        vec![
            AddPluginOptions {
                plugin: "dialog".to_string(),
                branch: None,
                tag: None,
                rev: None,
            },
            AddPluginOptions { plugin: "fs".to_string(), branch: None, tag: None, rev: None },
        ]
    );
}

#[test]
fn migration_with_no_plugins_plans_nothing() {
    let plans = command(&vec![]);
    assert!(plans.is_empty());
}
