use usestakly::repo_categories::{category_rules, classify_repo_categories, CategoryHits};

fn classify(owner: &str, name: &str, description: &str, topics: &[&str]) -> Vec<CategoryHits> {
    let topics: Vec<String> = topics.iter().map(|topic| topic.to_string()).collect();
    classify_repo_categories(owner, name, Some(description), Some("TypeScript"), &topics)
}

fn categories(owner: &str, name: &str, description: &str, topics: &[&str]) -> Vec<String> {
    classify(owner, name, description, topics)
        .into_iter()
        .map(|category| category.category)
        .collect()
}

#[test]
fn classifies_ui_kits_from_names_and_topics() {
    let found = categories(
        "shadcn-ui",
        "ui",
        "Beautifully designed components",
        &["components", "react", "tailwind"],
    );

    assert!(found.contains(&"ui-kit".to_string()));
}

#[test]
fn classifies_orm_repos() {
    let found = categories(
        "prisma",
        "prisma",
        "Next-generation ORM for databases",
        &["orm", "database", "postgresql"],
    );

    assert!(found.contains(&"orm".to_string()));
}

#[test]
fn classifies_auth_repos() {
    let found = categories(
        "nextauthjs",
        "next-auth",
        "Authentication for Next.js",
        &["oauth", "session", "security"],
    );

    assert!(found.contains(&"auth".to_string()));
}

#[test]
fn classifies_data_grid_repos() {
    let found = categories(
        "TanStack",
        "table",
        "Headless UI for building datatables and grids",
        &["table", "datatable", "react"],
    );

    assert!(found.contains(&"data-grid".to_string()));
}

#[test]
fn leaves_unclear_repos_uncategorized() {
    let found = classify("example", "misc", "Small helper", &["utility"]);

    assert!(found.is_empty());
}

#[test]
fn avoids_substring_false_positives() {
    let found = categories(
        "fastapi",
        "fastapi",
        "FastAPI framework with json schema and swagger-ui",
        &["framework", "json-schema", "swagger-ui"],
    );

    assert!(!found.contains(&"orm".to_string()));
    assert!(!found.contains(&"ui-kit".to_string()));
}

#[test]
fn category_hits_list_terms_by_strength() {
    let found = classify(
        "prisma",
        "prisma",
        "Next-generation ORM for databases",
        &["orm", "database", "postgresql"],
    );
    let orm = found.iter().find(|c| c.category == "orm").unwrap();
    assert_eq!(orm.hits.strong, vec!["orm".to_string(), "prisma".to_string()]);
    assert_eq!(orm.hits.medium, vec!["database".to_string(), "postgresql".to_string()]);
    assert!(orm.hits.weak.is_empty());
}

#[test]
fn category_table_lists_eight_categories_in_order() {
    let names: Vec<&str> = category_rules().iter().map(|rule| rule.category).collect();
    assert_eq!(
        names,
        vec!["ui-kit", "orm", "auth", "data-grid", "video-tool", "testing", "http-client", "validation"]
    );
}

#[test]
fn ui_kit_needs_a_strong_term() {
    let found = categories("acme", "widgets", "react tailwind css frontend", &[]);
    assert!(!found.contains(&"ui-kit".to_string()));
}
