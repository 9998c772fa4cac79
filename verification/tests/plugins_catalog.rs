use claude_view_server::plugins::{
    apply_filters, parse_plugin_id, strip_ansi, validate_marketplace_source,
    validate_plugin_name, AvailablePlugin, PluginInfo, PluginItem, PluginsQuery,
};

#[test]
fn plugins_test_parse_plugin_id() {
    // Normal case: name@marketplace
    let (name, marketplace) = parse_plugin_id("superpowers@superpowers-marketplace");
    assert_eq!(name, "superpowers");
    assert_eq!(marketplace, "superpowers-marketplace");

    // No @ sign — full string is name, empty marketplace
    let (name, marketplace) = parse_plugin_id("standalone");
    assert_eq!(name, "standalone");
    assert_eq!(marketplace, "");

    // Multiple @ signs — split on LAST one
    let (name, marketplace) = parse_plugin_id("user@domain@registry");
    assert_eq!(name, "user@domain");
    assert_eq!(marketplace, "registry");

    // Empty string
    let (name, marketplace) = parse_plugin_id("");
    assert_eq!(name, "");
    assert_eq!(marketplace, "");
}

#[test]
fn plugins_test_apply_filters_search() {
    let mut installed = vec![
        PluginInfo {
            id: "superpowers@marketplace".to_string(),
            name: "superpowers".to_string(),
            marketplace: "marketplace".to_string(),
            scope: "user".to_string(),
            version: Some("1.0.0".to_string()),
            git_sha: None,
            enabled: true,
            installed_at: "2026-01-01T00:00:00Z".to_string(),
            last_updated: None,
            project_path: None,
            items: vec![PluginItem {
                id: "superpowers:brainstorming".to_string(),
                name: "brainstorming".to_string(),
                kind: "skill".to_string(),
                description: "Explore ideas".to_string(),
                content: String::new(),
                invocation_count: 5,
                last_used_at: Some(1000),
            }],
            skill_count: 1,
            command_count: 0,
            agent_count: 0,
            mcp_count: 0,
            total_invocations: 5,
            session_count: 3,
            last_used_at: Some(1000),
            duplicate_marketplaces: vec![],
            updatable: false,
            errors: vec![],
            source_exists: true,
            description: None,
            install_count: None,
        },
        PluginInfo {
            id: "hookify@marketplace".to_string(),
            name: "hookify".to_string(),
            marketplace: "marketplace".to_string(),
            scope: "project".to_string(),
            version: Some("2.0.0".to_string()),
            git_sha: None,
            enabled: true,
            installed_at: "2026-02-01T00:00:00Z".to_string(),
            last_updated: None,
            project_path: None,
            items: vec![PluginItem {
                id: "hookify:format".to_string(),
                name: "format".to_string(),
                kind: "command".to_string(),
                description: "Format code".to_string(),
                content: String::new(),
                invocation_count: 0,
                last_used_at: None,
            }],
            skill_count: 0,
            command_count: 1,
            agent_count: 0,
            mcp_count: 0,
            total_invocations: 0,
            session_count: 0,
            last_used_at: None,
            duplicate_marketplaces: vec![],
            updatable: false,
            errors: vec![],
            source_exists: true,
            description: None,
            install_count: None,
        },
    ];

    let mut available = vec![AvailablePlugin {
        plugin_id: "other-plugin".to_string(),
        name: "other-plugin".to_string(),
        description: "Does other things".to_string(),
        marketplace_name: "marketplace".to_string(),
        version: Some("1.0.0".to_string()),
        install_count: None,
        already_installed: false,
    }];

    // Search for "super" — should match superpowers, not hookify
    let query = PluginsQuery {
        search: Some("super".to_string()),
        ..Default::default()
    };
    apply_filters(&query, &mut installed, &mut available);

    assert_eq!(installed.len(), 1);
    assert_eq!(installed[0].name, "superpowers");

    // Available should also be filtered — "other-plugin" doesn't match "super"
    assert_eq!(available.len(), 0);
}

#[test]
fn plugins_test_apply_filters_scope() {
    let mut installed = vec![
        PluginInfo {
            id: "a@m".to_string(),
            name: "a".to_string(),
            marketplace: "m".to_string(),
            scope: "user".to_string(),
            version: Some("1.0.0".to_string()),
            git_sha: None,
            enabled: true,
            installed_at: "2026-01-01T00:00:00Z".to_string(),
            last_updated: None,
            project_path: None,
            items: vec![],
            skill_count: 0,
            command_count: 0,
            agent_count: 0,
            mcp_count: 0,
            total_invocations: 0,
            session_count: 0,
            last_used_at: None,
            duplicate_marketplaces: vec![],
            updatable: false,
            errors: vec![],
            source_exists: true,
            description: None,
            install_count: None,
        },
        PluginInfo {
            id: "b@m".to_string(),
            name: "b".to_string(),
            marketplace: "m".to_string(),
            scope: "project".to_string(),
            version: Some("1.0.0".to_string()),
            git_sha: None,
            enabled: true,
            installed_at: "2026-01-01T00:00:00Z".to_string(),
            last_updated: None,
            project_path: None,
            items: vec![],
            skill_count: 0,
            command_count: 0,
            agent_count: 0,
            mcp_count: 0,
            total_invocations: 0,
            session_count: 0,
            last_used_at: None,
            duplicate_marketplaces: vec![],
            updatable: false,
            errors: vec![],
            source_exists: true,
            description: None,
            install_count: None,
        },
    ];

    let mut available = vec![AvailablePlugin {
        plugin_id: "c".to_string(),
        name: "c".to_string(),
        description: "Available".to_string(),
        marketplace_name: "m".to_string(),
        version: Some("1.0.0".to_string()),
        install_count: None,
        already_installed: false,
    }];

    // Filter by scope "user" — should keep only user-scoped installed, clear available
    let query = PluginsQuery {
        scope: Some("user".to_string()),
        ..Default::default()
    };
    apply_filters(&query, &mut installed, &mut available);

    assert_eq!(installed.len(), 1);
    assert_eq!(installed[0].name, "a");
    assert_eq!(available.len(), 0);
}

#[test]
fn plugins_test_apply_filters_sort_by_install_count() {
    let mut installed = vec![
        PluginInfo {
            id: "low@m".to_string(),
            name: "low-usage".to_string(),
            marketplace: "m".to_string(),
            scope: "user".to_string(),
            version: Some("1.0.0".to_string()),
            git_sha: None,
            enabled: true,
            installed_at: "2026-01-01T00:00:00Z".to_string(),
            last_updated: None,
            project_path: None,
            items: vec![],
            skill_count: 0,
            command_count: 0,
            agent_count: 0,
            mcp_count: 0,
            total_invocations: 2,
            session_count: 1,
            last_used_at: None,
            duplicate_marketplaces: vec![],
            updatable: false,
            errors: vec![],
            source_exists: true,
            description: None,
            install_count: Some(50),
        },
        PluginInfo {
            id: "high@m".to_string(),
            name: "high-installs".to_string(),
            marketplace: "m".to_string(),
            scope: "user".to_string(),
            version: Some("1.0.0".to_string()),
            git_sha: None,
            enabled: true,
            installed_at: "2026-01-01T00:00:00Z".to_string(),
            last_updated: None,
            project_path: None,
            items: vec![],
            skill_count: 0,
            command_count: 0,
            agent_count: 0,
            mcp_count: 0,
            total_invocations: 100,
            session_count: 50,
            last_used_at: None,
            duplicate_marketplaces: vec![],
            updatable: false,
            errors: vec![],
            source_exists: true,
            description: None,
            install_count: Some(5000),
        },
    ];

    let mut available = vec![];

    apply_filters(&PluginsQuery::default(), &mut installed, &mut available);

    // Higher install_count comes first
    assert_eq!(installed[0].name, "high-installs");
    assert_eq!(installed[1].name, "low-usage");
}

#[test]
fn plugins_test_validate_plugin_name() {
    // Valid names
    assert!(validate_plugin_name("superpowers").is_ok());
    assert!(validate_plugin_name("my-plugin").is_ok());
    assert!(validate_plugin_name("my_plugin.v2").is_ok());
    assert!(validate_plugin_name("plugin@marketplace").is_ok());

    // Invalid names — CLI flag injection attempts
    assert!(validate_plugin_name("--force").is_err());
    assert!(validate_plugin_name("-rf").is_err());
    assert!(validate_plugin_name("foo;rm -rf /").is_err());
    assert!(validate_plugin_name("").is_err());
    assert!(validate_plugin_name(&"a".repeat(129)).is_err());
}

#[test]
fn plugins_test_validate_marketplace_source() {
    // Valid sources
    assert_eq!(
        validate_marketplace_source("owner/repo").unwrap(),
        "owner/repo"
    );
    assert_eq!(
        validate_marketplace_source("https://github.com/owner/repo").unwrap(),
        "owner/repo"
    );
    assert_eq!(
        validate_marketplace_source("https://github.com/owner/repo.git").unwrap(),
        "owner/repo"
    );
    assert_eq!(
        validate_marketplace_source("https://github.com/owner/repo/").unwrap(),
        "owner/repo"
    );

    // Invalid sources
    assert!(validate_marketplace_source("just-a-name").is_err());
    assert!(validate_marketplace_source("a/b/c").is_err());
    assert!(validate_marketplace_source("/repo").is_err());
    assert!(validate_marketplace_source("owner/").is_err());
    assert!(validate_marketplace_source("owner/repo;evil").is_err());
}

#[test]
fn marketplace_source_accepts_unicode_letters_and_strip_only_removes() {
    assert_eq!(validate_marketplace_source("caf\u{e9}/r\u{e9}po").unwrap(), "caf\u{e9}/r\u{e9}po");
    assert!(validate_marketplace_source("own er/repo").is_err());
    let raw = "a\x1b[31mred\x1b[0m b\x1b(Bc";
    let out = strip_ansi(raw);
    assert_eq!(out, "ared bc");
    let mut rest = raw.chars();
    for c in out.chars() {
        assert!(rest.any(|r| r == c));
    }
}
