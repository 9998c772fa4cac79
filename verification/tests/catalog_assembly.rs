use claude_view_server::catalog::{
    assemble_catalog, build_available, build_installed, catalog_counts, describe_installed,
    kind_label_string, listed_marketplaces, lookup_usage, plugin_items, plugin_marketplaces,
    sort_by_name, user_item_path, user_items, CatalogSources, CliAvailablePlugin,
    CliInstalledPlugin, CliMarketplace, DiskEnrichment, Invocable, InvocableKind, InvocableUsage,
};
use claude_view_server::plugins::{MarketplaceInfo, PluginsQuery};

fn inv(id: &str, plugin: Option<&str>, name: &str, kind: InvocableKind) -> Invocable {
    Invocable {
        id: id.to_string(),
        plugin_name: plugin.map(|p| p.to_string()),
        name: name.to_string(),
        kind,
        description: format!("{name} description"),
        content: String::new(),
    }
}

fn usage(id: &str, count: i64, last: Option<i64>) -> InvocableUsage {
    InvocableUsage { id: id.to_string(), invocation_count: count, last_used_at: last }
}

fn installed(id: &str, sha: Option<&str>, errors: Vec<&str>) -> CliInstalledPlugin {
    CliInstalledPlugin {
        id: id.to_string(),
        version: Some("1.0.0".to_string()),
        scope: "user".to_string(),
        enabled: true,
        installed_at: "2026-01-01T00:00:00Z".to_string(),
        last_updated: None,
        git_commit_sha: sha.map(|s| s.to_string()),
        project_path: None,
        errors: errors.into_iter().map(|e| e.to_string()).collect(),
    }
}

fn available(name: &str, market: &str, description: &str, count: Option<u64>) -> CliAvailablePlugin {
    CliAvailablePlugin {
        plugin_id: format!("{name}@{market}"),
        name: name.to_string(),
        description: description.to_string(),
        marketplace_name: market.to_string(),
        version: None,
        install_count: count,
    }
}

fn empty_disk() -> DiskEnrichment {
    DiskEnrichment { descriptions: vec![], install_counts: vec![], source_exists: vec![] }
}

#[test]
fn user_item_paths_follow_kind() {
    assert_eq!(user_item_path(InvocableKind::Skill, "prove-it"), "prove-it/SKILL.md");
    assert_eq!(user_item_path(InvocableKind::Command, "wtf"), "commands/wtf.md");
    assert_eq!(user_item_path(InvocableKind::Agent, "scanner"), "agents/scanner.md");
    assert_eq!(user_item_path(InvocableKind::McpTool, "probe"), "probe");
}

#[test]
fn kind_labels() {
    assert_eq!(kind_label_string(InvocableKind::Skill), "skill");
    assert_eq!(kind_label_string(InvocableKind::Command), "command");
    assert_eq!(kind_label_string(InvocableKind::Agent), "agent");
    assert_eq!(kind_label_string(InvocableKind::McpTool), "mcp_tool");
}

#[test]
fn user_items_keep_only_user_items_of_kind() {
    let invs = vec![
        inv("u1", None, "prove-it", InvocableKind::Skill),
        inv("p1", Some("superpowers"), "brainstorm", InvocableKind::Skill),
        inv("u2", None, "wtf", InvocableKind::Command),
        inv("u3", None, "tidy", InvocableKind::Skill),
    ];
    let skills = user_items(&invs, InvocableKind::Skill);
    assert_eq!(skills.len(), 2);
    assert_eq!(skills[0].name, "prove-it");
    assert_eq!(skills[0].kind, "skill");
    assert_eq!(skills[0].path, "prove-it/SKILL.md");
    assert_eq!(skills[0].total_invocations, 0);
    assert_eq!(skills[0].last_used_at, None);
    assert_eq!(skills[1].name, "tidy");
    let commands = user_items(&invs, InvocableKind::Command);
    assert_eq!(commands.len(), 1);
    assert_eq!(commands[0].path, "commands/wtf.md");
    assert!(user_items(&invs, InvocableKind::Agent).is_empty());
}

#[test]
fn usage_lookup_takes_last_entry() {
    let u = vec![usage("a", 1, Some(10)), usage("b", 7, None), usage("a", 3, Some(30))];
    assert_eq!(lookup_usage(&u, "a"), (3, Some(30)));
    assert_eq!(lookup_usage(&u, "b"), (7, None));
    assert_eq!(lookup_usage(&u, "c"), (0, None));
}

#[test]
fn plugin_items_counts_sorts_and_totals() {
    let invs = vec![
        inv("sp:a", Some("sp"), "a", InvocableKind::Skill),
        inv("sp:b", Some("sp"), "b", InvocableKind::Command),
        inv("sp:c", Some("sp"), "c", InvocableKind::Skill),
        inv("sp:t", Some("sp"), "t", InvocableKind::BuiltinTool),
        inv("sp:m", Some("sp"), "m", InvocableKind::McpTool),
        inv("other:x", Some("other"), "x", InvocableKind::Agent),
    ];
    let u = vec![usage("sp:b", 9, Some(500)), usage("sp:c", 4, Some(900)), usage("sp:m", 4, None)];
    let r = plugin_items("sp", &invs, &u);
    let names: Vec<&str> = r.items.iter().map(|i| i.name.as_str()).collect();
    assert_eq!(names, vec!["b", "c", "m", "a"]);
    assert_eq!(r.items[0].kind, "command");
    assert_eq!(r.items[2].kind, "mcp_tool");
    assert_eq!(r.skill_count, 2);
    assert_eq!(r.command_count, 1);
    assert_eq!(r.agent_count, 0);
    assert_eq!(r.mcp_count, 1);
    assert_eq!(r.total_invocations, 17);
    assert_eq!(r.last_used_at, Some(900));
    let none = plugin_items("missing", &invs, &u);
    assert!(none.items.is_empty());
    assert_eq!(none.last_used_at, None);
}

#[test]
fn installed_record_prefers_disk_enrichment() {
    let cli = vec![installed("sp@market-a", Some("abc"), vec![]), installed("sp@market-b", None, vec!["broken"])];
    let avail = vec![available("sp", "market-a", "from catalog", Some(12))];
    let disk = DiskEnrichment {
        descriptions: vec![("sp@market-a".to_string(), "from manifest".to_string())],
        install_counts: vec![("sp@market-b".to_string(), 99)],
        source_exists: vec![("sp@market-b".to_string(), false)],
    };
    let recs = build_installed(&cli, &vec![], &vec![], &disk, &avail);
    assert_eq!(recs.len(), 2);
    assert_eq!(recs[0].name, "sp");
    assert_eq!(recs[0].marketplace, "market-a");
    assert_eq!(recs[0].description.as_deref(), Some("from manifest"));
    assert_eq!(recs[0].install_count, Some(12));
    assert!(recs[0].source_exists);
    assert!(recs[0].updatable);
    assert_eq!(recs[0].duplicate_marketplaces, vec!["market-b".to_string()]);
    assert_eq!(recs[1].description.as_deref(), Some("from catalog"));
    assert_eq!(recs[1].install_count, Some(99));
    assert!(!recs[1].source_exists);
    assert!(!recs[1].updatable);
    assert_eq!(recs[1].errors, vec!["broken".to_string()]);
    assert_eq!(recs[1].duplicate_marketplaces, vec!["market-a".to_string()]);
    assert_eq!(recs[1].session_count, 0);
}

#[test]
fn describe_installed_without_enrichment() {
    let c = installed("solo", None, vec![]);
    let all = vec![installed("solo", None, vec![])];
    let p = describe_installed(&c, &all, &vec![], &vec![], &empty_disk(), &vec![]);
    assert_eq!(p.name, "solo");
    assert_eq!(p.marketplace, "");
    assert_eq!(p.description, None);
    assert_eq!(p.install_count, None);
    assert!(p.source_exists);
    assert!(p.duplicate_marketplaces.is_empty());
}

#[test]
fn available_entries_marked_installed() {
    let cli = vec![installed("sp@market-a", None, vec![])];
    let avail = vec![available("sp", "market-b", "d", None), available("other", "market-b", "e", Some(3))];
    let av = build_available(&avail, &cli);
    assert!(av[0].already_installed);
    assert!(!av[1].already_installed);
    assert_eq!(av[1].install_count, Some(3));
    assert_eq!(av[1].plugin_id, "other@market-b");
}

#[test]
fn counts_of_orphans_duplicates_unused_updatable() {
    let cli = vec![
        installed("a@m1", Some("sha"), vec!["err"]),
        installed("a@m2", None, vec![]),
        installed("b@m1", None, vec!["err"]),
    ];
    let disk = DiskEnrichment {
        descriptions: vec![],
        install_counts: vec![],
        source_exists: vec![("a@m1".to_string(), false), ("b@m1".to_string(), true)],
    };
    let invs = vec![inv("b:s", Some("b"), "s", InvocableKind::Skill)];
    let now: i64 = 10_000_000;
    let u = vec![usage("b:s", 1, Some(now - 100))];
    let recs = build_installed(&cli, &invs, &u, &disk, &vec![]);
    let c = catalog_counts(&recs, now);
    assert_eq!(c.orphan_count, 1);
    assert_eq!(c.duplicate_count, 2);
    assert_eq!(c.unused_count, 2);
    assert_eq!(c.updatable_count, 1);
    // a use exactly 30 days before now still counts as recent
    let u_old = vec![usage("b:s", 1, Some(now - 2_592_000))];
    let recs = build_installed(&cli, &invs, &u_old, &disk, &vec![]);
    assert_eq!(catalog_counts(&recs, now).unused_count, 2);
    let u_older = vec![usage("b:s", 1, Some(now - 2_592_001))];
    let recs = build_installed(&cli, &invs, &u_older, &disk, &vec![]);
    assert_eq!(catalog_counts(&recs, now).unused_count, 3);
}

#[test]
fn marketplaces_of_installed_plugins() {
    let cli = vec![
        installed("a@zeta", None, vec![]),
        installed("b@alpha", None, vec![]),
        installed("c@zeta", None, vec![]),
    ];
    let avail = vec![available("x", "zeta", "", None), available("y", "beta", "", None)];
    let cms = vec![CliMarketplace {
        name: "zeta".to_string(),
        source: "git".to_string(),
        repo: Some("me/zeta".to_string()),
    }];
    let ms = plugin_marketplaces(&cli, &avail, &cms);
    assert_eq!(ms.len(), 2);
    assert_eq!(ms[0].name, "alpha");
    assert_eq!(ms[0].source, "github");
    assert_eq!(ms[0].repo, None);
    assert_eq!(ms[0].installed_count, 1);
    assert_eq!(ms[0].available_count, 0);
    assert_eq!(ms[1].name, "zeta");
    assert_eq!(ms[1].source, "git");
    assert_eq!(ms[1].repo.as_deref(), Some("me/zeta"));
    assert_eq!(ms[1].installed_count, 2);
    assert_eq!(ms[1].available_count, 1);
    // each installed plugin is counted under one marketplace
    let total: usize = ms.iter().map(|m| m.installed_count).sum();
    assert_eq!(total, cli.len());
}

#[test]
fn listed_marketplaces_sorted_by_name() {
    let cli = vec![installed("a@beta", None, vec![])];
    let avail = vec![available("x", "alpha", "", None)];
    let cms = vec![
        CliMarketplace { name: "beta".to_string(), source: "github".to_string(), repo: None },
        CliMarketplace { name: "alpha".to_string(), source: "git".to_string(), repo: None },
        CliMarketplace { name: "beta".to_string(), source: "directory".to_string(), repo: None },
    ];
    let ms = listed_marketplaces(&cms, &cli, &avail);
    let names: Vec<(&str, &str)> = ms.iter().map(|m| (m.name.as_str(), m.source.as_str())).collect();
    assert_eq!(names, vec![("alpha", "git"), ("beta", "github"), ("beta", "directory")]);
    assert_eq!(ms[0].available_count, 1);
    assert_eq!(ms[1].installed_count, 1);
}

#[test]
fn sort_by_name_orders_by_characters() {
    let m = |n: &str| MarketplaceInfo {
        name: n.to_string(),
        source: String::new(),
        repo: None,
        installed_count: 0,
        available_count: 0,
    };
    let out = sort_by_name(vec![m("b"), m("B"), m("ab"), m("a"), m("")]);
    let names: Vec<&str> = out.iter().map(|x| x.name.as_str()).collect();
    assert_eq!(names, vec!["", "B", "a", "ab", "b"]);
}

#[test]
fn assembled_catalog_filters_and_counts() {
    let src = CatalogSources {
        installed: vec![installed("sp@m1", Some("sha"), vec![]), installed("hk@m2", None, vec![])],
        available: vec![
            available("sp", "m1", "superpowers", Some(50)),
            available("new", "m1", "fresh", Some(70)),
            available("old", "m2", "stale", None),
        ],
        cli_error: Some("timeout".to_string()),
        invocables: vec![
            inv("sp:x", Some("sp"), "x", InvocableKind::Skill),
            inv("u:y", None, "y", InvocableKind::Agent),
        ],
        usage: vec![usage("sp:x", 2, Some(1))],
        disk: empty_disk(),
        marketplaces: vec![],
    };
    let q = PluginsQuery { scope: None, source: Some("M1".to_string()), kind: None, search: None, sort: None };
    let res = assemble_catalog(&q, src, 5_000_000);
    assert_eq!(res.total_installed, 1);
    assert_eq!(res.installed[0].name, "sp");
    assert_eq!(res.installed[0].install_count, Some(50));
    assert_eq!(res.installed[0].items.len(), 1);
    assert_eq!(res.total_available, 2);
    assert_eq!(res.available[0].name, "new");
    assert_eq!(res.available[1].name, "sp");
    assert!(res.available[1].already_installed);
    assert_eq!(res.cli_error.as_deref(), Some("timeout"));
    assert_eq!(res.updatable_count, 1);
    assert_eq!(res.unused_count, 2);
    assert_eq!(res.duplicate_count, 0);
    assert_eq!(res.orphan_count, 0);
    assert_eq!(res.marketplaces.len(), 2);
    assert_eq!(res.user_agents.len(), 1);
    assert_eq!(res.user_agents[0].path, "agents/y.md");
    assert!(res.user_skills.is_empty());
    assert!(res.user_commands.is_empty());
}
