//! Assembly of the plugin catalogue from the CLI's plugin lists, the item
//! registry, usage totals and the CLI's cache files.
use vstd::prelude::*;

use crate::lookup::{find_last, last_match, lemma_last_match_spec};
use crate::order::{
    count_key, count_where, key_is, lemma_counts_add_up, no_repeats, sort_desc_stable,
    stable_sorted_desc, sum_by_names,
};
use crate::plugins::{
    apply_filters, available_key, available_kept, id_marketplace, id_name, installed_key,
    installed_kept, parse_plugin_id, AvailablePlugin, MarketplaceInfo, PluginInfo, PluginItem,
    PluginsQuery, PluginsResponse, UserItemInfo,
};
use crate::text::{
    concat3, copy_str, lemma_lex_irreflexive, lemma_lex_total, lemma_lex_transitive, lex_lt, str_is,
    sorted_distinct, str_lt, views_of,
};

verus! {

broadcast use vstd::seq_lib::group_seq_properties;

// ---------------------------------------------------------------------------
// Inputs
// ---------------------------------------------------------------------------

/// Kind of an item found by the registry.
#[derive(PartialEq, Eq, Structural, Clone, Copy, Debug)]
pub enum InvocableKind {
    Skill,
    Command,
    Agent,
    McpTool,
    BuiltinTool,
}

/// An item known to the registry.
pub struct Invocable {
    pub id: String,
    /// The plugin the item ships with; `None` for user-created items.
    pub plugin_name: Option<String>,
    pub name: String,
    pub kind: InvocableKind,
    pub description: String,
    pub content: String,
}

/// Usage totals recorded for one item id.
pub struct InvocableUsage {
    pub id: String,
    pub invocation_count: i64,
    pub last_used_at: Option<i64>,
}

// ---------------------------------------------------------------------------
// Kind labels and user items
// ---------------------------------------------------------------------------

/// Label of an item kind in responses.
pub open spec fn kind_label(k: InvocableKind) -> Seq<char> {
    match k {
        InvocableKind::Skill => "skill"@,
        InvocableKind::Command => "command"@,
        InvocableKind::Agent => "agent"@,
        InvocableKind::McpTool => "mcp_tool"@,
        InvocableKind::BuiltinTool => Seq::empty(),
    }
}

/// The label of a kind that the catalogue lists (built-in tools are not listed).
pub fn kind_label_string(k: InvocableKind) -> (res: String)
    requires
        k != InvocableKind::BuiltinTool,
    ensures
        res@ == kind_label(k),
{
    proof {
        reveal_strlit("skill");
        reveal_strlit("command");
        reveal_strlit("agent");
        reveal_strlit("mcp_tool");
    }
    match k {
        InvocableKind::Skill => copy_str("skill"),
        InvocableKind::Command => copy_str("command"),
        InvocableKind::Agent => copy_str("agent"),
        _ => copy_str("mcp_tool"),
    }
}

/// Display path of a user item: `<name>/SKILL.md` for a skill,
/// `commands/<name>.md` for a command, `agents/<name>.md` for an agent, and the
/// bare name otherwise.
pub open spec fn user_item_path_spec(k: InvocableKind, name: Seq<char>) -> Seq<char> {
    match k {
        InvocableKind::Skill => name + "/SKILL.md"@,
        InvocableKind::Command => "commands/"@ + name + ".md"@,
        InvocableKind::Agent => "agents/"@ + name + ".md"@,
        _ => name,
    }
}

/// Display path of a user item of kind `k` named `name`.
pub fn user_item_path(k: InvocableKind, name: &str) -> (res: String)
    ensures
        res@ == user_item_path_spec(k, name@),
{
    proof {
        reveal_strlit("");
    }
    match k {
        InvocableKind::Skill => concat3(name, "/SKILL.md", ""),
        InvocableKind::Command => concat3("commands/", name, ".md"),
        InvocableKind::Agent => concat3("agents/", name, ".md"),
        _ => copy_str(name),
    }
}

/// The user-created items of kind `k`, in registry order.
pub open spec fn user_items_of(invs: Seq<Invocable>, k: InvocableKind) -> Seq<Invocable> {
    invs.filter(|i: Invocable| i.plugin_name is None && i.kind == k)
}

/// `u` lists user item `inv` of kind `k`, with no usage recorded.
pub open spec fn user_item_from(u: UserItemInfo, inv: Invocable, k: InvocableKind) -> bool {
    &&& u.name == inv.name
    &&& u.kind@ == kind_label(k)
    &&& u.path@ == user_item_path_spec(k, inv.name@)
    &&& u.total_invocations == 0
    &&& u.session_count == 0
    &&& u.last_used_at is None
}

/// The user-created items of one listed kind (skill, command or agent), in
/// registry order; they carry no usage, so ordering by usage keeps that order.
pub fn user_items(invs: &Vec<Invocable>, k: InvocableKind) -> (res: Vec<UserItemInfo>)
    requires
        k != InvocableKind::BuiltinTool,
    ensures
        res@.len() == user_items_of(invs@, k).len(),
        forall|j: int|
            0 <= j < res@.len() ==> user_item_from(#[trigger] res@[j], user_items_of(invs@, k)[j], k),
{
    let ghost pred = |i: Invocable| i.plugin_name is None && i.kind == k;
    let mut res: Vec<UserItemInfo> = Vec::new();
    let mut i: usize = 0;
    while i < invs.len()
        invariant
            i <= invs@.len(),
            k != InvocableKind::BuiltinTool,
            pred == (|i: Invocable| i.plugin_name is None && i.kind == k),
            res@.len() == invs@.take(i as int).filter(pred).len(),
            forall|j: int|
                0 <= j < res@.len() ==> user_item_from(
                    #[trigger] res@[j],
                    invs@.take(i as int).filter(pred)[j],
                    k,
                ),
        decreases invs@.len() - i,
    {
        let inv = &invs[i];
        proof {
            assert(invs@.take(i + 1) =~= invs@.take(i as int).push(*inv));
            invs@.take(i as int).lemma_filter_push(*inv, pred);
        }
        if inv.plugin_name.is_none() && inv.kind == k {
            let u = UserItemInfo {
                name: inv.name.clone(),
                kind: kind_label_string(k),
                path: user_item_path(k, inv.name.as_str()),
                total_invocations: 0,
                session_count: 0,
                last_used_at: None,
            };
            res.push(u);
        }
        i = i + 1;
    }
    assert(invs@.take(invs@.len() as int) =~= invs@);
    res
}

// ---------------------------------------------------------------------------
// Items of an installed plugin
// ---------------------------------------------------------------------------

/// Matches usage entries recorded for item `id`.
pub open spec fn usage_for(id: Seq<char>) -> spec_fn(InvocableUsage) -> bool {
    |u: InvocableUsage| u.id@ == id
}

/// Invocation count and last use recorded for item `id`: those of the last
/// usage entry for it, or (0, none) when there is none.
pub open spec fn usage_of(usage: Seq<InvocableUsage>, id: Seq<char>) -> (i64, Option<i64>) {
    let r = last_match(usage, usage_for(id));
    if r < 0 {
        (0, None)
    } else {
        (usage[r].invocation_count, usage[r].last_used_at)
    }
}

/// The usage recorded for item `id`.
pub fn lookup_usage(usage: &Vec<InvocableUsage>, id: &str) -> (res: (i64, Option<i64>))
    ensures
        res == usage_of(usage@, id@),
{
    let test = |u: &InvocableUsage| -> (b: bool)
        ensures
            b == (u.id@ == id@),
    { str_is(u.id.as_str(), id) };
    match find_last(usage, test, Ghost(usage_for(id@))) {
        Some(j) => (usage[j].invocation_count, usage[j].last_used_at),
        None => (0, None),
    }
}

/// Registry items that belong to plugin `name` and are listed (built-in tools
/// are not).
pub open spec fn of_plugin(name: Seq<char>) -> spec_fn(Invocable) -> bool {
    |i: Invocable| i.plugin_name matches Some(p) && p@ == name && i.kind != InvocableKind::BuiltinTool
}

/// The listed items of plugin `name`, in registry order.
pub open spec fn plugin_invocables(invs: Seq<Invocable>, name: Seq<char>) -> Seq<Invocable> {
    invs.filter(of_plugin(name))
}

/// `it` lists registry item `inv` with the usage recorded for it.
pub open spec fn item_from(it: PluginItem, inv: Invocable, usage: Seq<InvocableUsage>) -> bool {
    &&& it.id == inv.id
    &&& it.name == inv.name
    &&& it.kind@ == kind_label(inv.kind)
    &&& it.description == inv.description
    &&& it.content == inv.content
    &&& it.invocation_count == usage_of(usage, inv.id@).0
    &&& it.last_used_at == usage_of(usage, inv.id@).1
}

/// `items` lists `sel` one for one, in the same order.
pub open spec fn items_from(
    items: Seq<PluginItem>,
    sel: Seq<Invocable>,
    usage: Seq<InvocableUsage>,
) -> bool {
    &&& items.len() == sel.len()
    &&& forall|j: int| 0 <= j < items.len() ==> item_from(#[trigger] items[j], sel[j], usage)
}

/// Number of items of kind `k` in `sel`.
pub open spec fn count_kind(sel: Seq<Invocable>, k: InvocableKind) -> nat {
    sel.filter(|i: Invocable| i.kind == k).len()
}

/// Sum of the invocation counts recorded for the items of `sel`.
pub open spec fn usage_total(sel: Seq<Invocable>, usage: Seq<InvocableUsage>) -> int
    decreases sel.len(),
{
    if sel.len() == 0 {
        0
    } else {
        usage_total(sel.drop_last(), usage) + usage_of(usage, sel.last().id@).0
    }
}

/// The later of two optional times.
pub open spec fn later(a: Option<i64>, b: Option<i64>) -> Option<i64> {
    match (a, b) {
        (None, x) => x,
        (x, None) => x,
        (Some(p), Some(q)) => Some(if p >= q { p } else { q }),
    }
}

/// Latest last-use time recorded for the items of `sel`, if any.
pub open spec fn latest_use(sel: Seq<Invocable>, usage: Seq<InvocableUsage>) -> Option<i64>
    decreases sel.len(),
{
    if sel.len() == 0 {
        None
    } else {
        later(latest_use(sel.drop_last(), usage), usage_of(usage, sel.last().id@).1)
    }
}

/// Every running total of the invocation counts of plugin `name`'s items,
/// taken in registry order, fits in an `i64`.
pub open spec fn totals_fit(invs: Seq<Invocable>, name: Seq<char>, usage: Seq<InvocableUsage>) -> bool {
    forall|i: int|
        0 <= i <= invs.len() ==> i64::MIN <= #[trigger] usage_total(
            invs.take(i).filter(of_plugin(name)),
            usage,
        ) <= i64::MAX
}

/// The items of an installed plugin with their per-kind counts and usage.
pub struct PluginItems {
    /// The items, most invoked first.
    pub items: Vec<PluginItem>,
    pub skill_count: u32,
    pub command_count: u32,
    pub agent_count: u32,
    pub mcp_count: u32,
    pub total_invocations: i64,
    pub last_used_at: Option<i64>,
}

/// Sort key of an item: its invocation count.
pub open spec fn item_key(it: PluginItem) -> int {
    it.invocation_count as int
}

/// What `plugin_items` returns for plugin `name`.
pub open spec fn plugin_items_spec(
    r: PluginItems,
    invs: Seq<Invocable>,
    name: Seq<char>,
    usage: Seq<InvocableUsage>,
) -> bool {
    let sel = plugin_invocables(invs, name);
    &&& exists|u: Seq<PluginItem>|
        #[trigger] items_from(u, sel, usage) && stable_sorted_desc(u, r.items@, |it: PluginItem| item_key(it))
    &&& r.skill_count == count_kind(sel, InvocableKind::Skill)
    &&& r.command_count == count_kind(sel, InvocableKind::Command)
    &&& r.agent_count == count_kind(sel, InvocableKind::Agent)
    &&& r.mcp_count == count_kind(sel, InvocableKind::McpTool)
    &&& r.total_invocations == usage_total(sel, usage)
    &&& r.last_used_at == latest_use(sel, usage)
}

fn later_exec(a: Option<i64>, b: Option<i64>) -> (res: Option<i64>)
    ensures
        res == later(a, b),
{
    match (a, b) {
        (None, x) => x,
        (x, None) => x,
        (Some(p), Some(q)) => Some(if p >= q { p } else { q }),
    }
}

/// The listed items of plugin `name` with their usage, most invoked first
/// (ties keep registry order), the number of items of each kind, the total
/// invocation count and the latest use.
pub fn plugin_items(name: &str, invs: &Vec<Invocable>, usage: &Vec<InvocableUsage>) -> (res: PluginItems)
    requires
        invs@.len() <= u32::MAX,
        totals_fit(invs@, name@, usage@),
    ensures
        plugin_items_spec(res, invs@, name@, usage@),
{
    let ghost pred = of_plugin(name@);
    let ghost fsk = |i: Invocable| i.kind == InvocableKind::Skill;
    let ghost fco = |i: Invocable| i.kind == InvocableKind::Command;
    let ghost fag = |i: Invocable| i.kind == InvocableKind::Agent;
    let ghost fmc = |i: Invocable| i.kind == InvocableKind::McpTool;
    let mut items: Vec<PluginItem> = Vec::new();
    let mut skill: u32 = 0;
    let mut command: u32 = 0;
    let mut agent: u32 = 0;
    let mut mcp: u32 = 0;
    let mut total: i64 = 0;
    let mut last: Option<i64> = None;
    let mut i: usize = 0;
    while i < invs.len()
        invariant
            i <= invs@.len(),
            invs@.len() <= u32::MAX,
            totals_fit(invs@, name@, usage@),
            pred == of_plugin(name@),
            fsk == (|i: Invocable| i.kind == InvocableKind::Skill),
            fco == (|i: Invocable| i.kind == InvocableKind::Command),
            fag == (|i: Invocable| i.kind == InvocableKind::Agent),
            fmc == (|i: Invocable| i.kind == InvocableKind::McpTool),
            items_from(items@, invs@.take(i as int).filter(pred), usage@),
            skill == count_kind(invs@.take(i as int).filter(pred), InvocableKind::Skill),
            command == count_kind(invs@.take(i as int).filter(pred), InvocableKind::Command),
            agent == count_kind(invs@.take(i as int).filter(pred), InvocableKind::Agent),
            mcp == count_kind(invs@.take(i as int).filter(pred), InvocableKind::McpTool),
            skill <= i && command <= i && agent <= i && mcp <= i,
            total == usage_total(invs@.take(i as int).filter(pred), usage@),
            last == latest_use(invs@.take(i as int).filter(pred), usage@),
        decreases invs@.len() - i,
    {
        let inv = &invs[i];
        let ghost before = invs@.take(i as int).filter(pred);
        proof {
            assert(invs@.take(i + 1) =~= invs@.take(i as int).push(*inv));
            invs@.take(i as int).lemma_filter_push(*inv, pred);
            before.lemma_filter_push(*inv, fsk);
            before.lemma_filter_push(*inv, fco);
            before.lemma_filter_push(*inv, fag);
            before.lemma_filter_push(*inv, fmc);
        }
        let belongs = match &inv.plugin_name {
            Some(p) => str_is(p.as_str(), name) && inv.kind != InvocableKind::BuiltinTool,
            None => false,
        };
        if belongs {
            let (count, last_used) = lookup_usage(usage, inv.id.as_str());
            let ghost after = before.push(*inv);
            proof {
                assert(after.drop_last() =~= before);
                assert(usage_total(after, usage@) == total + count);
                assert(usage_total(after, usage@) == usage_total(invs@.take(i + 1).filter(pred), usage@));
                assert(i64::MIN <= usage_total(invs@.take(i + 1).filter(pred), usage@) <= i64::MAX);
            }
            let it = PluginItem {
                id: inv.id.clone(),
                name: inv.name.clone(),
                kind: kind_label_string(inv.kind),
                description: inv.description.clone(),
                content: inv.content.clone(),
                invocation_count: count,
                last_used_at: last_used,
            };
            match inv.kind {
                InvocableKind::Skill => { skill = skill + 1; },
                InvocableKind::Command => { command = command + 1; },
                InvocableKind::Agent => { agent = agent + 1; },
                _ => { mcp = mcp + 1; },
            }
            total = total + count;
            last = later_exec(last, last_used);
            let ghost old_items = items@;
            items.push(it);
            proof {
                assert forall|j: int| 0 <= j < items@.len() implies item_from(
                    #[trigger] items@[j],
                    after[j],
                    usage@,
                ) by {
                    if j < old_items.len() {
                        assert(items@[j] == old_items[j]);
                    }
                }
            }
        }
        i = i + 1;
    }
    assert(invs@.take(invs@.len() as int) =~= invs@);
    let ghost unsorted = items@;
    let key = |it: &PluginItem| -> (k: i128)
        ensures
            k == item_key(*it),
    { it.invocation_count as i128 };
    let sorted = sort_desc_stable(items, key, Ghost(|it: PluginItem| item_key(it)));
    let res = PluginItems {
        items: sorted,
        skill_count: skill,
        command_count: command,
        agent_count: agent,
        mcp_count: mcp,
        total_invocations: total,
        last_used_at: last,
    };
    assert(items_from(unsorted, plugin_invocables(invs@, name@), usage@) && stable_sorted_desc(
        unsorted,
        res.items@,
        |it: PluginItem| item_key(it),
    ));
    res
}

// ---------------------------------------------------------------------------
// Installed plugins
// ---------------------------------------------------------------------------

/// An installed plugin as the CLI lists it.
pub struct CliInstalledPlugin {
    pub id: String,
    pub version: Option<String>,
    pub scope: String,
    pub enabled: bool,
    pub installed_at: String,
    pub last_updated: Option<String>,
    pub git_commit_sha: Option<String>,
    pub project_path: Option<String>,
    pub errors: Vec<String>,
}

/// A plugin of a marketplace catalogue as the CLI lists it.
pub struct CliAvailablePlugin {
    pub plugin_id: String,
    pub name: String,
    pub description: String,
    pub marketplace_name: String,
    pub version: Option<String>,
    pub install_count: Option<u64>,
}

/// Data read from the CLI's cache files, keyed by plugin id; where a key
/// occurs twice the later entry counts.
pub struct DiskEnrichment {
    /// Plugin id and the description of its manifest.
    pub descriptions: Vec<(String, String)>,
    /// Plugin id and its number of unique installs.
    pub install_counts: Vec<(String, u64)>,
    /// Plugin id and whether its install directory exists.
    pub source_exists: Vec<(String, bool)>,
}

/// Matches the entries for `key`.
pub open spec fn entry_for<V>(key: Seq<char>) -> spec_fn((String, V)) -> bool {
    |e: (String, V)| e.0@ == key
}

/// The value of the last entry for `key`, if any.
pub open spec fn lookup_entry<V>(entries: Seq<(String, V)>, key: Seq<char>) -> Option<V> {
    let r = last_match(entries, entry_for(key));
    if r < 0 {
        None
    } else {
        Some(entries[r].1)
    }
}

pub(crate) fn find_entry<V>(entries: &Vec<(String, V)>, key: &str) -> (r: Option<usize>)
    ensures
        match r {
            Some(j) => j < entries@.len() && j as int == last_match(entries@, entry_for::<V>(key@)),
            None => last_match(entries@, entry_for::<V>(key@)) == -1,
        },
{
    let test = |e: &(String, V)| -> (b: bool)
        ensures
            b == (e.0@ == key@),
    { str_is(e.0.as_str(), key) };
    find_last(entries, test, Ghost(entry_for::<V>(key@)))
}

/// Matches catalogue entries named `name`.
pub open spec fn named(name: Seq<char>) -> spec_fn(CliAvailablePlugin) -> bool {
    |a: CliAvailablePlugin| a.name@ == name
}

/// The last catalogue entry named `name`, if any.
pub open spec fn catalog_entry(avail: Seq<CliAvailablePlugin>, name: Seq<char>) -> Option<CliAvailablePlugin> {
    let r = last_match(avail, named(name));
    if r < 0 {
        None
    } else {
        Some(avail[r])
    }
}

fn find_catalog_entry(avail: &Vec<CliAvailablePlugin>, name: &str) -> (r: Option<usize>)
    ensures
        match r {
            Some(j) => j < avail@.len() && j as int == last_match(avail@, named(name@)),
            None => last_match(avail@, named(name@)) == -1,
        },
{
    let test = |a: &CliAvailablePlugin| -> (b: bool)
        ensures
            b == (a.name@ == name@),
    { str_is(a.name.as_str(), name) };
    find_last(avail, test, Ghost(named(name@)))
}

/// Description of an installed plugin: its manifest's, else its catalogue
/// entry's, else none.
pub open spec fn description_of(
    c: CliInstalledPlugin,
    disk: DiskEnrichment,
    avail: Seq<CliAvailablePlugin>,
) -> Option<String> {
    match lookup_entry(disk.descriptions@, c.id@) {
        Some(d) => Some(d),
        None => match catalog_entry(avail, id_name(c.id@)) {
            Some(e) => Some(e.description),
            None => None,
        },
    }
}

/// Install count of an installed plugin: from the cache file, else from its
/// catalogue entry, else none.
pub open spec fn install_count_of(
    c: CliInstalledPlugin,
    disk: DiskEnrichment,
    avail: Seq<CliAvailablePlugin>,
) -> Option<u64> {
    match lookup_entry(disk.install_counts@, c.id@) {
        Some(n) => Some(n),
        None => match catalog_entry(avail, id_name(c.id@)) {
            Some(e) => e.install_count,
            None => None,
        },
    }
}

/// Whether an installed plugin's directory exists; assumed so when unknown.
pub open spec fn source_exists_of(c: CliInstalledPlugin, disk: DiskEnrichment) -> bool {
    match lookup_entry(disk.source_exists@, c.id@) {
        Some(b) => b,
        None => true,
    }
}

/// Installed plugins whose id names plugin `name`.
pub open spec fn id_named(name: Seq<char>) -> spec_fn(CliInstalledPlugin) -> bool {
    |c: CliInstalledPlugin| id_name(c.id@) == name
}

/// The other marketplaces plugin `name` is installed from, in install-list
/// order, `market` left out.
pub open spec fn duplicates_of(
    all: Seq<CliInstalledPlugin>,
    name: Seq<char>,
    market: Seq<char>,
) -> Seq<Seq<char>> {
    all.filter(id_named(name)).map_values(|c: CliInstalledPlugin| id_marketplace(c.id@)).filter(
        |m: Seq<char>| m != market,
    )
}

/// `p` describes installed plugin `c`: its id parts, CLI fields, items with
/// usage, duplicates among `all`, and cache-file enrichment.
pub open spec fn installed_from(
    p: PluginInfo,
    c: CliInstalledPlugin,
    all: Seq<CliInstalledPlugin>,
    invs: Seq<Invocable>,
    usage: Seq<InvocableUsage>,
    disk: DiskEnrichment,
    avail: Seq<CliAvailablePlugin>,
) -> bool {
    let name = id_name(c.id@);
    let market = id_marketplace(c.id@);
    &&& p.id == c.id
    &&& p.name@ == name
    &&& p.marketplace@ == market
    &&& p.scope == c.scope
    &&& p.version == c.version
    &&& p.git_sha == c.git_commit_sha
    &&& p.enabled == c.enabled
    &&& p.installed_at == c.installed_at
    &&& p.last_updated == c.last_updated
    &&& p.project_path == c.project_path
    &&& plugin_items_spec(
        PluginItems {
            items: p.items,
            skill_count: p.skill_count,
            command_count: p.command_count,
            agent_count: p.agent_count,
            mcp_count: p.mcp_count,
            total_invocations: p.total_invocations,
            last_used_at: p.last_used_at,
        },
        invs,
        name,
        usage,
    )
    &&& p.session_count == 0
    &&& views_of(p.duplicate_marketplaces@) == duplicates_of(all, name, market)
    &&& p.updatable == c.git_commit_sha is Some
    &&& p.errors@ == c.errors@
    &&& p.source_exists == source_exists_of(c, disk)
    &&& p.description == description_of(c, disk, avail)
    &&& p.install_count == install_count_of(c, disk, avail)
}

fn copy_opt(o: &Option<String>) -> (res: Option<String>)
    ensures
        res == *o,
{
    match o {
        Some(s) => Some(s.clone()),
        None => None,
    }
}

fn copy_strings(v: &Vec<String>) -> (res: Vec<String>)
    ensures
        res@ == v@,
{
    let mut res: Vec<String> = Vec::new();
    let mut i: usize = 0;
    while i < v.len()
        invariant
            i <= v@.len(),
            res@ == v@.take(i as int),
        decreases v@.len() - i,
    {
        res.push(v[i].clone());
        proof {
            assert(v@.take(i + 1) =~= v@.take(i as int).push(v@[i as int]));
        }
        i = i + 1;
    }
    assert(v@.take(v@.len() as int) =~= v@);
    res
}

/// The marketplaces other than `market` that plugin `name` is installed from.
fn duplicate_marketplaces(all: &Vec<CliInstalledPlugin>, name: &str, market: &str) -> (res: Vec<String>)
    ensures
        views_of(res@) == duplicates_of(all@, name@, market@),
{
    let ghost fname = id_named(name@);
    let ghost proj = |c: CliInstalledPlugin| id_marketplace(c.id@);
    let ghost fmk = |m: Seq<char>| m != market@;
    let mut res: Vec<String> = Vec::new();
    let mut i: usize = 0;
    while i < all.len()
        invariant
            i <= all@.len(),
            fname == id_named(name@),
            proj == (|c: CliInstalledPlugin| id_marketplace(c.id@)),
            fmk == (|m: Seq<char>| m != market@),
            views_of(res@) == all@.take(i as int).filter(fname).map_values(proj).filter(fmk),
        decreases all@.len() - i,
    {
        let c = &all[i];
        let ghost pre = all@.take(i as int).filter(fname);
        proof {
            assert(all@.take(i + 1) =~= all@.take(i as int).push(*c));
            all@.take(i as int).lemma_filter_push(*c, fname);
        }
        let (n, m) = parse_plugin_id(c.id.as_str());
        if str_is(n.as_str(), name) {
            let ghost pm = pre.map_values(proj);
            proof {
                assert(pre.push(*c).map_values(proj) =~= pm.push(proj(*c)));
                pm.lemma_filter_push(proj(*c), fmk);
            }
            if !str_is(m.as_str(), market) {
                let ghost old_res = res@;
                res.push(m);
                proof {
                    assert(views_of(res@) =~= views_of(old_res).push(proj(*c)));
                }
            }
        }
        i = i + 1;
    }
    assert(all@.take(all@.len() as int) =~= all@);
    res
}

/// The listed record of installed plugin `c`.
pub fn describe_installed(
    c: &CliInstalledPlugin,
    all: &Vec<CliInstalledPlugin>,
    invs: &Vec<Invocable>,
    usage: &Vec<InvocableUsage>,
    disk: &DiskEnrichment,
    avail: &Vec<CliAvailablePlugin>,
) -> (p: PluginInfo)
    requires
        invs@.len() <= u32::MAX,
        totals_fit(invs@, id_name(c.id@), usage@),
    ensures
        installed_from(p, *c, all@, invs@, usage@, *disk, avail@),
{
    let (name, market) = parse_plugin_id(c.id.as_str());
    let summary = plugin_items(name.as_str(), invs, usage);
    let entry = find_catalog_entry(avail, name.as_str());
    let description = match find_entry(&disk.descriptions, c.id.as_str()) {
        Some(j) => Some(disk.descriptions[j].1.clone()),
        None => match entry {
            Some(j) => Some(avail[j].description.clone()),
            None => None,
        },
    };
    let install_count = match find_entry(&disk.install_counts, c.id.as_str()) {
        Some(j) => Some(disk.install_counts[j].1),
        None => match entry {
            Some(j) => avail[j].install_count,
            None => None,
        },
    };
    let source_exists = match find_entry(&disk.source_exists, c.id.as_str()) {
        Some(j) => disk.source_exists[j].1,
        None => true,
    };
    let dups = duplicate_marketplaces(all, name.as_str(), market.as_str());
    PluginInfo {
        id: c.id.clone(),
        name,
        marketplace: market,
        scope: c.scope.clone(),
        version: copy_opt(&c.version),
        git_sha: copy_opt(&c.git_commit_sha),
        enabled: c.enabled,
        installed_at: c.installed_at.clone(),
        last_updated: copy_opt(&c.last_updated),
        project_path: copy_opt(&c.project_path),
        items: summary.items,
        skill_count: summary.skill_count,
        command_count: summary.command_count,
        agent_count: summary.agent_count,
        mcp_count: summary.mcp_count,
        total_invocations: summary.total_invocations,
        session_count: 0,
        last_used_at: summary.last_used_at,
        duplicate_marketplaces: dups,
        updatable: c.git_commit_sha.is_some(),
        errors: copy_strings(&c.errors),
        source_exists,
        description,
        install_count,
    }
}

/// The listed records of all installed plugins, in CLI order.
pub fn build_installed(
    cli: &Vec<CliInstalledPlugin>,
    invs: &Vec<Invocable>,
    usage: &Vec<InvocableUsage>,
    disk: &DiskEnrichment,
    avail: &Vec<CliAvailablePlugin>,
) -> (res: Vec<PluginInfo>)
    requires
        invs@.len() <= u32::MAX,
        forall|k: int| 0 <= k < cli@.len() ==> totals_fit(invs@, id_name(#[trigger] cli@[k].id@), usage@),
    ensures
        res@.len() == cli@.len(),
        forall|k: int|
            0 <= k < cli@.len() ==> installed_from(
                #[trigger] res@[k],
                cli@[k],
                cli@,
                invs@,
                usage@,
                *disk,
                avail@,
            ),
{
    let mut res: Vec<PluginInfo> = Vec::new();
    let mut i: usize = 0;
    while i < cli.len()
        invariant
            i <= cli@.len(),
            invs@.len() <= u32::MAX,
            forall|k: int| 0 <= k < cli@.len() ==> totals_fit(invs@, id_name(#[trigger] cli@[k].id@), usage@),
            res@.len() == i,
            forall|k: int|
                0 <= k < i ==> installed_from(#[trigger] res@[k], cli@[k], cli@, invs@, usage@, *disk, avail@),
        decreases cli@.len() - i,
    {
        let p = describe_installed(&cli[i], cli, invs, usage, disk, avail);
        res.push(p);
        i = i + 1;
    }
    res
}

// ---------------------------------------------------------------------------
// Available plugins
// ---------------------------------------------------------------------------

/// Some installed plugin's id names plugin `name`.
pub open spec fn installed_name(cli: Seq<CliInstalledPlugin>, name: Seq<char>) -> bool {
    exists|k: int| 0 <= k < cli.len() && id_name(#[trigger] cli[k].id@) == name
}

/// `a` lists catalogue entry `c`, marked installed when a plugin of that name is.
pub open spec fn available_from(a: AvailablePlugin, c: CliAvailablePlugin, cli: Seq<CliInstalledPlugin>) -> bool {
    &&& a.plugin_id == c.plugin_id
    &&& a.name == c.name
    &&& a.description == c.description
    &&& a.marketplace_name == c.marketplace_name
    &&& a.version == c.version
    &&& a.install_count == c.install_count
    &&& a.already_installed == installed_name(cli, c.name@)
}

fn is_installed_name(cli: &Vec<CliInstalledPlugin>, name: &str) -> (res: bool)
    ensures
        res == installed_name(cli@, name@),
{
    let mut i: usize = 0;
    while i < cli.len()
        invariant
            i <= cli@.len(),
            forall|k: int| 0 <= k < i ==> id_name(#[trigger] cli@[k].id@) != name@,
        decreases cli@.len() - i,
    {
        let (n, _m) = parse_plugin_id(cli[i].id.as_str());
        if str_is(n.as_str(), name) {
            return true;
        }
        i = i + 1;
    }
    false
}

/// The catalogue entries as listed, in CLI order.
pub fn build_available(avail: &Vec<CliAvailablePlugin>, cli: &Vec<CliInstalledPlugin>) -> (res: Vec<AvailablePlugin>)
    ensures
        res@.len() == avail@.len(),
        forall|k: int| 0 <= k < avail@.len() ==> available_from(#[trigger] res@[k], avail@[k], cli@),
{
    let mut res: Vec<AvailablePlugin> = Vec::new();
    let mut i: usize = 0;
    while i < avail.len()
        invariant
            i <= avail@.len(),
            res@.len() == i,
            forall|k: int| 0 <= k < i ==> available_from(#[trigger] res@[k], avail@[k], cli@),
        decreases avail@.len() - i,
    {
        let c = &avail[i];
        let a = AvailablePlugin {
            plugin_id: c.plugin_id.clone(),
            name: c.name.clone(),
            description: c.description.clone(),
            marketplace_name: c.marketplace_name.clone(),
            version: copy_opt(&c.version),
            install_count: c.install_count,
            already_installed: is_installed_name(cli, c.name.as_str()),
        };
        res.push(a);
        i = i + 1;
    }
    res
}

// ---------------------------------------------------------------------------
// Aggregates
// ---------------------------------------------------------------------------

/// Plugins unused for this long (30 days, in seconds) count as unused.
pub const UNUSED_AFTER_SECS: i64 = 2592000;

/// Reported with errors and with no install directory on disk.
pub open spec fn orphaned(p: PluginInfo) -> bool {
    p.errors@.len() > 0 && !p.source_exists
}

/// Also installed from other marketplaces.
pub open spec fn duplicated(p: PluginInfo) -> bool {
    p.duplicate_marketplaces@.len() > 0
}

/// Not used since `cutoff` (or never).
pub open spec fn unused_since(p: PluginInfo, cutoff: int) -> bool {
    match p.last_used_at {
        None => true,
        Some(t) => t < cutoff,
    }
}

/// Installed from a git checkout that can be updated.
pub open spec fn is_updatable(p: PluginInfo) -> bool {
    p.updatable
}

/// The counts reported beside the installed list.
pub struct CatalogCounts {
    pub orphan_count: usize,
    pub duplicate_count: usize,
    pub unused_count: usize,
    pub updatable_count: usize,
}

/// Counts orphaned, duplicated, unused (no use in the 30 days before `now`)
/// and updatable plugins of `installed`.
pub fn catalog_counts(installed: &Vec<PluginInfo>, now: i64) -> (res: CatalogCounts)
    requires
        now >= i64::MIN + UNUSED_AFTER_SECS,
    ensures
        res.orphan_count == installed@.filter(|p: PluginInfo| orphaned(p)).len(),
        res.duplicate_count == installed@.filter(|p: PluginInfo| duplicated(p)).len(),
        res.unused_count == installed@.filter(|p: PluginInfo| unused_since(p, now - UNUSED_AFTER_SECS)).len(),
        res.updatable_count == installed@.filter(|p: PluginInfo| is_updatable(p)).len(),
{
    let cutoff = now - UNUSED_AFTER_SECS;
    let t_orphan = |p: &PluginInfo| -> (b: bool)
        ensures
            b == orphaned(*p),
    { p.errors.len() > 0 && !p.source_exists };
    let t_dup = |p: &PluginInfo| -> (b: bool)
        ensures
            b == duplicated(*p),
    { p.duplicate_marketplaces.len() > 0 };
    let t_unused = |p: &PluginInfo| -> (b: bool)
        ensures
            b == unused_since(*p, cutoff as int),
    {
        match p.last_used_at {
            None => true,
            Some(t) => t < cutoff,
        }
    };
    let t_upd = |p: &PluginInfo| -> (b: bool)
        ensures
            b == is_updatable(*p),
    { p.updatable };
    CatalogCounts {
        orphan_count: count_where(installed, t_orphan, Ghost(|p: PluginInfo| orphaned(p))),
        duplicate_count: count_where(installed, t_dup, Ghost(|p: PluginInfo| duplicated(p))),
        unused_count: count_where(
            installed,
            t_unused,
            Ghost(|p: PluginInfo| unused_since(p, now - UNUSED_AFTER_SECS)),
        ),
        updatable_count: count_where(installed, t_upd, Ghost(|p: PluginInfo| is_updatable(p))),
    }
}

// ---------------------------------------------------------------------------
// Marketplaces
// ---------------------------------------------------------------------------

/// A marketplace as the CLI lists it.
pub struct CliMarketplace {
    pub name: String,
    pub source: String,
    pub repo: Option<String>,
}

/// Matches marketplaces named `name`.
pub open spec fn market_named(name: Seq<char>) -> spec_fn(CliMarketplace) -> bool {
    |m: CliMarketplace| m.name@ == name
}

/// The last marketplace the CLI lists under `name`, if any.
pub open spec fn market_entry(cms: Seq<CliMarketplace>, name: Seq<char>) -> Option<CliMarketplace> {
    let r = last_match(cms, market_named(name));
    if r < 0 {
        None
    } else {
        Some(cms[r])
    }
}

/// Marketplace of an installed plugin, from its id.
pub open spec fn market_of(c: CliInstalledPlugin) -> Seq<char> {
    id_marketplace(c.id@)
}

/// The marketplace of each installed plugin.
pub open spec fn market_key() -> spec_fn(CliInstalledPlugin) -> Seq<char> {
    |c: CliInstalledPlugin| market_of(c)
}

/// Number of installed plugins from marketplace `name`.
pub open spec fn installed_in(cli: Seq<CliInstalledPlugin>, name: Seq<char>) -> nat {
    count_key(cli, market_key(), name)
}

/// Number of catalogue entries of marketplace `name`.
pub open spec fn available_in(avail: Seq<CliAvailablePlugin>, name: Seq<char>) -> nat {
    avail.filter(|a: CliAvailablePlugin| a.marketplace_name@ == name).len()
}

fn count_installed_in(cli: &Vec<CliInstalledPlugin>, name: &str) -> (n: usize)
    ensures
        n == installed_in(cli@, name@),
{
    let test = |c: &CliInstalledPlugin| -> (b: bool)
        ensures
            b == key_is(market_key(), name@)(*c),
    {
        let (_n, m) = parse_plugin_id(c.id.as_str());
        str_is(m.as_str(), name)
    };
    count_where(cli, test, Ghost(key_is(market_key(), name@)))
}

fn count_available_in(avail: &Vec<CliAvailablePlugin>, name: &str) -> (n: usize)
    ensures
        n == available_in(avail@, name@),
{
    let test = |a: &CliAvailablePlugin| -> (b: bool)
        ensures
            b == (a.marketplace_name@ == name@),
    { str_is(a.marketplace_name.as_str(), name) };
    count_where(avail, test, Ghost(|a: CliAvailablePlugin| a.marketplace_name@ == name@))
}

/// `m` describes marketplace `m.name`: source and repo from the CLI's list
/// (source "github" when it is not listed) and the numbers of installed and
/// catalogue plugins from it.
pub open spec fn market_info_from(
    m: MarketplaceInfo,
    cms: Seq<CliMarketplace>,
    cli: Seq<CliInstalledPlugin>,
    avail: Seq<CliAvailablePlugin>,
) -> bool {
    &&& m.source@ == (match market_entry(cms, m.name@) {
        Some(c) => c.source@,
        None => "github"@,
    })
    &&& m.repo == (match market_entry(cms, m.name@) {
        Some(c) => c.repo,
        None => None,
    })
    &&& m.installed_count == installed_in(cli, m.name@)
    &&& m.available_count == available_in(avail, m.name@)
}

/// Marketplaces of the installed plugins, in CLI order, repeats included.
pub open spec fn installed_markets(cli: Seq<CliInstalledPlugin>) -> Seq<Seq<char>> {
    cli.map_values(|c: CliInstalledPlugin| market_of(c))
}

/// Names of the listed marketplaces.
pub open spec fn market_names(ms: Seq<MarketplaceInfo>) -> Seq<Seq<char>> {
    ms.map_values(|m: MarketplaceInfo| m.name@)
}

/// The marketplaces of the installed plugins, each once.
fn distinct_markets(cli: &Vec<CliInstalledPlugin>) -> (names: Vec<String>)
    ensures
        forall|p: int, q: int| 0 <= p < q < names@.len() ==> lex_lt(#[trigger] names@[p]@, #[trigger] names@[q]@),
        forall|x: Seq<char>| #[trigger] views_of(names@).contains(x) <==> installed_markets(cli@).contains(x),
{
    let mut markets: Vec<String> = Vec::new();
    let mut i: usize = 0;
    while i < cli.len()
        invariant
            i <= cli@.len(),
            views_of(markets@) == installed_markets(cli@.take(i as int)),
        decreases cli@.len() - i,
    {
        let (_n, m) = parse_plugin_id(cli[i].id.as_str());
        let ghost before = markets@;
        markets.push(m);
        proof {
            assert(views_of(markets@) =~= views_of(before).push(market_of(cli@[i as int])));
            assert(installed_markets(cli@.take(i + 1)) =~= installed_markets(cli@.take(i as int)).push(
                market_of(cli@[i as int]),
            ));
        }
        i = i + 1;
    }
    assert(cli@.take(cli@.len() as int) =~= cli@);
    sorted_distinct(&markets)
}

/// The record of marketplace `name`.
fn describe_market(
    name: String,
    cms: &Vec<CliMarketplace>,
    cli: &Vec<CliInstalledPlugin>,
    avail: &Vec<CliAvailablePlugin>,
) -> (m: MarketplaceInfo)
    ensures
        m.name == name,
        market_info_from(m, cms@, cli@, avail@),
{
    let test = |c: &CliMarketplace| -> (b: bool)
        ensures
            b == (c.name@ == name@),
    { str_is(c.name.as_str(), name.as_str()) };
    let found = find_last(cms, test, Ghost(market_named(name@)));
    proof {
        reveal_strlit("github");
    }
    let (source, repo) = match found {
        Some(j) => (cms[j].source.clone(), copy_opt(&cms[j].repo)),
        None => (copy_str("github"), None),
    };
    let installed_count = count_installed_in(cli, name.as_str());
    let available_count = count_available_in(avail, name.as_str());
    MarketplaceInfo { name, source, repo, installed_count, available_count }
}

/// The marketplaces the installed plugins come from, each once, in name
/// order, with their source, repo and plugin counts.
pub fn plugin_marketplaces(
    cli: &Vec<CliInstalledPlugin>,
    avail: &Vec<CliAvailablePlugin>,
    cms: &Vec<CliMarketplace>,
) -> (res: Vec<MarketplaceInfo>)
    ensures
        forall|p: int, q: int| 0 <= p < q < res@.len() ==> lex_lt(#[trigger] res@[p].name@, #[trigger] res@[q].name@),
        forall|x: Seq<char>| #[trigger] market_names(res@).contains(x) <==> installed_markets(cli@).contains(x),
        forall|k: int| 0 <= k < res@.len() ==> market_info_from(#[trigger] res@[k], cms@, cli@, avail@),
{
    let names = distinct_markets(cli);
    let mut res: Vec<MarketplaceInfo> = Vec::new();
    let mut i: usize = 0;
    while i < names.len()
        invariant
            i <= names@.len(),
            res@.len() == i,
            forall|j: int| 0 <= j < i ==> #[trigger] res@[j].name == names@[j],
            forall|j: int| 0 <= j < i ==> market_info_from(#[trigger] res@[j], cms@, cli@, avail@),
        decreases names@.len() - i,
    {
        let m = describe_market(names[i].clone(), cms, cli, avail);
        res.push(m);
        i = i + 1;
    }
    proof {
        assert(market_names(res@) =~= views_of(names@));
    }
    res
}

/// `m` lists marketplace `c` as the CLI gives it, with its plugin counts.
pub open spec fn listed_market_from(
    m: MarketplaceInfo,
    c: CliMarketplace,
    cli: Seq<CliInstalledPlugin>,
    avail: Seq<CliAvailablePlugin>,
) -> bool {
    &&& m.name == c.name
    &&& m.source == c.source
    &&& m.repo == c.repo
    &&& m.installed_count == installed_in(cli, c.name@)
    &&& m.available_count == available_in(avail, c.name@)
}

/// `out` is `inp` ordered by name, items of equal name kept in their order;
/// `p` maps each position of `out` to the one its item came from.
pub open spec fn sorted_by_name_witness(inp: Seq<MarketplaceInfo>, out: Seq<MarketplaceInfo>, p: Seq<int>) -> bool {
    &&& out.len() == inp.len()
    &&& p.len() == out.len()
    &&& forall|i: int| 0 <= i < p.len() ==> 0 <= #[trigger] p[i] < inp.len()
    &&& forall|i: int, j: int| 0 <= i < j < p.len() ==> #[trigger] p[i] != #[trigger] p[j]
    &&& forall|i: int| 0 <= i < out.len() ==> #[trigger] out[i] == inp[p[i]]
    &&& forall|i: int, j: int|
        0 <= i < j < out.len() ==> lex_lt(#[trigger] out[i].name@, #[trigger] out[j].name@) || (out[i].name@
            == out[j].name@ && p[i] < p[j])
}

/// `out` is the stable sort of `inp` by name.
pub open spec fn sorted_by_name(inp: Seq<MarketplaceInfo>, out: Seq<MarketplaceInfo>) -> bool {
    exists|p: Seq<int>| sorted_by_name_witness(inp, out, p)
}

/// Sorts marketplaces by name, keeping those of equal name in their order.
#[verifier::rlimit(50)]
pub fn sort_by_name(v: Vec<MarketplaceInfo>) -> (out: Vec<MarketplaceInfo>)
    ensures
        sorted_by_name(v@, out@),
{
    let ghost orig = v@;
    let mut rest = v;
    let mut out: Vec<MarketplaceInfo> = Vec::new();
    let ghost mut p: Seq<int> = Seq::empty();
    let ghost mut k: int = 0;
    while rest.len() > 0
        invariant
            0 <= k <= orig.len(),
            rest@ == orig.skip(k),
            out.len() == k,
            p.len() == k,
            forall|i: int| 0 <= i < p.len() ==> 0 <= #[trigger] p[i] < k,
            forall|i: int, j: int| 0 <= i < j < p.len() ==> #[trigger] p[i] != #[trigger] p[j],
            forall|i: int| 0 <= i < out.len() ==> #[trigger] out@[i] == orig[p[i]],
            forall|i: int, j: int|
                0 <= i < j < out.len() ==> lex_lt(#[trigger] out@[i].name@, #[trigger] out@[j].name@) || (
                out@[i].name@ == out@[j].name@ && p[i] < p[j]),
        decreases rest.len(),
    {
        let x = rest.remove(0);
        assert(x == orig[k]);
        let mut pos: usize = 0;
        while pos < out.len() && !str_lt(x.name.as_str(), out[pos].name.as_str())
            invariant
                pos <= out@.len(),
                forall|i: int| 0 <= i < pos ==> !lex_lt(x.name@, #[trigger] out@[i].name@),
            decreases out@.len() - pos,
        {
            pos = pos + 1;
        }
        proof {
            assert forall|i: int| pos <= i < out@.len() implies lex_lt(x.name@, #[trigger] out@[i].name@) by {
                if pos < i {
                    if out@[pos as int].name@ != out@[i].name@ {
                        lemma_lex_transitive(x.name@, out@[pos as int].name@, out@[i].name@);
                    }
                }
            }
            assert forall|i: int| 0 <= i < pos implies lex_lt(#[trigger] out@[i].name@, x.name@) || out@[i].name@
                == x.name@ by {
                lemma_lex_total(out@[i].name@, x.name@);
            }
        }
        let ghost old_out = out@;
        let ghost old_p = p;
        out.insert(pos, x);
        proof {
            p = old_p.insert(pos as int, k);
            k = k + 1;
            assert forall|i: int, j: int| 0 <= i < j < out.len() implies lex_lt(
                #[trigger] out@[i].name@,
                #[trigger] out@[j].name@,
            ) || (out@[i].name@ == out@[j].name@ && p[i] < p[j]) by {
                if i < pos && j < pos {
                    assert(out@[i] == old_out[i] && out@[j] == old_out[j]);
                } else if i < pos && j == pos {
                    assert(out@[i] == old_out[i]);
                } else if i < pos && j > pos {
                    assert(out@[i] == old_out[i] && out@[j] == old_out[j - 1]);
                    lemma_lex_total(old_out[i].name@, x.name@);
                    if old_out[i].name@ != x.name@ {
                        lemma_lex_transitive(old_out[i].name@, x.name@, old_out[j - 1].name@);
                    }
                } else if i == pos {
                    assert(out@[j] == old_out[j - 1]);
                } else {
                    assert(out@[i] == old_out[i - 1] && out@[j] == old_out[j - 1]);
                }
            }
        }
    }
    assert(sorted_by_name_witness(orig, out@, p));
    out
}

/// The marketplaces the CLI lists, each with its plugin counts, in name order
/// (equal names keep the CLI's order).
pub fn listed_marketplaces(
    cms: &Vec<CliMarketplace>,
    cli: &Vec<CliInstalledPlugin>,
    avail: &Vec<CliAvailablePlugin>,
) -> (res: Vec<MarketplaceInfo>)
    ensures
        exists|u: Seq<MarketplaceInfo>|
            u.len() == cms@.len() && (forall|k: int| 0 <= k < u.len() ==> listed_market_from(#[trigger] u[k], cms@[k], cli@, avail@))
                && #[trigger] sorted_by_name(u, res@),
{
    let mut list: Vec<MarketplaceInfo> = Vec::new();
    let mut i: usize = 0;
    while i < cms.len()
        invariant
            i <= cms@.len(),
            list@.len() == i,
            forall|k: int| 0 <= k < i ==> listed_market_from(#[trigger] list@[k], cms@[k], cli@, avail@),
        decreases cms@.len() - i,
    {
        let c = &cms[i];
        let m = MarketplaceInfo {
            name: c.name.clone(),
            source: c.source.clone(),
            repo: copy_opt(&c.repo),
            installed_count: count_installed_in(cli, c.name.as_str()),
            available_count: count_available_in(avail, c.name.as_str()),
        };
        list.push(m);
        i = i + 1;
    }
    let ghost u = list@;
    let res = sort_by_name(list);
    assert(sorted_by_name(u, res@));
    res
}

// ---------------------------------------------------------------------------
// The catalogue response
// ---------------------------------------------------------------------------

/// `inst` lists the installed plugins of `cli`, one for one.
pub open spec fn installed_list(
    inst: Seq<PluginInfo>,
    cli: Seq<CliInstalledPlugin>,
    invs: Seq<Invocable>,
    usage: Seq<InvocableUsage>,
    disk: DiskEnrichment,
    avail: Seq<CliAvailablePlugin>,
) -> bool {
    &&& inst.len() == cli.len()
    &&& forall|k: int| 0 <= k < inst.len() ==> installed_from(#[trigger] inst[k], cli[k], cli, invs, usage, disk, avail)
}

/// `av` lists the catalogue entries of `avail`, one for one.
pub open spec fn available_list(av: Seq<AvailablePlugin>, avail: Seq<CliAvailablePlugin>, cli: Seq<CliInstalledPlugin>) -> bool {
    &&& av.len() == avail.len()
    &&& forall|k: int| 0 <= k < av.len() ==> available_from(#[trigger] av[k], avail[k], cli)
}

/// Everything the catalogue is built from.
pub struct CatalogSources {
    /// Installed plugins as the CLI lists them.
    pub installed: Vec<CliInstalledPlugin>,
    /// Catalogue entries as the CLI lists them.
    pub available: Vec<CliAvailablePlugin>,
    /// Why the CLI's plugin lists could not be had, when they could not.
    pub cli_error: Option<String>,
    /// The registry's items.
    pub invocables: Vec<Invocable>,
    /// Usage recorded per item id.
    pub usage: Vec<InvocableUsage>,
    /// Data from the CLI's cache files.
    pub disk: DiskEnrichment,
    /// Marketplaces as the CLI lists them.
    pub marketplaces: Vec<CliMarketplace>,
}

/// Every installed plugin's running usage totals fit in an `i64`.
pub open spec fn sources_fit(src: CatalogSources) -> bool {
    &&& src.invocables@.len() <= u32::MAX
    &&& forall|k: int|
        0 <= k < src.installed@.len() ==> totals_fit(
            src.invocables@,
            id_name(#[trigger] src.installed@[k].id@),
            src.usage@,
        )
}

/// The plugin catalogue: installed plugins with their items, usage, duplicates
/// and enrichment, and catalogue entries, both filtered and ordered by `query`;
/// counts of orphaned, duplicated, unused (relative to `now`) and updatable
/// plugins over all installed ones; their marketplaces; and the user-created
/// skills, commands and agents.
pub fn assemble_catalog(query: &PluginsQuery, src: CatalogSources, now: i64) -> (res: PluginsResponse)
    requires
        sources_fit(src),
        now >= i64::MIN + UNUSED_AFTER_SECS,
    ensures
        exists|inst: Seq<PluginInfo>, av: Seq<AvailablePlugin>|
            #[trigger] installed_list(inst, src.installed@, src.invocables@, src.usage@, src.disk, src.available@)
            && #[trigger] available_list(av, src.available@, src.installed@)
            && stable_sorted_desc(
                inst.filter(|p: PluginInfo| installed_kept(*query, p)),
                res.installed@,
                |p: PluginInfo| installed_key(p),
            ) && stable_sorted_desc(
                av.filter(|a: AvailablePlugin| available_kept(*query, a)),
                res.available@,
                |a: AvailablePlugin| available_key(a),
            ) && res.orphan_count == inst.filter(|p: PluginInfo| orphaned(p)).len()
            && res.duplicate_count == inst.filter(|p: PluginInfo| duplicated(p)).len()
            && res.unused_count == inst.filter(|p: PluginInfo| unused_since(p, now - UNUSED_AFTER_SECS)).len()
            && res.updatable_count == inst.filter(|p: PluginInfo| is_updatable(p)).len(),
        res.total_installed == res.installed@.len(),
        res.total_available == res.available@.len(),
        res.cli_error == src.cli_error,
        forall|p: int, q: int|
            0 <= p < q < res.marketplaces@.len() ==> lex_lt(
                #[trigger] res.marketplaces@[p].name@,
                #[trigger] res.marketplaces@[q].name@,
            ),
        forall|x: Seq<char>| #[trigger] market_names(res.marketplaces@).contains(x) <==> installed_markets(src.installed@).contains(x),
        forall|k: int|
            0 <= k < res.marketplaces@.len() ==> market_info_from(
                #[trigger] res.marketplaces@[k],
                src.marketplaces@,
                src.installed@,
                src.available@,
            ),
        res.user_skills@.len() == user_items_of(src.invocables@, InvocableKind::Skill).len(),
        forall|j: int|
            0 <= j < res.user_skills@.len() ==> user_item_from(
                #[trigger] res.user_skills@[j],
                user_items_of(src.invocables@, InvocableKind::Skill)[j],
                InvocableKind::Skill,
            ),
        res.user_commands@.len() == user_items_of(src.invocables@, InvocableKind::Command).len(),
        forall|j: int|
            0 <= j < res.user_commands@.len() ==> user_item_from(
                #[trigger] res.user_commands@[j],
                user_items_of(src.invocables@, InvocableKind::Command)[j],
                InvocableKind::Command,
            ),
        res.user_agents@.len() == user_items_of(src.invocables@, InvocableKind::Agent).len(),
        forall|j: int|
            0 <= j < res.user_agents@.len() ==> user_item_from(
                #[trigger] res.user_agents@[j],
                user_items_of(src.invocables@, InvocableKind::Agent)[j],
                InvocableKind::Agent,
            ),
{
    let mut installed = build_installed(
        &src.installed,
        &src.invocables,
        &src.usage,
        &src.disk,
        &src.available,
    );
    let counts = catalog_counts(&installed, now);
    let mut available = build_available(&src.available, &src.installed);
    let ghost inst = installed@;
    let ghost av = available@;
    let marketplaces = plugin_marketplaces(&src.installed, &src.available, &src.marketplaces);
    let user_skills = user_items(&src.invocables, InvocableKind::Skill);
    let user_commands = user_items(&src.invocables, InvocableKind::Command);
    let user_agents = user_items(&src.invocables, InvocableKind::Agent);
    apply_filters(query, &mut installed, &mut available);
    let total_installed = installed.len();
    let total_available = available.len();
    let res = PluginsResponse {
        installed,
        available,
        total_installed,
        total_available,
        duplicate_count: counts.duplicate_count,
        unused_count: counts.unused_count,
        updatable_count: counts.updatable_count,
        marketplaces,
        cli_error: src.cli_error,
        orphan_count: counts.orphan_count,
        user_skills,
        user_commands,
        user_agents,
    };
    assert(installed_list(inst, src.installed@, src.invocables@, src.usage@, src.disk, src.available@));
    assert(available_list(av, src.available@, src.installed@));
    res
}

// ---------------------------------------------------------------------------
// Laws
// ---------------------------------------------------------------------------

/// Installed plugins counted over a list of marketplaces.
pub open spec fn installed_total(ms: Seq<MarketplaceInfo>) -> int
    decreases ms.len(),
{
    if ms.len() == 0 {
        0
    } else {
        installed_total(ms.drop_last()) + ms.last().installed_count
    }
}

proof fn lemma_installed_total_sum(ms: Seq<MarketplaceInfo>, cli: Seq<CliInstalledPlugin>)
    requires
        forall|k: int| 0 <= k < ms.len() ==> #[trigger] ms[k].installed_count == installed_in(cli, ms[k].name@),
    ensures
        installed_total(ms) == sum_by_names(cli, market_key(), market_names(ms)),
    decreases ms.len(),
{
    if ms.len() > 0 {
        let d = ms.drop_last();
        assert forall|k: int| 0 <= k < d.len() implies #[trigger] d[k].installed_count == installed_in(cli, d[k].name@) by {
            assert(d[k] == ms[k]);
        }
        lemma_installed_total_sum(d, cli);
        assert(market_names(ms).drop_last() =~= market_names(d));
        assert(ms[ms.len() - 1].installed_count == installed_in(cli, ms[ms.len() - 1].name@));
    }
}

/// The installed counts of the catalogue's marketplaces add up to the number
/// of installed plugins: each is counted under exactly one marketplace.
pub proof fn law_marketplace_counts_add_up(
    ms: Seq<MarketplaceInfo>,
    cms: Seq<CliMarketplace>,
    cli: Seq<CliInstalledPlugin>,
    avail: Seq<CliAvailablePlugin>,
)
    requires
        forall|p: int, q: int| 0 <= p < q < ms.len() ==> lex_lt(#[trigger] ms[p].name@, #[trigger] ms[q].name@),
        forall|x: Seq<char>| #[trigger] market_names(ms).contains(x) <==> installed_markets(cli).contains(x),
        forall|k: int| 0 <= k < ms.len() ==> market_info_from(#[trigger] ms[k], cms, cli, avail),
    ensures
        installed_total(ms) == cli.len(),
{
    let names = market_names(ms);
    assert forall|i: int, j: int| 0 <= i < j < names.len() implies names[i] != names[j] by {
        assert(lex_lt(ms[i].name@, ms[j].name@));
        lemma_lex_irreflexive(ms[i].name@);
    }
    assert forall|i: int| 0 <= i < cli.len() implies names.contains(market_key()(#[trigger] cli[i])) by {
        assert(installed_markets(cli)[i] == market_of(cli[i]));
        assert(installed_markets(cli).contains(market_of(cli[i])));
    }
    lemma_counts_add_up(cli, market_key(), names);
    assert forall|k: int| 0 <= k < ms.len() implies #[trigger] ms[k].installed_count == installed_in(cli, ms[k].name@) by {
        assert(market_info_from(ms[k], cms, cli, avail));
    }
    lemma_installed_total_sum(ms, cli);
}

/// Two installed copies of a plugin from different marketplaces each list
/// the other's marketplace among their duplicates.
pub proof fn law_duplicates_are_mutual(cli: Seq<CliInstalledPlugin>, i: int, j: int)
    requires
        0 <= i < cli.len(),
        0 <= j < cli.len(),
        id_name(cli[i].id@) == id_name(cli[j].id@),
        market_of(cli[i]) != market_of(cli[j]),
    ensures
        duplicates_of(cli, id_name(cli[i].id@), market_of(cli[i])).contains(market_of(cli[j])),
{
    let n = id_name(cli[i].id@);
    let named = cli.filter(id_named(n));
    let proj = |c: CliInstalledPlugin| id_marketplace(c.id@);
    let fmk = |m: Seq<char>| m != market_of(cli[i]);
    lemma_filter_keeps(cli, id_named(n), j);
    let k = choose|k: int| 0 <= k < named.len() && named[k] == cli[j];
    let mapped = named.map_values(proj);
    assert(mapped[k] == market_of(cli[j]));
    lemma_filter_keeps(mapped, fmk, k);
}

/// An item that passes a filter is among the filter's results.
proof fn lemma_filter_keeps<T>(s: Seq<T>, f: spec_fn(T) -> bool, i: int)
    requires
        0 <= i < s.len(),
        f(s[i]),
    ensures
        exists|k: int| 0 <= k < s.filter(f).len() && s.filter(f)[k] == s[i],
    decreases s.len(),
{
    let d = s.drop_last();
    d.lemma_filter_push(s.last(), f);
    assert(s =~= d.push(s.last()));
    if i == s.len() - 1 {
        assert(s.filter(f) == d.filter(f).push(s.last()));
        assert(s.filter(f)[d.filter(f).len() as int] == s[i]);
    } else {
        assert(d[i] == s[i]);
        lemma_filter_keeps(d, f, i);
        let k = choose|k: int| 0 <= k < d.filter(f).len() && d.filter(f)[k] == d[i];
        if f(s.last()) {
            assert(s.filter(f)[k] == d.filter(f)[k]);
        }
    }
}

/// The plugin lists that the catalogue is built from, given what fetching
/// them from the CLI gave: the lists and no error on success; on failure no
/// plugins and the failure's text, which the response reports as its CLI
/// error (a failed fetch is not fatal).
pub fn cli_lists_or_error(
    fetched: Result<(Vec<CliInstalledPlugin>, Vec<CliAvailablePlugin>), String>,
) -> (res: (Vec<CliInstalledPlugin>, Vec<CliAvailablePlugin>, Option<String>))
    ensures
        match fetched {
            Ok((i, a)) => res.0 == i && res.1 == a && res.2 is None,
            Err(e) => res.0@.len() == 0 && res.1@.len() == 0 && res.2 == Some(e),
        },
{
    match fetched {
        Ok((i, a)) => (i, a, None),
        Err(e) => (Vec::new(), Vec::new(), Some(e)),
    }
}

} // verus!
