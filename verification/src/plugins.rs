//! Plugin catalogue logic: plugin ids, list filters, input validation and
//! cleaning of CLI output.
use vstd::prelude::*;

use crate::error::ApiError;
use crate::order::{keep_where, sort_desc_stable, stable_sorted_desc};
use crate::text::{
    alphanumeric, chars_eq, chars_of, contains_chars, ends_with, has_infix, is_alphanumeric,
    joined_with, lemma_split_join, lemma_split_nonempty, lower_chars, starts_with,
    lowercase, push_str, split_chars, split_on, string_of, strip_prefixes, strip_prefixes_chars,
    strip_suffixes, strip_suffixes_chars, concat3, str_is,
};

verus! {

broadcast use vstd::seq_lib::group_seq_properties;

// ---------------------------------------------------------------------------
// Types
// ---------------------------------------------------------------------------

/// A single invocable item within a plugin (skill, command, agent, or MCP tool).
pub struct PluginItem {
    pub id: String,
    pub name: String,
    pub kind: String,
    pub description: String,
    /// Full file content for the item.
    pub content: String,
    pub invocation_count: i64,
    pub last_used_at: Option<i64>,
}

/// An installed plugin with its metadata, items, and usage stats.
pub struct PluginInfo {
    pub id: String,
    pub name: String,
    pub marketplace: String,
    pub scope: String,
    pub version: Option<String>,
    pub git_sha: Option<String>,
    pub enabled: bool,
    pub installed_at: String,
    pub last_updated: Option<String>,
    pub project_path: Option<String>,
    pub items: Vec<PluginItem>,
    pub skill_count: u32,
    pub command_count: u32,
    pub agent_count: u32,
    pub mcp_count: u32,
    pub total_invocations: i64,
    pub session_count: i64,
    pub last_used_at: Option<i64>,
    pub duplicate_marketplaces: Vec<String>,
    pub updatable: bool,
    pub errors: Vec<String>,
    /// True when the plugin's install directory exists on disk.
    pub source_exists: bool,
    /// Description from the marketplace listing.
    pub description: Option<String>,
    /// Global install count from the marketplace listing.
    pub install_count: Option<u64>,
}

/// A plugin available for installation (not yet installed).
pub struct AvailablePlugin {
    pub plugin_id: String,
    pub name: String,
    pub description: String,
    pub marketplace_name: String,
    pub version: Option<String>,
    pub install_count: Option<u64>,
    pub already_installed: bool,
}

/// A user-created skill, command, or agent (not from any marketplace).
pub struct UserItemInfo {
    pub name: String,
    /// "skill" | "command" | "agent"
    pub kind: String,
    /// Relative display path, e.g. "prove-it/SKILL.md".
    pub path: String,
    pub total_invocations: i64,
    pub session_count: i64,
    pub last_used_at: Option<i64>,
}

/// Query parameters for filtering and sorting the plugins list.
pub struct PluginsQuery {
    pub scope: Option<String>,
    pub source: Option<String>,
    pub kind: Option<String>,
    pub search: Option<String>,
    pub sort: Option<String>,
}

impl Default for PluginsQuery {
    /// The query with no filter set.
    fn default() -> (q: PluginsQuery)
        ensures
            q.scope is None && q.source is None && q.kind is None && q.search is None && q.sort is None,
    {
        PluginsQuery { scope: None, source: None, kind: None, search: None, sort: None }
    }
}

/// A configured marketplace.
pub struct MarketplaceInfo {
    pub name: String,
    pub source: String,
    pub repo: Option<String>,
    pub installed_count: usize,
    pub available_count: usize,
}

/// Full response for the plugins endpoint.
pub struct PluginsResponse {
    pub installed: Vec<PluginInfo>,
    pub available: Vec<AvailablePlugin>,
    pub total_installed: usize,
    pub total_available: usize,
    pub duplicate_count: usize,
    pub unused_count: usize,
    pub updatable_count: usize,
    pub marketplaces: Vec<MarketplaceInfo>,
    /// Non-empty when the CLI call failed.
    pub cli_error: Option<String>,
    pub orphan_count: usize,
    pub user_skills: Vec<UserItemInfo>,
    pub user_commands: Vec<UserItemInfo>,
    pub user_agents: Vec<UserItemInfo>,
}

/// Request body for a plugin action.
pub struct PluginActionRequest {
    /// "install" | "update" | "uninstall" | "enable" | "disable"
    pub action: String,
    /// Plugin name or full id.
    pub name: String,
    /// "user" | "project"
    pub scope: Option<String>,
    /// For project-scoped plugins: the project directory where it was installed.
    pub project_path: Option<String>,
}

/// Response for a plugin or marketplace action.
pub struct PluginActionResponse {
    pub success: bool,
    pub action: String,
    pub name: String,
    pub message: Option<String>,
}

/// Request body for a marketplace action.
pub struct MarketplaceActionRequest {
    /// "add" | "remove" | "update"
    pub action: String,
    /// For add: GitHub repo URL or owner/repo.
    pub source: Option<String>,
    /// For remove/update: marketplace name.
    pub name: Option<String>,
    /// For add: "user" | "project".
    pub scope: Option<String>,
}

// ---------------------------------------------------------------------------
// Plugin ids
// ---------------------------------------------------------------------------

/// `id` contains an '@' at position `pos` and none after it.
pub open spec fn last_at_sign(id: Seq<char>, pos: int) -> bool {
    &&& 0 <= pos < id.len()
    &&& id[pos] == '@'
    &&& forall|j: int| pos < j < id.len() ==> id[j] != '@'
}

/// `id` contains an '@'.
pub open spec fn has_at_sign(id: Seq<char>) -> bool {
    exists|p: int| 0 <= p < id.len() && id[p] == '@'
}

/// Position of the last '@' of `id` (meaningful when there is one).
pub open spec fn last_at(id: Seq<char>) -> int {
    choose|p: int| last_at_sign(id, p)
}

/// The plugin-name part of a plugin id: all before the last '@', or the whole
/// id when it has none.
pub open spec fn id_name(id: Seq<char>) -> Seq<char> {
    if has_at_sign(id) {
        id.subrange(0, last_at(id))
    } else {
        id
    }
}

/// The marketplace part of a plugin id: all after the last '@', or empty when
/// it has none.
pub open spec fn id_marketplace(id: Seq<char>) -> Seq<char> {
    if has_at_sign(id) {
        id.subrange(last_at(id) + 1, id.len() as int)
    } else {
        Seq::empty()
    }
}

/// Where `id` has an '@', its last one is where `last_at` points.
pub proof fn lemma_last_at(id: Seq<char>)
    requires
        has_at_sign(id),
    ensures
        last_at_sign(id, last_at(id)),
    decreases id.len(),
{
    if id.last() == '@' {
        assert(last_at_sign(id, id.len() - 1));
    } else {
        let q = choose|p: int| 0 <= p < id.len() && id[p] == '@';
        let d = id.drop_last();
        assert(q < d.len());
        assert(d[q] == '@');
        lemma_last_at(d);
        let r = last_at(d);
        assert forall|j: int| r < j < id.len() implies id[j] != '@' by {
            if j < d.len() {
                assert(d[j] == id[j]);
            }
        }
        assert(last_at_sign(id, r));
    }
}

/// Split a plugin id like "name@marketplace" into (name, marketplace) at the
/// last '@'; without an '@' the whole id is the name and the marketplace is empty.
pub fn parse_plugin_id(id: &str) -> (res: (String, String))
    ensures
        res.0@ == id_name(id@),
        res.1@ == id_marketplace(id@),
        (forall|j: int| 0 <= j < id@.len() ==> id@[j] != '@') ==> res.0@ == id@ && res.1@
            == Seq::<char>::empty(),
        forall|pos: int|
            last_at_sign(id@, pos) ==> res.0@ == id@.subrange(0, pos) && res.1@ == id@.subrange(
                pos + 1,
                id@.len() as int,
            ),
{
    let cs = chars_of(id);
    let mut i: usize = cs.len();
    while i > 0 && cs[i - 1] != '@'
        invariant
            i <= cs.len(),
            forall|j: int| i <= j < cs.len() ==> cs@[j] != '@',
        decreases i,
    {
        i = i - 1;
    }
    if i == 0 {
        proof {
            assert(!has_at_sign(id@));
        }
        (string_of(&cs), String::new())
    } else {
        let pos = i - 1;
        let name = crate::text::slice_chars(&cs, 0, pos);
        let market = crate::text::slice_chars(&cs, pos + 1, cs.len());
        proof {
            assert forall|p: int| last_at_sign(id@, p) implies p == pos by {
                if p < pos {
                    assert(cs@[pos as int] == '@');
                }
            }
            assert(last_at_sign(id@, pos as int));
            assert(has_at_sign(id@));
            lemma_last_at(id@);
        }
        (string_of(&name), string_of(&market))
    }
}

// ---------------------------------------------------------------------------
// List filters
// ---------------------------------------------------------------------------

/// The installed plugin matches the (lowercased) search needle.
pub open spec fn installed_matches_search(p: PluginInfo, needle: Seq<char>) -> bool {
    ||| has_infix(lowercase(p.name@), needle)
    ||| has_infix(lowercase(p.marketplace@), needle)
    ||| (p.description matches Some(d) && has_infix(lowercase(d@), needle))
    ||| exists|i: int| 0 <= i < p.items@.len() && has_infix(lowercase(#[trigger] p.items@[i].name@), needle)
}

/// The installed plugin survives the search, scope, source and kind filters of `q`.
pub open spec fn installed_kept(q: PluginsQuery, p: PluginInfo) -> bool {
    &&& (q.search matches Some(s) ==> installed_matches_search(p, lowercase(s@)))
    &&& (q.scope matches Some(sc) ==> lowercase(sc@) != "available"@ && lowercase(p.scope@)
        == lowercase(sc@))
    &&& (q.source matches Some(src) ==> lowercase(p.marketplace@) == lowercase(src@))
    &&& (q.kind matches Some(k) ==> lowercase(k@) == "plugin"@ || exists|i: int|
        0 <= i < p.items@.len() && lowercase(#[trigger] p.items@[i].kind@) == lowercase(k@))
}

/// The available plugin survives the search, scope and source filters of `q`
/// (available plugins carry no kind).
pub open spec fn available_kept(q: PluginsQuery, a: AvailablePlugin) -> bool {
    &&& (q.search matches Some(s) ==> has_infix(lowercase(a.name@), lowercase(s@)) || has_infix(
        lowercase(a.description@),
        lowercase(s@),
    ) || has_infix(lowercase(a.marketplace_name@), lowercase(s@)))
    &&& (q.scope matches Some(sc) ==> lowercase(sc@) == "available"@)
    &&& (q.source matches Some(src) ==> lowercase(a.marketplace_name@) == lowercase(src@))
}

/// Sort key of an installed plugin: its install count, 0 when unknown.
pub open spec fn installed_key(p: PluginInfo) -> int {
    match p.install_count {
        Some(n) => n as int,
        None => 0,
    }
}

/// Sort key of an available plugin: its install count, 0 when unknown.
pub open spec fn available_key(a: AvailablePlugin) -> int {
    match a.install_count {
        Some(n) => n as int,
        None => 0,
    }
}

/// Lowercased form of an optional query value.
fn lower_opt(s: &Option<String>) -> (res: Option<Vec<char>>)
    ensures
        s is None ==> res is None,
        s matches Some(v) ==> res matches Some(r) && r@ == lowercase(v@),
{
    match s {
        Some(v) => Some(lower_chars(v.as_str())),
        None => None,
    }
}

fn search_hits_installed(p: &PluginInfo, needle: &Vec<char>) -> (res: bool)
    ensures
        res == installed_matches_search(*p, needle@),
{
    if contains_chars(&lower_chars(p.name.as_str()), needle) {
        return true;
    }
    if contains_chars(&lower_chars(p.marketplace.as_str()), needle) {
        return true;
    }
    match &p.description {
        Some(d) => {
            if contains_chars(&lower_chars(d.as_str()), needle) {
                return true;
            }
        },
        None => {},
    }
    let mut i: usize = 0;
    while i < p.items.len()
        invariant
            i <= p.items@.len(),
            forall|j: int| 0 <= j < i ==> !has_infix(lowercase(#[trigger] p.items@[j].name@), needle@),
        decreases p.items@.len() - i,
    {
        if contains_chars(&lower_chars(p.items[i].name.as_str()), needle) {
            return true;
        }
        i = i + 1;
    }
    false
}

fn has_item_of_kind(p: &PluginInfo, kind: &Vec<char>) -> (res: bool)
    ensures
        res == exists|i: int| 0 <= i < p.items@.len() && lowercase(#[trigger] p.items@[i].kind@) == kind@,
{
    let mut i: usize = 0;
    while i < p.items.len()
        invariant
            i <= p.items@.len(),
            forall|j: int| 0 <= j < i ==> lowercase(#[trigger] p.items@[j].kind@) != kind@,
        decreases p.items@.len() - i,
    {
        if chars_eq(&lower_chars(p.items[i].kind.as_str()), kind) {
            return true;
        }
        i = i + 1;
    }
    false
}

/// The lowercased forms of the query's filters.
struct LoweredQuery {
    search: Option<Vec<char>>,
    scope: Option<Vec<char>>,
    source: Option<Vec<char>>,
    kind: Option<Vec<char>>,
}

spec fn lowers(q: PluginsQuery, l: LoweredQuery) -> bool {
    &&& (q.search is None <==> l.search is None)
    &&& (q.search matches Some(s) ==> l.search.unwrap()@ == lowercase(s@))
    &&& (q.scope is None <==> l.scope is None)
    &&& (q.scope matches Some(s) ==> l.scope.unwrap()@ == lowercase(s@))
    &&& (q.source is None <==> l.source is None)
    &&& (q.source matches Some(s) ==> l.source.unwrap()@ == lowercase(s@))
    &&& (q.kind is None <==> l.kind is None)
    &&& (q.kind matches Some(s) ==> l.kind.unwrap()@ == lowercase(s@))
}

fn keep_installed(q: &LoweredQuery, p: &PluginInfo, query: &PluginsQuery) -> (res: bool)
    requires
        lowers(*query, *q),
    ensures
        res == installed_kept(*query, *p),
{
    let available = chars_of("available");
    let plugin = chars_of("plugin");
    match &q.search {
        Some(n) => {
            if !search_hits_installed(p, n) {
                return false;
            }
        },
        None => {},
    }
    match &q.scope {
        Some(sc) => {
            if chars_eq(sc, &available) {
                return false;
            }
            if !chars_eq(&lower_chars(p.scope.as_str()), sc) {
                return false;
            }
        },
        None => {},
    }
    match &q.source {
        Some(src) => {
            if !chars_eq(&lower_chars(p.marketplace.as_str()), src) {
                return false;
            }
        },
        None => {},
    }
    match &q.kind {
        Some(k) => {
            if !chars_eq(k, &plugin) && !has_item_of_kind(p, k) {
                return false;
            }
        },
        None => {},
    }
    true
}

fn keep_available(q: &LoweredQuery, a: &AvailablePlugin, query: &PluginsQuery) -> (res: bool)
    requires
        lowers(*query, *q),
    ensures
        res == available_kept(*query, *a),
{
    let available = chars_of("available");
    match &q.search {
        Some(n) => {
            if !contains_chars(&lower_chars(a.name.as_str()), n) && !contains_chars(
                &lower_chars(a.description.as_str()),
                n,
            ) && !contains_chars(&lower_chars(a.marketplace_name.as_str()), n) {
                return false;
            }
        },
        None => {},
    }
    match &q.scope {
        Some(sc) => {
            if !chars_eq(sc, &available) {
                return false;
            }
        },
        None => {},
    }
    match &q.source {
        Some(src) => {
            if !chars_eq(&lower_chars(a.marketplace_name.as_str()), src) {
                return false;
            }
        },
        None => {},
    }
    true
}

/// Apply query filters to installed and available plugin lists, then order
/// both by install count, largest first (ties keep their order).
///
/// Search matches name, marketplace, description or item names (installed) and
/// name, description or marketplace (available), case-insensitively. A scope of
/// "available" drops all installed plugins; any other scope keeps the installed
/// plugins of that scope and drops all available ones. Source keeps plugins of
/// that marketplace. Kind keeps installed plugins with an item of that kind,
/// unless the kind is "plugin".
pub fn apply_filters(
    query: &PluginsQuery,
    installed: &mut Vec<PluginInfo>,
    available: &mut Vec<AvailablePlugin>,
)
    ensures
        stable_sorted_desc(
            old(installed)@.filter(|p: PluginInfo| installed_kept(*query, p)),
            final(installed)@,
            |p: PluginInfo| installed_key(p),
        ),
        stable_sorted_desc(
            old(available)@.filter(|a: AvailablePlugin| available_kept(*query, a)),
            final(available)@,
            |a: AvailablePlugin| available_key(a),
        ),
{
    let lq = LoweredQuery {
        search: lower_opt(&query.search),
        scope: lower_opt(&query.scope),
        source: lower_opt(&query.source),
        kind: lower_opt(&query.kind),
    };
    let mut inst: Vec<PluginInfo> = Vec::new();
    std::mem::swap(&mut inst, installed);
    let mut avail: Vec<AvailablePlugin> = Vec::new();
    std::mem::swap(&mut avail, available);

    let keep_i = |p: &PluginInfo| -> (b: bool)
        ensures
            b == installed_kept(*query, *p),
    { keep_installed(&lq, p, query) };
    let keep_a = |a: &AvailablePlugin| -> (b: bool)
        ensures
            b == available_kept(*query, *a),
    { keep_available(&lq, a, query) };
    let key_i = |p: &PluginInfo| -> (k: i128)
        ensures
            k == installed_key(*p),
    {
        match p.install_count {
            Some(n) => n as i128,
            None => 0,
        }
    };
    let key_a = |a: &AvailablePlugin| -> (k: i128)
        ensures
            k == available_key(*a),
    {
        match a.install_count {
            Some(n) => n as i128,
            None => 0,
        }
    };
    let kept_inst = keep_where(inst, keep_i, Ghost(|p: PluginInfo| installed_kept(*query, p)));
    let kept_avail = keep_where(avail, keep_a, Ghost(|a: AvailablePlugin| available_kept(*query, a)));
    let sorted_inst = sort_desc_stable(kept_inst, key_i, Ghost(|p: PluginInfo| installed_key(p)));
    let sorted_avail = sort_desc_stable(kept_avail, key_a, Ghost(|a: AvailablePlugin| available_key(a)));
    *installed = sorted_inst;
    *available = sorted_avail;
}

// ---------------------------------------------------------------------------
// Input validation
// ---------------------------------------------------------------------------

/// An ASCII letter or digit.
pub open spec fn ascii_alnum(c: char) -> bool {
    ('a' <= c && c <= 'z') || ('A' <= c && c <= 'Z') || ('0' <= c && c <= '9')
}

/// Characters allowed in a plugin name: `[a-zA-Z0-9._@-]`.
pub open spec fn plugin_name_char(c: char) -> bool {
    ascii_alnum(c) || c == '-' || c == '_' || c == '.' || c == '@'
}

/// A plugin name that cannot be mistaken for a CLI flag: non-empty, at most 128
/// bytes, not starting with '-', made of ASCII letters, digits and `-_.@`.
pub open spec fn valid_plugin_name(name: Seq<char>) -> bool {
    &&& name.len() > 0
    &&& vstd::utf8::encode_utf8(name).len() <= 128
    &&& name[0] != '-'
    &&& forall|i: int| 0 <= i < name.len() ==> plugin_name_char(#[trigger] name[i])
}

/// Message of a rejected plugin name.
pub open spec fn bad_plugin_name_message(name: Seq<char>) -> Seq<char> {
    "Invalid plugin name: "@ + name
        + ". Must start with alphanumeric and contain only alphanumeric, hyphens, underscores, dots, and @."@
}

/// Reject CLI flag injection: only `[a-zA-Z0-9._@-]`, not starting with '-'.
pub fn validate_plugin_name(name: &str) -> (res: Result<(), ApiError>)
    ensures
        res is Ok <==> valid_plugin_name(name@),
        res matches Err(e) ==> e matches ApiError::BadRequest(m) && m@ == bad_plugin_name_message(
            name@,
        ),
{
    let cs = chars_of(name);
    let mut ok = cs.len() > 0 && name.as_bytes().len() <= 128 && cs[0] != '-';
    let mut i: usize = 0;
    while ok && i < cs.len()
        invariant
            i <= cs.len(),
            cs@ == name@,
            ok ==> forall|j: int| 0 <= j < i ==> plugin_name_char(#[trigger] cs@[j]),
            ok ==> cs@.len() > 0 && vstd::utf8::encode_utf8(name@).len() <= 128 && cs@[0] != '-',
            !ok ==> !valid_plugin_name(name@),
        decreases cs.len() - i,
    {
        let c = cs[i];
        let alnum = ('a' <= c && c <= 'z') || ('A' <= c && c <= 'Z') || ('0' <= c && c <= '9');
        if !(alnum || c == '-' || c == '_' || c == '.' || c == '@') {
            ok = false;
        }
        i = i + 1;
    }
    if ok {
        Ok(())
    } else {
        Err(
            ApiError::BadRequest(
                concat3(
                    "Invalid plugin name: ",
                    name,
                    ". Must start with alphanumeric and contain only alphanumeric, hyphens, underscores, dots, and @.",
                ),
            ),
        )
    }
}

/// Accept no scope, "user" or "project".
pub fn validate_scope(scope: &Option<String>) -> (res: Result<(), ApiError>)
    ensures
        res is Ok <==> (scope matches Some(s) ==> s@ == "user"@ || s@ == "project"@),
        res matches Err(e) ==> e matches ApiError::BadRequest(m) && scope matches Some(s) && m@
            == "Invalid scope: "@ + s@ + ". Must be 'user' or 'project'."@,
{
    match scope {
        Some(s) => {
            if !str_is(s.as_str(), "user") && !str_is(s.as_str(), "project") {
                return Err(
                    ApiError::BadRequest(
                        concat3("Invalid scope: ", s.as_str(), ". Must be 'user' or 'project'."),
                    ),
                );
            }
            Ok(())
        },
        None => Ok(()),
    }
}

/// Characters allowed in each half of an `owner/repo` marketplace source.
pub open spec fn source_char(c: char) -> bool {
    alphanumeric(c) || c == '-' || c == '_' || c == '.'
}

/// The short `owner/repo` form of a marketplace source: GitHub URL prefixes,
/// trailing slashes and trailing `.git` removed.
pub open spec fn short_source(source: Seq<char>) -> Seq<char> {
    strip_suffixes(
        strip_suffixes(
            strip_prefixes(strip_prefixes(source, "https://github.com/"@), "http://github.com/"@),
            "/"@,
        ),
        ".git"@,
    )
}

/// The short form splits into exactly two non-empty parts at '/'.
pub open spec fn source_shape_ok(short: Seq<char>) -> bool {
    let parts = split_on(short, '/');
    parts.len() == 2 && parts[0].len() > 0 && parts[1].len() > 0
}

/// Every character of both parts is allowed.
pub open spec fn source_chars_ok(short: Seq<char>) -> bool {
    let parts = split_on(short, '/');
    forall|k: int, j: int|
        0 <= k < parts.len() && 0 <= j < parts[k].len() ==> source_char(#[trigger] parts[k][j])
}

/// What validating `source` yields: the short form, or the message of the
/// rejection.
pub open spec fn marketplace_source_outcome(source: Seq<char>) -> Result<Seq<char>, Seq<char>> {
    let short = short_source(source);
    if !source_shape_ok(short) {
        Err("Invalid marketplace source: "@ + source + ". Use 'owner/repo' format."@)
    } else if !source_chars_ok(short) {
        Err("Invalid characters in marketplace source: "@ + source + "."@)
    } else if vstd::utf8::encode_utf8(short).len() > 256 {
        Err("Marketplace source too long."@)
    } else {
        Ok(short)
    }
}

/// Validate a marketplace source and return its `owner/repo` short form.
pub fn validate_marketplace_source(source: &str) -> (res: Result<String, ApiError>)
    ensures
        match res {
            Ok(s) => marketplace_source_outcome(source@) == Ok::<Seq<char>, Seq<char>>(s@),
            Err(e) => e matches ApiError::BadRequest(m) && marketplace_source_outcome(source@)
                == Err::<Seq<char>, Seq<char>>(m@),
        },
{
    let cs = chars_of(source);
    let a = strip_prefixes_chars(&cs, &chars_of("https://github.com/"));
    let b = strip_prefixes_chars(&a, &chars_of("http://github.com/"));
    let c = strip_suffixes_chars(&b, &chars_of("/"));
    let short = strip_suffixes_chars(&c, &chars_of(".git"));
    let parts = split_chars(&short, '/');
    if parts.len() != 2 || parts[0].len() == 0 || parts[1].len() == 0 {
        return Err(
            ApiError::BadRequest(
                concat3("Invalid marketplace source: ", source, ". Use 'owner/repo' format."),
            ),
        );
    }
    assert(short@ == short_source(source@));
    assert(source_shape_ok(short@));
    let mut k: usize = 0;
    while k < parts.len()
        invariant
            short@ == short_source(source@),
            source_shape_ok(short@),
            k <= parts@.len(),
            parts@.len() == split_on(short@, '/').len(),
            forall|i: int| 0 <= i < parts@.len() ==> #[trigger] parts@[i]@ == split_on(short@, '/')[i],
            forall|kk: int, j: int|
                0 <= kk < k && 0 <= j < split_on(short@, '/')[kk].len() ==> source_char(
                    #[trigger] split_on(short@, '/')[kk][j],
                ),
        decreases parts@.len() - k,
    {
        let part = &parts[k];
        let mut j: usize = 0;
        while j < part.len()
            invariant
                short@ == short_source(source@),
                source_shape_ok(short@),
                k < parts@.len(),
                parts@.len() == split_on(short@, '/').len(),
                j <= part@.len(),
                part@ == split_on(short@, '/')[k as int],
                forall|jj: int| 0 <= jj < j ==> source_char(#[trigger] part@[jj]),
            decreases part@.len() - j,
        {
            let ch = part[j];
            if !(is_alphanumeric(ch) || ch == '-' || ch == '_' || ch == '.') {
                assert(!source_char(split_on(short@, '/')[k as int][j as int]));
                return Err(
                    ApiError::BadRequest(
                        concat3("Invalid characters in marketplace source: ", source, "."),
                    ),
                );
            }
            j = j + 1;
        }
        k = k + 1;
    }
    let short_s = string_of(&short);
    if short_s.as_str().as_bytes().len() > 256 {
        return Err(ApiError::BadRequest(crate::text::copy_str("Marketplace source too long.")));
    }
    Ok(short_s)
}

// ---------------------------------------------------------------------------
// ANSI stripping
// ---------------------------------------------------------------------------

/// A character that ends a CSI escape sequence: an ASCII letter, '~' or '@'.
pub open spec fn csi_final(c: char) -> bool {
    ('a' <= c && c <= 'z') || ('A' <= c && c <= 'Z') || c == '~' || c == '@'
}

/// How many characters of `t` a CSI sequence's parameters take: up to and
/// including the first final character, or all of `t`.
pub open spec fn csi_len(t: Seq<char>) -> int
    decreases t.len(),
{
    if t.len() == 0 {
        0
    } else if csi_final(t[0]) {
        1
    } else {
        1 + csi_len(t.skip(1))
    }
}

pub proof fn lemma_csi_len_bound(t: Seq<char>)
    ensures
        0 <= csi_len(t) <= t.len(),
    decreases t.len(),
{
    if t.len() > 0 && !csi_final(t[0]) {
        lemma_csi_len_bound(t.skip(1));
    }
}

/// `s` with its ANSI escape sequences removed: `ESC [ params final`,
/// `ESC ( c` and `ESC c` vanish, a lone trailing `ESC` too; every other
/// character is kept.
pub open spec fn ansi_stripped(s: Seq<char>) -> Seq<char>
    decreases s.len(),
{
    if s.len() == 0 {
        Seq::<char>::empty()
    } else if s[0] == '\x1b' {
        if s.len() == 1 {
            Seq::<char>::empty()
        } else if s[1] == '[' {
            proof {
                lemma_csi_len_bound(s.skip(2));
            }
            ansi_stripped(s.skip(2 + csi_len(s.skip(2))))
        } else if s[1] == '(' && s.len() >= 3 {
            ansi_stripped(s.skip(3))
        } else {
            ansi_stripped(s.skip(2))
        }
    } else {
        seq![s[0]] + ansi_stripped(s.skip(1))
    }
}

/// Strip ANSI escape sequences (color codes, cursor moves) from CLI output.
#[verifier::spinoff_prover]
pub fn strip_ansi(s: &str) -> (res: String)
    ensures
        res@ == ansi_stripped(s@),
{
    let cs = chars_of(s);
    let n = cs.len();
    let mut out: Vec<char> = Vec::new();
    let mut i: usize = 0;
    while i < n
        invariant
            n == cs@.len(),
            i <= n,
            ansi_stripped(cs@) == out@ + ansi_stripped(cs@.skip(i as int)),
        decreases n - i,
    {
        let ghost rest = cs@.skip(i as int);
        let c = cs[i];
        if c == '\x1b' {
            if i + 1 < n {
                let next = cs[i + 1];
                if next == '[' {
                    let mut j: usize = i + 2;
                    let mut done = false;
                    while !done && j < n
                        invariant
                            n == cs@.len(),
                            i + 2 <= j <= n,
                            rest == cs@.skip(i as int),
                            !done ==> csi_len(cs@.skip(i + 2)) == (j - (i + 2)) + csi_len(
                                cs@.skip(j as int),
                            ),
                            done ==> csi_len(cs@.skip(i + 2)) == j - (i + 2),
                        decreases n - j,
                    {
                        let p = cs[j];
                        assert(cs@.skip(j as int)[0] == p);
                        assert(cs@.skip(j as int).skip(1) == cs@.skip(j + 1));
                        if ('a' <= p && p <= 'z') || ('A' <= p && p <= 'Z') || p == '~' || p == '@' {
                            done = true;
                        }
                        j = j + 1;
                    }
                    proof {
                        assert(rest.skip(2) == cs@.skip(i + 2));
                        assert(rest.skip(2 + csi_len(rest.skip(2))) == cs@.skip(j as int));
                    }
                    i = j;
                } else {
                    proof {
                        assert(rest.skip(2) == cs@.skip(i + 2));
                    }
                    if next == '(' && i + 2 < n {
                        assert(rest.skip(3) == cs@.skip(i + 3));
                        i = i + 3;
                    } else {
                        i = i + 2;
                    }
                }
            } else {
                i = i + 1;
            }
        } else {
            proof {
                assert(rest.skip(1) == cs@.skip(i + 1));
            }
            out.push(c);
            i = i + 1;
        }
    }
    assert(cs@.skip(n as int) == Seq::<char>::empty());
    string_of(&out)
}

// ---------------------------------------------------------------------------
// Laws
// ---------------------------------------------------------------------------

/// A plugin id with an '@' is its name, '@' and its marketplace, and the
/// marketplace holds no '@'; an id without one is all name, with no
/// marketplace.
pub proof fn law_plugin_id_recomposes(id: Seq<char>)
    ensures
        has_at_sign(id) ==> id_name(id) + "@"@ + id_marketplace(id) == id && !has_at_sign(
            id_marketplace(id),
        ),
        !has_at_sign(id) ==> id_name(id) == id && id_marketplace(id).len() == 0,
{
    if has_at_sign(id) {
        lemma_last_at(id);
        let p = last_at(id);
        reveal_strlit("@");
        assert(id_name(id) + "@"@ + id_marketplace(id) =~= id);
        let m = id_marketplace(id);
        assert forall|q: int| 0 <= q < m.len() implies m[q] != '@' by {
            assert(m[q] == id[p + 1 + q]);
        }
    }
}

/// Text without an escape character passes through unchanged.
pub proof fn law_strip_ansi_keeps_plain_text(s: Seq<char>)
    requires
        forall|i: int| 0 <= i < s.len() ==> s[i] != '\x1b',
    ensures
        ansi_stripped(s) == s,
    decreases s.len(),
{
    if s.len() > 0 {
        law_strip_ansi_keeps_plain_text(s.skip(1));
        assert(seq![s[0]] + s.skip(1) =~= s);
    }
}

/// `a` is `b` with some characters left out (the rest in their order).
pub open spec fn is_subsequence(a: Seq<char>, b: Seq<char>) -> bool
    decreases b.len(),
{
    if b.len() == 0 {
        a.len() == 0
    } else {
        is_subsequence(a, b.skip(1)) || (a.len() > 0 && a[0] == b[0] && is_subsequence(a.skip(1), b.skip(1)))
    }
}

/// A subsequence of a suffix of `b` is a subsequence of `b`, and no longer.
pub proof fn lemma_subsequence_of_suffix(a: Seq<char>, b: Seq<char>, k: int)
    requires
        0 <= k <= b.len(),
        is_subsequence(a, b.skip(k)),
    ensures
        is_subsequence(a, b),
    decreases k,
{
    if k > 0 {
        assert(b.skip(1).skip(k - 1) =~= b.skip(k));
        lemma_subsequence_of_suffix(a, b.skip(1), k - 1);
    } else {
        assert(b.skip(0) =~= b);
    }
}

/// A subsequence is no longer than what it is taken from.
pub proof fn lemma_subsequence_len(a: Seq<char>, b: Seq<char>)
    requires
        is_subsequence(a, b),
    ensures
        a.len() <= b.len(),
    decreases b.len(),
{
    if b.len() > 0 {
        if is_subsequence(a, b.skip(1)) {
            lemma_subsequence_len(a, b.skip(1));
        } else {
            lemma_subsequence_len(a.skip(1), b.skip(1));
        }
    }
}

/// Stripping only removes characters: the result is a subsequence of the
/// text, so never longer.
pub proof fn law_strip_ansi_only_removes(s: Seq<char>)
    ensures
        is_subsequence(ansi_stripped(s), s),
        ansi_stripped(s).len() <= s.len(),
    decreases s.len(),
{
    if s.len() == 0 {
    } else if s[0] == '\x1b' {
        if s.len() == 1 {
            assert(is_subsequence(ansi_stripped(s), s.skip(1)));
        } else if s[1] == '[' {
            lemma_csi_len_bound(s.skip(2));
            let k = 2 + csi_len(s.skip(2));
            law_strip_ansi_only_removes(s.skip(k));
            lemma_subsequence_of_suffix(ansi_stripped(s), s, k);
        } else if s[1] == '(' && s.len() >= 3 {
            law_strip_ansi_only_removes(s.skip(3));
            lemma_subsequence_of_suffix(ansi_stripped(s), s, 3);
        } else {
            law_strip_ansi_only_removes(s.skip(2));
            lemma_subsequence_of_suffix(ansi_stripped(s), s, 2);
        }
    } else {
        law_strip_ansi_only_removes(s.skip(1));
        let r = ansi_stripped(s.skip(1));
        assert((seq![s[0]] + r).skip(1) =~= r);
        assert((seq![s[0]] + r)[0] == s[0]);
    }
    lemma_subsequence_len(ansi_stripped(s), s);
}

/// Stripped text holds no escape character.
pub proof fn law_strip_ansi_leaves_no_escape(s: Seq<char>)
    ensures
        forall|i: int| 0 <= i < ansi_stripped(s).len() ==> ansi_stripped(s)[i] != '\x1b',
    decreases s.len(),
{
    if s.len() > 0 {
        if s[0] == '\x1b' {
            if s.len() == 1 {
                assert(ansi_stripped(s).len() == 0);
            } else if s[1] == '[' {
                lemma_csi_len_bound(s.skip(2));
                let t = s.skip(2 + csi_len(s.skip(2)));
                law_strip_ansi_leaves_no_escape(t);
                assert(ansi_stripped(s) == ansi_stripped(t));
            } else if s[1] == '(' && s.len() >= 3 {
                law_strip_ansi_leaves_no_escape(s.skip(3));
                assert(ansi_stripped(s) == ansi_stripped(s.skip(3)));
            } else {
                law_strip_ansi_leaves_no_escape(s.skip(2));
                assert(ansi_stripped(s) == ansi_stripped(s.skip(2)));
            }
        } else {
            law_strip_ansi_leaves_no_escape(s.skip(1));
            let r = ansi_stripped(s.skip(1));
            assert(ansi_stripped(s) == seq![s[0]] + r);
            assert forall|i: int| 0 <= i < ansi_stripped(s).len() implies ansi_stripped(s)[i] != '\x1b' by {
                if i > 0 {
                    assert(ansi_stripped(s)[i] == r[i - 1]);
                } else {
                    assert(ansi_stripped(s)[0] == s[0]);
                }
            }
        }
    }
}

/// Stripping twice is stripping once.
pub proof fn law_strip_ansi_idempotent(s: Seq<char>)
    ensures
        ansi_stripped(ansi_stripped(s)) == ansi_stripped(s),
{
    law_strip_ansi_leaves_no_escape(s);
    law_strip_ansi_keeps_plain_text(ansi_stripped(s));
}

/// A query with no filter set keeps every installed and every available plugin.
pub proof fn law_unfiltered_query_keeps_all(q: PluginsQuery, p: PluginInfo, a: AvailablePlugin)
    requires
        q.scope is None && q.source is None && q.kind is None && q.search is None,
    ensures
        installed_kept(q, p),
        available_kept(q, a),
{
}

/// The search filter alone: an available plugin stays exactly when the
/// lowercased search text occurs in its lowercased name, description or
/// marketplace name; an installed one when it occurs in its name,
/// marketplace, description or the name of one of its items.
pub proof fn law_search_filter(q: PluginsQuery, p: PluginInfo, a: AvailablePlugin)
    requires
        q.search is Some,
        q.scope is None && q.source is None && q.kind is None,
    ensures
        ({
            let n = lowercase(q.search.unwrap()@);
            &&& available_kept(q, a) <==> (has_infix(lowercase(a.name@), n) || has_infix(lowercase(a.description@), n)
                || has_infix(lowercase(a.marketplace_name@), n))
            &&& installed_kept(q, p) <==> (has_infix(lowercase(p.name@), n) || has_infix(lowercase(p.marketplace@), n)
                || (p.description is Some && has_infix(lowercase(p.description.unwrap()@), n))
                || exists|i: int| 0 <= i < p.items@.len() && has_infix(lowercase(#[trigger] p.items@[i].name@), n))
        }),
{
}

/// The scope filter alone: scope `available` (in any case) keeps every
/// available plugin and no installed one; any other scope keeps no available
/// plugin and the installed ones of that scope, compared in lower case.
pub proof fn law_scope_filter(q: PluginsQuery, p: PluginInfo, a: AvailablePlugin)
    requires
        q.scope is Some,
        q.search is None && q.source is None && q.kind is None,
    ensures
        ({
            let sc = lowercase(q.scope.unwrap()@);
            &&& sc == "available"@ ==> available_kept(q, a) && !installed_kept(q, p)
            &&& sc != "available"@ ==> !available_kept(q, a) && (installed_kept(q, p) <==> lowercase(p.scope@) == sc)
        }),
{
}

/// The source filter alone keeps the plugins of that marketplace, compared in
/// lower case; the kind filter alone keeps every available plugin, and the
/// installed ones with an item of that kind (every one for kind `plugin`).
pub proof fn law_source_and_kind_filters(q: PluginsQuery, p: PluginInfo, a: AvailablePlugin)
    requires
        q.search is None && q.scope is None,
    ensures
        q.kind is None && q.source is Some ==> (available_kept(q, a) <==> lowercase(a.marketplace_name@) == lowercase(
            q.source.unwrap()@,
        )) && (installed_kept(q, p) <==> lowercase(p.marketplace@) == lowercase(q.source.unwrap()@)),
        q.source is None && q.kind is Some ==> available_kept(q, a) && (installed_kept(q, p) <==> (lowercase(
            q.kind.unwrap()@,
        ) == "plugin"@ || exists|i: int|
            0 <= i < p.items@.len() && lowercase(#[trigger] p.items@[i].kind@) == lowercase(q.kind.unwrap()@))),
{
}

/// Filtered plugins come most installed first (an unknown count as 0).
pub proof fn law_plugins_by_install_count(
    inst: Seq<PluginInfo>,
    inst_out: Seq<PluginInfo>,
    avail: Seq<AvailablePlugin>,
    avail_out: Seq<AvailablePlugin>,
)
    requires
        stable_sorted_desc(inst, inst_out, |p: PluginInfo| installed_key(p)),
        stable_sorted_desc(avail, avail_out, |a: AvailablePlugin| available_key(a)),
    ensures
        forall|i: int, j: int|
            0 <= i < j < inst_out.len() ==> (match (#[trigger] inst_out[i]).install_count {
                Some(n) => n as int,
                None => 0,
            }) >= (match (#[trigger] inst_out[j]).install_count {
                Some(n) => n as int,
                None => 0,
            }),
        forall|i: int, j: int|
            0 <= i < j < avail_out.len() ==> (match (#[trigger] avail_out[i]).install_count {
                Some(n) => n as int,
                None => 0,
            }) >= (match (#[trigger] avail_out[j]).install_count {
                Some(n) => n as int,
                None => 0,
            }),
{
    assert forall|i: int, j: int| 0 <= i < j < inst_out.len() implies (match (#[trigger] inst_out[i]).install_count {
        Some(n) => n as int,
        None => 0,
    }) >= (match (#[trigger] inst_out[j]).install_count {
        Some(n) => n as int,
        None => 0,
    }) by {
        crate::order::lemma_sorted_keys_descend(inst, inst_out, |p: PluginInfo| installed_key(p), i, j);
    }
    assert forall|i: int, j: int| 0 <= i < j < avail_out.len() implies (match (#[trigger] avail_out[i]).install_count {
        Some(n) => n as int,
        None => 0,
    }) >= (match (#[trigger] avail_out[j]).install_count {
        Some(n) => n as int,
        None => 0,
    }) by {
        crate::order::lemma_sorted_keys_descend(avail, avail_out, |a: AvailablePlugin| available_key(a), i, j);
    }
}

/// What `strip_suffixes` leaves does not end with the suffix.
proof fn lemma_stripped_suffix_gone(s: Seq<char>, p: Seq<char>)
    requires
        p.len() > 0,
    ensures
        !ends_with(strip_suffixes(s, p), p),
    decreases s.len(),
{
    if ends_with(s, p) {
        lemma_stripped_suffix_gone(s.take(s.len() - p.len()), p);
    }
}

/// A well-formed `owner/repo` form not ending in ".git" is its own short form.
proof fn lemma_short_form_fixed(t: Seq<char>)
    requires
        source_shape_ok(t),
        source_chars_ok(t),
        !ends_with(t, ".git"@),
    ensures
        short_source(t) == t,
{
    let parts = split_on(t, '/');
    reveal_strlit("https://github.com/");
    reveal_strlit("http://github.com/");
    reveal_strlit("/");
    reveal_strlit(".git");
    // one '/' only: the text is two pieces without '/' joined by one
    lemma_split_join(t, '/');
    assert(parts.drop_last() =~= seq![parts[0]]);
    assert(joined_with(seq![parts[0]], '/') == parts[0]);
    assert(joined_with(parts, '/') == joined_with(parts.drop_last(), '/') + seq!['/'] + parts.last());
    assert(t == parts[0] + seq!['/'] + parts[1]);
    let n = parts[0].len();
    assert forall|i: int| 0 <= i < t.len() && i != n implies t[i] != '/' by {
        if i < n {
            assert(t[i] == parts[0][i]);
        } else {
            assert(t[i] == parts[1][i - n - 1]);
        }
    }
    if starts_with(t, "https://github.com/"@) {
        assert(t.subrange(0, 19)[6] == '/' && t.subrange(0, 19)[7] == '/');
        assert(t[6] == '/' && t[7] == '/');
    }
    if starts_with(t, "http://github.com/"@) {
        assert(t.subrange(0, 18)[5] == '/' && t.subrange(0, 18)[6] == '/');
        assert(t[5] == '/' && t[6] == '/');
    }
    assert(strip_prefixes(t, "https://github.com/"@) == t);
    assert(strip_prefixes(t, "http://github.com/"@) == t);
    // no trailing '/': its last piece would be empty
    if ends_with(t, "/"@) {
        assert(t.subrange(t.len() - 1, t.len() as int)[0] == t.last());
        assert(t.last() == '/');
        assert(t.len() > 0);
        lemma_split_nonempty(t.drop_last(), '/');
        assert(split_on(t, '/') == split_on(t.drop_last(), '/').push(Seq::<char>::empty()));
        assert(parts[parts.len() - 1].len() == 0);
    }
    assert(strip_suffixes(t, "/"@) == t);
    assert(strip_suffixes(t, ".git"@) == t);
}

/// Validating a source again in its accepted `owner/repo` form accepts it
/// unchanged.
pub proof fn law_source_validation_idempotent(source: Seq<char>, short: Seq<char>)
    requires
        marketplace_source_outcome(source) == Ok::<Seq<char>, Seq<char>>(short),
    ensures
        marketplace_source_outcome(short) == Ok::<Seq<char>, Seq<char>>(short),
{
    reveal_strlit(".git");
    let c = strip_suffixes(
        strip_prefixes(strip_prefixes(source, "https://github.com/"@), "http://github.com/"@),
        "/"@,
    );
    assert(short == strip_suffixes(c, ".git"@));
    lemma_stripped_suffix_gone(c, ".git"@);
    lemma_short_form_fixed(short);
}

} // verus!
