//! Marketplace mutations: which requests are accepted, the CLI command each
//! one runs, and the response built from the command's outcome.
use vstd::prelude::*;

use crate::error::ApiError;
use crate::plugins::{
    bad_plugin_name_message, marketplace_source_outcome, validate_marketplace_source,
    validate_plugin_name, validate_scope, valid_plugin_name, MarketplaceActionRequest,
    PluginActionResponse,
};
use crate::text::{chars_of, concat3, copy_str, str_is, string_of, trim_chars, trim_seq};

verus! {

/// A marketplace request after validation: what the CLI is to run.
pub struct MarketplaceCommand {
    /// "add", "remove" or "update".
    pub action: String,
    /// The `owner/repo` source (add) or the marketplace name (remove, update).
    pub name: String,
    /// Arguments of the CLI's `plugin` command.
    pub args: Vec<String>,
}

/// A validated command in spec form.
pub struct MarketplacePlan {
    pub action: Seq<char>,
    pub name: Seq<char>,
    pub args: Seq<Seq<char>>,
}

/// The scope is absent, "user" or "project".
pub open spec fn scope_ok(scope: Option<String>) -> bool {
    scope matches Some(s) ==> s@ == "user"@ || s@ == "project"@
}

/// Message of a rejected scope.
pub open spec fn scope_message(s: Seq<char>) -> Seq<char> {
    "Invalid scope: "@ + s + ". Must be 'user' or 'project'."@
}

/// What a marketplace request leads to: the command to run, or the message of
/// its rejection (every rejection is a bad request).
///
/// The action must be add, remove or update. Add needs a source that
/// validates (its `owner/repo` form is used) and a valid scope, which is passed
/// on with `--scope`; remove and update need a valid marketplace name.
pub open spec fn marketplace_plan(req: MarketplaceActionRequest) -> Result<MarketplacePlan, Seq<char>> {
    let a = req.action@;
    if !(a == "add"@ || a == "remove"@ || a == "update"@) {
        Err("Invalid marketplace action: "@ + a + ". Must be one of: add, remove, update"@)
    } else if a == "add"@ {
        match req.source {
            None => Err("'source' is required for add action."@),
            Some(s) => match marketplace_source_outcome(s@) {
                Err(m) => Err(m),
                Ok(short) => match req.scope {
                    Some(sc) => if sc@ == "user"@ || sc@ == "project"@ {
                        Ok(
                            MarketplacePlan {
                                action: a,
                                name: short,
                                args: seq!["marketplace"@, "add"@, short, "--scope"@, sc@],
                            },
                        )
                    } else {
                        Err(scope_message(sc@))
                    },
                    None => Ok(
                        MarketplacePlan {
                            action: a,
                            name: short,
                            args: seq!["marketplace"@, "add"@, short],
                        },
                    ),
                },
            },
        }
    } else {
        match req.name {
            None => if a == "remove"@ {
                Err("'name' is required for remove action."@)
            } else {
                Err("Use POST /api/plugins/marketplaces/refresh-all for bulk updates"@)
            },
            Some(n) => if valid_plugin_name(n@) {
                Ok(MarketplacePlan { action: a, name: n@, args: seq!["marketplace"@, a, n@] })
            } else {
                Err(bad_plugin_name_message(n@))
            },
        }
    }
}

fn strings3(a: &str, b: &str, c: &str) -> (res: Vec<String>)
    ensures
        res@.len() == 3,
        res@[0]@ == a@,
        res@[1]@ == b@,
        res@[2]@ == c@,
{
    let mut v: Vec<String> = Vec::new();
    v.push(copy_str(a));
    v.push(copy_str(b));
    v.push(copy_str(c));
    v
}

/// Checks a marketplace request and gives the CLI command it runs.
pub fn plan_marketplace_action(req: &MarketplaceActionRequest) -> (res: Result<MarketplaceCommand, ApiError>)
    ensures
        match (res, marketplace_plan(*req)) {
            (Ok(c), Ok(p)) => c.action@ == p.action && c.name@ == p.name && c.args@.map_values(
                |s: String| s@,
            ) == p.args,
            (Err(e), Err(m)) => e matches ApiError::BadRequest(msg) && msg@ == m,
            _ => false,
        },
{
    proof {
        reveal_strlit("add");
        reveal_strlit("remove");
        reveal_strlit("update");
        reveal_strlit("user");
        reveal_strlit("project");
        reveal_strlit("marketplace");
        reveal_strlit("--scope");
    }
    let a = req.action.as_str();
    let is_add = str_is(a, "add");
    let is_remove = str_is(a, "remove");
    let is_update = str_is(a, "update");
    if !(is_add || is_remove || is_update) {
        return Err(
            ApiError::BadRequest(
                concat3(
                    "Invalid marketplace action: ",
                    a,
                    ". Must be one of: add, remove, update",
                ),
            ),
        );
    }
    if is_add {
        let source = match &req.source {
            Some(s) => s,
            None => {
                return Err(ApiError::BadRequest(copy_str("'source' is required for add action.")));
            },
        };
        let short = match validate_marketplace_source(source.as_str()) {
            Ok(v) => v,
            Err(e) => {
                return Err(e);
            },
        };
        match validate_scope(&req.scope) {
            Ok(()) => {},
            Err(e) => {
                return Err(e);
            },
        }
        let mut args = strings3("marketplace", "add", short.as_str());
        match &req.scope {
            Some(sc) => {
                args.push(copy_str("--scope"));
                args.push(sc.clone());
            },
            None => {},
        }
        let ghost v = args@.map_values(|s: String| s@);
        proof {
            if req.scope is Some {
                assert(v =~= seq!["marketplace"@, "add"@, short@, "--scope"@, req.scope.unwrap()@]);
            } else {
                assert(v =~= seq!["marketplace"@, "add"@, short@]);
            }
        }
        return Ok(MarketplaceCommand { action: copy_str("add"), name: short, args });
    }
    let name = match &req.name {
        Some(n) => n,
        None => {
            if is_remove {
                return Err(ApiError::BadRequest(copy_str("'name' is required for remove action.")));
            } else {
                return Err(
                    ApiError::BadRequest(
                        copy_str("Use POST /api/plugins/marketplaces/refresh-all for bulk updates"),
                    ),
                );
            }
        },
    };
    match validate_plugin_name(name.as_str()) {
        Ok(()) => {},
        Err(e) => {
            return Err(e);
        },
    }
    let args = strings3("marketplace", a, name.as_str());
    proof {
        assert(args@.map_values(|s: String| s@) =~= seq!["marketplace"@, a@, name@]);
    }
    Ok(MarketplaceCommand { action: copy_str(a), name: name.clone(), args })
}

/// The message a command's output gives: none for a removal or for output
/// that is blank, else the output trimmed.
pub open spec fn output_message(action: Seq<char>, out: Seq<char>) -> Option<Seq<char>> {
    if action == "remove"@ || trim_seq(out).len() == 0 {
        None
    } else {
        Some(trim_seq(out))
    }
}

/// The response to a marketplace command, from the CLI's output or error.
pub fn marketplace_action_response(cmd: &MarketplaceCommand, outcome: Result<String, String>) -> (res: PluginActionResponse)
    ensures
        res.action@ == cmd.action@,
        res.name@ == cmd.name@,
        res.success == outcome is Ok,
        outcome matches Ok(out) ==> match (res.message, output_message(cmd.action@, out@)) {
            (None, None) => true,
            (Some(m), Some(t)) => m@ == t,
            _ => false,
        },
        outcome matches Err(e) ==> res.message matches Some(m) && m@ == e@,
{
    proof {
        reveal_strlit("remove");
    }
    match outcome {
        Ok(out) => {
            let message = if str_is(cmd.action.as_str(), "remove") {
                None
            } else {
                let t = trim_chars(&chars_of(out.as_str()));
                if t.len() == 0 {
                    None
                } else {
                    Some(string_of(&t))
                }
            };
            PluginActionResponse {
                success: true,
                action: cmd.action.clone(),
                name: cmd.name.clone(),
                message,
            }
        },
        Err(e) => PluginActionResponse {
            success: false,
            action: cmd.action.clone(),
            name: cmd.name.clone(),
            message: Some(e),
        },
    }
}

/// The refusal of a mutation while another one holds the lock.
pub fn mutation_in_progress() -> (e: ApiError)
    ensures
        e matches ApiError::Conflict(m) && m@ == "A mutation is already in progress."@,
{
    ApiError::Conflict(copy_str("A mutation is already in progress."))
}

/// An accepted marketplace request runs `marketplace <action> <name>` (plus a
/// scope for an add), and a removal or update names a valid marketplace,
/// which cannot be taken for a flag.
pub proof fn law_plan_runs_named_action(req: MarketplaceActionRequest)
    ensures
        marketplace_plan(req) matches Ok(p) ==> {
            &&& p.args.len() >= 3
            &&& p.args[0] == "marketplace"@
            &&& p.args[1] == p.action
            &&& p.args[2] == p.name
            &&& p.action == req.action@
            &&& (p.action != "add"@ ==> valid_plugin_name(p.name) && p.name[0] != '-')
        },
{
}

} // verus!
