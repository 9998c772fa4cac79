//! Dashboard, storage and AI-generation statistics: range checks, comparison
//! periods, token coverage and display paths.
use vstd::prelude::*;

use crate::error::ApiError;
use crate::text::{chars_of, copy_str, push_str, slice_chars, starts_with, starts_with_chars, string_of};

verus! {

broadcast use vstd::seq_lib::group_seq_properties;

/// Query parameters of the dashboard and AI-generation endpoints.
pub struct DashboardQuery {
    /// Period start (unix seconds, inclusive).
    pub from: Option<i64>,
    /// Period end (unix seconds, inclusive).
    pub to: Option<i64>,
    /// Project filter.
    pub project: Option<String>,
    /// Branch filter.
    pub branch: Option<String>,
}

/// Current period metrics for the dashboard.
pub struct CurrentPeriodMetrics {
    pub session_count: u64,
    pub total_tokens: u64,
    pub total_files_edited: u64,
    pub commit_count: u64,
}

/// Storage statistics for the settings page.
pub struct StorageStats {
    pub jsonl_bytes: u64,
    pub sqlite_bytes: u64,
    pub index_bytes: u64,
    pub session_count: i64,
    pub project_count: i64,
    pub commit_count: i64,
    pub oldest_session_date: Option<i64>,
    pub last_index_at: Option<i64>,
    pub last_index_duration_ms: Option<i64>,
    pub last_index_session_count: i64,
    pub last_git_sync_at: Option<i64>,
    pub last_git_sync_duration_ms: Option<i64>,
    pub last_git_sync_repo_count: i64,
    pub jsonl_path: Option<String>,
    pub sqlite_path: Option<String>,
    pub index_path: Option<String>,
    pub app_data_path: Option<String>,
}

// ---------------------------------------------------------------------------
// Time ranges
// ---------------------------------------------------------------------------

/// A requested period and the equally long period just before it.
pub struct PeriodBounds {
    pub period_start: i64,
    pub period_end: i64,
    pub comparison_start: i64,
    pub comparison_end: i64,
}

/// The comparison arithmetic of a range stays within `i64`.
pub open spec fn range_fits(from: i64, to: i64) -> bool {
    from <= to ==> from - 1 - (to - from) >= i64::MIN
}

/// Validate the dashboard range: both bounds or neither, `from <= to`. A full
/// range yields its bounds and the comparison period that ends the second
/// before it and lasts as long.
pub fn dashboard_period(from: Option<i64>, to: Option<i64>) -> (res: Result<Option<PeriodBounds>, ApiError>)
    requires
        from matches Some(f) && to matches Some(t) ==> range_fits(f, t),
    ensures
        match res {
            Ok(None) => from is None && to is None,
            Ok(Some(b)) => from == Some(b.period_start) && to == Some(b.period_end) && b.period_start
                <= b.period_end && b.comparison_end == b.period_start - 1 && b.comparison_start
                == b.comparison_end - (b.period_end - b.period_start),
            Err(e) => e matches ApiError::BadRequest(m) && if from is Some != to is Some {
                m@ == "Both 'from' and 'to' must be provided together"@
            } else {
                from.unwrap() > to.unwrap() && m@ == "'from' must be <= 'to'"@
            },
        },
{
    match (from, to) {
        (Some(f), Some(t)) => {
            if f > t {
                return Err(ApiError::BadRequest(copy_str("'from' must be <= 'to'")));
            }
            let duration = t - f;
            let comp_end = f - 1;
            let comp_start = comp_end - duration;
            Ok(
                Some(
                    PeriodBounds {
                        period_start: f,
                        period_end: t,
                        comparison_start: comp_start,
                        comparison_end: comp_end,
                    },
                ),
            )
        },
        (None, None) => Ok(None),
        _ => Err(ApiError::BadRequest(copy_str("Both 'from' and 'to' must be provided together"))),
    }
}

/// Where a section's time range came from.
#[derive(PartialEq, Eq, Structural)]
pub enum RangeSource {
    /// The request's `from` and `to`.
    ExplicitFromTo,
    /// No range asked for: all time.
    DefaultAllTime,
    /// A range fixed by the endpoint itself (the heatmap's).
    ExplicitRangeParam,
}

/// The label of a range source in responses.
pub open spec fn range_source_text(s: RangeSource) -> Seq<char> {
    match s {
        RangeSource::ExplicitFromTo => "explicit_from_to"@,
        RangeSource::DefaultAllTime => "default_all_time"@,
        RangeSource::ExplicitRangeParam => "explicit_range_param"@,
    }
}

/// The label of `s`.
pub fn range_source_label(s: &RangeSource) -> (res: String)
    ensures
        res@ == range_source_text(*s),
{
    match s {
        RangeSource::ExplicitFromTo => copy_str("explicit_from_to"),
        RangeSource::DefaultAllTime => copy_str("default_all_time"),
        RangeSource::ExplicitRangeParam => copy_str("explicit_range_param"),
    }
}

/// What a dashboard response says of its ranges.
pub struct DashboardRangeMeta {
    /// Where the current period came from.
    pub current_source: RangeSource,
    /// The current period's bounds, when the request gave them.
    pub current_bounds: Option<(i64, i64)>,
    /// Where the heatmap's range came from.
    pub heatmap_source: RangeSource,
    pub heatmap_from: i64,
    pub heatmap_to: i64,
    /// Whether the response carries trends against the comparison period.
    pub has_trends: bool,
}

/// The range metadata of a dashboard response at `now`, for an accepted
/// `period` (see `dashboard_period`): with a range, the current period is the
/// request's and trends are given; without one, it is all time and there are
/// no trends. The heatmap always covers the 90 days up to `now`.
pub fn dashboard_range_meta(period: &Option<PeriodBounds>, now: i64) -> (res: DashboardRangeMeta)
    requires
        now - 90 * 86400 >= i64::MIN,
    ensures
        res.current_source == (if period is Some {
            RangeSource::ExplicitFromTo
        } else {
            RangeSource::DefaultAllTime
        }),
        res.current_bounds == (match period {
            Some(b) => Some((b.period_start, b.period_end)),
            None => None,
        }),
        res.heatmap_source == RangeSource::ExplicitRangeParam,
        res.heatmap_from == now - 7776000,
        res.heatmap_to == now,
        res.has_trends == period is Some,
{
    let (hf, ht) = heatmap_window(now);
    match period {
        Some(b) => DashboardRangeMeta {
            current_source: RangeSource::ExplicitFromTo,
            current_bounds: Some((b.period_start, b.period_end)),
            heatmap_source: RangeSource::ExplicitRangeParam,
            heatmap_from: hf,
            heatmap_to: ht,
            has_trends: true,
        },
        None => DashboardRangeMeta {
            current_source: RangeSource::DefaultAllTime,
            current_bounds: None,
            heatmap_source: RangeSource::ExplicitRangeParam,
            heatmap_from: hf,
            heatmap_to: ht,
            has_trends: false,
        },
    }
}

/// The heatmap always covers the 90 days up to `now`.
pub fn heatmap_window(now: i64) -> (res: (i64, i64))
    requires
        now - 90 * 86400 >= i64::MIN,
    ensures
        res.0 == now - 7776000,
        res.1 == now,
{
    (now - 90 * 86400, now)
}

/// Validate the AI-generation range: both bounds or neither, `from < to`.
pub fn check_ai_generation_range(from: Option<i64>, to: Option<i64>) -> (res: Result<(), ApiError>)
    ensures
        match res {
            Ok(()) => (from is None && to is None) || (from matches Some(f) && to matches Some(t)
                && f < t),
            Err(e) => e matches ApiError::BadRequest(m) && if from is Some != to is Some {
                m@ == "Both 'from' and 'to' must be provided together"@
            } else {
                from.unwrap() >= to.unwrap() && m@ == "'from' must be less than 'to'"@
            },
        },
{
    match (from, to) {
        (Some(f), Some(t)) => {
            if f >= t {
                return Err(ApiError::BadRequest(copy_str("'from' must be less than 'to'")));
            }
            Ok(())
        },
        (None, None) => Ok(()),
        _ => Err(ApiError::BadRequest(copy_str("Both 'from' and 'to' must be provided together"))),
    }
}

/// The session window of the AI-generation cost query: from 1 and up to
/// `i64::MAX` where unbounded.
pub fn ai_session_window(from: Option<i64>, to: Option<i64>) -> (res: (i64, i64))
    ensures
        res.0 == (match from {
            Some(f) => f,
            None => 1,
        }),
        res.1 == (match to {
            Some(t) => t,
            None => i64::MAX,
        }),
{
    (
        match from {
            Some(f) => f,
            None => 1,
        },
        match to {
            Some(t) => t,
            None => i64::MAX,
        },
    )
}

// ---------------------------------------------------------------------------
// Token coverage of priced models
// ---------------------------------------------------------------------------

/// Tokens one model used in the selected range, and whether its pricing is known.
pub struct ModelTokenUsage {
    pub model_id: String,
    pub input: i64,
    pub output: i64,
    pub cache_read: i64,
    pub cache_create: i64,
    pub priced: bool,
}

/// How much of the token usage the known prices cover.
pub struct TokenCoverage {
    pub priced_model_count: u64,
    pub unpriced_model_count: u64,
    pub unpriced_input_tokens: i64,
    pub unpriced_output_tokens: i64,
    pub unpriced_cache_read_tokens: i64,
    pub unpriced_cache_creation_tokens: i64,
    pub priced_tokens_total: i64,
    pub all_tokens_total: i64,
    pub has_unpriced_usage: bool,
    /// "computed_priced_tokens_partial" or "computed_priced_tokens_full".
    pub total_cost_source: String,
}

pub open spec fn model_total(u: ModelTokenUsage) -> int {
    u.input + u.output + u.cache_read + u.cache_create
}

/// Running totals over a list of models: priced and unpriced model counts,
/// unpriced input, output, cache-read and cache-creation tokens, priced tokens
/// and all tokens.
pub struct Tally {
    pub priced_models: int,
    pub unpriced_models: int,
    pub unpriced_input: int,
    pub unpriced_output: int,
    pub unpriced_cache_read: int,
    pub unpriced_cache_create: int,
    pub priced_tokens: int,
    pub all_tokens: int,
}

/// The totals of `s`.
pub open spec fn tally(s: Seq<ModelTokenUsage>) -> Tally
    decreases s.len(),
{
    if s.len() == 0 {
        Tally {
            priced_models: 0,
            unpriced_models: 0,
            unpriced_input: 0,
            unpriced_output: 0,
            unpriced_cache_read: 0,
            unpriced_cache_create: 0,
            priced_tokens: 0,
            all_tokens: 0,
        }
    } else {
        let t = tally(s.drop_last());
        let u = s.last();
        if u.priced {
            Tally {
                priced_models: t.priced_models + 1,
                priced_tokens: t.priced_tokens + model_total(u),
                all_tokens: t.all_tokens + model_total(u),
                ..t
            }
        } else {
            Tally {
                unpriced_models: t.unpriced_models + 1,
                unpriced_input: t.unpriced_input + u.input,
                unpriced_output: t.unpriced_output + u.output,
                unpriced_cache_read: t.unpriced_cache_read + u.cache_read,
                unpriced_cache_create: t.unpriced_cache_create + u.cache_create,
                all_tokens: t.all_tokens + model_total(u),
                ..t
            }
        }
    }
}

/// All values of a tally fit in an `i64`.
pub open spec fn tally_fits(t: Tally) -> bool {
    &&& t.unpriced_input <= i64::MAX && t.unpriced_input >= i64::MIN
    &&& t.unpriced_output <= i64::MAX && t.unpriced_output >= i64::MIN
    &&& t.unpriced_cache_read <= i64::MAX && t.unpriced_cache_read >= i64::MIN
    &&& t.unpriced_cache_create <= i64::MAX && t.unpriced_cache_create >= i64::MIN
    &&& t.priced_tokens <= i64::MAX && t.priced_tokens >= i64::MIN
    &&& t.all_tokens <= i64::MAX && t.all_tokens >= i64::MIN
}

/// The partial sums of one model's token total fit in an `i64`.
pub open spec fn model_sum_fits(u: ModelTokenUsage) -> bool {
    &&& i64::MIN <= u.input + u.output <= i64::MAX
    &&& i64::MIN <= u.input + u.output + u.cache_read <= i64::MAX
    &&& i64::MIN <= model_total(u) <= i64::MAX
}

/// Every running sum the tally forms stays within `i64`.
pub open spec fn usage_fits(s: Seq<ModelTokenUsage>) -> bool {
    &&& forall|k: int| 0 <= k <= s.len() ==> tally_fits(#[trigger] tally(s.take(k)))
    &&& forall|i: int| 0 <= i < s.len() ==> model_sum_fits(#[trigger] s[i])
}

/// Every model is priced or not, and the priced tokens and the four kinds of
/// unpriced tokens make up all tokens.
pub proof fn law_tally_partitions(s: Seq<ModelTokenUsage>)
    ensures
        tally(s).priced_models + tally(s).unpriced_models == s.len(),
        tally(s).all_tokens == tally(s).priced_tokens + tally(s).unpriced_input + tally(s).unpriced_output
            + tally(s).unpriced_cache_read + tally(s).unpriced_cache_create,
    decreases s.len(),
{
    if s.len() > 0 {
        law_tally_partitions(s.drop_last());
    }
}

/// The totals of one model: a priced model adds its four token kinds to the
/// priced and overall totals; an unpriced one adds each kind to its own
/// unpriced total and all four to the overall total.
pub proof fn law_tally_of_one_model(u: ModelTokenUsage)
    ensures
        ({
            let t = tally(seq![u]);
            let all = u.input + u.output + u.cache_read + u.cache_create;
            &&& t.all_tokens == all
            &&& t.priced_models == (if u.priced { 1int } else { 0 })
            &&& t.unpriced_models == (if u.priced { 0int } else { 1 })
            &&& t.priced_tokens == (if u.priced { all } else { 0 })
            &&& t.unpriced_input == (if u.priced { 0 } else { u.input as int })
            &&& t.unpriced_output == (if u.priced { 0 } else { u.output as int })
            &&& t.unpriced_cache_read == (if u.priced { 0 } else { u.cache_read as int })
            &&& t.unpriced_cache_create == (if u.priced { 0 } else { u.cache_create as int })
        }),
{
    assert(seq![u].drop_last() =~= Seq::<ModelTokenUsage>::empty());
    assert(seq![u].last() == u);
    reveal_with_fuel(tally, 2);
}

/// The totals add up over lists: those of two lists one after the other are
/// the sums of their totals, field by field.
pub proof fn law_tally_adds_up(a: Seq<ModelTokenUsage>, b: Seq<ModelTokenUsage>)
    ensures
        tally(a + b).priced_models == tally(a).priced_models + tally(b).priced_models,
        tally(a + b).unpriced_models == tally(a).unpriced_models + tally(b).unpriced_models,
        tally(a + b).unpriced_input == tally(a).unpriced_input + tally(b).unpriced_input,
        tally(a + b).unpriced_output == tally(a).unpriced_output + tally(b).unpriced_output,
        tally(a + b).unpriced_cache_read == tally(a).unpriced_cache_read + tally(b).unpriced_cache_read,
        tally(a + b).unpriced_cache_create == tally(a).unpriced_cache_create + tally(b).unpriced_cache_create,
        tally(a + b).priced_tokens == tally(a).priced_tokens + tally(b).priced_tokens,
        tally(a + b).all_tokens == tally(a).all_tokens + tally(b).all_tokens,
    decreases b.len(),
{
    if b.len() == 0 {
        assert(a + b =~= a);
    } else {
        assert((a + b).drop_last() =~= a + b.drop_last());
        assert((a + b).last() == b.last());
        law_tally_adds_up(a, b.drop_last());
    }
}

/// Tally priced and unpriced usage over the per-model token breakdown.
pub fn token_coverage(models: &Vec<ModelTokenUsage>) -> (res: TokenCoverage)
    requires
        usage_fits(models@),
    ensures
        ({
            let t = tally(models@);
            &&& res.priced_model_count == t.priced_models
            &&& res.unpriced_model_count == t.unpriced_models
            &&& res.unpriced_input_tokens == t.unpriced_input
            &&& res.unpriced_output_tokens == t.unpriced_output
            &&& res.unpriced_cache_read_tokens == t.unpriced_cache_read
            &&& res.unpriced_cache_creation_tokens == t.unpriced_cache_create
            &&& res.priced_tokens_total == t.priced_tokens
            &&& res.all_tokens_total == t.all_tokens
            &&& res.has_unpriced_usage == (t.unpriced_models > 0)
            &&& res.total_cost_source@ == (if t.unpriced_models > 0 {
                "computed_priced_tokens_partial"@
            } else {
                "computed_priced_tokens_full"@
            })
        }),
{
    let mut priced_models: u64 = 0;
    let mut unpriced_models: u64 = 0;
    let mut u_in: i64 = 0;
    let mut u_out: i64 = 0;
    let mut u_cr: i64 = 0;
    let mut u_cc: i64 = 0;
    let mut priced_tokens: i64 = 0;
    let mut all_tokens: i64 = 0;
    let mut i: usize = 0;
    while i < models.len()
        invariant
            i <= models@.len(),
            usage_fits(models@),
            ({
                let t = tally(models@.take(i as int));
                &&& priced_models == t.priced_models
                &&& unpriced_models == t.unpriced_models
                &&& u_in == t.unpriced_input
                &&& u_out == t.unpriced_output
                &&& u_cr == t.unpriced_cache_read
                &&& u_cc == t.unpriced_cache_create
                &&& priced_tokens == t.priced_tokens
                &&& all_tokens == t.all_tokens
            }),
            priced_models + unpriced_models == i,
        decreases models@.len() - i,
    {
        let m = &models[i];
        proof {
            let s1 = models@.take(i + 1);
            assert(s1.drop_last() == models@.take(i as int));
            assert(s1.last() == models@[i as int]);
            assert(tally_fits(tally(s1)));
            assert(model_sum_fits(models@[i as int]));
            law_tally_partitions(models@.take(i as int));
        }
        let total = m.input + m.output + m.cache_read + m.cache_create;
        all_tokens = all_tokens + total;
        if m.priced {
            priced_models = priced_models + 1;
            priced_tokens = priced_tokens + total;
        } else {
            unpriced_models = unpriced_models + 1;
            u_in = u_in + m.input;
            u_out = u_out + m.output;
            u_cr = u_cr + m.cache_read;
            u_cc = u_cc + m.cache_create;
        }
        i = i + 1;
    }
    assert(models@.take(models@.len() as int) == models@);
    let has_unpriced = unpriced_models > 0;
    TokenCoverage {
        priced_model_count: priced_models,
        unpriced_model_count: unpriced_models,
        unpriced_input_tokens: u_in,
        unpriced_output_tokens: u_out,
        unpriced_cache_read_tokens: u_cr,
        unpriced_cache_creation_tokens: u_cc,
        priced_tokens_total: priced_tokens,
        all_tokens_total: all_tokens,
        has_unpriced_usage: has_unpriced,
        total_cost_source: if has_unpriced {
            copy_str("computed_priced_tokens_partial")
        } else {
            copy_str("computed_priced_tokens_full")
        },
    }
}

// ---------------------------------------------------------------------------
// Display paths
// ---------------------------------------------------------------------------

/// `path` with a leading home directory replaced by `~`.
pub open spec fn shortened(path: Seq<char>, home: Option<Seq<char>>) -> Seq<char> {
    match home {
        Some(h) => if starts_with(path, h) {
            seq!['~'] + path.skip(h.len() as int)
        } else {
            path
        },
        None => path,
    }
}

/// Replace the home directory at the start of a path with `~` for display.
pub fn shorten_home_path(path: &str, home: Option<&str>) -> (res: String)
    ensures
        res@ == shortened(path@, match home {
            Some(h) => Some(h@),
            None => None,
        }),
{
    match home {
        Some(h) => {
            let p = chars_of(path);
            let hc = chars_of(h);
            if starts_with_chars(&p, &hc) {
                let mut out: Vec<char> = Vec::new();
                out.push('~');
                let rest = slice_chars(&p, hc.len(), p.len());
                let mut res = string_of(&out);
                let rest_s = string_of(&rest);
                push_str(&mut res, rest_s.as_str());
                assert(out@ == seq!['~']);
                res
            } else {
                copy_str(path)
            }
        },
        None => copy_str(path),
    }
}

} // verus!
