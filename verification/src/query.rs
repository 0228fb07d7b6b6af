//! Everything a dashboard shows, worked out from the ledger's counts.
use vstd::prelude::*;
use crate::dashboard::{
    build_composition, build_daily_buckets, build_hourly_buckets, build_metrics, build_project_options,
    build_session_options, build_top_projects, build_top_sessions, composition_spec,
    daily_buckets_spec, hourlies_view, hourly_buckets_spec, metrics_hold, options_view, parts_view,
    project_options_spec, session_options_spec, top_projects_spec, top_projects_view,
    top_sessions_spec, top_sessions_view, trends_view, CompositionPart, FilterOptionDto,
    HourlyBucketDto, TopProjectDto, TopSessionDto, TrendBucketDto, UsageMetrics,
};
use crate::detail::{build_detail_rows, detail_rows_spec, detail_rows_view, DetailRowDto, DetailRowView};
use crate::filters::{
    apply_filters, build_recent_monthly_buckets, filtered, filters_view, lemma_filtered_in_range,
    max_months, monthly_buckets_spec, recent_month_filters, recent_month_filters_spec,
    UsageFilters,
};
use crate::names::{pairs_view, DisplayNameMaps};
use crate::report::{sums_spec, token_events_view, usage_in_range, TokenEvent};
use crate::summary::{build_summary_rows, summary_rows_spec, summary_rows_view, SummaryRowDto};
use crate::time::CivilDate;

verus! {

/// The figures, trees, trends and choices of a dashboard.
pub struct DashboardReport {
    pub metrics: UsageMetrics,
    pub detail_rows: Vec<DetailRowDto>,
    pub summary_rows: Vec<SummaryRowDto>,
    pub daily_buckets: Vec<TrendBucketDto>,
    pub monthly_buckets: Vec<TrendBucketDto>,
    pub hourly_buckets: Vec<HourlyBucketDto>,
    pub composition: Vec<CompositionPart>,
    pub composition_total: i64,
    pub top_sessions: Vec<TopSessionDto>,
    pub top_projects: Vec<TopProjectDto>,
    pub project_options: Vec<FilterOptionDto>,
    pub session_options: Vec<FilterOptionDto>,
}

/// How many recent months the trend covers.
pub const TREND_MONTHS: usize = 6;

/// How many sessions and projects the dashboard ranks.
pub const TOP_LIMIT: usize = 6;

/// The dashboard of the ledger's counts under the filters: the figures,
/// trees, buckets and rankings of the counts that pass them; the monthly
/// trend of the counts of the six months up to the window's end; the filter
/// choices of all counts.
pub fn dashboard_report(
    all_events: &Vec<TokenEvent>,
    filters: &UsageFilters,
    names: &DisplayNameMaps,
    today: CivilDate,
) -> (r: DashboardReport)
    requires
        usage_in_range(token_events_view(all_events@)),
        1 <= today.month <= 12,
        -262143 <= today.year <= 262142,
    ensures
        ({
            let s = token_events_view(all_events@);
            let titles = pairs_view(names.session_titles@);
            let labels = pairs_view(names.workspace_labels@);
            let fv = filters_view(*filters);
            let shown = filtered(s, fv, titles, labels);
            let monthly = filtered(
                s,
                recent_month_filters_spec(fv, TREND_MONTHS as nat, today),
                titles,
                labels,
            );
            &&& metrics_hold(r.metrics, shown)
            &&& detail_rows_view(r.detail_rows@) == detail_rows_spec(
                shown,
                usize::MAX as nat,
                titles,
                labels,
            )
            &&& summary_rows_view(r.summary_rows@) == summary_rows_spec(shown, usize::MAX as nat)
            &&& trends_view(r.daily_buckets@) == daily_buckets_spec(shown)
            &&& trends_view(r.monthly_buckets@) == monthly_buckets_spec(
                monthly,
                fv,
                TREND_MONTHS as nat,
                today,
            )
            &&& hourlies_view(r.hourly_buckets@) == hourly_buckets_spec(shown)
            &&& parts_view(r.composition@) == composition_spec(shown)
            &&& r.composition_total == (if sums_spec(shown).total_tokens >= 1 {
                sums_spec(shown).total_tokens
            } else {
                1
            })
            &&& top_sessions_view(r.top_sessions@) == top_sessions_spec(
                shown,
                TOP_LIMIT as nat,
                titles,
                labels,
            )
            &&& top_projects_view(r.top_projects@) == top_projects_spec(
                shown,
                TOP_LIMIT as nat,
                labels,
            )
            &&& options_view(r.project_options@) == project_options_spec(s, labels)
            &&& options_view(r.session_options@) == session_options_spec(s, titles, labels)
        }),
{
    let ghost s = token_events_view(all_events@);
    let ghost titles = pairs_view(names.session_titles@);
    let ghost labels = pairs_view(names.workspace_labels@);
    let events = apply_filters(all_events, filters, names);
    let month_filters = recent_month_filters(filters, TREND_MONTHS, today);
    let monthly_events = apply_filters(all_events, &month_filters, names);
    proof {
        lemma_filtered_in_range(s, filters_view(*filters), titles, labels);
        lemma_filtered_in_range(s, filters_view(month_filters), titles, labels);
    }
    let (composition, composition_total) = build_composition(&events);
    DashboardReport {
        metrics: build_metrics(&events),
        detail_rows: build_detail_rows(&events, usize::MAX, names),
        summary_rows: build_summary_rows(&events, usize::MAX),
        daily_buckets: build_daily_buckets(&events),
        monthly_buckets: build_recent_monthly_buckets(&monthly_events, filters, TREND_MONTHS, today),
        hourly_buckets: build_hourly_buckets(&events),
        composition,
        composition_total,
        top_sessions: build_top_sessions(&events, TOP_LIMIT, names),
        top_projects: build_top_projects(&events, TOP_LIMIT, names),
        project_options: build_project_options(all_events, names),
        session_options: build_session_options(all_events, names),
    }
}

} // verus!
