//! Weekly activity plans: the week of a day, the status of a plan, and
//! which metrics an event counts for.
//!
//! A day is the number of days since 1 January 1970, which was a Thursday.

use crate::conversations_controller::Refusal;
use crate::text::{
    eq_ignore_ascii_case_spec, is_ascii_text, lemma_lower_finds_ascii, lower, lower_spec, str_eq,
    trim, trim_spec,
};
use vstd::prelude::*;

verus! {

/// The state of a weekly plan.
#[derive(Debug, Clone, Copy, PartialEq, Eq, Structural)]
pub enum PlanStatus {
    Draft,
    Active,
    Closed,
}

impl PlanStatus {
    /// The stored name of each state.
    pub open spec fn name_spec(&self) -> Seq<char> {
        match self {
            PlanStatus::Draft => "draft"@,
            PlanStatus::Active => "active"@,
            PlanStatus::Closed => "closed"@,
        }
    }

    /// The name under which the state is stored.
    pub fn as_str(&self) -> (r: &'static str)
        ensures
            r@ == self.name_spec(),
    {
        match self {
            PlanStatus::Draft => "draft",
            PlanStatus::Active => "active",
            PlanStatus::Closed => "closed",
        }
    }
}

/// How many days after Monday a day lies.
pub open spec fn days_from_monday(day: int) -> int {
    (day + 3) % 7
}

/// The Monday of the week of a day.
pub open spec fn week_start_spec(day: int) -> int {
    day - days_from_monday(day)
}

/// The Monday of the week of `day`.
pub fn normalize_to_week_start(day: i64) -> (r: i64)
    requires
        i64::MIN + 6 <= day <= i64::MAX - 3,
    ensures
        r == week_start_spec(day as int),
        days_from_monday(r as int) == 0,
        r <= day < r + 7,
{
    let shifted: i64 = day + 3;
    let remainder: i64 = shifted % 7;
    let offset: i64 = if remainder < 0 {
        remainder + 7
    } else {
        remainder
    };
    day - offset
}

/// The Sunday of the week that starts on `week_start`.
pub fn compute_week_end(week_start: i64) -> (r: i64)
    requires
        week_start <= i64::MAX - 6,
    ensures
        r == week_start + 6,
{
    week_start + 6
}

/// The status of the plan of a week as seen from `today`: a draft before
/// the week, active during it, closed after it.
pub open spec fn status_spec(today: int, week_start: int, week_end: int) -> PlanStatus {
    if today < week_start {
        PlanStatus::Draft
    } else if today > week_end {
        PlanStatus::Closed
    } else {
        PlanStatus::Active
    }
}

/// The status of the plan of the week from `week_start` to `week_end`, as
/// seen from `today`.
pub fn determine_status_for_week(today: i64, week_start: i64, week_end: i64) -> (r: PlanStatus)
    ensures
        r == status_spec(today as int, week_start as int, week_end as int),
{
    if today < week_start {
        PlanStatus::Draft
    } else if today > week_end {
        PlanStatus::Closed
    } else {
        PlanStatus::Active
    }
}

/// Whether an activity on `day` turns a plan active: a draft whose week
/// holds the day.
pub fn becomes_active(status: PlanStatus, week_start: i64, week_end: i64, day: i64) -> (r: bool)
    ensures
        r == (status == PlanStatus::Draft && week_start <= day <= week_end),
{
    match status {
        PlanStatus::Draft => week_start <= day && day <= week_end,
        _ => false,
    }
}

/// Whether the sweep closes a plan on `today`: one that is not closed and
/// whose week is over.
pub fn is_due_for_closing(status: PlanStatus, week_end: i64, today: i64) -> (r: bool)
    ensures
        r == (status != PlanStatus::Closed && week_end < today),
{
    match status {
        PlanStatus::Closed => false,
        _ => week_end < today,
    }
}

/// Whether a metric counts inputs or outputs.
#[derive(Debug, Clone, Copy, PartialEq, Eq, Structural)]
pub enum MetricType {
    Input,
    Output,
}

/// Whether a kind of activity can feed an input metric.
pub open spec fn is_input_activity(kind: Seq<char>) -> bool {
    kind == "contact_created"@ || kind == "startup_created"@ || kind == "outreach_logged"@
        || kind == "meeting_logged"@
}

/// Whether a kind of activity can feed an input metric.
pub fn input_activity(kind: &str) -> (r: bool)
    ensures
        r == is_input_activity(kind@),
{
    str_eq(kind, "contact_created") || str_eq(kind, "startup_created") || str_eq(
        kind,
        "outreach_logged",
    ) || str_eq(kind, "meeting_logged")
}

/// A metric of a weekly plan as it is requested.
#[derive(Debug)]
pub struct WeeklyMetricInput {
    pub metric_type: String,
    pub name: String,
    pub unit_label: String,
    pub owner_name: Option<String>,
    pub owner_id: Option<u128>,
    pub target_value: i32,
    pub activity_type: Option<String>,
    pub stage_name: Option<String>,
    pub sort_order: Option<i32>,
}

/// A metric of a weekly plan as it is stored when the plan is saved.
#[derive(Debug)]
pub struct MetricDefinition {
    pub metric_type: MetricType,
    pub name: String,
    pub unit_label: String,
    pub owner_name: Option<String>,
    pub owner_id: Option<u128>,
    pub target_value: i32,
    pub actual_value: i32,
    pub activity_type: Option<String>,
    pub stage_name: Option<String>,
    pub sort_order: i32,
}

/// A trimmed text, or nothing where it is empty or missing.
pub open spec fn filled(text: Option<Seq<char>>) -> Option<Seq<char>> {
    match text {
        Some(t) => if trim_spec(t).len() == 0 {
            None
        } else {
            Some(trim_spec(t))
        },
        None => None,
    }
}

/// A trimmed and lower-cased text, or nothing where it is empty or missing.
pub open spec fn filled_lower(text: Option<Seq<char>>) -> Option<Seq<char>> {
    match text {
        Some(t) => if lower_spec(trim_spec(t)).len() == 0 {
            None
        } else {
            Some(lower_spec(trim_spec(t)))
        },
        None => None,
    }
}

/// The type that a text names, letter case and surrounding space ignored.
pub open spec fn metric_type_spec(text: Seq<char>) -> Option<MetricType> {
    let name = lower_spec(trim_spec(text));
    if name == "input"@ {
        Some(MetricType::Input)
    } else if name == "output"@ {
        Some(MetricType::Output)
    } else {
        None
    }
}

/// The two metric types are named in whatever letter case, and an ASCII
/// text names a type only where it is `input` or `output` up to letter case
/// and surrounding space.
pub proof fn lemma_metric_type_ignores_case(text: Seq<char>)
    ensures
        eq_ignore_ascii_case_spec(trim_spec(text), "input"@) ==> metric_type_spec(text) == Some(
            MetricType::Input,
        ),
        eq_ignore_ascii_case_spec(trim_spec(text), "output"@) ==> metric_type_spec(text) == Some(
            MetricType::Output,
        ),
        is_ascii_text(trim_spec(text)) && metric_type_spec(text) is Some ==> (
        eq_ignore_ascii_case_spec(trim_spec(text), "input"@) || eq_ignore_ascii_case_spec(
            trim_spec(text),
            "output"@,
        )),
{
    reveal_strlit("input");
    reveal_strlit("output");
    assert("input"@ =~= seq!['i', 'n', 'p', 'u', 't']);
    assert("output"@ =~= seq!['o', 'u', 't', 'p', 'u', 't']);
    lemma_lower_finds_ascii(trim_spec(text), "input"@);
    lemma_lower_finds_ascii(trim_spec(text), "output"@);
}

/// Whether a requested metric is acceptable: it has a name and a unit, its
/// type is known, an input metric names an activity that feeds inputs, and
/// an output metric names a stage.
pub open spec fn metric_acceptable(m: WeeklyMetricInput) -> bool {
    &&& trim_spec(m.name@).len() > 0
    &&& trim_spec(m.unit_label@).len() > 0
    &&& metric_type_spec(m.metric_type@) matches Some(kind)
    &&& kind == MetricType::Input ==> (filled_lower(m.activity_type.deep_view()) matches Some(a)
        && is_input_activity(a))
    &&& kind == MetricType::Output ==> filled(m.stage_name.deep_view()) is Some
}

fn fill(text: &Option<String>) -> (r: Option<String>)
    ensures
        r.deep_view() == filled(text.deep_view()),
{
    match text {
        Some(t) => {
            let trimmed = trim(t.as_str());
            if trimmed.as_str().is_empty() {
                None
            } else {
                Some(trimmed)
            }
        },
        None => None,
    }
}

fn fill_lower(text: &Option<String>) -> (r: Option<String>)
    ensures
        r.deep_view() == filled_lower(text.deep_view()),
{
    match text {
        Some(t) => {
            let trimmed = trim(t.as_str());
            let lowered = lower(trimmed.as_str());
            if lowered.as_str().is_empty() {
                None
            } else {
                Some(lowered)
            }
        },
        None => None,
    }
}

/// Checks one requested metric of a plan and settles what is stored of it.
/// `position` is the place of the metric in the request; it is the sort
/// order where the request names none. A negative target counts as zero.
pub fn validate_metric(metric: &WeeklyMetricInput, position: i32) -> (r: Result<
    MetricDefinition,
    Refusal,
>)
    ensures
        match r {
            Ok(d) => {
                &&& metric_acceptable(*metric)
                &&& Some(d.metric_type) == metric_type_spec(metric.metric_type@)
                &&& d.name@ == trim_spec(metric.name@)
                &&& d.unit_label@ == trim_spec(metric.unit_label@)
                &&& d.owner_name.deep_view() == filled(metric.owner_name.deep_view())
                &&& d.owner_id == metric.owner_id
                &&& d.target_value == (if metric.target_value < 0 {
                    0
                } else {
                    metric.target_value
                })
                &&& d.actual_value == 0
                &&& d.activity_type.deep_view() == filled_lower(metric.activity_type.deep_view())
                &&& d.stage_name.deep_view() == filled(metric.stage_name.deep_view())
                &&& d.sort_order == (match metric.sort_order {
                    Some(order) => order,
                    None => position,
                })
            },
            Err(e) => e == Refusal::BadRequest && !metric_acceptable(*metric),
        },
{
    let trimmed_type = trim(metric.metric_type.as_str());
    let metric_type = lower(trimmed_type.as_str());
    let name = trim(metric.name.as_str());
    let unit_label = trim(metric.unit_label.as_str());
    let target_value = if metric.target_value < 0 {
        0
    } else {
        metric.target_value
    };
    let owner_name = fill(&metric.owner_name);
    let activity_type = fill_lower(&metric.activity_type);
    let stage_name = fill(&metric.stage_name);
    if name.as_str().is_empty() || unit_label.as_str().is_empty() {
        return Err(Refusal::BadRequest);
    }
    let kind = if str_eq(metric_type.as_str(), "input") {
        MetricType::Input
    } else if str_eq(metric_type.as_str(), "output") {
        MetricType::Output
    } else {
        return Err(Refusal::BadRequest);
    };
    match kind {
        MetricType::Input => {
            match &activity_type {
                Some(key) => {
                    if !input_activity(key.as_str()) {
                        return Err(Refusal::BadRequest);
                    }
                },
                None => {
                    return Err(Refusal::BadRequest);
                },
            }
        },
        MetricType::Output => {
            if stage_name.is_none() {
                return Err(Refusal::BadRequest);
            }
        },
    }
    Ok(
        MetricDefinition {
            metric_type: kind,
            name,
            unit_label,
            owner_name,
            owner_id: metric.owner_id,
            target_value,
            actual_value: 0,
            activity_type,
            stage_name,
            sort_order: match metric.sort_order {
                Some(order) => order,
                None => position,
            },
        },
    )
}

/// Whether an event counts for a metric: for an input metric the event is
/// of the metric's activity; for an output metric the event moved a startup
/// to the metric's stage.
pub open spec fn counts_for(
    metric_type: MetricType,
    metric_activity: Option<Seq<char>>,
    metric_stage: Option<Seq<char>>,
    activity_type: Seq<char>,
    stage_to: Option<Seq<char>>,
) -> bool {
    match metric_type {
        MetricType::Input => metric_activity == Some(activity_type),
        MetricType::Output => stage_to is Some && metric_stage == stage_to,
    }
}

/// Whether an event of kind `activity_type` that moved a startup to
/// `stage_to` counts for a metric.
pub fn should_increment(
    metric_type: MetricType,
    metric_activity: &Option<String>,
    metric_stage: &Option<String>,
    activity_type: &str,
    stage_to: Option<&str>,
) -> (r: bool)
    ensures
        r == counts_for(
            metric_type,
            metric_activity.deep_view(),
            metric_stage.deep_view(),
            activity_type@,
            stage_to.deep_view(),
        ),
{
    match metric_type {
        MetricType::Input => match metric_activity {
            Some(value) => str_eq(value.as_str(), activity_type),
            None => false,
        },
        MetricType::Output => match stage_to {
            Some(stage) => match metric_stage {
                Some(value) => str_eq(value.as_str(), stage),
                None => false,
            },
            None => false,
        },
    }
}

/// The page and the page size of the activity feed: the first page where
/// none or zero is asked for; 20 rows where no size is asked for, and never
/// fewer than 10 nor more than 100.
pub fn feed_page(page: Option<u32>, page_size: Option<u32>) -> (r: (u32, u32))
    ensures
        r.0 == (match page {
            Some(p) => if p < 1 {
                1
            } else {
                p
            },
            None => 1,
        }),
        r.1 == (match page_size {
            Some(n) => if n < 10 {
                10
            } else if n > 100 {
                100
            } else {
                n
            },
            None => 20,
        }),
{
    let page = match page {
        Some(p) => if p < 1 {
            1
        } else {
            p
        },
        None => 1,
    };
    let size = match page_size {
        Some(n) => if n < 10 {
            10
        } else if n > 100 {
            100
        } else {
            n
        },
        None => 20,
    };
    (page, size)
}

} // verus!
