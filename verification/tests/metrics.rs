use trace_metrics::aggregation::Aggregation;
use trace_metrics::bounds::get_time_bounds;
use trace_metrics::interval::GroupByInterval;
use trace_metrics::queries::{
    get_cost_usd_metrics_absolute, get_cost_usd_metrics_relative,
    get_total_token_count_metrics_absolute, get_total_token_count_metrics_relative,
    get_total_trace_count_metrics_absolute, get_total_trace_count_metrics_relative,
    get_trace_latency_seconds_metrics_absolute, get_trace_latency_seconds_metrics_relative,
};
use trace_metrics::span::{MetricsError, Span};
use trace_metrics::stabilize::stabilize;
use trace_metrics::trace::derive_traces;

const SEC: i64 = 1_000_000_000;
const MIN: i64 = 60 * SEC;
const HOUR: i64 = 3600 * SEC;
const DAY: i64 = 24 * 3600 * SEC;

const PROJECT: u128 = 7;
const OTHER_PROJECT: u128 = 8;

fn span(trace_id: u128, start: i64, end: i64, tokens: i64, cost_units: i64) -> Span {
    Span {
        project_id: PROJECT,
        trace_id,
        start_time: start,
        end_time: end,
        total_tokens: tokens,
        total_cost_units: cost_units,
    }
}

/// One trace of two spans: A [10s, 40s) with 100 tokens and cost 0.01,
/// B [20s, 60s) with 50 tokens and cost 0.02. Minute buckets over the
/// absolute window [0, 120s).
fn example_spans() -> Vec<Span> {
    vec![
        span(1, 10 * SEC, 40 * SEC, 100, 10_000_000),
        span(1, 20 * SEC, 60 * SEC, 50, 20_000_000),
    ]
}

#[test]
fn example_token_series() {
    let spans = example_spans();
    let points = get_total_token_count_metrics_absolute(
        &spans,
        GroupByInterval::Minute,
        PROJECT,
        0,
        120 * SEC,
        Aggregation::Sum,
    )
    .unwrap();
    assert_eq!(points.len(), 2);
    assert_eq!((points[0].time, points[0].value), (0, 150));
    assert_eq!((points[1].time, points[1].value), (60, 0));
}

#[test]
fn example_cost_series() {
    let spans = example_spans();
    let points = get_cost_usd_metrics_absolute(
        &spans,
        GroupByInterval::Minute,
        PROJECT,
        0,
        120 * SEC,
        Aggregation::Sum,
    )
    .unwrap();
    assert_eq!(points.len(), 2);
    // 0.01 + 0.02 dollars, in units of 1e-9 dollars.
    assert_eq!((points[0].time, points[0].value), (0, 30_000_000));
    assert_eq!((points[1].time, points[1].value), (60, 0));
}

#[test]
fn example_latency_series() {
    let spans = example_spans();
    let points = get_trace_latency_seconds_metrics_absolute(
        &spans,
        GroupByInterval::Minute,
        PROJECT,
        0,
        120 * SEC,
        Aggregation::Sum,
    )
    .unwrap();
    assert_eq!(points.len(), 2);
    // end 60s minus start 10s: 50 seconds, in nanoseconds.
    assert_eq!((points[0].time, points[0].value), (0, 50 * SEC));
    assert_eq!((points[1].time, points[1].value), (60, 0));
}

#[test]
fn example_trace_count_series() {
    let spans = example_spans();
    let points = get_total_trace_count_metrics_absolute(
        &spans,
        GroupByInterval::Minute,
        PROJECT,
        0,
        120 * SEC,
    )
    .unwrap();
    assert_eq!(points.len(), 2);
    assert_eq!((points[0].time, points[0].value), (0, 1));
    assert_eq!((points[1].time, points[1].value), (60, 0));
}

#[test]
fn derive_traces_merges_spans() {
    let spans = example_spans();
    let traces = derive_traces(&spans, PROJECT);
    assert_eq!(traces.len(), 1);
    assert_eq!(traces[0].trace_id, 1);
    assert_eq!(traces[0].start_time, 10 * SEC);
    assert_eq!(traces[0].end_time, 60 * SEC);
    assert_eq!(traces[0].total_tokens, 150);
    assert_eq!(traces[0].total_cost_units, 30_000_000);
}

#[test]
fn attribution_by_start_bucket_only() {
    // The trace starts in minute 0 and ends in minute 5: its whole latency
    // belongs to minute 0, and no later bucket sees any of it.
    let spans = vec![span(3, 0, 330 * SEC, 10, 0)];
    let points = get_trace_latency_seconds_metrics_absolute(
        &spans,
        GroupByInterval::Minute,
        PROJECT,
        0,
        6 * MIN,
        Aggregation::Sum,
    )
    .unwrap();
    assert_eq!(points.len(), 6);
    assert_eq!(points[0].value, 330 * SEC);
    for k in 1..6 {
        assert_eq!(points[k].value, 0);
        assert_eq!(points[k].time as i64, 60 * k as i64);
    }
}

#[test]
fn zero_project_yields_all_zero_values() {
    // Spans exist only under another project: every value is exactly zero,
    // yet every bucket of the window is present.
    let spans = vec![Span {
        project_id: OTHER_PROJECT,
        trace_id: 9,
        start_time: HOUR,
        end_time: 2 * HOUR,
        total_tokens: 5,
        total_cost_units: 5,
    }];
    let points = get_total_token_count_metrics_absolute(
        &spans,
        GroupByInterval::Hour,
        PROJECT,
        0,
        5 * HOUR,
        Aggregation::Sum,
    )
    .unwrap();
    assert_eq!(points.len(), 5);
    for (k, p) in points.iter().enumerate() {
        assert_eq!(p.value, 0);
        assert_eq!(p.time as i64, 3600 * k as i64);
    }
}

#[test]
fn relative_window_matches_absolute_window_shifted_one_bucket() {
    // A relative window of two hours anchored at `now` covers the same
    // bucket grid as the absolute window [now - 2h, now], one step later:
    // it trades the bucket of `now - 2h` for the partial bucket of `now`.
    let now = 10_000 * SEC;
    let spans = vec![
        span(1, 4000 * SEC, 4100 * SEC, 11, 0),
        span(2, 5000 * SEC, 5500 * SEC, 22, 0),
        span(3, 9900 * SEC, 9950 * SEC, 33, 0),
    ];
    let relative = get_total_token_count_metrics_relative(
        &spans,
        GroupByInterval::Hour,
        PROJECT,
        2,
        now,
        Aggregation::Sum,
    )
    .unwrap();
    let absolute = get_total_token_count_metrics_absolute(
        &spans,
        GroupByInterval::Hour,
        PROJECT,
        now - 2 * HOUR,
        now,
        Aggregation::Sum,
    )
    .unwrap();
    assert_eq!(relative.len(), absolute.len());
    for k in 0..relative.len() {
        assert_eq!(relative[k].time, absolute[k].time + 3600);
    }
    for k in 0..relative.len() - 1 {
        assert_eq!(relative[k].time, absolute[k + 1].time);
        assert_eq!(relative[k].value, absolute[k + 1].value);
    }
}

#[test]
fn relative_window_gap_fills_every_hour() {
    let now = 100 * HOUR + 30 * MIN;
    let spans = vec![span(4, 99 * HOUR, 99 * HOUR + MIN, 40, 0)];
    let points = get_total_trace_count_metrics_relative(
        &spans,
        GroupByInterval::Hour,
        PROJECT,
        5,
        now,
    )
    .unwrap();
    assert_eq!(points.len(), 5);
    for k in 0..5 {
        assert_eq!(points[k].time as i64, 3600 * (96 + k as i64));
    }
    // The trace started within hour 99; the current partial hour 100 is
    // included and empty.
    assert_eq!(points[3].value, 1);
    assert_eq!(points[0].value + points[1].value + points[2].value + points[4].value, 0);
}

#[test]
fn week_buckets_align_to_sunday() {
    // The Unix epoch fell on a Thursday; week buckets start on Sundays.
    // Day 4 after the epoch truncates to day 3 (Sunday 1970-01-04).
    let spans = vec![
        span(5, 5 * DAY, 5 * DAY + MIN, 50, 0),
        span(6, 11 * DAY, 11 * DAY + MIN, 60, 0),
    ];
    let points = get_total_trace_count_metrics_absolute(
        &spans,
        GroupByInterval::Week,
        PROJECT,
        4 * DAY,
        18 * DAY,
    )
    .unwrap();
    assert_eq!(points.len(), 2);
    assert_eq!(points[0].time as i64, 3 * 24 * 3600);
    assert_eq!(points[1].time as i64, 10 * 24 * 3600);
    // The first trace's bucket starts at day 3, before the window's start
    // at day 4: the window filter excludes it, and the bucket gap-fills to
    // zero. The second trace's bucket, day 10, lies inside the window.
    assert_eq!(points[0].value, 0);
    assert_eq!(points[1].value, 1);
}

#[test]
fn aggregation_reducers_are_exact() {
    // Three traces in one minute bucket with token totals 10, 40 and 20.
    let spans = vec![
        span(1, 10 * SEC, 11 * SEC, 10, 0),
        span(2, 20 * SEC, 21 * SEC, 40, 0),
        span(3, 30 * SEC, 31 * SEC, 20, 0),
    ];
    let run = |agg: Aggregation| {
        get_total_token_count_metrics_absolute(
            &spans,
            GroupByInterval::Minute,
            PROJECT,
            0,
            2 * MIN,
            agg,
        )
        .unwrap()[0]
            .value
    };
    assert_eq!(run(Aggregation::Sum), 70);
    assert_eq!(run(Aggregation::Average), 23);
    assert_eq!(run(Aggregation::Minimum), 10);
    assert_eq!(run(Aggregation::Maximum), 40);
    assert_eq!(run(Aggregation::CountDistinct), 3);
    // Ranks over the ascending order 10, 20, 40.
    assert_eq!(run(Aggregation::Percentile(0)), 10);
    assert_eq!(run(Aggregation::Percentile(50)), 20);
    assert_eq!(run(Aggregation::Percentile(99)), 20);
    assert_eq!(run(Aggregation::Percentile(100)), 40);
}

#[test]
fn negative_duration_is_invalid_window() {
    let spans = example_spans();
    let r = get_total_trace_count_metrics_relative(
        &spans,
        GroupByInterval::Hour,
        PROJECT,
        -1,
        HOUR,
    );
    assert_eq!(r, Err(MetricsError::InvalidWindow));
}

#[test]
fn inverted_absolute_range_is_invalid_window() {
    let spans = example_spans();
    let r = get_cost_usd_metrics_absolute(
        &spans,
        GroupByInterval::Minute,
        PROJECT,
        2 * MIN,
        MIN,
        Aggregation::Sum,
    );
    assert_eq!(r, Err(MetricsError::InvalidWindow));
    let r2 = get_trace_latency_seconds_metrics_absolute(
        &spans,
        GroupByInterval::Minute,
        PROJECT,
        2 * MIN,
        MIN,
        Aggregation::Sum,
    );
    assert_eq!(r2, Err(MetricsError::InvalidWindow));
}

#[test]
fn stabilize_suppresses_noise_only() {
    assert_eq!(stabilize(0, 1), 0);
    assert_eq!(stabilize(1, 1), 1);
    assert_eq!(stabilize(-1, 1), -1);
    assert_eq!(stabilize(9, 10), 0);
    assert_eq!(stabilize(-9, 10), 0);
    assert_eq!(stabilize(10, 10), 10);
    assert_eq!(stabilize(-10, 10), -10);
    assert_eq!(stabilize(123, 0), 123);
}

#[test]
fn time_bounds_empty_project_signals_none() {
    let no_spans: Vec<Span> = Vec::new();
    assert_eq!(get_time_bounds(&no_spans, PROJECT), None);
    // Spans of another project do not count either.
    let other = vec![Span {
        project_id: OTHER_PROJECT,
        trace_id: 1,
        start_time: SEC,
        end_time: 2 * SEC,
        total_tokens: 1,
        total_cost_units: 1,
    }];
    assert_eq!(get_time_bounds(&other, PROJECT), None);
}

#[test]
fn time_bounds_reports_min_and_max_start() {
    let spans = vec![
        span(1, 50 * SEC, 60 * SEC, 1, 1),
        span(2, 10 * SEC, 90 * SEC, 1, 1),
        span(3, 70 * SEC, 80 * SEC, 1, 1),
    ];
    let tb = get_time_bounds(&spans, PROJECT).unwrap();
    assert_eq!(tb.min_time, 10 * SEC);
    assert_eq!(tb.max_time, 70 * SEC);
}

#[test]
fn latency_relative_window_stabilized_values() {
    let now = 2 * HOUR;
    let spans = vec![span(6, HOUR + MIN, HOUR + 2 * MIN, 5, 0)];
    let points = get_trace_latency_seconds_metrics_relative(
        &spans,
        GroupByInterval::Hour,
        PROJECT,
        1,
        now,
        Aggregation::Maximum,
    )
    .unwrap();
    assert_eq!(points.len(), 1);
    assert_eq!(points[0].time as i64, 2 * 3600);
    // The trace started in the previous hour's bucket, which lies before
    // the one-hour window's first boundary: the current bucket is empty.
    assert_eq!(points[0].value, 0);

    let wider = get_trace_latency_seconds_metrics_relative(
        &spans,
        GroupByInterval::Hour,
        PROJECT,
        2,
        now,
        Aggregation::Maximum,
    )
    .unwrap();
    assert_eq!(wider.len(), 2);
    assert_eq!(wider[0].time as i64, 3600);
    assert_eq!(wider[0].value, 60 * SEC);
    assert_eq!(wider[1].value, 0);
}

#[test]
fn cost_relative_window_sums_by_trace() {
    let now = 3 * HOUR + 10 * MIN;
    let spans = vec![
        span(1, 2 * HOUR + MIN, 2 * HOUR + 2 * MIN, 0, 1_000_000),
        span(1, 2 * HOUR + 3 * MIN, 2 * HOUR + 4 * MIN, 0, 2_000_000),
        span(2, 3 * HOUR + MIN, 3 * HOUR + 2 * MIN, 0, 4_000_000),
    ];
    let points = get_cost_usd_metrics_relative(
        &spans,
        GroupByInterval::Hour,
        PROJECT,
        2,
        now,
        Aggregation::Sum,
    )
    .unwrap();
    assert_eq!(points.len(), 2);
    assert_eq!(points[0].time as i64, 2 * 3600);
    assert_eq!(points[0].value, 3_000_000);
    assert_eq!(points[1].time as i64, 3 * 3600);
    assert_eq!(points[1].value, 4_000_000);
}
