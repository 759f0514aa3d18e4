use lycan::feature_schema::{
    hold_unit, Aggregation, ContextSpec, Encoded, FeatureSpec, FeatureType, FeatureValue, TimeSeriesWindow,
};
use lycan::json::{Json, Number};
use lycan::message::Piece;
use lycan::number::Real;
use lycan::table::Table;

fn num(x: f64) -> Real {
    Real { bits: x.to_bits() }
}

fn value(r: Real) -> f64 {
    f64::from_bits(r.bits)
}

fn text(pieces: &[Piece]) -> String {
    let mut s = String::new();
    for p in pieces {
        match p {
            Piece::Text(t) => s.push_str(t),
            Piece::Number(r) => s.push_str(&value(*r).to_string()),
            _ => panic!("unexpected piece"),
        }
    }
    s
}

fn percentile(sorted: &[Real], pct: f64) -> f64 {
    let rank = (pct / 100.0) * (sorted.len() as f64 - 1.0);
    let (lo, hi) = (rank.floor() as usize, rank.ceil() as usize);
    if lo == hi {
        return value(sorted[lo]);
    }
    let frac = rank - lo as f64;
    value(sorted[lo]) * (1.0 - frac) + value(sorted[hi]) * frac
}

fn mean(v: &[Real]) -> f64 {
    v.iter().map(|r| value(*r)).sum::<f64>() / v.len() as f64
}

fn slope(v: &[Real]) -> f64 {
    let mean_x = (v.len() as f64 - 1.0) / 2.0;
    let mean_y = mean(v);
    let (mut above, mut below) = (0.0, 0.0);
    for (i, y) in v.iter().enumerate() {
        let dx = i as f64 - mean_x;
        above += dx * (value(*y) - mean_y);
        below += dx * dx;
    }
    above / below
}

fn number(e: &Encoded) -> f64 {
    match e {
        Encoded::Given(r) => value(*r),
        Encoded::Scaled { n, min, max } => {
            let part = (value(*n) - value(*min)) / (value(*max) - value(*min));
            value(hold_unit(num(part)))
        }
        Encoded::Sine { n, period } => {
            (2.0 * std::f64::consts::PI * (value(*n) / value(*period))).sin()
        }
        Encoded::Cosine { n, period } => {
            (2.0 * std::f64::consts::PI * (value(*n) / value(*period))).cos()
        }
        Encoded::Mean(v) => mean(v),
        Encoded::Percentile(sorted, pct) => percentile(sorted, *pct as f64),
        Encoded::Slope(v) => slope(v),
    }
}

fn spans(spec: &ContextSpec) -> Vec<Real> {
    match spec {
        ContextSpec::Discrete => vec![],
        ContextSpec::Features { features } => features
            .iter()
            .map(|f| match &f.feature_type {
                FeatureType::Continuous { range: Some([min, max]) } => {
                    num(value(*max) - value(*min))
                }
                _ => num(0.0),
            })
            .collect(),
    }
}

fn encode(spec: &ContextSpec, values: &Table<FeatureValue>) -> Result<Vec<f64>, String> {
    match spec.encode(&spans(spec), values) {
        Ok(v) => Ok(v.iter().map(number).collect()),
        Err(m) => Err(text(&m)),
    }
}

fn encode_with_windows(
    spec: &ContextSpec,
    values: &Table<FeatureValue>,
    windows: &Table<TimeSeriesWindow>,
) -> Result<Vec<f64>, String> {
    match spec.encode_with_windows(&spans(spec), values, windows) {
        Ok(v) => Ok(v.iter().map(number).collect()),
        Err(m) => Err(text(&m)),
    }
}

fn val_num(n: f64) -> FeatureValue {
    FeatureValue::Number(num(n))
}

fn val_cat(s: &str) -> FeatureValue {
    FeatureValue::Category(s.to_string())
}

#[test]
fn discrete_encodes_to_empty() {
    let spec = ContextSpec::Discrete;
    assert_eq!(spec.encoded_dimension(), 0);
    let v = encode(&spec, &Table::new()).unwrap();
    assert!(v.is_empty());
}

#[test]
fn continuous_feature_with_no_range_passes_through() {
    let spec = ContextSpec::Features {
        features: vec![FeatureSpec {
            name: "x".into(),
            feature_type: FeatureType::Continuous { range: None },
        }],
    };
    assert_eq!(spec.encoded_dimension(), 2); // 1 feature + bias
    let mut values = Table::new();
    values.insert("x".into(), val_num(3.7));
    let v = encode(&spec, &values).unwrap();
    assert_eq!(v, vec![3.7, 1.0]);
}

#[test]
fn continuous_feature_with_range_normalizes() {
    let spec = ContextSpec::Features {
        features: vec![FeatureSpec {
            name: "x".into(),
            feature_type: FeatureType::Continuous { range: Some([num(0.0), num(10.0)]) },
        }],
    };
    let mut values = Table::new();
    values.insert("x".into(), val_num(5.0));
    let v = encode(&spec, &values).unwrap();
    assert_eq!(v, vec![0.5, 1.0]);
}

#[test]
fn continuous_feature_with_range_clamps() {
    let spec = ContextSpec::Features {
        features: vec![FeatureSpec {
            name: "x".into(),
            feature_type: FeatureType::Continuous { range: Some([num(0.0), num(10.0)]) },
        }],
    };
    let mut values = Table::new();
    values.insert("x".into(), val_num(15.0));
    let v = encode(&spec, &values).unwrap();
    assert_eq!(v[0], 1.0); // clamped to 1.0
}

#[test]
fn categorical_one_hot_drops_first_level() {
    let spec = ContextSpec::Features {
        features: vec![FeatureSpec {
            name: "cat".into(),
            feature_type: FeatureType::Categorical {
                values: vec!["a".into(), "b".into(), "c".into(), "d".into()],
            },
        }],
    };
    assert_eq!(spec.encoded_dimension(), 4); // 3 one-hot + bias
    let mut values = Table::new();
    values.insert("cat".into(), val_cat("c"));
    let v = encode(&spec, &values).unwrap();
    // "a" is reference (dropped). For "c", we expect [is_b=0, is_c=1, is_d=0, bias=1]
    assert_eq!(v, vec![0.0, 1.0, 0.0, 1.0]);
}

#[test]
fn categorical_reference_level_is_all_zeros() {
    let spec = ContextSpec::Features {
        features: vec![FeatureSpec {
            name: "cat".into(),
            feature_type: FeatureType::Categorical {
                values: vec!["a".into(), "b".into(), "c".into()],
            },
        }],
    };
    let mut values = Table::new();
    values.insert("cat".into(), val_cat("a"));
    let v = encode(&spec, &values).unwrap();
    assert_eq!(v, vec![0.0, 0.0, 1.0]); // a is reference → both dims zero, plus bias
}

#[test]
fn cyclic_feature_produces_two_dims() {
    let spec = ContextSpec::Features {
        features: vec![FeatureSpec {
            name: "hour".into(),
            feature_type: FeatureType::Cyclic { period: num(24.0) },
        }],
    };
    assert_eq!(spec.encoded_dimension(), 3); // sin + cos + bias
    let mut values = Table::new();
    values.insert("hour".into(), val_num(6.0)); // 6:00 = 90 degrees
    let v = encode(&spec, &values).unwrap();
    // sin(π/2) = 1, cos(π/2) = 0 (within FP tolerance)
    assert!((v[0] - 1.0).abs() < 1e-9);
    assert!(v[1].abs() < 1e-9);
    assert_eq!(v[2], 1.0); // bias
}

#[test]
fn mixed_features_encode_correctly() {
    let spec = ContextSpec::Features {
        features: vec![
            FeatureSpec {
                name: "age".into(),
                feature_type: FeatureType::Continuous { range: Some([num(0.0), num(100.0)]) },
            },
            FeatureSpec {
                name: "country".into(),
                feature_type: FeatureType::Categorical {
                    values: vec!["us".into(), "uk".into(), "de".into()],
                },
            },
            FeatureSpec {
                name: "hour".into(),
                feature_type: FeatureType::Cyclic { period: num(24.0) },
            },
        ],
    };
    // 1 (continuous) + 2 (categorical, drops first) + 2 (cyclic) + 1 (bias) = 6
    assert_eq!(spec.encoded_dimension(), 6);
    let mut values = Table::new();
    values.insert("age".into(), val_num(30.0));
    values.insert("country".into(), val_cat("uk"));
    values.insert("hour".into(), val_num(0.0));
    let v = encode(&spec, &values).unwrap();
    assert_eq!(v.len(), 6);
    assert!((v[0] - 0.3).abs() < 1e-9);  // age 30 → 0.3
    assert_eq!(v[1], 1.0);                // is_uk = 1
    assert_eq!(v[2], 0.0);                // is_de = 0
    assert!(v[3].abs() < 1e-9);           // sin(0) = 0
    assert!((v[4] - 1.0).abs() < 1e-9);   // cos(0) = 1
    assert_eq!(v[5], 1.0);                // bias
}

#[test]
fn missing_feature_returns_error() {
    let spec = ContextSpec::Features {
        features: vec![FeatureSpec {
            name: "x".into(),
            feature_type: FeatureType::Continuous { range: None },
        }],
    };
    let result = encode(&spec, &Table::new());
    assert!(result.is_err());
    assert!(result.unwrap_err().contains("missing feature 'x'"));
}

#[test]
fn unknown_category_returns_error() {
    let spec = ContextSpec::Features {
        features: vec![FeatureSpec {
            name: "cat".into(),
            feature_type: FeatureType::Categorical {
                values: vec!["a".into(), "b".into()],
            },
        }],
    };
    let mut values = Table::new();
    values.insert("cat".into(), val_cat("z"));
    let result = encode(&spec, &values);
    assert!(result.is_err());
    assert!(result.unwrap_err().contains("not in declared values"));
}

#[test]
fn type_mismatch_returns_error() {
    let spec = ContextSpec::Features {
        features: vec![FeatureSpec {
            name: "x".into(),
            feature_type: FeatureType::Continuous { range: None },
        }],
    };
    let mut values = Table::new();
    values.insert("x".into(), val_cat("hello"));
    let result = encode(&spec, &values);
    assert!(result.is_err());
    assert!(result.unwrap_err().contains("expects number"));
}

fn ts_window_of(seq: &[f64], max_size: usize) -> TimeSeriesWindow {
    let mut w = TimeSeriesWindow::new(max_size);
    for v in seq {
        w.push(num(*v));
    }
    w
}

#[test]
fn timeseries_push_respects_max_size_and_drops_oldest() {
    let mut w = TimeSeriesWindow::new(3);
    w.push(num(1.0));
    w.push(num(2.0));
    w.push(num(3.0));
    assert_eq!(w.values.len(), 3);
    w.push(num(4.0));
    assert_eq!(w.values.len(), 3);
    // Oldest (1.0) should have been evicted; window is [2, 3, 4].
    let collected: Vec<f64> = w.values.iter().map(|r| value(*r)).collect();
    assert_eq!(collected, vec![2.0, 3.0, 4.0]);
}

#[test]
fn timeseries_aggregations_on_one_through_ten() {
    let w = ts_window_of(&[1., 2., 3., 4., 5., 6., 7., 8., 9., 10.], 10);
    assert!((number(&w.aggregate(Aggregation::Mean)) - 5.5).abs() < 1e-9);
    assert_eq!(number(&w.aggregate(Aggregation::Max)), 10.0);
    assert_eq!(number(&w.aggregate(Aggregation::Min)), 1.0);
    // P50 on a 10-element sorted sequence with linear interpolation:
    //   rank = 0.5 * 9 = 4.5 → blend of sorted[4]=5 and sorted[5]=6 → 5.5
    assert!((number(&w.aggregate(Aggregation::P50)) - 5.5).abs() < 1e-9);
    // P95: rank = 0.95 * 9 = 8.55 → blend of sorted[8]=9 and sorted[9]=10 → 9.55
    assert!((number(&w.aggregate(Aggregation::P95)) - 9.55).abs() < 1e-9);
    // Slope of y = i + 1 over i = 0..10 is 1.0 exactly.
    assert!((number(&w.aggregate(Aggregation::Slope)) - 1.0).abs() < 1e-9);
}

#[test]
fn timeseries_empty_window_returns_zero_for_every_aggregation() {
    let w = TimeSeriesWindow::new(5);
    for a in &[
        Aggregation::Mean,
        Aggregation::Max,
        Aggregation::Min,
        Aggregation::P50,
        Aggregation::P95,
        Aggregation::Slope,
    ] {
        assert_eq!(number(&w.aggregate(*a)), 0.0, "aggregation {:?} on empty window", a);
    }
}

#[test]
fn timeseries_slope_on_single_point_is_zero() {
    let w = ts_window_of(&[42.0], 5);
    assert_eq!(number(&w.aggregate(Aggregation::Slope)), 0.0);
}

#[test]
fn timeseries_aggregate_all_preserves_order() {
    let w = ts_window_of(&[1.0, 2.0, 3.0], 3);
    let aggs = vec![Aggregation::Max, Aggregation::Min, Aggregation::Mean];
    let out: Vec<f64> = w.aggregate_all(&aggs).iter().map(number).collect();
    assert_eq!(out.len(), 3);
    assert_eq!(out[0], 3.0);
    assert_eq!(out[1], 1.0);
    assert!((out[2] - 2.0).abs() < 1e-9);
}

#[test]
fn feature_spec_encoded_dimension_for_timeseries() {
    let spec = FeatureSpec {
        name: "latency".into(),
        feature_type: FeatureType::TimeSeries {
            window_size: 10,
            aggregations: vec![Aggregation::Mean, Aggregation::Max, Aggregation::Slope],
        },
    };
    assert_eq!(spec.encoded_dimension(), 3);
}

#[test]
fn context_spec_encoded_dimension_includes_timeseries() {
    let spec = ContextSpec::Features {
        features: vec![
            FeatureSpec {
                name: "x".into(),
                feature_type: FeatureType::Continuous { range: None },
            },
            FeatureSpec {
                name: "latency".into(),
                feature_type: FeatureType::TimeSeries {
                    window_size: 10,
                    aggregations: vec![Aggregation::Mean, Aggregation::Max, Aggregation::P95],
                },
            },
        ],
    };
    // 1 (continuous) + 3 (time-series) + 1 (bias) = 5
    assert_eq!(spec.encoded_dimension(), 5);
}

#[test]
fn encode_falls_back_to_zeros_for_timeseries_without_windows() {
    let spec = ContextSpec::Features {
        features: vec![
            FeatureSpec {
                name: "x".into(),
                feature_type: FeatureType::Continuous { range: None },
            },
            FeatureSpec {
                name: "latency".into(),
                feature_type: FeatureType::TimeSeries {
                    window_size: 5,
                    aggregations: vec![Aggregation::Mean, Aggregation::Max],
                },
            },
        ],
    };
    let mut values = Table::new();
    values.insert("x".into(), val_num(7.0));
    // No window supplied for "latency" → zeros.
    let v = encode(&spec, &values).unwrap();
    assert_eq!(v.len(), 4); // 1 + 2 + bias
    assert_eq!(v[0], 7.0);
    assert_eq!(v[1], 0.0);
    assert_eq!(v[2], 0.0);
    assert_eq!(v[3], 1.0);
}

#[test]
fn encode_with_windows_mixed_spec_produces_expected_vector() {
    let spec = ContextSpec::Features {
        features: vec![
            FeatureSpec {
                name: "age".into(),
                feature_type: FeatureType::Continuous { range: Some([num(0.0), num(100.0)]) },
            },
            FeatureSpec {
                name: "latency".into(),
                feature_type: FeatureType::TimeSeries {
                    window_size: 5,
                    aggregations: vec![Aggregation::Mean, Aggregation::Max],
                },
            },
            FeatureSpec {
                name: "country".into(),
                feature_type: FeatureType::Categorical {
                    values: vec!["us".into(), "uk".into(), "de".into()],
                },
            },
        ],
    };
    let mut values = Table::new();
    values.insert("age".into(), val_num(50.0));
    values.insert("country".into(), val_cat("uk"));

    let win = ts_window_of(&[1.0, 2.0, 3.0, 4.0, 5.0], 5);
    let mut windows: Table<TimeSeriesWindow> = Table::new();
    windows.insert("latency".into(), win);

    let v = encode_with_windows(&spec, &values, &windows).unwrap();
    // 1 (continuous) + 2 (time-series) + 2 (categorical) + 1 (bias) = 6
    assert_eq!(v.len(), 6);
    assert!((v[0] - 0.5).abs() < 1e-9); // age 50 → 0.5
    assert!((v[1] - 3.0).abs() < 1e-9); // mean of 1..5 = 3
    assert!((v[2] - 5.0).abs() < 1e-9); // max  of 1..5 = 5
    assert_eq!(v[3], 1.0);              // is_uk
    assert_eq!(v[4], 0.0);              // is_de
    assert_eq!(v[5], 1.0);              // bias
}

#[test]
fn timeseries_window_json_roundtrip() {
    let w = ts_window_of(&[1.5, 2.5, 3.5], 4);
    let json = w.serialize();
    assert_eq!(json.get("maxSize").and_then(|v| v.as_u64()), Some(4));
    let kept: Vec<f64> =
        json.array_at("values").unwrap().iter().map(|v| value(v.as_real().unwrap())).collect();
    assert_eq!(kept, vec![1.5, 2.5, 3.5]);
    let restored = TimeSeriesWindow::deserialize(&json).unwrap();
    assert_eq!(restored.values, w.values);
    assert_eq!(restored.max_size, w.max_size);
}

#[test]
fn timeseries_window_zero_capacity_stays_empty() {
    let mut w = TimeSeriesWindow::new(0);
    w.push(num(1.0));
    w.push(num(2.0));
    assert!(w.values.is_empty());
}

#[test]
fn validate_rejects_p95_with_small_window() {
    let spec = FeatureSpec {
        name: "lat".into(),
        feature_type: FeatureType::TimeSeries {
            window_size: 3,
            aggregations: vec![Aggregation::Mean, Aggregation::P95],
        },
    };
    let err = text(&spec.validate().unwrap_err());
    assert!(err.contains("p95"), "expected p95 error, got: {}", err);
    assert!(err.contains("window_size >= 5"));
}

#[test]
fn validate_rejects_slope_with_single_point_window() {
    let spec = FeatureSpec {
        name: "lat".into(),
        feature_type: FeatureType::TimeSeries {
            window_size: 1,
            aggregations: vec![Aggregation::Slope],
        },
    };
    let err = text(&spec.validate().unwrap_err());
    assert!(err.contains("slope"), "expected slope error, got: {}", err);
}

#[test]
fn validate_accepts_well_formed_timeseries() {
    let spec = FeatureSpec {
        name: "lat".into(),
        feature_type: FeatureType::TimeSeries {
            window_size: 10,
            aggregations: vec![Aggregation::Mean, Aggregation::P95, Aggregation::Slope],
        },
    };
    assert!(spec.validate().is_ok());
}

#[test]
fn validate_rejects_empty_aggregations() {
    let spec = FeatureSpec {
        name: "lat".into(),
        feature_type: FeatureType::TimeSeries {
            window_size: 10,
            aggregations: vec![],
        },
    };
    assert!(spec.validate().is_err());
}

#[test]
fn validate_rejects_zero_window_size() {
    let spec = FeatureSpec {
        name: "lat".into(),
        feature_type: FeatureType::TimeSeries {
            window_size: 0,
            aggregations: vec![Aggregation::Mean],
        },
    };
    assert!(spec.validate().is_err());
}

fn one(name: &str, feature_type: FeatureType) -> FeatureSpec {
    FeatureSpec { name: name.to_string(), feature_type }
}

fn said(spec: FeatureSpec) -> String {
    text(&spec.validate().unwrap_err())
}

#[test]
fn faults_of_a_feature_are_told() {
    assert_eq!(
        said(one("x", FeatureType::Continuous { range: Some([num(2.0), num(1.0)]) })),
        "feature 'x' has invalid range [2, 1] (need min < max)"
    );
    assert_eq!(said(one("x", FeatureType::Categorical { values: vec![] })), "feature 'x' has no categorical values");
    assert_eq!(said(one("x", FeatureType::Cyclic { period: num(0.0) })), "feature 'x' has non-positive period 0");
    assert_eq!(
        said(one("x", FeatureType::TimeSeries { window_size: 0, aggregations: vec![] })),
        "feature 'x' time-series window_size must be >= 1"
    );
}

#[test]
fn encoding_faults_are_told() {
    let with = |f: FeatureSpec, v: FeatureValue| {
        let mut values = Table::new();
        values.insert("x".to_string(), v);
        encode(&ContextSpec::Features { features: vec![f] }, &values).unwrap_err()
    };
    assert_eq!(
        with(one("x", FeatureType::Continuous { range: Some([num(1.5), num(1.5)]) }), val_num(1.0)),
        "feature 'x' has zero range [1.5, 1.5]"
    );
    assert_eq!(
        with(one("x", FeatureType::Cyclic { period: num(-2.0) }), val_num(1.0)),
        "feature 'x' has non-positive period -2"
    );
    assert_eq!(
        with(one("x", FeatureType::Cyclic { period: num(2.0) }), val_cat("a")),
        "feature 'x' expects number, got category"
    );
    assert_eq!(
        with(one("x", FeatureType::Categorical { values: vec!["a".into()] }), val_num(1.0)),
        "feature 'x' expects category, got number"
    );
    assert_eq!(
        with(
            one("x", FeatureType::Categorical { values: vec!["a".into(), "q\"t".into()] }),
            val_cat("z")
        ),
        "feature 'x' got value 'z', not in declared values [\"a\", \"q\\\"t\"]"
    );
}

#[test]
fn windows_that_cannot_be_read() {
    let wrong = |j: Json| TimeSeriesWindow::deserialize(&j).unwrap_err();
    assert_eq!(wrong(Json::Null), "time-series window: expected JSON object");
    assert_eq!(wrong(Json::Obj(vec![])), "time-series window: missing or invalid 'maxSize'");
    let size = || ("maxSize".to_string(), Json::Num(Number::Natural(3)));
    assert_eq!(
        wrong(Json::Obj(vec![size()])),
        "time-series window: missing or invalid 'values'"
    );
    assert_eq!(
        wrong(Json::Obj(vec![size(), ("values".to_string(), Json::Arr(vec![Json::Null]))])),
        "time-series window: non-numeric entry in 'values'"
    );
}

#[test]
fn values_come_from_numbers_and_texts() {
    assert!(matches!(
        FeatureValue::from_json(&Json::natural(3)),
        Some(FeatureValue::Number(r)) if value(r) == 3.0
    ));
    assert!(matches!(
        FeatureValue::from_json(&Json::text("a")),
        Some(FeatureValue::Category(s)) if s == "a"
    ));
    assert!(FeatureValue::from_json(&Json::Bool(true)).is_none());
}
