use serde_json::{Number, Value};
use volume_changes::record::{records_to_data, Record};
use volume_changes::aggregate::dataset_to_stats;
use volume_changes::stat::Stat;

fn b(x: f64) -> u64 {
    x.to_bits()
}

fn stat_to_value(s: &Stat) -> Value {
    let mut m = serde_json::Map::new();
    m.insert("ROI".to_string(), Value::String(s.roi.name().to_string()));
    m.insert(
        "Volume Phase start".to_string(),
        Value::Number(Number::from_f64(f64::from_bits(s.avg_vol_phase_start)).unwrap()),
    );
    m.insert("Phase start".to_string(), Value::Number(Number::from(s.phase_start)));
    m.insert("Phase end".to_string(), Value::Number(Number::from(s.phase_end)));
    m.insert("average".to_string(), Value::Number(Number::from_f64(f64::from_bits(s.avg)).unwrap()));
    m.insert(
        "std_dev".to_string(),
        Value::Number(Number::from_f64(f64::from_bits(s.std_dev)).unwrap()),
    );
    m.insert("n".to_string(), Value::Number(Number::from(s.n)));
    Value::Object(m)
}

fn gtv_record(id: &str, v1: f64, v2: f64, v3: f64) -> Record {
    Record {
        patient_id: id.to_string(),
        gtv_phase_i: Some(b(v1)),
        gtv_phase_ii: Some(b(v2)),
        gtv_phase_iii: Some(b(v3)),
        gtv_n_phase_i: Some(b(v1 + 1.0)),
        gtv_n_phase_ii: Some(b(v2 + 1.0)),
        gtv_n_phase_iii: Some(b(v3 + 1.0)),
        ptv_dp_phase_i: Some(b(v1 * 2.0)),
        ptv_dp_phase_ii: Some(b(v2 * 2.0)),
        ptv_dp_phase_iii: Some(b(v3 * 2.0)),
    }
}

#[test]
fn serialized_output_round_trips() {
    let records = vec![gtv_record("p1", 10.0, 12.0, 11.0), gtv_record("p2", 8.0, 9.0, 10.0)];
    let dataset = records_to_data(&records);
    let stats = dataset_to_stats(&dataset).unwrap();
    let doc = Value::Array(stats.iter().map(stat_to_value).collect());
    let text = serde_json::to_string_pretty(&doc).unwrap();
    let back: Value = serde_json::from_str(&text).unwrap();
    assert_eq!(doc, back);
    let rows = back.as_array().unwrap();
    assert_eq!(rows.len(), 6);
    for (row, s) in rows.iter().zip(stats.iter()) {
        assert_eq!(row["ROI"].as_str().unwrap(), s.roi.name());
        assert_eq!(row["Phase start"].as_i64().unwrap(), s.phase_start as i64);
        assert_eq!(row["Phase end"].as_i64().unwrap(), s.phase_end as i64);
        assert_eq!(row["n"].as_u64().unwrap(), s.n as u64);
        assert_eq!(row["average"].as_f64().unwrap(), f64::from_bits(s.avg));
        assert_eq!(row["std_dev"].as_f64().unwrap(), f64::from_bits(s.std_dev));
        assert_eq!(
            row["Volume Phase start"].as_f64().unwrap(),
            f64::from_bits(s.avg_vol_phase_start),
        );
    }
}
