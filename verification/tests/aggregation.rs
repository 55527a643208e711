use volume_changes::aggregate::dataset_to_stats;
use volume_changes::data::Data;
use volume_changes::record::{records_to_data, Record};
use volume_changes::roi::Roi;

fn b(x: f64) -> u64 {
    x.to_bits()
}

fn f(x: u64) -> f64 {
    f64::from_bits(x)
}

fn close(a: f64, b: f64) -> bool {
    (a - b).abs() < 1e-12
}

fn empty_record(id: &str) -> Record {
    Record {
        patient_id: id.to_string(),
        gtv_phase_i: None,
        gtv_phase_ii: None,
        gtv_phase_iii: None,
        gtv_n_phase_i: None,
        gtv_n_phase_ii: None,
        gtv_n_phase_iii: None,
        ptv_dp_phase_i: None,
        ptv_dp_phase_ii: None,
        ptv_dp_phase_iii: None,
    }
}

fn filled(roi: Roi, id: &str, v1: f64, v2: f64, v3: f64) -> Record {
    let mut r = empty_record(id);
    match roi {
        Roi::Gtv => {
            r.gtv_phase_i = Some(b(v1));
            r.gtv_phase_ii = Some(b(v2));
            r.gtv_phase_iii = Some(b(v3));
        }
        Roi::GtvN => {
            r.gtv_n_phase_i = Some(b(v1));
            r.gtv_n_phase_ii = Some(b(v2));
            r.gtv_n_phase_iii = Some(b(v3));
        }
        Roi::PtvDp => {
            r.ptv_dp_phase_i = Some(b(v1));
            r.ptv_dp_phase_ii = Some(b(v2));
            r.ptv_dp_phase_iii = Some(b(v3));
        }
    }
    r
}

#[test]
fn six_records_in_identity_order() {
    let records = vec![
        filled(Roi::Gtv, "a", 1.0, 2.0, 3.0),
        filled(Roi::GtvN, "b", 4.0, 5.0, 6.0),
        filled(Roi::PtvDp, "c", 7.0, 8.0, 9.0),
        filled(Roi::Gtv, "d", 2.0, 3.0, 4.0),
        filled(Roi::GtvN, "e", 5.0, 6.0, 7.0),
        filled(Roi::PtvDp, "g", 8.0, 9.0, 10.0),
    ];
    let dataset = records_to_data(&records);
    let stats = dataset_to_stats(&dataset).unwrap();
    assert_eq!(stats.len(), 6);
    let expected = [
        ("GTV", 1, 2),
        ("GTV", 2, 3),
        ("GTV_N", 1, 2),
        ("GTV_N", 2, 3),
        ("PTV_DP", 1, 2),
        ("PTV_DP", 2, 3),
    ];
    for (s, (name, ps, pe)) in stats.iter().zip(expected.iter()) {
        assert_eq!(s.roi.name(), *name);
        assert_eq!(s.phase_start, *ps);
        assert_eq!(s.phase_end, *pe);
    }
}

#[test]
fn sort_orders_a_scrambled_dataset() {
    let mut ptv = Data::new(Roi::PtvDp);
    ptv.add_vol(Some(b(1.0)), Some(b(2.0)), Some(b(3.0)));
    let mut gtv = Data::new(Roi::Gtv);
    gtv.add_vol(Some(b(4.0)), Some(b(5.0)), Some(b(6.0)));
    let mut gtv_n = Data::new(Roi::GtvN);
    gtv_n.add_vol(Some(b(7.0)), Some(b(8.0)), Some(b(9.0)));
    let dataset = vec![ptv, gtv, gtv_n];
    let stats = dataset_to_stats(&dataset).unwrap();
    let names: Vec<&str> = stats.iter().map(|s| s.roi.name()).collect();
    assert_eq!(names, vec!["GTV", "GTV", "GTV_N", "GTV_N", "PTV_DP", "PTV_DP"]);
    for pair in stats.chunks(2) {
        assert_eq!((pair[0].phase_start, pair[0].phase_end), (1, 2));
        assert_eq!((pair[1].phase_start, pair[1].phase_end), (2, 3));
    }
}

#[test]
fn end_to_end_gtv_statistics() {
    let records = vec![
        filled(Roi::Gtv, "p1", 10.0, 12.0, 11.0),
        filled(Roi::Gtv, "p2", 8.0, 9.0, 10.0),
    ];
    let dataset = records_to_data(&records);
    let gtv = &dataset[0];
    assert_eq!(gtv.phase_1_vols().as_slice(), &[Some(b(10.0)), Some(b(8.0))]);
    assert_eq!(gtv.phase_2_vols().as_slice(), &[Some(b(12.0)), Some(b(9.0))]);
    assert_eq!(gtv.phase_3_vols().as_slice(), &[Some(b(11.0)), Some(b(10.0))]);
    let s12 = gtv.phase_1_to_2_stat().unwrap();
    assert_eq!(s12.roi, Roi::Gtv);
    assert_eq!(s12.n, 2);
    assert!(close(f(s12.avg_vol_phase_start), 9.0));
    // The difference is starting phase minus ending phase: 10-12=-2 and
    // 8-9=-1, mean -1.5, sample std dev sqrt(0.5).
    assert!(close(f(s12.avg), -1.5));
    assert!(close(f(s12.std_dev), 0.5f64.sqrt()));
}

#[test]
fn regions_are_filled_independently() {
    // Missing one GTV_N phase disqualifies the record for GTV_N only.
    let mut r = filled(Roi::Gtv, "p1", 1.0, 2.0, 3.0);
    r.gtv_n_phase_i = Some(b(4.0));
    r.gtv_n_phase_iii = Some(b(5.0));
    let records = vec![r];
    let dataset = records_to_data(&records);
    assert_eq!(dataset[0].phase_1_vols().len(), 1);
    assert_eq!(dataset[1].phase_1_vols().len(), 0);
    assert_eq!(dataset[2].phase_1_vols().len(), 0);
}

#[test]
fn stat_equality_is_identity_only() {
    let records = vec![
        filled(Roi::Gtv, "p1", 10.0, 12.0, 11.0),
        filled(Roi::Gtv, "p2", 8.0, 9.0, 10.0),
    ];
    let dataset = records_to_data(&records);
    let a = dataset[0].phase_1_to_2_stat().unwrap();
    let mut smaller = Data::new(Roi::Gtv);
    smaller.add_vol(Some(b(1.0)), Some(b(1.0)), Some(b(1.0)));
    let c = smaller.phase_1_to_2_stat().unwrap();
    // Same region and phases: equal, though the numeric fields differ.
    assert_eq!(a, c);
    let d = smaller.phase_2_to_3_stat().unwrap();
    assert_ne!(a, d);
}

#[test]
fn empty_dataset_gives_no_rows() {
    let dataset: Vec<Data> = vec![];
    let stats = dataset_to_stats(&dataset).unwrap();
    assert_eq!(stats.len(), 0);
}
