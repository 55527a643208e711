use volume_changes::data::Data;
use volume_changes::roi::Roi;

fn b(x: f64) -> u64 {
    x.to_bits()
}

#[test]
fn missing_value_rejects_whole_triple() {
    let mut d = Data::new(Roi::Gtv);
    d.add_vol(Some(b(1.0)), Some(b(2.0)), None);
    assert_eq!(d.phase_1_vols().len(), 0);
    assert_eq!(d.phase_2_vols().len(), 0);
    assert_eq!(d.phase_3_vols().len(), 0);
}

#[test]
fn nan_value_rejects_whole_triple() {
    let mut d = Data::new(Roi::GtvN);
    d.add_vol(Some(b(1.0)), Some(b(f64::NAN)), Some(b(3.0)));
    assert_eq!(d.phase_1_vols().len(), 0);
    assert_eq!(d.phase_2_vols().len(), 0);
    assert_eq!(d.phase_3_vols().len(), 0);
}

#[test]
fn full_triple_is_kept_and_partial_is_not() {
    let mut d = Data::new(Roi::Gtv);
    d.add_vol(Some(b(1.0)), Some(b(2.0)), Some(b(3.0)));
    d.add_vol(None, Some(b(1.0)), Some(b(1.0)));
    assert_eq!(d.phase_1_vols().len(), 1);
    assert_eq!(d.phase_2_vols().len(), 1);
    assert_eq!(d.phase_3_vols().len(), 1);
    assert_eq!(d.phase_1_vols()[0], Some(b(1.0)));
    assert_eq!(d.phase_2_vols()[0], Some(b(2.0)));
    assert_eq!(d.phase_3_vols()[0], Some(b(3.0)));
}

#[test]
fn clear_empties_all_three_sequences() {
    let mut d = Data::new(Roi::PtvDp);
    d.add_vol(Some(b(1.0)), Some(b(2.0)), Some(b(3.0)));
    d.clear();
    assert_eq!(d.phase_1_vols().len(), 0);
    assert_eq!(d.phase_2_vols().len(), 0);
    assert_eq!(d.phase_3_vols().len(), 0);
    assert_eq!(d.roi(), Roi::PtvDp);
}

#[test]
fn roi_names() {
    assert_eq!(Roi::Gtv.name(), "GTV");
    assert_eq!(Roi::GtvN.name(), "GTV_N");
    assert_eq!(Roi::PtvDp.name(), "PTV_DP");
}
