use lso::rig::{str_eq, AirplaneInfo, Aoa, CarrierInfo};

#[test]
fn carrier_types() {
    for t in ["CVN_71", "CVN_72", "CVN_73", "CVN_75", "Stennis"] {
        assert_eq!(CarrierInfo::by_type(t).unwrap().deck_altitude, 20149);
    }
    assert_eq!(CarrierInfo::by_type("Forrestal").unwrap().deck_altitude, 18460);
    assert!(CarrierInfo::by_type("CVN_74").is_none());
    assert!(CarrierInfo::by_type("").is_none());
}

#[test]
fn airplane_types() {
    assert_eq!(AirplaneInfo::by_type("FA-18C_hornet").unwrap().hook.z, -7237);
    assert_eq!(AirplaneInfo::by_type("F-14B").unwrap().hook.z, -6564);
    assert_eq!(AirplaneInfo::by_type("F-14A-135-GR").unwrap().hook.z, -6564);
    assert_eq!(AirplaneInfo::by_type("T-45").unwrap().hook.z, -4783);
    assert!(AirplaneInfo::by_type("F-16C_50").is_none());
}

#[test]
fn hornet_aoa_brackets() {
    let p = AirplaneInfo::by_type("FA-18C_hornet").unwrap();
    assert_eq!(p.aoa_rating(690), Aoa::Fast);
    assert_eq!(p.aoa_rating(691), Aoa::SlightlyFast);
    assert_eq!(p.aoa_rating(740), Aoa::SlightlyFast);
    assert_eq!(p.aoa_rating(741), Aoa::OnSpeed);
    assert_eq!(p.aoa_rating(879), Aoa::OnSpeed);
    assert_eq!(p.aoa_rating(880), Aoa::SlightlySlow);
    assert_eq!(p.aoa_rating(929), Aoa::SlightlySlow);
    assert_eq!(p.aoa_rating(930), Aoa::Slow);
}

#[test]
fn tomcat_aoa_brackets() {
    let p = AirplaneInfo::by_type("F-14B").unwrap();
    assert_eq!(p.aoa_rating(970), Aoa::Fast);
    assert_eq!(p.aoa_rating(1000), Aoa::SlightlyFast);
    assert_eq!(p.aoa_rating(1100), Aoa::OnSpeed);
    assert_eq!(p.aoa_rating(1150), Aoa::SlightlySlow);
    assert_eq!(p.aoa_rating(1160), Aoa::Slow);
}

#[test]
fn forrestal_landing_offset() {
    let c = CarrierInfo::by_type("Forrestal").unwrap();
    let p = AirplaneInfo::by_type("T-45").unwrap();
    let off = c.optimal_landing_offset(&p);
    // touchdown target (-2967, 18479, -78567) minus the pitched hook (0, -2067, -4665)
    assert_eq!((off.x, off.y, off.z), (-2967, 20546, -73902));
}

#[test]
fn string_equality() {
    assert!(str_eq("Stennis", "Stennis"));
    assert!(!str_eq("Stennis", "stennis"));
}
