use lso::tags::{color, tags, Coalition, Color, TagSet};

#[test]
fn tags_of_a_carrier() {
    let attrs = vec!["Ships".to_string(), "AircraftCarrier".to_string(), "Armed ships".to_string()];
    assert_eq!(
        tags(&attrs),
        TagSet { sea: true, watercraft: true, aircraft_carrier: true, air: false, fixed_wing: false }
    );
}

#[test]
fn tags_of_a_plane() {
    let attrs = vec!["Air".to_string(), "Planes".to_string(), "Battleplanes".to_string()];
    assert_eq!(
        tags(&attrs),
        TagSet { sea: false, watercraft: false, aircraft_carrier: false, air: true, fixed_wing: true }
    );
    assert_eq!(
        tags(&Vec::new()),
        TagSet { sea: false, watercraft: false, aircraft_carrier: false, air: false, fixed_wing: false }
    );
}

#[test]
fn colors_of_coalitions() {
    assert_eq!(color(Coalition::All), Color::Grey);
    assert_eq!(color(Coalition::Neutral), Color::Grey);
    assert_eq!(color(Coalition::Red), Color::Red);
    assert_eq!(color(Coalition::Blue), Color::Blue);
}
