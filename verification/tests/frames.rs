use nyx_space::frames::Frame;

fn celestial(axb_id: i32, exb_id: i32) -> Frame<f64> {
    Frame::Celestial { axb_id, exb_id, gm: 398_600.4415, parent_axb_id: Some(0), parent_exb_id: None }
}

fn geoid(axb_id: i32, exb_id: i32) -> Frame<f64> {
    Frame::Geoid {
        axb_id,
        exb_id,
        gm: 398_600.4415,
        parent_axb_id: None,
        parent_exb_id: Some(3),
        flattening: 0.0033528,
        equatorial_radius: 6378.1363,
        semi_major_radius: 6378.14,
    }
}

#[test]
fn kinds_of_frames() {
    assert!(geoid(0, 399).is_geoid());
    assert!(!geoid(0, 399).is_celestial());
    assert!(celestial(0, 10).is_celestial());
    assert!(!celestial(0, 10).is_geoid());
    let local: Frame<f64> = Frame::VNC;
    assert!(!local.is_geoid());
    assert!(!local.is_celestial());
}

#[test]
fn constants_of_a_body() {
    let earth = geoid(1, 399);
    assert_eq!(earth.gm(), 398_600.4415);
    assert_eq!(earth.axb_id(), 1);
    assert_eq!(earth.exb_id(), 399);
    assert_eq!(earth.parent_axb_id(), None);
    assert_eq!(earth.parent_exb_id(), Some(3));
    assert_eq!(earth.flattening(), 0.0033528);
    assert_eq!(earth.equatorial_radius(), 6378.1363);
    assert_eq!(earth.semi_major_radius(), 6378.14);
    let sun = celestial(0, 10);
    assert_eq!(sun.gm(), 398_600.4415);
    assert_eq!(sun.axb_id(), 0);
    assert_eq!(sun.exb_id(), 10);
    assert_eq!(sun.parent_axb_id(), Some(0));
    assert_eq!(sun.parent_exb_id(), None);
}

#[test]
fn names_of_known_bodies() {
    assert_eq!(celestial(0, 0).name(), "SSB IAU Fixed");
    assert_eq!(celestial(0, 10).name(), "Sun J2000");
    assert_eq!(celestial(0, 100).name(), "Mercury J2000");
    assert_eq!(celestial(0, 200).name(), "Venus J2000");
    assert_eq!(celestial(0, 300).name(), "Earth-Moon barycenter J2000");
    assert_eq!(geoid(0, 399).name(), "Earth J2000");
    assert_eq!(celestial(0, 400).name(), "Mars barycenter J2000");
    assert_eq!(celestial(0, 500).name(), "Jupiter barycenter J2000");
    assert_eq!(celestial(0, 600).name(), "Saturn barycenter J2000");
    assert_eq!(celestial(0, 700).name(), "Uranus barycenter J2000");
    assert_eq!(celestial(0, 800).name(), "Neptune barycenter J2000");
}

#[test]
fn names_of_orientations() {
    assert_eq!(geoid(399, 399).name(), "Earth IAU Fixed");
    assert_eq!(geoid(300, 399).name(), "Earth IAU Fixed");
    assert_eq!(celestial(1000, 10).name(), "Sun IAU Sun");
    assert_eq!(celestial(1099, 10).name(), "Sun IAU Sun");
    assert_eq!(celestial(150, 10).name(), "Sun Mercury IAU Fixed");
    assert_eq!(celestial(250, 10).name(), "Sun Venus IAU Fixed");
    assert_eq!(celestial(398, 399).name(), "Earth Earth IAU Fixed");
    assert_eq!(celestial(450, 10).name(), "Sun Mars IAU Fixed");
    assert_eq!(celestial(550, 10).name(), "Sun Jupiter IAU Fixed");
    assert_eq!(celestial(650, 10).name(), "Sun Saturn IAU Fixed");
    assert_eq!(celestial(750, 10).name(), "Sun Uranus IAU Fixed");
    assert_eq!(celestial(850, 10).name(), "Sun Neptune IAU Fixed");
    assert_eq!(celestial(99, 10).name(), "Sun J2000");
    assert_eq!(celestial(-99, 10).name(), "Sun J2000");
}

#[test]
fn names_of_unknown_identifiers() {
    assert_eq!(celestial(0, 7).name(), "  7 J2000");
    assert_eq!(celestial(0, 42).name(), " 42 J2000");
    assert_eq!(celestial(0, 301).name(), "301 J2000");
    assert_eq!(celestial(0, 12345).name(), "12345 J2000");
    assert_eq!(celestial(0, -5).name(), " -5 J2000");
    assert_eq!(celestial(900, 10).name(), "Sun 900");
    assert_eq!(celestial(1234, 10).name(), "Sun 1234");
    assert_eq!(celestial(-100, 10).name(), "Sun -100");
    assert_eq!(celestial(-199, 10).name(), "Sun -199");
    assert_eq!(celestial(i32::MIN, i32::MAX).name(), "2147483647 -2147483648");
}

#[test]
fn names_of_local_frames() {
    assert_eq!(Frame::<f64>::VNC.name(), "VNC");
    assert_eq!(Frame::<f64>::RCN.name(), "RCN");
    assert_eq!(Frame::<f64>::RIC.name(), "RIC");
}
