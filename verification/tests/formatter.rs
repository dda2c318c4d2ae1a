use nyx_space::errors::NyxError;
use nyx_space::formatter::{
    column_from_keyword, parse_lowered_nav_header, parse_nav_header, parse_state_header, NavCell,
    NavParsed, NavSolutionFormatter, NavSolutionHeader, OutputSerde, StateFormatter, StateHeader,
};
use nyx_space::params::{
    orbit_params, spacecraft_params, EpochFormat, HeaderUnit, StateParameter,
};
use nyx_space::residual::header;
use nyx_space::time::Epoch;

fn texts(of: &[&str]) -> Vec<String> {
    of.iter().map(|s| s.to_string()).collect()
}

fn plain(param: StateParameter) -> StateHeader {
    StateHeader { param, frame_name: None, epoch_fmt: None }
}

#[test]
fn parameters_have_the_names_of_their_variants() {
    for param in [
        StateParameter::AoL,
        StateParameter::C3,
        StateParameter::Epoch,
        StateParameter::FuelMass,
        StateParameter::GeodeticLatitude,
        StateParameter::HX,
        StateParameter::RAAN,
        StateParameter::SMA,
        StateParameter::VZ,
        StateParameter::Custom { mapping: 0 },
        StateParameter::Custom { mapping: 1234567 },
    ] {
        assert_eq!(param.name(), format!("{:?}", param));
    }
    assert_eq!(StateParameter::TrueLongitude.name(), "TrueLongitude");
    assert_eq!(StateParameter::Custom { mapping: 42 }.name(), "Custom { mapping: 42 }");
}

#[test]
fn parameters_have_units() {
    assert_eq!(StateParameter::X.unit(), HeaderUnit::Kilometers);
    assert_eq!(StateParameter::Rmag.unit(), HeaderUnit::Kilometers);
    assert_eq!(StateParameter::SemiMinorAxis.unit(), HeaderUnit::Kilometers);
    assert_eq!(StateParameter::VY.unit(), HeaderUnit::KilometersPerSecond);
    assert_eq!(StateParameter::Vmag.unit(), HeaderUnit::KilometersPerSecond);
    assert_eq!(StateParameter::AoP.unit(), HeaderUnit::Degrees);
    assert_eq!(StateParameter::TrueAnomaly.unit(), HeaderUnit::Degrees);
    assert_eq!(StateParameter::Eccentricity.unit(), HeaderUnit::Unitless);
    assert_eq!(StateParameter::Epoch.unit(), HeaderUnit::Unitless);
    assert_eq!(StateParameter::Period.unit(), HeaderUnit::Unitless);
    assert_eq!(StateParameter::Apoapsis.unit(), HeaderUnit::Unitless);
    assert_eq!(StateParameter::Custom { mapping: 3 }.unit(), HeaderUnit::Unitless);
}

#[test]
fn parameters_from_their_keywords() {
    let known = [
        ("apoapsis", StateParameter::Apoapsis),
        ("periapsis", StateParameter::Periapsis),
        ("aol", StateParameter::AoL),
        ("aop", StateParameter::AoP),
        ("declin", StateParameter::Declination),
        ("apoapsis_radius", StateParameter::ApoapsisRadius),
        ("ea", StateParameter::EccentricAnomaly),
        ("ecc", StateParameter::Eccentricity),
        ("energy", StateParameter::Energy),
        ("fuel_mass", StateParameter::FuelMass),
        ("geodetic_height", StateParameter::GeodeticHeight),
        ("geodetic_latitude", StateParameter::GeodeticLatitude),
        ("geodetic_longitude", StateParameter::GeodeticLongitude),
        ("hmag", StateParameter::Hmag),
        ("hx", StateParameter::HX),
        ("hy", StateParameter::HY),
        ("hz", StateParameter::HZ),
        ("inc", StateParameter::Inclination),
        ("ma", StateParameter::MeanAnomaly),
        ("periapsis_radius", StateParameter::PeriapsisRadius),
        ("period", StateParameter::Period),
        ("right_asc", StateParameter::RightAscension),
        ("raan", StateParameter::RAAN),
        ("rmag", StateParameter::Rmag),
        ("semi_parameter", StateParameter::SemiParameter),
        ("semi_minor", StateParameter::SemiMinorAxis),
        ("sma", StateParameter::SMA),
        ("ta", StateParameter::TrueAnomaly),
        ("tlong", StateParameter::TrueLongitude),
        ("vmag", StateParameter::Vmag),
        ("x", StateParameter::X),
        ("y", StateParameter::Y),
        ("z", StateParameter::Z),
        ("vx", StateParameter::VX),
        ("vy", StateParameter::VY),
        ("vz", StateParameter::VZ),
    ];
    for (keyword, param) in known {
        assert_eq!(StateParameter::from_keyword(keyword), Some(param));
        assert_eq!(StateParameter::from_str(&keyword.to_uppercase()).unwrap(), param);
    }
    assert_eq!(StateParameter::from_keyword("AoL"), None);
    assert_eq!(StateParameter::from_keyword(""), None);
    assert_eq!(StateParameter::from_keyword("epoch"), None);
}

#[test]
fn parameters_from_text_in_any_case() {
    assert_eq!(StateParameter::from_str("AoL").unwrap(), StateParameter::AoL);
    assert_eq!(StateParameter::from_str("Geodetic_Height").unwrap(), StateParameter::GeodeticHeight);
    match StateParameter::from_str("Altitude") {
        Err(NyxError::LoadingError(what)) => assert_eq!(what, "Altitude"),
        _ => panic!("an unknown parameter was read"),
    }
}

#[test]
fn interpolated_parameters() {
    assert_eq!(orbit_params(), vec![StateParameter::X, StateParameter::Y, StateParameter::Z]);
    assert_eq!(
        spacecraft_params(),
        vec![StateParameter::X, StateParameter::Y, StateParameter::Z, StateParameter::FuelMass]
    );
}

#[test]
fn epoch_formats_from_their_keywords() {
    let known = [
        ("gregorianutc", EpochFormat::GregorianUtc),
        ("gregoriantai", EpochFormat::GregorianTai),
        ("mjdtai", EpochFormat::MjdTai),
        ("mjdtt", EpochFormat::MjdTt),
        ("mjdutc", EpochFormat::MjdUtc),
        ("jdeet", EpochFormat::JdeEt),
        ("jdetai", EpochFormat::JdeTai),
        ("jdett", EpochFormat::JdeTt),
        ("jdeutc", EpochFormat::JdeUtc),
    ];
    for (keyword, format) in known {
        assert_eq!(EpochFormat::from_keyword(keyword), Some(format));
        assert_eq!(EpochFormat::from_str(&format.name()).unwrap(), format);
        assert_eq!(format.name(), format!("{:?}", format));
    }
    assert_eq!(EpochFormat::from_keyword("taisecs"), None);
    assert!(matches!(EpochFormat::from_str("unix"), Err(NyxError::LoadingError(_))));
    assert_eq!(EpochFormat::TaiSecs(Epoch::from_tai_nanoseconds(0)).name(), "TaiSecs");
    assert_eq!(EpochFormat::TaiDays(Epoch::from_tai_nanoseconds(0)).name(), "TaiDays");
}

#[test]
fn header_of_a_parameter() {
    assert_eq!(StateHeader::from(StateParameter::X), plain(StateParameter::X));
    assert_eq!(
        StateHeader::from(StateParameter::Epoch),
        StateHeader {
            param: StateParameter::Epoch,
            frame_name: None,
            epoch_fmt: Some(EpochFormat::GregorianUtc)
        }
    );
}

#[test]
fn text_of_a_state_header() {
    assert_eq!(plain(StateParameter::X).to_string(), "X (km)");
    assert_eq!(plain(StateParameter::VX).to_string(), "VX (km/s)");
    assert_eq!(plain(StateParameter::RAAN).to_string(), "RAAN (deg)");
    assert_eq!(plain(StateParameter::Eccentricity).to_string(), "Eccentricity");
    assert_eq!(StateHeader::from(StateParameter::Epoch).to_string(), "Epoch:GregorianUtc");
    let framed = StateHeader {
        param: StateParameter::SMA,
        frame_name: Some("EME2000".to_string()),
        epoch_fmt: None,
    };
    assert_eq!(framed.to_string(), "SMA (km):EME2000");
    let both = StateHeader {
        param: StateParameter::Epoch,
        frame_name: Some("iau_earth".to_string()),
        epoch_fmt: Some(EpochFormat::MjdTai),
    };
    assert_eq!(both.to_string(), "Epoch:iau_earth");
}

#[test]
fn state_header_from_text() {
    assert_eq!(parse_state_header("AoL").unwrap(), plain(StateParameter::AoL));
    assert_eq!(
        parse_state_header("ea:eme2000").unwrap(),
        StateHeader {
            param: StateParameter::EccentricAnomaly,
            frame_name: Some("eme2000".to_string()),
            epoch_fmt: None
        }
    );
    assert_eq!(
        parse_state_header("X:IAU Earth").unwrap().frame_name,
        Some("IAU Earth".to_string())
    );
    assert_eq!(
        parse_state_header("epoch").unwrap(),
        StateHeader::from(StateParameter::Epoch)
    );
    assert_eq!(
        parse_state_header("Epoch:MjdTai").unwrap(),
        StateHeader {
            param: StateParameter::Epoch,
            frame_name: None,
            epoch_fmt: Some(EpochFormat::MjdTai)
        }
    );
}

#[test]
fn state_header_from_text_with_more_parts() {
    // Only a text of two parts names a frame or a format.
    assert_eq!(parse_state_header("sma:eme2000:km").unwrap(), plain(StateParameter::SMA));
    assert_eq!(
        parse_state_header("epoch:mjdtai:x").unwrap(),
        StateHeader::from(StateParameter::Epoch)
    );
    assert_eq!(
        parse_state_header("sma:").unwrap().frame_name,
        Some(String::new())
    );
}

#[test]
fn state_header_from_unknown_text() {
    for text in ["", "altitude", "epoch:unix", ":x", "x y"] {
        match parse_state_header(text) {
            Err(NyxError::LoadingError(what)) => assert_eq!(what, text),
            _ => panic!("a header was read from {:?}", text),
        }
    }
}

#[test]
fn state_formatter_from_headers() {
    let formatter = StateFormatter::from_headers(
        &texts(&["epoch", "geodetic_latitude:iau_earth", "geodetic_longitude:iau_earth", "sma"]),
        "track.csv".to_string(),
    )
    .unwrap();
    assert_eq!(formatter.filename, "track.csv");
    assert_eq!(formatter.headers.len(), 4);
    assert_eq!(formatter.headers[0], StateHeader::from(StateParameter::Epoch));
    assert_eq!(formatter.headers[1].param, StateParameter::GeodeticLatitude);
    assert_eq!(formatter.headers[3], plain(StateParameter::SMA));
    assert_eq!(formatter.frame_names(), vec!["iau_earth", "iau_earth"]);
}

#[test]
fn state_formatter_from_an_unknown_header() {
    let r = StateFormatter::from_headers(&texts(&["x", "y", "w"]), "f".to_string());
    match r {
        Err(NyxError::LoadingError(what)) => assert_eq!(what, "w"),
        _ => panic!("an unknown header was read"),
    }
}

#[test]
fn default_state_formatter() {
    let formatter = StateFormatter::default("out.csv".to_string());
    assert_eq!(formatter.filename, "out.csv");
    let names: Vec<String> = formatter.headers.iter().map(|h| h.to_string()).collect();
    assert_eq!(
        names,
        vec!["Epoch:GregorianUtc", "X (km)", "Y (km)", "Z (km)", "VX (km/s)", "VY (km/s)", "VZ (km/s)"]
    );
    assert!(formatter.frame_names().is_empty());
}

#[test]
fn output_configuration_to_a_state_formatter() {
    let with = OutputSerde { filename: "a.csv".to_string(), headers: Some(texts(&["x", "vx:eme2000"])) };
    let formatter = with.to_state_formatter().unwrap();
    assert_eq!(formatter.filename, "a.csv");
    assert_eq!(formatter.headers.len(), 2);
    let without = OutputSerde { filename: "b.csv".to_string(), headers: None };
    assert_eq!(without.to_state_formatter().unwrap().headers.len(), 7);
    let wrong = OutputSerde { filename: "c.csv".to_string(), headers: Some(texts(&["nope"])) };
    assert!(wrong.to_state_formatter().is_err());
    assert!(wrong.to_nav_sol_formatter().is_err());
    assert_eq!(without.to_nav_sol_formatter().unwrap().headers.len(), 14);
}

#[test]
fn text_of_a_nav_solution_header() {
    assert_eq!(NavSolutionHeader::Epoch(EpochFormat::GregorianTai).to_string(), "Epoch:GregorianTai");
    assert_eq!(NavSolutionHeader::Delta_x.to_string(), "delta_x");
    assert_eq!(NavSolutionHeader::Delta_vz.to_string(), "delta_vz");
    assert_eq!(NavSolutionHeader::Cx_x { frame: None }.to_string(), "cx_x");
    assert_eq!(
        NavSolutionHeader::Cz_dot_y_dot { frame: Some("ric".to_string()) }.to_string(),
        "cz_dot_y_dot:ric"
    );
    let states = vec![
        plain(StateParameter::X),
        StateHeader { param: StateParameter::VX, frame_name: Some("eme2000".to_string()), epoch_fmt: None },
    ];
    assert_eq!(
        NavSolutionHeader::EstimatedState(states.clone()).to_string(),
        "Estimate:X (km),Estimate:VX (km/s):eme2000"
    );
    assert_eq!(
        NavSolutionHeader::NominalState(states.clone()).columns(),
        vec!["Nominal:X (km)", "Nominal:VX (km/s):eme2000"]
    );
    assert_eq!(NavSolutionHeader::NominalState(Vec::new()).to_string(), "");
    assert!(NavSolutionHeader::EstimatedState(Vec::new()).columns().is_empty());
    assert_eq!(NavSolutionHeader::Cy_x { frame: None }.columns(), vec!["cy_x"]);
}

#[test]
fn every_column_has_its_keyword() {
    let words = [
        "delta_x", "delta_y", "delta_z", "delta_vx", "delta_vy", "delta_vz", "cx_x", "cy_x", "cy_y",
        "cz_x", "cz_y", "cz_z", "cx_dot_x", "cx_dot_y", "cx_dot_z", "cx_dot_x_dot", "cy_dot_x",
        "cy_dot_y", "cy_dot_z", "cy_dot_x_dot", "cy_dot_y_dot", "cz_dot_x", "cz_dot_y", "cz_dot_z",
        "cz_dot_x_dot", "cz_dot_y_dot", "cz_dot_z_dot",
    ];
    for word in words {
        let header = column_from_keyword(word, None).unwrap();
        assert_eq!(header.to_string(), word);
        let framed = column_from_keyword(word, Some("ric".to_string())).unwrap();
        if word.starts_with("delta") {
            assert_eq!(framed.to_string(), word);
        } else {
            assert_eq!(framed.to_string(), format!("{}:ric", word));
        }
    }
    assert!(column_from_keyword("cx_y", None).is_none());
    assert!(column_from_keyword("epoch", None).is_none());
    assert_eq!(
        column_from_keyword("cx_dot_x_dot", None),
        Some(NavSolutionHeader::Cx_dot_x_dot { frame: None })
    );
}

#[test]
fn nav_solution_formatter_from_headers() {
    let formatter = NavSolutionFormatter::from_headers(
        &texts(&[
            "Epoch:MjdTai",
            "estimate:AoL",
            "delta_x",
            "nominal:ea:EME2000",
            "cx_x:any:RIC",
            "estimate:sma:eme2000",
            "cy_y",
        ]),
        "nav.csv".to_string(),
    )
    .unwrap();
    assert_eq!(formatter.filename, "nav.csv");
    let estimated = vec![
        plain(StateParameter::AoL),
        StateHeader { param: StateParameter::SMA, frame_name: Some("eme2000".to_string()), epoch_fmt: None },
    ];
    let nominal = vec![StateHeader {
        param: StateParameter::EccentricAnomaly,
        frame_name: Some("eme2000".to_string()),
        epoch_fmt: None,
    }];
    assert_eq!(
        formatter.headers,
        vec![
            NavSolutionHeader::Epoch(EpochFormat::MjdTai),
            NavSolutionHeader::Delta_x,
            NavSolutionHeader::Cx_x { frame: Some("ric".to_string()) },
            NavSolutionHeader::Cy_y { frame: None },
            NavSolutionHeader::EstimatedState(estimated.clone()),
            NavSolutionHeader::NominalState(nominal.clone()),
        ]
    );
    assert_eq!(formatter.estimated_headers.headers, estimated);
    assert_eq!(formatter.nominal_headers.headers, nominal);
    assert_eq!(formatter.estimated_headers.filename, "file_should_not_exist");
    assert_eq!(formatter.nominal_headers.filename, "file_should_not_exist");
    assert_eq!(formatter.frame_names, vec!["eme2000", "ric", "eme2000"]);
}

#[test]
fn nav_solution_formatter_of_no_headers() {
    let formatter = NavSolutionFormatter::from_headers(&Vec::new(), "nav.csv".to_string()).unwrap();
    assert_eq!(
        formatter.headers,
        vec![
            NavSolutionHeader::EstimatedState(Vec::new()),
            NavSolutionHeader::NominalState(Vec::new())
        ]
    );
    assert!(formatter.frame_names.is_empty());
}

#[test]
fn nav_solution_formatter_from_an_unknown_header() {
    for text in ["cx_y", "estimate", "nominal:altitude", "epoch:unix", "", "estimate:epoch"] {
        match NavSolutionFormatter::from_headers(&texts(&["delta_x", text]), "f".to_string()) {
            Err(NyxError::LoadingError(what)) => assert_eq!(what, text),
            _ => panic!("a header was read from {:?}", text),
        }
    }
}

#[test]
fn nav_solution_formatter_reads_the_epoch() {
    let formatter = NavSolutionFormatter::from_headers(
        &texts(&["epoch", "EPOCH:JdeUtc", "epoch:mjdtai:eme2000"]),
        "f".to_string(),
    )
    .unwrap();
    assert_eq!(
        formatter.headers[..3],
        [
            NavSolutionHeader::Epoch(EpochFormat::GregorianUtc),
            NavSolutionHeader::Epoch(EpochFormat::JdeUtc),
            NavSolutionHeader::Epoch(EpochFormat::GregorianUtc),
        ]
    );
    assert_eq!(formatter.frame_names, vec!["eme2000"]);
}

#[test]
fn default_nav_solution_formatter() {
    let formatter = NavSolutionFormatter::default("nav.csv".to_string());
    let names: Vec<String> = formatter.headers.iter().map(|h| h.to_string()).collect();
    assert_eq!(
        names,
        vec![
            "Epoch:GregorianTai",
            "delta_x",
            "delta_y",
            "delta_z",
            "delta_vx",
            "delta_vy",
            "delta_vz",
            "cx_x",
            "cy_y",
            "cz_z",
            "cx_dot_x_dot",
            "cy_dot_y_dot",
            "cz_dot_z_dot",
            "Estimate:X (km),Estimate:Y (km),Estimate:Z (km),Estimate:VX (km/s),Estimate:VY (km/s),Estimate:VZ (km/s)",
        ]
    );
    assert_eq!(formatter.estimated_headers.headers.len(), 6);
    assert!(formatter.nominal_headers.headers.is_empty());
    assert!(formatter.frame_names.is_empty());
    assert_eq!(formatter.filename, "nav.csv");
}

#[test]
fn headers_of_residuals() {
    assert_eq!(
        header("Epoch:GregorianUtc", 2),
        vec!["Epoch:GregorianUtc", "prefit_0", "prefit_1", "postfit_0", "postfit_1"]
    );
    assert_eq!(header("t", 0), vec!["t"]);
    let long = header("t", 12);
    assert_eq!(long.len(), 25);
    assert_eq!(long[11], "prefit_10");
    assert_eq!(long[24], "postfit_11");
}

#[test]
fn nav_header_from_text_in_lower_case() {
    assert_eq!(
        parse_lowered_nav_header("delta_vy"),
        Some((NavParsed::Plain(NavSolutionHeader::Delta_vy), None))
    );
    assert_eq!(
        parse_lowered_nav_header("cz_dot_x:any:ric"),
        Some((
            NavParsed::Plain(NavSolutionHeader::Cz_dot_x { frame: Some("ric".to_string()) }),
            Some("ric".to_string())
        ))
    );
    assert_eq!(
        parse_lowered_nav_header("cz_dot_x:ric"),
        Some((NavParsed::Plain(NavSolutionHeader::Cz_dot_x { frame: None }), None))
    );
    assert_eq!(
        parse_lowered_nav_header("epoch:jdett"),
        Some((NavParsed::Plain(NavSolutionHeader::Epoch(EpochFormat::JdeTt)), None))
    );
    assert_eq!(
        parse_lowered_nav_header("estimate:ta:iau_earth"),
        Some((
            NavParsed::Estimate(StateHeader {
                param: StateParameter::TrueAnomaly,
                frame_name: Some("iau_earth".to_string()),
                epoch_fmt: None
            }),
            Some("iau_earth".to_string())
        ))
    );
    assert_eq!(
        parse_lowered_nav_header("nominal:vz"),
        Some((NavParsed::Nominal(plain(StateParameter::VZ)), None))
    );
    // The text is to be in lower case already.
    assert_eq!(parse_lowered_nav_header("Delta_vy"), None);
    assert_eq!(parse_lowered_nav_header("epoch:JdeTt"), None);
    assert_eq!(parse_lowered_nav_header("estimate:TA"), None);
}

#[test]
fn nav_header_from_text_in_any_case() {
    assert_eq!(
        parse_nav_header("Delta_VY").unwrap(),
        (NavParsed::Plain(NavSolutionHeader::Delta_vy), None)
    );
    assert_eq!(
        parse_nav_header("Estimate:TA:IAU_Earth").unwrap().1,
        Some("iau_earth".to_string())
    );
    match parse_nav_header("Delta_W") {
        Err(NyxError::LoadingError(what)) => assert_eq!(what, "Delta_W"),
        _ => panic!("an unknown header was read"),
    }
}

#[test]
fn columns_read_the_cells_that_their_words_name() {
    let axes = ["x", "y", "z", "x_dot", "y_dot", "z_dot"];
    for (row, first) in axes.iter().enumerate() {
        for (col, second) in axes.iter().enumerate().take(row + 1) {
            let word = format!("c{}_{}", first, second);
            let header = column_from_keyword(&word, None).unwrap();
            assert_eq!(header.cell(), NavCell::Covariance(row, col), "{}", word);
        }
    }
    let deviations = ["x", "y", "z", "vx", "vy", "vz"];
    for (place, component) in deviations.iter().enumerate() {
        let header = column_from_keyword(&format!("delta_{}", component), None).unwrap();
        assert_eq!(header.cell(), NavCell::Deviation(place));
    }
    assert_eq!(
        NavSolutionHeader::Cy_dot_x { frame: Some("luna".to_string()) }.cell(),
        NavCell::Covariance(4, 0)
    );
}

#[test]
fn columns_of_epochs_and_states_read_no_single_number() {
    assert_eq!(
        NavSolutionHeader::Epoch(EpochFormat::GregorianTai).cell(),
        NavCell::Epoch(EpochFormat::GregorianTai)
    );
    assert_eq!(NavSolutionHeader::EstimatedState(Vec::new()).cell(), NavCell::EstimatedState);
    assert_eq!(
        NavSolutionHeader::NominalState(vec![plain(StateParameter::X)]).cell(),
        NavCell::NominalState
    );
}
