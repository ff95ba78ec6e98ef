use photo::lens::{lens_choice, number_text_accepted, parse_lensfun_xml, DistortionModel, LensChoice, LensDatabase};

const SAMPLE_XML: &str = r#"
<lensdatabase version="2">
    <lens>
        <maker>Sony</maker>
        <model>E 16mm f/2.8</model>
        <mount>Sony E</mount>
        <cropfactor>1.534</cropfactor>
        <calibration>
            <distortion model="ptlens" focal="16" a="0.01701" b="-0.02563" c="-0.0052"/>
            <tca model="poly3" focal="16" br="-0.0003027" vr="1.0010272" bb="0.0003454" vb="0.9993952"/>
            <vignetting model="pa" focal="16" aperture="2.8" distance="0.25" k1="-1.8891" k2="1.7993" k3="-0.7326"/>
        </calibration>
    </lens>
</lensdatabase>
"#;

fn number(text: &Option<String>, default: f32) -> f32 {
    text.as_deref().map(|t| t.parse::<f32>().unwrap()).unwrap_or(default)
}

#[test]
fn parse_lens_from_xml() {
    let profiles = parse_lensfun_xml(SAMPLE_XML);
    assert_eq!(profiles.len(), 1);
    assert_eq!(profiles[0].maker, "Sony");
    assert_eq!(profiles[0].model, "E 16mm f/2.8");
    assert_eq!(profiles[0].mount, "Sony E");
}

#[test]
fn parse_distortion_coefficients() {
    let profiles = parse_lensfun_xml(SAMPLE_XML);
    let dist = profiles[0].distortion.as_ref().unwrap();
    assert_eq!(dist.model, DistortionModel::PtLens);
    assert!((number(&dist.a, 0.0) - 0.01701).abs() < 0.0001);
    assert!((number(&dist.b, 0.0) - (-0.02563)).abs() < 0.0001);
    assert!((number(&dist.c, 0.0) - (-0.0052)).abs() < 0.0001);
}

#[test]
fn parse_vignetting_coefficients() {
    let profiles = parse_lensfun_xml(SAMPLE_XML);
    let vig = profiles[0].vignetting.as_ref().unwrap();
    assert!((vig.k1.parse::<f32>().unwrap() - (-1.8891)).abs() < 0.0001);
    assert!((vig.k2.parse::<f32>().unwrap() - 1.7993).abs() < 0.0001);
    assert!((vig.k3.parse::<f32>().unwrap() - (-0.7326)).abs() < 0.0001);
}

#[test]
fn parse_tca_coefficients() {
    let profiles = parse_lensfun_xml(SAMPLE_XML);
    let tca = profiles[0].tca.as_ref().unwrap();
    assert!((number(&tca.vr, 1.0) - 1.0010272).abs() < 0.0001);
    assert!((number(&tca.vb, 1.0) - 0.9993952).abs() < 0.0001);
}

#[test]
fn lookup_lens_by_model_substring() {
    let db = LensDatabase { profiles: parse_lensfun_xml(SAMPLE_XML) };
    assert!(db.find_lens("Sony", "E 16mm f/2.8").is_some());
    assert!(db.find_lens("sony", "16MM").is_some());
}

#[test]
fn lookup_lens_not_found() {
    let db = LensDatabase { profiles: parse_lensfun_xml(SAMPLE_XML) };
    assert!(db.find_lens("Nonexistent", "fake lens").is_none());
}

#[test]
fn first_readable_calibration_wins() {
    let xml = r#"<db><lens><maker>A</maker><maker>B</maker><model>M</model><calibration>
        <distortion model="weird" a="1"/>
        <distortion model="poly3" k1="0.5"/>
        <distortion model="ptlens" a="9"/>
        <vignetting k1="x" k2="1" k3="1"/>
        <vignetting k1="1" k2="2" k3="3"/>
        </calibration></lens><lens><model>Second</model></lens></db>"#;
    let profiles = parse_lensfun_xml(xml);
    assert_eq!(profiles.len(), 2);
    assert_eq!(profiles[0].maker, "A");
    let dist = profiles[0].distortion.as_ref().unwrap();
    assert_eq!(dist.model, DistortionModel::Poly3);
    assert_eq!(dist.a.as_deref(), Some("0.5"));
    assert_eq!(profiles[0].vignetting.as_ref().unwrap().k1, "1");
    assert!(profiles[0].tca.is_none());
    assert_eq!(profiles[1].model, "Second");
    assert!(profiles[1].distortion.is_none());
}

#[test]
fn number_text_follows_the_float_grammar() {
    for ok in ["1", "-0.5", "+.5", "5.", "1e5", "1E-3", "inf", "-Infinity", "NaN", "0.01701"] {
        assert!(number_text_accepted(ok), "{ok}");
        assert!(ok.parse::<f32>().is_ok());
    }
    for bad in ["", ".", "e5", "1e", "1e+", "1.2.3", " 1", "x", "--1", "infinite"] {
        assert!(!number_text_accepted(bad), "{bad}");
        assert!(bad.parse::<f32>().is_err());
    }
}

const TWO_LENSES_XML: &str = r#"
<lensdatabase version="2">
    <lens><maker>Sony</maker><model>E 16mm f/2.8</model><mount>Sony E</mount></lens>
    <lens><maker>Samyang</maker><model>AF 35mm f/1.8 FE</model><mount>Sony E</mount></lens>
</lensdatabase>
"#;

#[test]
fn exif_lookup_prefers_the_lens_maker() {
    let db = LensDatabase { profiles: parse_lensfun_xml(TWO_LENSES_XML) };
    let by_lens_maker = db.profile_for_exif("Sony", "Samyang", "AF 35mm");
    assert_eq!(by_lens_maker.map(|p| p.model.as_str()), Some("AF 35mm f/1.8 FE"));
    let by_camera_maker = db.profile_for_exif("SONY", "", "e 16mm");
    assert_eq!(by_camera_maker.map(|p| p.model.as_str()), Some("E 16mm f/2.8"));
    assert!(db.profile_for_exif("Sony", "Samyang", "E 16mm").is_none());
}

#[test]
fn lens_chooser_entries() {
    assert_eq!(lens_choice("Auto"), LensChoice::Auto);
    assert_eq!(lens_choice("None"), LensChoice::NoProfile);
    assert_eq!(lens_choice("auto"), LensChoice::Labeled);
    let db = LensDatabase { profiles: parse_lensfun_xml(TWO_LENSES_XML) };
    let picked = db.profile_labeled("Samyang AF 35mm f/1.8 FE");
    assert_eq!(picked.map(|p| p.maker.as_str()), Some("Samyang"));
    assert!(db.profile_labeled("Samyang AF 35mm").is_none());
}
