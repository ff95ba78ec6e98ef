use photo::launch::{parse_cli_args, CliOptions, HarnessLaunch, DEFAULT_HARNESS_PORT};

fn args(list: &[&str]) -> Vec<String> {
    list.iter().map(|s| s.to_string()).collect()
}

#[test]
fn no_args_yields_defaults() {
    let options = parse_cli_args(&Vec::new());
    assert_eq!(options, CliOptions::default());
}

#[test]
fn bare_path_is_image_path_without_harness() {
    let options = parse_cli_args(&args(&["photos/a.jpg"]));
    assert_eq!(options.image_path, Some("photos/a.jpg".to_string()));
    assert_eq!(options.harness, None);
}

#[test]
fn harness_flag_uses_default_port() {
    let options = parse_cli_args(&args(&["--harness"]));
    assert_eq!(
        options.harness,
        Some(HarnessLaunch {
            port: DEFAULT_HARNESS_PORT,
            real_storage: false
        })
    );
}

#[test]
fn harness_flag_accepts_explicit_port_and_zero() {
    let options = parse_cli_args(&args(&["--harness=9000"]));
    assert_eq!(options.harness.as_ref().map(|h| h.port), Some(9000));

    let options = parse_cli_args(&args(&["--harness=0"]));
    assert_eq!(options.harness.as_ref().map(|h| h.port), Some(0));
}

#[test]
fn invalid_harness_port_is_ignored() {
    let options = parse_cli_args(&args(&["--harness=notaport"]));
    assert_eq!(options.harness, None);
}

#[test]
fn real_storage_applies_only_with_harness() {
    let options = parse_cli_args(&args(&["--harness", "--harness-real-storage"]));
    assert_eq!(options.harness.as_ref().map(|h| h.real_storage), Some(true));

    let options = parse_cli_args(&args(&["--harness-real-storage"]));
    assert_eq!(options.harness, None);
}

#[test]
fn harness_and_image_path_combine_in_any_order() {
    let options = parse_cli_args(&args(&["photos/a.jpg", "--harness=7000"]));
    assert_eq!(options.image_path, Some("photos/a.jpg".to_string()));
    assert_eq!(options.harness.as_ref().map(|h| h.port), Some(7000));

    let options = parse_cli_args(&args(&["--harness=7000", "photos/a.jpg"]));
    assert_eq!(options.image_path, Some("photos/a.jpg".to_string()));
    assert_eq!(options.harness.as_ref().map(|h| h.port), Some(7000));
}

#[test]
fn unknown_flags_are_ignored_and_extra_positionals_dropped() {
    let options = parse_cli_args(&args(&["--wat", "a.jpg", "b.jpg"]));
    assert_eq!(options.image_path, Some("a.jpg".to_string()));
    assert_eq!(options.harness, None);
}

#[test]
fn port_with_plus_sign_and_out_of_range_port() {
    let options = parse_cli_args(&args(&["--harness=+8080"]));
    assert_eq!(options.harness.as_ref().map(|h| h.port), Some(8080));
    let options = parse_cli_args(&args(&["--harness=65536"]));
    assert_eq!(options.harness, None);
}
