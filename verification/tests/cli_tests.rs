use render_sandbox::Args;
use render_sandbox::ArgsError;

fn parse(args: &[&str]) -> Args {
    let argv: Vec<String> = args.iter().map(|a| a.to_string()).collect();
    Args::try_parse(&argv).expect("arguments should parse")
}

#[test]
fn test_default_args() {
    let args = parse(&["render_sandbox"]);
    assert_eq!(args.width, 800);
    assert_eq!(args.height, 600);
    assert_eq!(args.output, "output.png");
    assert_eq!(args.format, "png");
    assert_eq!(args.samples, 1);
    assert!(!args.verbose);
    assert_eq!(args.log_level, "info");
    assert!(!args.headless);
    assert_eq!(args.gltf_path, "test_assets/triangle.gltf");
}

#[test]
fn test_custom_resolution() {
    let args = parse(&["render_sandbox", "--width", "1920", "--height", "1080"]);
    assert_eq!(args.width, 1920);
    assert_eq!(args.height, 1080);
}

#[test]
fn test_short_args() {
    let args = parse(&[
        "render_sandbox",
        "-w",
        "1024",
        "--height",
        "768",
        "-o",
        "test.jpg",
        "-f",
        "jpg",
        "-s",
        "4",
        "-v",
        "-l",
        "debug",
    ]);
    assert_eq!(args.width, 1024);
    assert_eq!(args.height, 768);
    assert_eq!(args.output, "test.jpg");
    assert_eq!(args.format, "jpg");
    assert_eq!(args.samples, 4);
    assert!(args.verbose);
    assert_eq!(args.log_level, "debug");
}

#[test]
fn test_long_args() {
    let args = parse(&[
        "render_sandbox",
        "--width",
        "2560",
        "--height",
        "1440",
        "--output",
        "render.png",
        "--format",
        "png",
        "--samples",
        "8",
        "--verbose",
        "--log-level",
        "warn",
    ]);
    assert_eq!(args.width, 2560);
    assert_eq!(args.height, 1440);
    assert_eq!(args.output, "render.png");
    assert_eq!(args.format, "png");
    assert_eq!(args.samples, 8);
    assert!(args.verbose);
    assert_eq!(args.log_level, "warn");
}

#[test]
fn test_validation_functions() {
    // Test format validation
    let valid_formats = ["png", "jpg", "jpeg", "bmp"];
    for format in valid_formats {
        let args = parse(&["render_sandbox", "--format", format]);
        assert_eq!(args.format, format);
    }
}

#[test]
fn test_mixed_case_formats() {
    let args = parse(&["render_sandbox", "--format", "PNG"]);
    assert_eq!(args.format, "PNG");
}

#[test]
fn test_log_level_options() {
    let valid_levels = ["error", "warn", "info", "debug", "trace"];
    for level in valid_levels {
        let args = parse(&["render_sandbox", "--log-level", level]);
        assert_eq!(args.log_level, level);
    }
}

#[test]
fn test_log_level_short_option() {
    let args = parse(&["render_sandbox", "-l", "error"]);
    assert_eq!(args.log_level, "error");
}

#[test]
fn test_log_level_mixed_case() {
    let args = parse(&["render_sandbox", "--log-level", "ERROR"]);
    assert_eq!(args.log_level, "ERROR");
}

#[test]
fn test_headless_flag() {
    let args = parse(&["render_sandbox", "--headless"]);
    assert!(args.headless);
}

#[test]
fn test_default_headless_false() {
    let args = parse(&["render_sandbox"]);
    assert!(!args.headless);
}

#[test]
fn test_gltf_path_default() {
    let args = parse(&["render_sandbox"]);
    assert_eq!(args.gltf_path, "test_assets/triangle.gltf");
}

#[test]
fn test_gltf_path_short_arg() {
    let args = parse(&["render_sandbox", "-g", "custom/scene.gltf"]);
    assert_eq!(args.gltf_path, "custom/scene.gltf");
}

#[test]
fn test_gltf_path_long_arg() {
    let args = parse(&["render_sandbox", "--gltf", "path/to/model.gltf"]);
    assert_eq!(args.gltf_path, "path/to/model.gltf");
}

#[test]
fn test_all_args_together() {
    let args = parse(&[
        "render_sandbox",
        "--width",
        "1920",
        "--height",
        "1080",
        "--output",
        "result.jpg",
        "--format",
        "jpg",
        "--samples",
        "4",
        "--verbose",
        "--log-level",
        "debug",
        "--headless",
        "--gltf",
        "assets/complex_scene.gltf",
    ]);
    assert_eq!(args.width, 1920);
    assert_eq!(args.height, 1080);
    assert_eq!(args.output, "result.jpg");
    assert_eq!(args.format, "jpg");
    assert_eq!(args.samples, 4);
    assert!(args.verbose);
    assert_eq!(args.log_level, "debug");
    assert!(args.headless);
    assert_eq!(args.gltf_path, "assets/complex_scene.gltf");
}

#[test]
fn test_unknown_argument_rejected() {
    let argv: Vec<String> = ["render_sandbox", "--frobnicate"].iter().map(|a| a.to_string()).collect();
    let r = Args::try_parse(&argv);
    assert!(matches!(r, Err(render_sandbox::ArgsError::UnknownArgument(_))));
}

#[test]
fn test_missing_value_rejected() {
    let argv: Vec<String> = ["render_sandbox", "--width"].iter().map(|a| a.to_string()).collect();
    let r = Args::try_parse(&argv);
    assert!(matches!(r, Err(render_sandbox::ArgsError::MissingValue(_))));
}

#[test]
fn test_invalid_number_rejected() {
    let argv: Vec<String> = ["render_sandbox", "--width", "sixteen"].iter().map(|a| a.to_string()).collect();
    let r = Args::try_parse(&argv);
    assert!(matches!(r, Err(render_sandbox::ArgsError::InvalidValue(_))));
}

#[test]
fn test_number_bounds() {
    let args = parse(&["render_sandbox", "--width", "4294967295"]);
    assert_eq!(args.width, 4294967295);
    let argv: Vec<String> =
        ["render_sandbox", "--width", "4294967296"].iter().map(|a| a.to_string()).collect();
    assert!(Args::try_parse(&argv).is_err());
}

#[test]
fn test_later_occurrence_wins() {
    let args = parse(&["render_sandbox", "--width", "100", "--width", "200"]);
    assert_eq!(args.width, 200);
}

#[test]
fn test_args_error_messages() {
    assert_eq!(
        ArgsError::UnknownArgument("--frobnicate".to_string()).message(),
        "Unknown argument: --frobnicate"
    );
    assert_eq!(
        ArgsError::MissingValue("--width".to_string()).message(),
        "Missing value for argument: --width"
    );
}
