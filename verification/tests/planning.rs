use vertify::{
    build_plan, canvas_size, default_output, is_valid_fill_color, parse_fill_color,
    resolve_target, tool_candidates, ConvertOptions, PlanError, ProbeInfo, Target,
};

#[test]
fn canvas_size_vertical_1080p_class() {
    assert_eq!(canvas_size(1920, Target::Vertical), (1080, 1920));
}

#[test]
fn canvas_size_horizontal_1080p_class() {
    assert_eq!(canvas_size(1920, Target::Horizontal), (1920, 1080));
}

#[test]
fn canvas_size_keeps_even_dimensions() {
    let (w, h) = canvas_size(1921, Target::Vertical);
    assert_eq!(w % 2, 0);
    assert_eq!(h % 2, 0);
}

#[test]
fn auto_target_flips_landscape_to_vertical() {
    let probe = ProbeInfo {
        width: 1920,
        height: 1080,
        duration_ms: 1000,
    };
    assert_eq!(
        resolve_target(Target::Auto, &probe).unwrap(),
        Target::Vertical
    );
}

#[test]
fn auto_target_flips_portrait_to_horizontal() {
    let probe = ProbeInfo {
        width: 1080,
        height: 1920,
        duration_ms: 1000,
    };
    assert_eq!(
        resolve_target(Target::Auto, &probe).unwrap(),
        Target::Horizontal
    );
}

#[test]
fn auto_target_rejects_square() {
    let probe = ProbeInfo {
        width: 1080,
        height: 1080,
        duration_ms: 1000,
    };
    assert!(resolve_target(Target::Auto, &probe).is_err());
}

#[test]
fn default_output_uses_orientation_suffix() {
    assert_eq!(
        default_output("clip.mov", Target::Vertical, None, None),
        "clip_vertical.mp4"
    );
    assert_eq!(
        default_output("clip.mov", Target::Horizontal, None, None),
        "clip_horizontal.mp4"
    );
}

#[test]
fn default_output_supports_output_dir_and_custom_suffix() {
    assert_eq!(
        default_output(
            "/tmp/in/clip.mov",
            Target::Vertical,
            Some("/tmp/out"),
            Some("social")
        ),
        "/tmp/out/clip_vertical_social.mp4"
    );
}

#[test]
fn parse_named_and_hex_colors() {
    assert_eq!(parse_fill_color("white"), [255, 255, 255]);
    assert_eq!(parse_fill_color("#101010"), [16, 16, 16]);
    assert_eq!(parse_fill_color("nope"), [0, 0, 0]);
    assert!(is_valid_fill_color("gray"));
    assert!(!is_valid_fill_color("not-a-color"));
}

#[test]
fn already_oriented_16x9_is_detected() {
    let opts = ConvertOptions {
        input: "in.mp4".to_string(),
        to: Target::Horizontal,
        ..Default::default()
    };
    let probe = ProbeInfo {
        width: 1920,
        height: 1080,
        duration_ms: 1000,
    };
    let plan = build_plan(&opts, &probe).unwrap();
    assert!(plan.already_oriented);
    assert_eq!((plan.out_w, plan.out_h), (1920, 1080));
}

#[test]
fn build_plan_rejects_identical_output_path() {
    let opts = ConvertOptions {
        input: "same.mp4".to_string(),
        output: Some("same.mp4".to_string()),
        to: Target::Vertical,
        ..Default::default()
    };
    let probe = ProbeInfo {
        width: 1920,
        height: 1080,
        duration_ms: 1000,
    };
    assert!(build_plan(&opts, &probe).is_err());
}

#[test]
fn tool_candidates_include_executable_dir() {
    let exe_dir = std::path::Path::new("/opt/vertify");
    let candidates = tool_candidates("ffmpeg", false, None, Some("/opt/vertify"));
    assert!(
        candidates
            .iter()
            .any(|p| std::path::Path::new(p).parent() == Some(exe_dir)),
        "expected a candidate next to the running binary, got {candidates:?}"
    );
    let expected_name = "ffmpeg";
    assert!(candidates.iter().all(|p| {
        std::path::Path::new(p)
            .file_name()
            .and_then(|n| n.to_str())
            .is_some_and(|n| n == expected_name)
    }));
}

#[test]
fn square_error_message_names_the_size() {
    let probe = ProbeInfo {
        width: 720,
        height: 720,
        duration_ms: 0,
    };
    let err = resolve_target(Target::Auto, &probe).unwrap_err();
    assert_eq!(
        err,
        PlanError::SquareInput {
            width: 720,
            height: 720
        }
    );
    assert_eq!(
        err.message(),
        "input is square (720x720); choose 9:16 or 16:9 explicitly"
    );
}
