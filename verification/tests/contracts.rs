use vertify::gui::{file_name, ExportStep, Phase, StageAction, StageKey, VertifyApp, WorkerEvent};
use vertify::update::{
    archive_kind, assets_would_panic, extract_json_string, find_last_json_string, is_newer,
    old_binary_file_name, parse_assets, parse_release_json, parse_semver, platform_asset_suffix,
    release_would_panic, staging_file_name, update_dir_name, user_agent, ArchiveKind, Platform,
    ReleaseError,
};
use vertify::{
    audio_args, base_args, build_plan, canvas_size, exe_name, fill_color_would_panic,
    filter_graph, input_stem, is_valid_fill_color, json_escape, next_after_encode,
    orientation_warning, output_conflict, output_file_name, parse_fill_color,
    parse_probe_dimensions, plan_would_overflow, render_command, render_command_line,
    render_json_plan, resolve_target, retry_args, selected_preset, tool_candidates,
    tool_not_found_message, AudioMode, CliPreset, ConvertOptions, EncodeNext, Fill, LogLevel, Orientation,
    PlanError, ProbeInfo, ProbeParseError, Target,
};

fn probe(width: u32, height: u32) -> ProbeInfo {
    ProbeInfo {
        width,
        height,
        duration_ms: 0,
    }
}

#[test]
fn canvas_vertical_is_horizontal_turned() {
    for size in [1080, 1081, 1920, 2560, 3840, 7] {
        let (vw, vh) = canvas_size(size, Target::Vertical);
        let (hw, hh) = canvas_size(size, Target::Horizontal);
        assert_eq!((vw, vh), (hh, hw));
        assert_eq!(vw % 2, 0);
        assert_eq!(vh, size - size % 2);
        assert!(vw <= vh);
    }
    assert_eq!(canvas_size(1080, Target::Vertical), (608, 1080));
}

#[test]
fn target_resolution_keeps_explicit_targets() {
    assert_eq!(
        resolve_target(Target::Vertical, &probe(100, 100)),
        Ok(Target::Vertical)
    );
    assert_eq!(
        resolve_target(Target::Horizontal, &probe(1920, 1080)),
        Ok(Target::Horizontal)
    );
    assert_eq!(probe(4, 3).orientation(), Orientation::Landscape);
    assert_eq!(probe(3, 4).orientation(), Orientation::Portrait);
    assert!(probe(5, 5).is_square());
}

#[test]
fn plan_fields_follow_the_options() {
    let opts = ConvertOptions {
        input: "talk.mov".to_string(),
        to: Target::Auto,
        fill: Fill::Color,
        color: "white".to_string(),
        size: 1280,
        ..Default::default()
    };
    let plan = build_plan(&opts, &probe(1920, 1080)).unwrap();
    assert_eq!(plan.target, Target::Vertical);
    assert_eq!((plan.out_w, plan.out_h), (720, 1280));
    assert!(!plan.already_oriented);
    assert_eq!(plan.output, "talk_vertical.mp4");
    assert_eq!(
        plan.filter,
        "scale=720:1280:force_original_aspect_ratio=decrease,pad=720:1280:(ow-iw)/2:(oh-ih)/2:white,format=yuv420p"
    );
}

#[test]
fn blur_filter_graph_is_exact() {
    assert_eq!(
        filter_graph(Fill::Blur, 1080, 1920, 40, "black"),
        "[0:v]split=2[bg][fg];[bg]scale=1080:1920:force_original_aspect_ratio=increase,crop=1080:1920,boxblur=luma_radius=40:luma_power=2:chroma_radius=20:chroma_power=2[bgb];[fg]scale=1080:1920:force_original_aspect_ratio=decrease[fgs];[bgb][fgs]overlay=(W-w)/2:(H-h)/2:format=auto,format=yuv420p"
    );
    // the chroma radius never drops below 1
    assert!(filter_graph(Fill::Blur, 2, 2, 1, "black").contains("chroma_radius=1:"));
}

#[test]
fn output_path_equal_as_paths_is_refused() {
    let opts = ConvertOptions {
        input: "dir/same.mp4".to_string(),
        output: Some("dir//same.mp4".to_string()),
        to: Target::Vertical,
        ..Default::default()
    };
    assert_eq!(
        build_plan(&opts, &probe(1920, 1080)).unwrap_err(),
        PlanError::OutputIsInput
    );
    assert_eq!(
        PlanError::OutputIsInput.message(),
        "output path must differ from input path"
    );
}

#[test]
fn output_names_and_stems() {
    assert_eq!(input_stem("/tmp/in/a.b.mov"), "a.b");
    assert_eq!(input_stem(".hidden"), ".hidden");
    assert_eq!(input_stem("/"), "output");
    assert_eq!(
        output_file_name("clip", Target::Horizontal, Some("  ")),
        "clip_horizontal.mp4"
    );
    assert_eq!(
        output_file_name("clip", Target::Vertical, Some(" x ")),
        "clip_vertical_ x .mp4"
    );
    assert_eq!(file_name("dir/clip.mp4"), "clip.mp4");
    assert_eq!(file_name(".."), "..");
}

#[test]
fn ffmpeg_arguments_in_order() {
    let opts = ConvertOptions {
        input: "in put.mov".to_string(),
        start: Some("3".to_string()),
        map_metadata: true,
        no_faststart: true,
        loglevel: LogLevel::Info,
        ffmpeg_args: vec!["-threads".to_string(), "2".to_string()],
        ..Default::default()
    };
    assert_eq!(selected_preset(&opts), "veryfast");
    let args = base_args(&opts, "F", "P");
    assert_eq!(
        args,
        vec![
            "-ss", "3", "-n", "-hide_banner", "-loglevel", "info", "-stats", "-i", "in put.mov",
            "-vf", "F", "-c:v", "libx264", "-preset", "P", "-crf", "21", "-map_metadata", "0",
            "-threads", "2"
        ]
    );
    assert_eq!(audio_args(&opts, AudioMode::Aac), vec!["-c:a", "aac", "-b:a", "192k"]);
    assert_eq!(audio_args(&opts, AudioMode::Disabled), vec!["-an"]);
    assert_eq!(audio_args(&opts, AudioMode::Copy), vec!["-c:a", "copy"]);
}

#[test]
fn dry_run_command_line_quotes_where_needed() {
    assert_eq!(
        render_command_line(
            "ffmpeg",
            &vec!["-i".to_string(), "a b".to_string(), "x;y".to_string(), "[v]".to_string()]
        ),
        "ffmpeg -i 'a b' 'x;y' '[v]'"
    );
    let opts = ConvertOptions {
        input: "in.mp4".to_string(),
        to: Target::Vertical,
        fast: true,
        overwrite: true,
        ..Default::default()
    };
    let plan = build_plan(&opts, &probe(1920, 1080)).unwrap();
    let line = render_command(&opts, &plan, "/usr/bin/ffmpeg");
    assert!(line.starts_with("/usr/bin/ffmpeg -y -hide_banner -loglevel warning -stats -i in.mp4 -vf '[0:v]split"));
    assert!(line.ends_with("-preset ultrafast -crf 21 -movflags +faststart -c:a copy in_vertical.mp4"));
    let retry = retry_args(&opts, &plan);
    let n = retry.len();
    assert_eq!(&retry[n - 6..], &["-c:a", "aac", "-b:a", "192k", "-y", "in_vertical.mp4"]);
}

#[test]
fn json_plan_and_escaping() {
    let opts = ConvertOptions {
        input: "in.mp4".to_string(),
        output: Some("a\"b\\c.mp4".to_string()),
        to: Target::Horizontal,
        ..Default::default()
    };
    let plan = build_plan(&opts, &probe(1080, 1920)).unwrap();
    let json = render_json_plan(&plan, Fill::Blur);
    assert_eq!(
        json,
        "{\"target\":\"16:9\",\"output_width\":1920,\"output_height\":1080,\"output_path\":\"a\\\"b\\\\c.mp4\",\"fill\":\"blur\"}"
    );
    // what json_escape writes, extract_json_string reads back
    assert_eq!(
        extract_json_string(&json, "output_path").as_deref(),
        Some("a\"b\\c.mp4")
    );
    assert_eq!(json_escape("x\"y"), "x\\\"y");
}

#[test]
fn fill_colors_ignore_case_and_spaces() {
    assert_eq!(parse_fill_color("  WHITE \n"), [255, 255, 255]);
    assert_eq!(parse_fill_color("Grey"), [128, 128, 128]);
    assert_eq!(parse_fill_color("##FFa000"), [255, 160, 0]);
    assert_eq!(parse_fill_color("+f+f+f"), [15, 15, 15]);
    assert!(!is_valid_fill_color("#12345"));
    assert!(!is_valid_fill_color("-11111"));
    assert!(!fill_color_would_panic("white"));
    // 'é' takes two bytes, so byte 2 of "aé123" falls inside it
    assert!(fill_color_would_panic("aé123"));
    assert!(!fill_color_would_panic("éé12"));
    assert!(!is_valid_fill_color("éé12"));
}

#[test]
fn probe_dimensions_are_read_field_by_field() {
    assert_eq!(parse_probe_dimensions(" 1920,1080\n"), Ok((1920, 1080)));
    assert_eq!(parse_probe_dimensions("640, 480,extra"), Ok((640, 480)));
    assert_eq!(parse_probe_dimensions("+7,8"), Ok((7, 8)));
    assert_eq!(parse_probe_dimensions("abc"), Err(ProbeParseError::Width));
    assert_eq!(parse_probe_dimensions("1920"), Err(ProbeParseError::Height));
    assert_eq!(parse_probe_dimensions("1920,x"), Err(ProbeParseError::Height));
    assert_eq!(parse_probe_dimensions("4294967296,1"), Err(ProbeParseError::Width));
    assert_eq!(ProbeParseError::Height.message(), "could not parse video height");
}

#[test]
fn tools_are_looked_for_in_order() {
    assert_eq!(exe_name("ffprobe", true), "ffprobe.exe");
    assert_eq!(exe_name("ffprobe", false), "ffprobe");
    let c = tool_candidates("ffmpeg", false, Some("/custom"), Some("/opt/v"));
    assert_eq!(c.len(), 5);
    assert_eq!(c[0], "/custom/ffmpeg");
    assert_eq!(c[2], "/opt/v/ffmpeg/ffmpeg");
    assert_eq!(c[4], "ffmpeg");
    assert_eq!(tool_candidates("ffmpeg", true, None, None), vec!["ffmpeg.exe"]);
    assert!(tool_not_found_message("ffprobe").starts_with("ffprobe not found."));
}

#[test]
fn conversion_decisions() {
    let mut opts = ConvertOptions::default();
    assert!(output_conflict(&opts, true));
    assert!(!output_conflict(&opts, false));
    opts.dry_run = true;
    assert!(!output_conflict(&opts, true));
    assert_eq!(next_after_encode(AudioMode::Copy, false, true), EncodeNext::Finished);
    assert_eq!(next_after_encode(AudioMode::Copy, false, false), EncodeNext::RetryWithAac);
    assert_eq!(next_after_encode(AudioMode::Copy, true, false), EncodeNext::Failed);
    assert_eq!(next_after_encode(AudioMode::Aac, false, false), EncodeNext::Failed);
    let plan_opts = ConvertOptions {
        input: "in.mp4".to_string(),
        to: Target::Horizontal,
        ..Default::default()
    };
    let plan = build_plan(&plan_opts, &probe(1920, 1080)).unwrap();
    assert_eq!(
        orientation_warning(&plan).as_deref(),
        Some("warning: input already matches 16:9 (1920×1080); re-encoding")
    );
    let big = ConvertOptions {
        size: u32::MAX,
        to: Target::Vertical,
        ..Default::default()
    };
    assert!(plan_would_overflow(&big, &probe(1, 2)));
    assert!(!plan_would_overflow(&plan_opts, &probe(1920, 1080)));
}

#[test]
fn version_order_laws() {
    let vs = ["0.1.0", "v0.1.1", "0.1.1-abc", "0.2.0", "1.0.0", "junk"];
    for a in vs {
        assert!(!is_newer(a, a));
        for b in vs {
            if is_newer(a, b) {
                assert!(!is_newer(b, a));
            }
            for c in vs {
                if is_newer(a, b) && is_newer(b, c) {
                    assert!(is_newer(a, c));
                }
            }
        }
        assert!(!is_newer("junk", a) && !is_newer(a, "junk"));
    }
    assert_eq!(parse_semver("vv1.2.3.4-x-y"), Some((1, 2, 3)));
    assert_eq!(parse_semver("1.2"), None);
    assert_eq!(parse_semver("1.+2.3"), Some((1, 2, 3)));
}

#[test]
fn release_parsing_errors_and_round_trip() {
    assert_eq!(
        parse_release_json("{\"name\":\"x\"}").unwrap_err(),
        ReleaseError::MissingTag
    );
    assert_eq!(
        parse_release_json("{\"tag_name\":\"nightly\"}").unwrap_err(),
        ReleaseError::BadVersion
    );
    let info = parse_release_json("{\"tag_name\": \"v10.20.300-x\"}").unwrap();
    assert_eq!(info.version, "10.20.300");
    assert_eq!(parse_semver(&info.version), parse_semver("v10.20.300-x"));
    assert!(info.assets.is_empty());
    assert_eq!(
        find_last_json_string("\"name\":\"a\",\"name\":1,\"name\": \"b\\\"c\"", "name").as_deref(),
        Some("b\"c")
    );
    assert_eq!(
        extract_json_string("\"k\":   \"v\\\\w\" ", "k").as_deref(),
        Some("v\\w")
    );
    assert!(extract_json_string("\"k\": 5", "k").is_none());
}

#[test]
fn assets_skip_empty_names_and_urls() {
    let json = "[{\"name\":\"\",\"browser_download_url\":\"u1\"},{\"name\":\"n2\",\"browser_download_url\":\"\"},{\"name\":\"n3\",\"browser_download_url\":\"u3\"}]";
    let assets = parse_assets(json);
    // an empty name and an empty URL each drop their asset
    assert_eq!(assets.len(), 1);
    assert_eq!(assets[0].name, "n3");
    assert_eq!(assets[0].browser_download_url, "u3");
    // each URL takes the closest preceding name within the window
    let assets = parse_assets("\"name\":\"a\",\"name\":\"b\",\"browser_download_url\":\"u\"");
    assert_eq!(assets[0].name, "b");
}

#[test]
fn asset_window_panic_is_detected() {
    let mut json = String::from("\"name\":\"n\",");
    for _ in 0..1100 {
        json.push('é');
    }
    json.push_str("x\"browser_download_url\":\"u\"");
    // 11 + 2200 + 1 bytes before the URL: 2048 bytes back is byte 164, inside an 'é'
    assert!(assets_would_panic(&json));
    assert!(!assets_would_panic("\"name\":\"n\",\"browser_download_url\":\"u\""));
    assert!(!release_would_panic(&json));
}

#[test]
fn archives_and_update_files() {
    assert_eq!(archive_kind("x.tar.gz"), Some(ArchiveKind::TarGz));
    assert_eq!(archive_kind("x.tgz"), Some(ArchiveKind::TarGz));
    assert_eq!(archive_kind("x.zip"), Some(ArchiveKind::Zip));
    assert_eq!(archive_kind("x.exe"), None);
    assert_eq!(staging_file_name("vertify"), ".vertify.new");
    assert_eq!(old_binary_file_name("vertify.exe"), "vertify.exe.old");
    assert_eq!(update_dir_name(42), "vertify-update-42");
    assert_eq!(user_agent("0.1.1"), "vertify/0.1.1");
    assert_eq!(platform_asset_suffix(Platform::Other), "");
}

#[test]
fn stage_cycle() {
    let mut app = VertifyApp::with_tools(Err("ffmpeg not found".to_string()));
    assert_eq!(app.phase, Phase::Error);
    assert_eq!(app.whisper(), "ffmpeg not found");
    assert!(!app.can_pick_file());

    let mut app = VertifyApp::with_tools(Ok(()));
    assert_eq!(app.whisper(), "Drop a video · flip without cropping");
    assert_eq!(app.phone_a11y_label(), "Open video");
    assert!(matches!(app.phone_click(), StageAction::PickFile));
    assert!(app.begin_load("clip.mov".to_string()));
    assert_eq!(app.phase, Phase::Loading);
    app.on_worker_event(WorkerEvent::Failed("no video stream".to_string()));
    assert_eq!(app.phase, Phase::Error);
    assert_eq!(app.whisper(), "no video stream");

    assert!(app.begin_load("clip.mov".to_string()));
    app.on_worker_event(WorkerEvent::Loaded {
        path: "clip.mov".to_string(),
        probe: probe(1920, 1080),
    });
    assert_eq!(app.phase, Phase::Ready);
    assert_eq!(app.resolved_target(), Some(Target::Vertical));
    assert_eq!(app.whisper(), "Landscape -> Vertical 9:16 · soft blur bars");
    assert_eq!(
        app.whisper_detail().as_deref(),
        Some("clip.mov\nOutput canvas 1080×1920\nFill: blur (40)\nClick the frame or press Enter to export.")
    );
    assert!(app.phone_tooltip().ends_with("soft blur bars"));

    // a failure after a preview keeps the stage ready
    app.on_worker_event(WorkerEvent::Failed("encode failed".to_string()));
    assert_eq!(app.phase, Phase::Ready);
    app.error = None;

    assert!(matches!(app.on_key(StageKey::Enter), StageAction::Export));
    app.on_key(StageKey::Comma);
    assert!(app.backstage_open);
    app.on_key(StageKey::Escape);
    assert!(!app.backstage_open);

    match app.begin_export() {
        ExportStep::Check { opts, output } => {
            assert_eq!(output, "clip_vertical.mp4");
            assert!(app.confirm_export(opts.clone(), true, false).is_none());
            assert_eq!(app.phase, Phase::Ready);
            let opts = app.confirm_export(opts, true, true).unwrap();
            assert!(opts.overwrite);
            assert_eq!(app.phase, Phase::Encoding);
        }
        _ => panic!("expected an export to check"),
    }
    app.on_worker_event(WorkerEvent::Encoded {
        output: "out/clip_vertical.mp4".to_string(),
    });
    assert_eq!(app.phase, Phase::Done);
    assert_eq!(app.whisper(), "Exported · clip_vertical.mp4");

    app.reset();
    assert_eq!(app.phase, Phase::Idle);
    assert!(app.input.is_none() && app.probe.is_none() && !app.has_preview);
}

#[test]
fn stage_refuses_square_auto_and_scripted_export_finishes() {
    let mut app = VertifyApp::with_tools(Ok(()));
    app.headless = true;
    assert!(!app.begin_load("x.mov".to_string()));
    app.apply_loaded("sq.mov".to_string(), probe(500, 500));
    assert!(app.backstage_open);
    assert_eq!(app.error.as_deref(), Some("Square clip — pick 9:16 or 16:9"));
    assert!(matches!(app.begin_export(), ExportStep::Nothing));
    assert_eq!(
        app.error.as_deref(),
        Some("Square clip — choose 9:16 or 16:9 in Backstage")
    );
    app.to = Target::Horizontal;
    app.error = None;
    assert!(matches!(app.begin_export(), ExportStep::Finished));
    assert_eq!(app.phase, Phase::Done);
    assert_eq!(app.output.as_deref(), Some("sq_horizontal.mp4"));
}

#[test]
fn preset_names_and_choice() {
    assert_eq!(CliPreset::Veryslow.as_str(), "veryslow");
    assert_eq!(LogLevel::Quiet.as_ffmpeg(), "quiet");
    let opts = ConvertOptions {
        preset: Some(CliPreset::Medium.as_str().to_string()),
        fast: true,
        ..Default::default()
    };
    assert_eq!(selected_preset(&opts), "medium");
}

#[test]
fn phone_captions_follow_the_phase() {
    let mut app = VertifyApp::with_tools(Ok(()));
    assert_eq!(app.phone_title(false), Some("Drop a video here"));
    assert_eq!(app.phone_title(true), Some("Drop it here"));
    assert_eq!(app.phone_hint(false), Some("click · or press O"));
    assert_eq!(app.phone_hint(true), Some("or click to browse"));
    assert_eq!(app.settings_label(), "Settings");
    assert!(app.stage_opens());

    app.set_drag_hover(true);
    assert!(app.drag_hover);
    assert_eq!(app.phone_title(false), Some("Drop to open"));
    assert_eq!(app.phone_hint(true), Some("release to load"));
    app.set_drag_hover(false);
    assert!(!app.drag_hover);

    assert!(app.begin_load("/clips/a.mov".to_string()));
    assert_eq!(app.phone_title(true), Some("Reading…"));
    assert_eq!(app.phone_hint(true), None);
    assert!(!app.stage_opens());
    app.set_drag_hover(true);
    assert!(!app.drag_hover);

    app.on_worker_event(WorkerEvent::Loaded {
        path: "/clips/a.mov".to_string(),
        probe: probe(1920, 1080),
    });
    assert_eq!(app.phone_title(false), None);
    assert_eq!(app.phone_hint(false), Some("Click frame to export"));
    assert_eq!(app.phone_hint(true), Some("Click to export · Enter"));

    app.on_worker_event(WorkerEvent::Encoded {
        output: "/clips/a_vertical.mp4".to_string(),
    });
    assert_eq!(app.phone_title(false), Some("Exported"));
    assert_eq!(app.phone_hint(false), Some("click again to re-export"));

    let mut failed = VertifyApp::with_tools(Err("ffmpeg not found".to_string()));
    assert_eq!(failed.phone_title(false), Some("Can't open video"));
    assert!(!failed.stage_opens());
    failed.on_key(StageKey::Comma);
    assert_eq!(failed.settings_label(), "Close");
}

#[test]
fn choosing_a_target_clears_the_square_hint() {
    let mut app = VertifyApp::with_tools(Ok(()));
    app.apply_loaded("/clips/sq.mov".to_string(), probe(1080, 1080));
    assert!(app.error.is_some());
    app.choose_target(Target::Vertical);
    assert_eq!(app.to, Target::Vertical);
    assert!(app.error.is_none());
    assert_eq!(app.phase, Phase::Ready);
}

#[test]
fn json_escape_covers_control_characters() {
    assert_eq!(json_escape("a\nb"), "a\\nb");
    assert_eq!(json_escape("\r\t"), "\\r\\t");
    assert_eq!(json_escape("x\u{1}y\u{1f}"), "x\\u0001y\\u001f");
    assert_eq!(json_escape("q\"\\"), "q\\\"\\\\");
    assert_eq!(json_escape("é ok"), "é ok");
}

#[test]
fn default_output_is_placed_beside_or_in_directory() {
    assert_eq!(
        vertify::default_output("clip.mov", Target::Vertical, None, None),
        "clip_vertical.mp4"
    );
    assert_eq!(
        vertify::default_output("/tmp/in/clip.mov", Target::Horizontal, None, None),
        "/tmp/in/clip_horizontal.mp4"
    );
    assert_eq!(
        vertify::default_output("/tmp/in/clip.mov", Target::Vertical, Some("/tmp/out"), Some("social")),
        "/tmp/out/clip_vertical_social.mp4"
    );
    assert_eq!(
        vertify::default_output("", Target::Vertical, None, None),
        "output_vertical.mp4"
    );
}

#[test]
fn worker_events_keep_the_settings() {
    let mut app = VertifyApp::with_tools(Ok(()));
    app.fill = Fill::Color;
    app.size = 1080;
    app.blur = 12;
    app.crf = 18;
    app.fast = true;
    assert!(app.begin_load("clip.mov".to_string()));
    app.on_worker_event(WorkerEvent::Loaded {
        path: "clip.mov".to_string(),
        probe: probe(320, 180),
    });
    assert_eq!(app.fill, Fill::Color);
    assert_eq!((app.size, app.blur, app.crf, app.fast), (1080, 12, 18, true));
    assert_eq!(app.resolved_target(), Some(Target::Vertical));
    assert_eq!(app.whisper(), "Landscape -> Vertical 9:16 · solid color bars");
    app.on_worker_event(WorkerEvent::Encoded {
        output: "clip_vertical.mp4".to_string(),
    });
    assert_eq!(app.whisper(), "Exported · clip_vertical.mp4");
    assert_eq!((app.size, app.blur, app.crf, app.fast), (1080, 12, 18, true));
    assert_eq!(app.input.as_deref(), Some("clip.mov"));
}

#[test]
fn tool_candidates_under_a_drive_directory() {
    let c = tool_candidates("ffmpeg", true, None, Some("C:/v"));
    assert_eq!(
        c,
        vec![
            "C:/v/ffmpeg.exe".to_string(),
            "C:/v/ffmpeg/ffmpeg.exe".to_string(),
            "C:/v/bin/ffmpeg.exe".to_string(),
            "ffmpeg.exe".to_string(),
        ]
    );
}

#[test]
fn same_file_name_in_another_folder_is_planned() {
    let opts = ConvertOptions {
        input: "in/clip.mp4".to_string(),
        output: Some("out/clip.mp4".to_string()),
        to: Target::Vertical,
        ..Default::default()
    };
    let plan = build_plan(&opts, &probe(1920, 1080)).unwrap();
    assert_eq!(plan.output, "out/clip.mp4");
    let opts = ConvertOptions {
        input: "in//./clip.mov".to_string(),
        ..Default::default()
    };
    let plan = build_plan(&opts, &probe(1920, 1080)).unwrap();
    assert_eq!(plan.output, "in/clip_vertical.mp4");
}
