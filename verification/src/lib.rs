//! Landscape/portrait video flipping without cropping: planning the canvas,
//! the output path, the ffmpeg filter graph and arguments; reading ffprobe's
//! answer and the release feed; and the Flip Stage's state machine. Every
//! function here carries a contract proved by Verus.

pub mod gui;
pub mod media;
pub mod paths;
pub mod text;
pub mod update;

pub use media::{
    assemble_plan, audio_args, base_args, build_plan, canvas_size, default_output, encode_args,
    exe_name, fill_color_would_panic, filter_graph, input_stem, is_already_oriented,
    is_valid_fill_color, json_escape, next_after_encode, orientation_warning, output_conflict,
    output_file_name, parse_fill_color, parse_probe_dimensions, plan_would_overflow, render_command,
    render_command_line, render_json_plan, resolve_target, retry_args, selected_preset,
    tool_candidates, tool_not_found_message, AudioMode, CliPreset, ConvertOptions, EncodeNext, Fill, LogLevel,
    Orientation, Plan, PlanError, ProbeInfo, ProbeParseError, Target,
};
