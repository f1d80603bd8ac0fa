//! Conversion planning: which canvas a clip is flipped onto, where the result
//! goes, which ffmpeg filter graph and arguments encode it, and how the plan is
//! reported.

use crate::paths::{
    file_stem_of_name, final_name, has_final_name, is_plain_name, is_sep, join_shape, joinable,
    lemma_final_name_shape, lemma_join_base, lemma_last_dot, lemma_stem_prefix, last_dot,
    parent_text, path_file_name, path_join, path_with_file_name, paths_equal, simple_path,
    stem_of_name, unprefixed,
};
use crate::text::{
    all_ascii, char_index_at_byte, chars_of, decimal, decimal_string, ends_with, eq_chars, find_from,
    find_from_exec, has_char, is_byte_boundary, is_ws, lemma_lower_idempotent,
    lemma_trim_idempotent, lemma_trim_lower, lower, lower_range, parse_u32, parse_u32_range,
    push_arg, push_args, push_chars, trim, trim_end, trim_range, trim_start, utf8_len,
    utf8_len_prefix, views,
};
use vstd::prelude::*;

verus! {

/// The aspect ratio to convert to.
#[derive(Copy, Clone, Debug, PartialEq, Eq, Structural)]
pub enum Target {
    /// Flip the input's orientation.
    Auto,
    /// 9:16.
    Vertical,
    /// 16:9.
    Horizontal,
}

/// How the empty space around the picture is filled.
#[derive(Copy, Clone, Debug, PartialEq, Eq, Structural)]
pub enum Fill {
    Blur,
    Color,
}

/// What happens to the audio stream.
#[derive(Copy, Clone, Debug, PartialEq, Eq, Structural)]
pub enum AudioMode {
    Copy,
    Aac,
    Disabled,
}

/// ffmpeg's log level.
#[derive(Copy, Clone, Debug, PartialEq, Eq, Structural)]
pub enum LogLevel {
    Quiet,
    Error,
    Warning,
    Info,
}

pub open spec fn log_level_name(l: LogLevel) -> Seq<char> {
    match l {
        LogLevel::Quiet => "quiet"@,
        LogLevel::Error => "error"@,
        LogLevel::Warning => "warning"@,
        LogLevel::Info => "info"@,
    }
}

impl LogLevel {
    /// The name ffmpeg's `-loglevel` takes.
    pub fn as_ffmpeg(self) -> (r: &'static str)
        ensures
            r@ == log_level_name(self),
    {
        match self {
            LogLevel::Quiet => "quiet",
            LogLevel::Error => "error",
            LogLevel::Warning => "warning",
            LogLevel::Info => "info",
        }
    }
}

/// The x264 presets the command line offers.
#[derive(Copy, Clone, Debug, PartialEq, Eq, Structural)]
pub enum CliPreset {
    Ultrafast,
    Superfast,
    Veryfast,
    Faster,
    Fast,
    Medium,
    Slow,
    Slower,
    Veryslow,
    Placebo,
}

pub open spec fn preset_name(p: CliPreset) -> Seq<char> {
    match p {
        CliPreset::Ultrafast => "ultrafast"@,
        CliPreset::Superfast => "superfast"@,
        CliPreset::Veryfast => "veryfast"@,
        CliPreset::Faster => "faster"@,
        CliPreset::Fast => "fast"@,
        CliPreset::Medium => "medium"@,
        CliPreset::Slow => "slow"@,
        CliPreset::Slower => "slower"@,
        CliPreset::Veryslow => "veryslow"@,
        CliPreset::Placebo => "placebo"@,
    }
}

impl CliPreset {
    /// The name x264's `-preset` takes.
    pub fn as_str(self) -> (r: &'static str)
        ensures
            r@ == preset_name(self),
    {
        match self {
            CliPreset::Ultrafast => "ultrafast",
            CliPreset::Superfast => "superfast",
            CliPreset::Veryfast => "veryfast",
            CliPreset::Faster => "faster",
            CliPreset::Fast => "fast",
            CliPreset::Medium => "medium",
            CliPreset::Slow => "slow",
            CliPreset::Slower => "slower",
            CliPreset::Veryslow => "veryslow",
            CliPreset::Placebo => "placebo",
        }
    }
}

/// Everything a conversion is asked to do. Paths are held as text.
#[derive(Clone, Debug)]
pub struct ConvertOptions {
    pub input: String,
    pub output: Option<String>,
    pub output_dir: Option<String>,
    pub suffix: Option<String>,
    pub to: Target,
    pub fill: Fill,
    pub size: u32,
    pub color: String,
    pub blur: u32,
    pub fast: bool,
    pub preset: Option<String>,
    pub crf: u32,
    pub overwrite: bool,
    pub dry_run: bool,
    pub ffmpeg_args: Vec<String>,
    pub audio_mode: AudioMode,
    pub audio_bitrate: String,
    pub map_metadata: bool,
    pub start: Option<String>,
    pub duration: Option<String>,
    pub loglevel: LogLevel,
    pub no_faststart: bool,
}

/// The options a conversion starts from.
pub open spec fn is_default_options(o: ConvertOptions) -> bool {
    &&& o.input@ == Seq::<char>::empty()
    &&& o.output is None
    &&& o.output_dir is None
    &&& o.suffix is None
    &&& o.to == Target::Auto
    &&& o.fill == Fill::Blur
    &&& o.size == 1920
    &&& o.color@ == "black"@
    &&& o.blur == 40
    &&& !o.fast
    &&& o.preset is None
    &&& o.crf == 21
    &&& !o.overwrite
    &&& !o.dry_run
    &&& o.ffmpeg_args@.len() == 0
    &&& o.audio_mode == AudioMode::Copy
    &&& o.audio_bitrate@ == "192k"@
    &&& !o.map_metadata
    &&& o.start is None
    &&& o.duration is None
    &&& o.loglevel == LogLevel::Warning
    &&& !o.no_faststart
}

impl Default for ConvertOptions {
    fn default() -> (o: Self)
        ensures
            is_default_options(o),
    {
        ConvertOptions {
            input: String::new(),
            output: None,
            output_dir: None,
            suffix: None,
            to: Target::Auto,
            fill: Fill::Blur,
            size: 1920,
            color: "black".to_owned(),
            blur: 40,
            fast: false,
            preset: None,
            crf: 21,
            overwrite: false,
            dry_run: false,
            ffmpeg_args: Vec::new(),
            audio_mode: AudioMode::Copy,
            audio_bitrate: "192k".to_owned(),
            map_metadata: false,
            start: None,
            duration: None,
            loglevel: LogLevel::Warning,
            no_faststart: false,
        }
    }
}

/// What probing a clip found: its pixel size and its length in milliseconds.
#[derive(Copy, Clone, Debug, PartialEq, Eq, Structural)]
pub struct ProbeInfo {
    pub width: u32,
    pub height: u32,
    pub duration_ms: u64,
}

/// The shape of a frame.
#[derive(Copy, Clone, Debug, PartialEq, Eq, Structural)]
pub enum Orientation {
    Landscape,
    Portrait,
    Square,
}

pub open spec fn orientation_of(width: u32, height: u32) -> Orientation {
    if width > height {
        Orientation::Landscape
    } else if width < height {
        Orientation::Portrait
    } else {
        Orientation::Square
    }
}

impl ProbeInfo {
    pub fn orientation(&self) -> (r: Orientation)
        ensures
            r == orientation_of(self.width, self.height),
    {
        if self.width > self.height {
            Orientation::Landscape
        } else if self.width < self.height {
            Orientation::Portrait
        } else {
            Orientation::Square
        }
    }

    pub fn is_square(&self) -> (r: bool)
        ensures
            r == (self.width == self.height),
    {
        self.width == self.height
    }
}

/// Why a conversion could not be planned.
#[derive(Copy, Clone, Debug, PartialEq, Eq, Structural)]
pub enum PlanError {
    /// `Auto` cannot pick a target for a square frame.
    SquareInput { width: u32, height: u32 },
    /// The output path names the input file.
    OutputIsInput,
}

/// The target `to` resolves to for a frame of this size.
pub open spec fn resolve_spec(to: Target, width: u32, height: u32) -> Result<Target, PlanError> {
    match to {
        Target::Auto => if width > height {
            Ok(Target::Vertical)
        } else if height > width {
            Ok(Target::Horizontal)
        } else {
            Err(PlanError::SquareInput { width, height })
        },
        t => Ok(t),
    }
}

/// Resolves `Auto` by flipping the clip's orientation; a square clip needs an
/// explicit target.
pub fn resolve_target(to: Target, probe: &ProbeInfo) -> (r: Result<Target, PlanError>)
    ensures
        r == resolve_spec(to, probe.width, probe.height),
{
    match to {
        Target::Auto => {
            if probe.width > probe.height {
                Ok(Target::Vertical)
            } else if probe.height > probe.width {
                Ok(Target::Horizontal)
            } else {
                Err(PlanError::SquareInput { width: probe.width, height: probe.height })
            }
        },
        t => Ok(t),
    }
}

/// The long edge of the canvas: `size` rounded down to even.
pub open spec fn long_edge(size: u32) -> int {
    size - size % 2
}

/// The short edge: 9/16 of the long edge, rounded to nearest, then down to even.
pub open spec fn short_edge(size: u32) -> int {
    let q = (long_edge(size) * 9 + 8) / 16;
    q - q % 2
}

/// `Auto` flips the clip's orientation, an explicit target is kept, and a
/// resolved target is never `Auto`.
pub proof fn law_target_resolution(to: Target, width: u32, height: u32)
    ensures
        resolve_spec(to, width, height) matches Ok(t) ==> t != Target::Auto,
        to == Target::Auto && width > height ==> resolve_spec(to, width, height) == Ok::<
            Target,
            PlanError,
        >(Target::Vertical),
        to == Target::Auto && width < height ==> resolve_spec(to, width, height) == Ok::<
            Target,
            PlanError,
        >(Target::Horizontal),
        to == Target::Auto && width == height ==> resolve_spec(to, width, height) is Err,
        to != Target::Auto ==> resolve_spec(to, width, height) == Ok::<Target, PlanError>(to),
{
}

/// The canvas sizes `canvas_size` can compute without overflow.
pub open spec fn canvas_fits(size: u32) -> bool {
    long_edge(size) * 9 + 8 <= u32::MAX
}

/// Width and height of the output canvas.
pub open spec fn canvas_spec(size: u32, target: Target) -> (int, int) {
    if target == Target::Vertical {
        (short_edge(size), long_edge(size))
    } else {
        (long_edge(size), short_edge(size))
    }
}

/// The output canvas for a resolved target: `size` is its long edge.
pub fn canvas_size(size: u32, target: Target) -> (r: (u32, u32))
    requires
        target != Target::Auto,
        canvas_fits(size),
    ensures
        (r.0 as int, r.1 as int) == canvas_spec(size, target),
{
    let long = size - size % 2;
    let q = (long * 9 + 8) / 16;
    let short = q - q % 2;
    match target {
        Target::Vertical => (short, long),
        _ => (long, short),
    }
}

/// Both canvas edges are even, the long edge is `size` rounded down to even,
/// and the vertical canvas is the horizontal one turned on its side.
pub proof fn law_canvas_shape(size: u32)
    requires
        canvas_fits(size),
    ensures
        canvas_spec(size, Target::Vertical).0 % 2 == 0,
        canvas_spec(size, Target::Vertical).1 % 2 == 0,
        canvas_spec(size, Target::Vertical).0 <= canvas_spec(size, Target::Vertical).1,
        canvas_spec(size, Target::Vertical).1 == size - size % 2,
        canvas_spec(size, Target::Vertical).0 == canvas_spec(size, Target::Horizontal).1,
        canvas_spec(size, Target::Vertical).1 == canvas_spec(size, Target::Horizontal).0,
{
}


// ---------------------------------------------------------------------------
// Output path
// ---------------------------------------------------------------------------

pub open spec fn opt_str(o: Option<&str>) -> Option<Seq<char>> {
    match o {
        Some(s) => Some(s@),
        None => None,
    }
}

pub open spec fn opt_string(o: Option<String>) -> Option<Seq<char>> {
    match o {
        Some(s) => Some(s@),
        None => None,
    }
}

pub open spec fn orientation_suffix(target: Target) -> Seq<char> {
    if target == Target::Vertical {
        "vertical"@
    } else {
        "horizontal"@
    }
}

/// A suffix is used only when it holds more than whitespace.
pub open spec fn extra_suffix(suffix: Option<Seq<char>>) -> Option<Seq<char>> {
    match suffix {
        Some(s) => if trim(s).len() > 0 {
            Some(s)
        } else {
            None
        },
        None => None,
    }
}

/// `{stem}_{orientation}.mp4`, or `{stem}_{orientation}_{suffix}.mp4`.
pub open spec fn output_file_name_spec(
    stem: Seq<char>,
    target: Target,
    suffix: Option<Seq<char>>,
) -> Seq<char> {
    match extra_suffix(suffix) {
        Some(x) => stem + "_"@ + orientation_suffix(target) + "_"@ + x + ".mp4"@,
        None => stem + "_"@ + orientation_suffix(target) + ".mp4"@,
    }
}

/// The file name of a converted clip.
pub fn output_file_name(stem: &str, target: Target, suffix: Option<&str>) -> (r: String)
    ensures
        r@ == output_file_name_spec(stem@, target, opt_str(suffix)),
{
    let mut name = stem.to_owned();
    name.append("_");
    if target == Target::Vertical {
        name.append("vertical");
    } else {
        name.append("horizontal");
    }
    match suffix {
        Some(s) => {
            let v = chars_of(s);
            let (a, b) = trim_range(v.as_slice(), 0, v.len());
            assert(v@.subrange(0, v@.len() as int) =~= v@);
            if a < b {
                name.append("_");
                name.append(s);
            }
        },
        None => {},
    }
    name.append(".mp4");
    proof {
        let ghost x = extra_suffix(opt_str(suffix));
        assert(name@ =~= output_file_name_spec(stem@, target, opt_str(suffix)));
    }
    name
}

/// What is known of the stem taken from an input path on every platform: it
/// is never empty; the empty path gives `output`; a path without `\\` gives
/// a stem without `/`, and when it ends in a name, the stem of that name.
pub open spec fn is_input_stem(input: Seq<char>, stem: Seq<char>) -> bool {
    &&& stem.len() > 0
    &&& !input.contains('\\') ==> !stem.contains('/')
    &&& input.len() == 0 ==> stem == "output"@
    &&& !input.contains('\\') && has_final_name(input) ==> stem == stem_of_name(final_name(input))
    &&& is_plain_name(input) ==> stem == stem_of_name(input)
}

/// The stem of the input's file name, or `output` when the path has none.
pub fn input_stem(input: &str) -> (r: String)
    ensures
        is_input_stem(input@, r@),
{
    match path_file_name(input) {
        Some(name) => {
            let stem = file_stem_of_name(name.as_str());
            proof {
                lemma_stem_prefix(name@);
                assert forall|i: int| 0 <= i < stem@.len() && !input@.contains('\\') implies stem@[i]
                    != '/' by {
                    assert(stem@[i] == name@[i]);
                }
            }
            stem
        },
        None => {
            let r = "output".to_owned();
            proof {
                reveal_strlit("output");
                assert(r@[0] == 'o');
                assert forall|i: int| 0 <= i < r@.len() implies r@[i] != '/' by {}
            }
            r
        },
    }
}

/// An input path whose file name every platform reads alike: the empty path
/// (which has none), or a path without `\\` ending in a name.
pub open spec fn input_named(input: Seq<char>) -> bool {
    input.len() == 0 || (!input.contains('\\') && has_final_name(input))
}

/// The stem a named input gives (see `is_input_stem`).
pub open spec fn default_stem(input: Seq<char>) -> Seq<char> {
    if input.len() == 0 {
        "output"@
    } else {
        stem_of_name(final_name(input))
    }
}

/// The file name of the default output of a named input.
pub open spec fn default_file_name(
    input: Seq<char>,
    target: Target,
    suffix: Option<Seq<char>>,
) -> Seq<char> {
    output_file_name_spec(default_stem(input), target, suffix)
}

/// The default output path of a named input: its file name joined onto the
/// output directory, or put in place of the input's file name (see
/// `join_shape` and `parent_text`). Where the platform's path syntax decides
/// (prefixed directories, inputs with `\\` or no final name), nothing is said.
pub open spec fn is_default_output(
    out: Seq<char>,
    input: Seq<char>,
    target: Target,
    dir: Option<Seq<char>>,
    suffix: Option<Seq<char>>,
) -> bool {
    input_named(input) ==> {
        let name = default_file_name(input, target, suffix);
        &&& match dir {
            Some(d) => joinable(d, name) ==> join_shape(d, name, out),
            None => (input.len() == 0 ==> out == name) && (simple_path(input) && joinable(
                parent_text(input),
                name,
            ) ==> join_shape(parent_text(input), name, out)),
        }
        &&& plain_suffix(suffix) && dir_ok(dir) ==> has_final_name(out) && final_name(out) == name
            && out != input
    }
}

/// An output directory onto which a file name is pushed alike everywhere:
/// none, or one that is unprefixed and not a lone `\\`.
pub open spec fn dir_ok(dir: Option<Seq<char>>) -> bool {
    match dir {
        Some(d) => unprefixed(d) && d != seq!['\\'],
        None => true,
    }
}

/// No separator and no `:` in `s`.
pub open spec fn clean_chars(s: Seq<char>) -> bool {
    forall|i: int| 0 <= i < s.len() ==> !is_sep(#[trigger] s[i]) && s[i] != ':'
}

/// A suffix that adds no separator or `:` to a file name.
pub open spec fn plain_suffix(suffix: Option<Seq<char>>) -> bool {
    match suffix {
        Some(x) => clean_chars(x),
        None => true,
    }
}

/// The default output of these options names the input on no platform:
/// the suffix is plain, the input is named (see `input_named`), and the
/// output directory, if any, is one `dir_ok` admits.
pub open spec fn default_output_clear(opts: ConvertOptions) -> bool {
    &&& plain_suffix(opt_string(opts.suffix))
    &&& input_named(opts.input@)
    &&& dir_ok(opt_string(opts.output_dir))
}

/// An explicit output path that names the input on no platform: both end in
/// names and those names differ, or the input is empty.
pub open spec fn explicit_output_clear(out: Seq<char>, input: Seq<char>) -> bool {
    &&& has_final_name(out)
    &&& input.len() == 0 || (has_final_name(input) && final_name(out) != final_name(input))
}

proof fn lemma_clean_concat(a: Seq<char>, b: Seq<char>)
    requires
        clean_chars(a),
        clean_chars(b),
    ensures
        clean_chars(a + b),
{
    assert forall|i: int| 0 <= i < (a + b).len() implies !is_sep(#[trigger] (a + b)[i]) && (a
        + b)[i] != ':' by {
        if i < a.len() {
            assert((a + b)[i] == a[i]);
        } else {
            assert((a + b)[i] == b[i - a.len()]);
        }
    }
}

/// A converted file name built from a clean stem and a plain suffix is
/// clean, starts with the stem, has `_` right after it, and is longer than
/// two characters.
proof fn lemma_output_name_shape(stem: Seq<char>, target: Target, suffix: Option<Seq<char>>)
    requires
        clean_chars(stem),
        plain_suffix(suffix),
    ensures
        ({
            let n = output_file_name_spec(stem, target, suffix);
            &&& clean_chars(n)
            &&& n.len() > stem.len() + 2
            &&& n.take(stem.len() as int) == stem
            &&& n[stem.len() as int] == '_'
        }),
{
    reveal_strlit("_");
    reveal_strlit("vertical");
    reveal_strlit("horizontal");
    reveal_strlit(".mp4");
    let u = "_"@;
    let o = orientation_suffix(target);
    let m = ".mp4"@;
    assert(clean_chars(u)) by {
        assert(u =~= seq!['_']);
    }
    assert(clean_chars(m)) by {
        assert(m =~= seq!['.', 'm', 'p', '4']);
    }
    assert(clean_chars(o)) by {
        assert forall|i: int| 0 <= i < o.len() implies !is_sep(#[trigger] o[i]) && o[i] != ':' by {
            if target == Target::Vertical {
                assert(o =~= seq!['v', 'e', 'r', 't', 'i', 'c', 'a', 'l']);
            } else {
                assert(o =~= seq!['h', 'o', 'r', 'i', 'z', 'o', 'n', 't', 'a', 'l']);
            }
        }
    }
    lemma_clean_concat(stem, u);
    lemma_clean_concat(stem + u, o);
    let n = output_file_name_spec(stem, target, suffix);
    match extra_suffix(suffix) {
        Some(x) => {
            lemma_clean_concat(stem + u + o, u);
            lemma_clean_concat(stem + u + o + u, x);
            lemma_clean_concat(stem + u + o + u + x, m);
            assert(n == stem + u + o + u + x + m);
            assert(n =~= stem + (u + o + u + x + m));
        },
        None => {
            lemma_clean_concat(stem + u + o, m);
            assert(n =~= stem + (u + o + m));
        },
    }
    assert(n.take(stem.len() as int) =~= stem);
    assert(n[stem.len() as int] == u[0]);
}

/// The default file name of a named input with a plain suffix is a plain
/// name, and differs from the input's own file name.
proof fn lemma_default_name(input: Seq<char>, target: Target, suffix: Option<Seq<char>>)
    requires
        plain_suffix(suffix),
        input_named(input),
    ensures
        is_plain_name(default_file_name(input, target, suffix)),
        input.len() > 0 ==> default_file_name(input, target, suffix) != final_name(input),
{
    let stem = default_stem(input);
    let name = default_file_name(input, target, suffix);
    if input.len() == 0 {
        reveal_strlit("output");
        assert(clean_chars(stem)) by {
            assert(stem =~= seq!['o', 'u', 't', 'p', 'u', 't']);
        }
    } else {
        let l = final_name(input);
        lemma_final_name_shape(input);
        assert(l.len() > 0);
        assert(clean_chars(l)) by {
            assert forall|i: int| 0 <= i < l.len() implies !is_sep(#[trigger] l[i]) && l[i] != ':' by {
                assert(l[i] == input[input.len() - l.len() + i]);
            }
        }
        lemma_stem_prefix(l);
        assert(clean_chars(stem)) by {
            assert forall|i: int| 0 <= i < stem.len() implies !is_sep(#[trigger] stem[i]) && stem[i]
                != ':' by {
                assert(stem[i] == l[i]);
            }
        }
    }
    lemma_output_name_shape(stem, target, suffix);
    assert(name.len() > 2);
    assert(!name.contains('/') && !name.contains('\\') && !name.contains(':')) by {
        if name.contains('/') || name.contains('\\') || name.contains(':') {
            let i = choose|i: int| 0 <= i < name.len() && (name[i] == '/' || name[i] == '\\' || name[i] == ':');
            assert(!is_sep(name[i]) && name[i] != ':');
        }
    }
    assert(name != seq!['.'] && name != seq!['.', '.']) by {
        if name == seq!['.'] || name == seq!['.', '.'] {
            assert(name.len() <= 2);
        }
    }
    if input.len() > 0 {
        let l = final_name(input);
        lemma_last_dot(l);
        if l == name {
            match last_dot(l) {
                Some(k) => {
                    if k != 0 {
                        assert(stem == l.take(k));
                        assert(name[k] == '_');
                    }
                },
                None => {},
            }
        }
    }
}

/// The default output of options whose default output is clear ends in its
/// file name, which differs from the input's, or the input is empty.
proof fn lemma_default_output_clear(
    out: Seq<char>,
    input: Seq<char>,
    target: Target,
    dir: Option<Seq<char>>,
    suffix: Option<Seq<char>>,
)
    requires
        plain_suffix(suffix),
        input_named(input),
        dir_ok(dir),
        is_default_output(out, input, target, dir, suffix),
    ensures
        explicit_output_clear(out, input),
{
    lemma_default_name(input, target, suffix);
}

/// The default output path: `{stem}_{orientation}[_{suffix}].mp4`, placed in
/// `output_dir` when one is given and beside the input otherwise.
pub fn default_output(
    input: &str,
    target: Target,
    output_dir: Option<&str>,
    suffix: Option<&str>,
) -> (r: String)
    ensures
        is_default_output(r@, input@, target, opt_str(output_dir), opt_str(suffix)),
{
    let stem = input_stem(input);
    let file_name = output_file_name(stem.as_str(), target, suffix);
    proof {
        if input_named(input@) {
            assert(stem@ == default_stem(input@));
            assert(file_name@ == default_file_name(input@, target, opt_str(suffix)));
            if plain_suffix(opt_str(suffix)) {
                lemma_default_name(input@, target, opt_str(suffix));
            }
        }
    }
    let r = match output_dir {
        Some(dir) => path_join(dir, file_name.as_str()),
        None => path_with_file_name(input, file_name.as_str()),
    };
    proof {
        if input_named(input@) && plain_suffix(opt_str(suffix)) && dir_ok(opt_str(output_dir)) {
            // the output's final name is the new file name, and so differs from
            // the input's (or the input is empty)
            if r@ == input@ && input@.len() > 0 {
                assert(final_name(r@) == final_name(input@));
            }
        }
    }
    r
}


// ---------------------------------------------------------------------------
// Filter graph and plan
// ---------------------------------------------------------------------------

/// The chroma blur radius: half the luma radius, at least 1.
pub open spec fn chroma_blur(blur: u32) -> nat {
    if blur / 2 >= 1 {
        (blur / 2) as nat
    } else {
        1
    }
}

/// The ffmpeg filter graph that letterboxes the clip onto a `w`×`h` canvas:
/// a blurred, cropped copy of the clip behind it, or solid `color` bars.
pub open spec fn filter_spec(fill: Fill, w: nat, h: nat, blur: u32, color: Seq<char>) -> Seq<char> {
    match fill {
        Fill::Blur => "[0:v]split=2[bg][fg];[bg]scale="@ + decimal(w) + ":"@ + decimal(h)
            + ":force_original_aspect_ratio=increase,crop="@ + decimal(w) + ":"@ + decimal(h)
            + ",boxblur=luma_radius="@ + decimal(blur as nat) + ":luma_power=2:chroma_radius="@
            + decimal(chroma_blur(blur)) + ":chroma_power=2[bgb];[fg]scale="@ + decimal(w) + ":"@
            + decimal(h) + ":force_original_aspect_ratio=decrease[fgs];"@
            + "[bgb][fgs]overlay=(W-w)/2:(H-h)/2:format=auto,format=yuv420p"@,
        Fill::Color => "scale="@ + decimal(w) + ":"@ + decimal(h)
            + ":force_original_aspect_ratio=decrease,pad="@ + decimal(w) + ":"@ + decimal(h)
            + ":(ow-iw)/2:(oh-ih)/2:"@ + color + ",format=yuv420p"@,
    }
}

/// Builds the filter graph (see `filter_spec`).
pub fn filter_graph(fill: Fill, w: u32, h: u32, blur: u32, color: &str) -> (r: String)
    ensures
        r@ == filter_spec(fill, w as nat, h as nat, blur, color@),
{
    let ws = decimal_string(w);
    let hs = decimal_string(h);
    match fill {
        Fill::Blur => {
            let cblur = if blur / 2 >= 1 {
                blur / 2
            } else {
                1
            };
            let bs = decimal_string(blur);
            let cs = decimal_string(cblur);
            let mut f = "[0:v]split=2[bg][fg];[bg]scale=".to_owned();
            f.append(ws.as_str());
            f.append(":");
            f.append(hs.as_str());
            f.append(":force_original_aspect_ratio=increase,crop=");
            f.append(ws.as_str());
            f.append(":");
            f.append(hs.as_str());
            f.append(",boxblur=luma_radius=");
            f.append(bs.as_str());
            f.append(":luma_power=2:chroma_radius=");
            f.append(cs.as_str());
            f.append(":chroma_power=2[bgb];[fg]scale=");
            f.append(ws.as_str());
            f.append(":");
            f.append(hs.as_str());
            f.append(":force_original_aspect_ratio=decrease[fgs];");
            f.append("[bgb][fgs]overlay=(W-w)/2:(H-h)/2:format=auto,format=yuv420p");
            assert(f@ =~= filter_spec(fill, w as nat, h as nat, blur, color@));
            f
        },
        Fill::Color => {
            let mut f = "scale=".to_owned();
            f.append(ws.as_str());
            f.append(":");
            f.append(hs.as_str());
            f.append(":force_original_aspect_ratio=decrease,pad=");
            f.append(ws.as_str());
            f.append(":");
            f.append(hs.as_str());
            f.append(":(ow-iw)/2:(oh-ih)/2:");
            f.append(color);
            f.append(",format=yuv420p");
            assert(f@ =~= filter_spec(fill, w as nat, h as nat, blur, color@));
            f
        },
    }
}

/// A planned conversion.
#[derive(Clone, Debug)]
pub struct Plan {
    pub target: Target,
    pub out_w: u32,
    pub out_h: u32,
    pub output: String,
    pub already_oriented: bool,
    pub filter: String,
}

/// The clip already has the target's aspect ratio.
pub open spec fn oriented_spec(target: Target, width: u32, height: u32) -> bool {
    match target {
        Target::Vertical => width * 16 == height * 9,
        Target::Horizontal => width * 9 == height * 16,
        Target::Auto => false,
    }
}

/// The aspect check for `target` stays within `u32`.
pub open spec fn oriented_fits(target: Target, width: u32, height: u32) -> bool {
    match target {
        Target::Vertical => width * 16 <= u32::MAX && height * 9 <= u32::MAX,
        Target::Horizontal => width * 9 <= u32::MAX && height * 16 <= u32::MAX,
        Target::Auto => true,
    }
}

/// Planning stays within `u32` arithmetic.
pub open spec fn plan_fits(opts: ConvertOptions, probe: ProbeInfo) -> bool {
    match resolve_spec(opts.to, probe.width, probe.height) {
        Ok(t) => canvas_fits(opts.size) && oriented_fits(t, probe.width, probe.height),
        Err(_) => true,
    }
}

/// Whether planning these options for this clip would overflow `u32`
/// arithmetic (see `plan_fits`); callers test it before planning.
pub fn plan_would_overflow(opts: &ConvertOptions, probe: &ProbeInfo) -> (r: bool)
    ensures
        r == !plan_fits(*opts, *probe),
{
    let t = match resolve_target(opts.to, probe) {
        Ok(t) => t,
        Err(_) => return false,
    };
    let long = (opts.size - opts.size % 2) as u64;
    if long * 9 + 8 > 4294967295 {
        return true;
    }
    let w = probe.width as u64;
    let h = probe.height as u64;
    match t {
        Target::Vertical => w * 16 > 4294967295 || h * 9 > 4294967295,
        Target::Horizontal => w * 9 > 4294967295 || h * 16 > 4294967295,
        Target::Auto => false,
    }
}

/// Whether the clip already has the target's aspect ratio.
pub fn is_already_oriented(target: Target, width: u32, height: u32) -> (r: bool)
    requires
        oriented_fits(target, width, height),
    ensures
        r == oriented_spec(target, width, height),
{
    match target {
        Target::Vertical => width * 16 == height * 9,
        Target::Horizontal => width * 9 == height * 16,
        Target::Auto => false,
    }
}

/// A plan's fields, as `build_plan` fills them for a resolved target.
pub open spec fn plan_matches(
    plan: Plan,
    opts: ConvertOptions,
    probe: ProbeInfo,
    target: Target,
) -> bool {
    &&& plan.target == target
    &&& (plan.out_w as int, plan.out_h as int) == canvas_spec(opts.size, target)
    &&& plan.already_oriented == oriented_spec(target, probe.width, probe.height)
    &&& plan.filter@ == filter_spec(
        opts.fill,
        plan.out_w as nat,
        plan.out_h as nat,
        opts.blur,
        opts.color@,
    )
}

/// The output path a plan uses: the one asked for, or a default one.
pub open spec fn is_chosen_output(out: Seq<char>, opts: ConvertOptions, target: Target) -> bool {
    match opts.output {
        Some(o) => out == o@,
        None => is_default_output(
            out,
            opts.input@,
            target,
            opt_string(opts.output_dir),
            opt_string(opts.suffix),
        ),
    }
}

/// The last step of planning: given the output path and whether it names the
/// input file, the plan, or `OutputIsInput`.
pub fn assemble_plan(
    opts: &ConvertOptions,
    probe: &ProbeInfo,
    target: Target,
    output: String,
    output_is_input: bool,
) -> (r: Result<Plan, PlanError>)
    requires
        target != Target::Auto,
        canvas_fits(opts.size),
        oriented_fits(target, probe.width, probe.height),
    ensures
        output_is_input ==> r == Err::<Plan, PlanError>(PlanError::OutputIsInput),
        !output_is_input ==> (r matches Ok(plan) && plan_matches(plan, *opts, *probe, target)
            && plan.output@ == output@),
{
    if output_is_input {
        return Err(PlanError::OutputIsInput);
    }
    let (out_w, out_h) = canvas_size(opts.size, target);
    let already_oriented = is_already_oriented(target, probe.width, probe.height);
    let filter = filter_graph(opts.fill, out_w, out_h, opts.blur, opts.color.as_str());
    Ok(Plan { target, out_w, out_h, output, already_oriented, filter })
}

/// Plans a conversion: resolves the target, sizes the canvas, picks the
/// output path (which must not be the input) and builds the filter graph.
pub fn build_plan(opts: &ConvertOptions, probe: &ProbeInfo) -> (r: Result<Plan, PlanError>)
    requires
        plan_fits(*opts, *probe),
    ensures
        match resolve_spec(opts.to, probe.width, probe.height) {
            Err(e) => r == Err::<Plan, PlanError>(e),
            Ok(t) => match r {
                Ok(plan) => plan_matches(plan, *opts, *probe, t) && is_chosen_output(
                    plan.output@,
                    *opts,
                    t,
                ) && plan.output@ != opts.input@,
                Err(e) => e == PlanError::OutputIsInput,
            },
        },
        (opts.output matches Some(o) && o@ == opts.input@) && resolve_spec(
            opts.to,
            probe.width,
            probe.height,
        ) is Ok ==> r == Err::<Plan, PlanError>(PlanError::OutputIsInput),
        resolve_spec(opts.to, probe.width, probe.height) is Ok && opts.output is None
            && default_output_clear(*opts) ==> r is Ok,
        opts.output matches Some(o) ==> (resolve_spec(opts.to, probe.width, probe.height) is Ok
            && explicit_output_clear(o@, opts.input@) ==> r is Ok),
        opts.output matches Some(o) ==> (resolve_spec(opts.to, probe.width, probe.height) is Ok
            && simple_path(o@) && simple_path(opts.input@) ==> (r is Ok <==> o@ != opts.input@)),
{
    let target = match resolve_target(opts.to, probe) {
        Ok(t) => t,
        Err(e) => return Err(e),
    };
    let output = match &opts.output {
        Some(o) => o.clone(),
        None => {
            let dir = match &opts.output_dir {
                Some(d) => Some(d.as_str()),
                None => None,
            };
            let suffix = match &opts.suffix {
                Some(s) => Some(s.as_str()),
                None => None,
            };
            default_output(opts.input.as_str(), target, dir, suffix)
        },
    };
    let same = paths_equal(output.as_str(), opts.input.as_str());
    proof {
        if opts.output is None && default_output_clear(*opts) {
            lemma_default_output_clear(
                output@,
                opts.input@,
                target,
                opt_string(opts.output_dir),
                opt_string(opts.suffix),
            );
        }
    }
    assemble_plan(opts, probe, target, output, same)
}

pub open spec fn plan_error_message(e: PlanError) -> Seq<char> {
    match e {
        PlanError::SquareInput { width, height } => "input is square ("@ + decimal(width as nat)
            + "x"@ + decimal(height as nat) + "); choose 9:16 or 16:9 explicitly"@,
        PlanError::OutputIsInput => "output path must differ from input path"@,
    }
}

impl PlanError {
    /// The text shown for this error.
    pub fn message(&self) -> (r: String)
        ensures
            r@ == plan_error_message(*self),
    {
        match self {
            PlanError::SquareInput { width, height } => {
                let mut m = "input is square (".to_owned();
                m.append(decimal_string(*width).as_str());
                m.append("x");
                m.append(decimal_string(*height).as_str());
                m.append("); choose 9:16 or 16:9 explicitly");
                assert(m@ =~= plan_error_message(*self));
                m
            },
            PlanError::OutputIsInput => "output path must differ from input path".to_owned(),
        }
    }
}


// ---------------------------------------------------------------------------
// ffmpeg arguments and the rendered command line
// ---------------------------------------------------------------------------

/// The x264 preset: the one asked for, else `ultrafast` for fast encodes and
/// `veryfast` otherwise.
pub open spec fn preset_spec(opts: ConvertOptions) -> Seq<char> {
    match opts.preset {
        Some(p) => p@,
        None => if opts.fast {
            "ultrafast"@
        } else {
            "veryfast"@
        },
    }
}

pub fn selected_preset(opts: &ConvertOptions) -> (r: String)
    ensures
        r@ == preset_spec(*opts),
{
    match &opts.preset {
        Some(p) => p.clone(),
        None => if opts.fast {
            "ultrafast".to_owned()
        } else {
            "veryfast".to_owned()
        },
    }
}

pub open spec fn start_args_spec(opts: ConvertOptions) -> Seq<Seq<char>> {
    match opts.start {
        Some(s) => seq!["-ss"@, s@],
        None => Seq::empty(),
    }
}

pub open spec fn duration_args_spec(opts: ConvertOptions) -> Seq<Seq<char>> {
    match opts.duration {
        Some(d) => seq!["-t"@, d@],
        None => Seq::empty(),
    }
}

pub open spec fn core_args_spec(
    opts: ConvertOptions,
    filter: Seq<char>,
    preset: Seq<char>,
) -> Seq<Seq<char>> {
    seq![
        if opts.overwrite {
            "-y"@
        } else {
            "-n"@
        },
        "-hide_banner"@,
        "-loglevel"@,
        log_level_name(opts.loglevel),
        "-stats"@,
        "-i"@,
        opts.input@,
        "-vf"@,
        filter,
        "-c:v"@,
        "libx264"@,
        "-preset"@,
        preset,
        "-crf"@,
        decimal(opts.crf as nat),
    ]
}

pub open spec fn metadata_args_spec(opts: ConvertOptions) -> Seq<Seq<char>> {
    if opts.map_metadata {
        seq!["-map_metadata"@, "0"@]
    } else {
        Seq::empty()
    }
}

pub open spec fn faststart_args_spec(opts: ConvertOptions) -> Seq<Seq<char>> {
    if !opts.no_faststart {
        seq!["-movflags"@, "+faststart"@]
    } else {
        Seq::empty()
    }
}

/// The ffmpeg arguments shared by every encode, in order: seek and duration,
/// overwrite policy, logging, input, filter, codec, preset, quality,
/// metadata, faststart, then the caller's extra arguments.
pub open spec fn base_args_spec(
    opts: ConvertOptions,
    filter: Seq<char>,
    preset: Seq<char>,
) -> Seq<Seq<char>> {
    start_args_spec(opts) + duration_args_spec(opts) + core_args_spec(opts, filter, preset)
        + metadata_args_spec(opts) + faststart_args_spec(opts) + views(opts.ffmpeg_args@)
}

fn start_args(opts: &ConvertOptions) -> (r: Vec<String>)
    ensures
        views(r@) == start_args_spec(*opts),
{
    let mut a: Vec<String> = Vec::new();
    match &opts.start {
        Some(s) => {
            push_arg(&mut a, "-ss");
            push_arg(&mut a, s.as_str());
        },
        None => {},
    }
    assert(views(a@) =~= start_args_spec(*opts));
    a
}

fn duration_args(opts: &ConvertOptions) -> (r: Vec<String>)
    ensures
        views(r@) == duration_args_spec(*opts),
{
    let mut a: Vec<String> = Vec::new();
    match &opts.duration {
        Some(d) => {
            push_arg(&mut a, "-t");
            push_arg(&mut a, d.as_str());
        },
        None => {},
    }
    assert(views(a@) =~= duration_args_spec(*opts));
    a
}

fn core_args(opts: &ConvertOptions, filter: &str, preset: &str) -> (r: Vec<String>)
    ensures
        views(r@) == core_args_spec(*opts, filter@, preset@),
{
    let mut a: Vec<String> = Vec::new();
    push_arg(&mut a, if opts.overwrite { "-y" } else { "-n" });
    push_arg(&mut a, "-hide_banner");
    push_arg(&mut a, "-loglevel");
    push_arg(&mut a, opts.loglevel.as_ffmpeg());
    push_arg(&mut a, "-stats");
    push_arg(&mut a, "-i");
    push_arg(&mut a, opts.input.as_str());
    push_arg(&mut a, "-vf");
    push_arg(&mut a, filter);
    push_arg(&mut a, "-c:v");
    push_arg(&mut a, "libx264");
    push_arg(&mut a, "-preset");
    push_arg(&mut a, preset);
    push_arg(&mut a, "-crf");
    let crf = decimal_string(opts.crf);
    push_arg(&mut a, crf.as_str());
    assert(views(a@) =~= core_args_spec(*opts, filter@, preset@));
    a
}

fn metadata_args(opts: &ConvertOptions) -> (r: Vec<String>)
    ensures
        views(r@) == metadata_args_spec(*opts),
{
    let mut a: Vec<String> = Vec::new();
    if opts.map_metadata {
        push_arg(&mut a, "-map_metadata");
        push_arg(&mut a, "0");
    }
    assert(views(a@) =~= metadata_args_spec(*opts));
    a
}

fn faststart_args(opts: &ConvertOptions) -> (r: Vec<String>)
    ensures
        views(r@) == faststart_args_spec(*opts),
{
    let mut a: Vec<String> = Vec::new();
    if !opts.no_faststart {
        push_arg(&mut a, "-movflags");
        push_arg(&mut a, "+faststart");
    }
    assert(views(a@) =~= faststart_args_spec(*opts));
    a
}

/// The shared ffmpeg arguments (see `base_args_spec`).
pub fn base_args(opts: &ConvertOptions, filter: &str, preset: &str) -> (r: Vec<String>)
    ensures
        views(r@) == base_args_spec(*opts, filter@, preset@),
{
    let mut a = start_args(opts);
    push_args(&mut a, &duration_args(opts));
    push_args(&mut a, &core_args(opts, filter, preset));
    push_args(&mut a, &metadata_args(opts));
    push_args(&mut a, &faststart_args(opts));
    push_args(&mut a, &opts.ffmpeg_args);
    a
}

/// The audio arguments for a mode: stream copy, AAC at the chosen bitrate,
/// or no audio.
pub open spec fn audio_args_spec(mode: AudioMode, bitrate: Seq<char>) -> Seq<Seq<char>> {
    match mode {
        AudioMode::Copy => seq!["-c:a"@, "copy"@],
        AudioMode::Aac => seq!["-c:a"@, "aac"@, "-b:a"@, bitrate],
        AudioMode::Disabled => seq!["-an"@],
    }
}

pub fn audio_args(opts: &ConvertOptions, mode: AudioMode) -> (r: Vec<String>)
    ensures
        views(r@) == audio_args_spec(mode, opts.audio_bitrate@),
{
    let mut a: Vec<String> = Vec::new();
    match mode {
        AudioMode::Copy => {
            push_arg(&mut a, "-c:a");
            push_arg(&mut a, "copy");
        },
        AudioMode::Aac => {
            push_arg(&mut a, "-c:a");
            push_arg(&mut a, "aac");
            push_arg(&mut a, "-b:a");
            push_arg(&mut a, opts.audio_bitrate.as_str());
        },
        AudioMode::Disabled => {
            push_arg(&mut a, "-an");
        },
    }
    assert(views(a@) =~= audio_args_spec(mode, opts.audio_bitrate@));
    a
}

/// All ffmpeg arguments of one encode: the shared ones, the audio ones,
/// `-y` when `force` is set, and the output path last.
pub open spec fn encode_args_spec(
    opts: ConvertOptions,
    plan: Plan,
    mode: AudioMode,
    force: bool,
) -> Seq<Seq<char>> {
    base_args_spec(opts, plan.filter@, preset_spec(opts)) + audio_args_spec(
        mode,
        opts.audio_bitrate@,
    ) + (if force {
        seq!["-y"@]
    } else {
        Seq::empty()
    }) + seq![plan.output@]
}

pub fn encode_args(opts: &ConvertOptions, plan: &Plan, mode: AudioMode, force: bool) -> (r: Vec<
    String,
>)
    ensures
        views(r@) == encode_args_spec(*opts, *plan, mode, force),
{
    let preset = selected_preset(opts);
    let mut a = base_args(opts, plan.filter.as_str(), preset.as_str());
    let audio = audio_args(opts, mode);
    push_args(&mut a, &audio);
    let ghost s = views(a@);
    if force {
        push_arg(&mut a, "-y");
    }
    let ghost t = views(a@);
    push_arg(&mut a, plan.output.as_str());
    proof {
        assert(t =~= s + (if force {
            seq!["-y"@]
        } else {
            Seq::<Seq<char>>::empty()
        }));
        assert(views(a@) =~= encode_args_spec(*opts, *plan, mode, force));
    }
    a
}

/// An argument is quoted on the rendered command line when it holds a space,
/// a `;` or a `[`.
pub open spec fn needs_quotes(a: Seq<char>) -> bool {
    a.contains(' ') || a.contains(';') || a.contains('[')
}

pub open spec fn rendered_arg(a: Seq<char>) -> Seq<char> {
    if needs_quotes(a) {
        " '"@ + a + "'"@
    } else {
        " "@ + a
    }
}

pub open spec fn rendered_args(args: Seq<Seq<char>>) -> Seq<char>
    decreases args.len(),
{
    if args.len() == 0 {
        Seq::empty()
    } else {
        rendered_args(args.drop_last()) + rendered_arg(args.last())
    }
}

/// A command line as printed for a dry run: the program, then each argument
/// after a space, single-quoted where needed.
pub open spec fn command_line_spec(program: Seq<char>, args: Seq<Seq<char>>) -> Seq<char> {
    program + rendered_args(args)
}

/// Renders a command line (see `command_line_spec`).
pub fn render_command_line(program: &str, args: &Vec<String>) -> (r: String)
    ensures
        r@ == command_line_spec(program@, views(args@)),
{
    let mut s = program.to_owned();
    let mut i: usize = 0;
    while i < args.len()
        invariant
            i <= args@.len(),
            s@ == program@ + rendered_args(views(args@).take(i as int)),
        decreases args@.len() - i,
    {
        let a = &args[i];
        let v = chars_of(a.as_str());
        let q = has_char(v.as_slice(), ' ') || has_char(v.as_slice(), ';') || has_char(
            v.as_slice(),
            '[',
        );
        let ghost before = s@;
        if q {
            s.append(" '");
            s.append(a.as_str());
            s.append("'");
        } else {
            s.append(" ");
            s.append(a.as_str());
        }
        proof {
            let vs = views(args@);
            assert(vs.take(i + 1).drop_last() =~= vs.take(i as int));
            assert(vs.take(i + 1).last() == a@);
            assert(s@ =~= before + rendered_arg(a@));
        }
        i = i + 1;
    }
    assert(views(args@).take(args@.len() as int) =~= views(args@));
    s
}

/// The command a dry run prints: `program` with the encode arguments for the
/// options' own audio mode.
pub fn render_command(opts: &ConvertOptions, plan: &Plan, program: &str) -> (r: String)
    ensures
        r@ == command_line_spec(program@, encode_args_spec(*opts, *plan, opts.audio_mode, false)),
{
    let args = encode_args(opts, plan, opts.audio_mode, false);
    render_command_line(program, &args)
}

// ---------------------------------------------------------------------------
// JSON plan
// ---------------------------------------------------------------------------

pub open spec fn target_label(t: Target) -> Seq<char> {
    match t {
        Target::Vertical => "9:16"@,
        Target::Horizontal => "16:9"@,
        Target::Auto => "auto"@,
    }
}

pub open spec fn fill_label(f: Fill) -> Seq<char> {
    match f {
        Fill::Blur => "blur"@,
        Fill::Color => "color"@,
    }
}

/// A hexadecimal digit, lower case.
pub open spec fn hex_char(n: u32) -> char {
    if n < 10 {
        (48 + n) as char
    } else {
        (87 + n) as char
    }
}

/// How one character is written inside a JSON string: `\\` and `\"` for the
/// backslash and the double quote, `\n`, `\r` and `\t` for those controls,
/// `\u00XX` for every other character below U+0020, itself otherwise.
pub open spec fn escape_char(c: char) -> Seq<char> {
    if c == '\\' {
        seq!['\\', '\\']
    } else if c == '"' {
        seq!['\\', '"']
    } else if c == '\n' {
        seq!['\\', 'n']
    } else if c == '\r' {
        seq!['\\', 'r']
    } else if c == '\t' {
        seq!['\\', 't']
    } else if (c as u32) < 0x20 {
        seq!['\\', 'u', '0', '0', hex_char((c as u32) / 16), hex_char((c as u32) % 16)]
    } else {
        seq![c]
    }
}

/// No character of `s` is a control character below U+0020.
pub open spec fn no_controls(s: Seq<char>) -> bool {
    forall|i: int| 0 <= i < s.len() ==> (#[trigger] s[i] as u32) >= 0x20
}

/// A hexadecimal digit, in either case.
pub open spec fn is_hex_digit(c: char) -> bool {
    ('0' <= c && c <= '9') || ('a' <= c && c <= 'f') || ('A' <= c && c <= 'F')
}

/// The body of a JSON string literal, as the JSON grammar has it: no
/// unescaped `"`, no raw control character, and each `\` starts one of the
/// escapes `\"`, `\\`, `\/`, `\b`, `\f`, `\n`, `\r`, `\t` or `\uXXXX`.
pub open spec fn json_string_body(s: Seq<char>) -> bool
    decreases s.len(),
{
    if s.len() == 0 {
        true
    } else if s[0] == '\\' {
        if s.len() >= 2 && (s[1] == '"' || s[1] == '\\' || s[1] == '/' || s[1] == 'b' || s[1] == 'f'
            || s[1] == 'n' || s[1] == 'r' || s[1] == 't') {
            json_string_body(s.skip(2))
        } else if s.len() >= 6 && s[1] == 'u' && is_hex_digit(s[2]) && is_hex_digit(s[3])
            && is_hex_digit(s[4]) && is_hex_digit(s[5]) {
            json_string_body(s.skip(6))
        } else {
            false
        }
    } else if s[0] == '"' || (s[0] as u32) < 0x20 {
        false
    } else {
        json_string_body(s.drop_first())
    }
}

/// The value of a hexadecimal digit.
pub open spec fn hex_digit_value(c: char) -> int {
    if '0' <= c && c <= '9' {
        c as int - 48
    } else if 'a' <= c && c <= 'f' {
        c as int - 87
    } else {
        c as int - 55
    }
}

/// The text a JSON string body stands for, as a JSON decoder reads it: each
/// two-character escape gives its character, `\uXXXX` gives the character
/// with that code (outside the surrogate range, which `\u` escapes of this
/// crate never reach), and every other character stands for itself.
pub open spec fn json_decode(s: Seq<char>) -> Seq<char>
    decreases s.len(),
{
    if s.len() == 0 {
        Seq::empty()
    } else if s[0] == '\\' && s.len() >= 6 && s[1] == 'u' {
        let v = hex_digit_value(s[2]) * 4096 + hex_digit_value(s[3]) * 256 + hex_digit_value(s[4])
            * 16 + hex_digit_value(s[5]);
        seq![v as char] + json_decode(s.skip(6))
    } else if s[0] == '\\' && s.len() >= 2 {
        let e = if s[1] == 'b' {
            '\u{8}'
        } else if s[1] == 'f' {
            '\u{c}'
        } else if s[1] == 'n' {
            '\n'
        } else if s[1] == 'r' {
            '\r'
        } else if s[1] == 't' {
            '\t'
        } else {
            s[1]
        };
        seq![e] + json_decode(s.skip(2))
    } else {
        seq![s[0]] + json_decode(s.drop_first())
    }
}

/// The hexadecimal digit of a number below 16.
fn hex_digit_char(n: u32) -> (r: char)
    requires
        n < 16,
    ensures
        r == hex_char(n),
{
    if n < 10 {
        (48 + n as u8) as char
    } else {
        (87 + n as u8) as char
    }
}

/// Each character written as `escape_char` writes it, so that the text
/// can stand between double quotes in JSON.
pub open spec fn json_escape_spec(s: Seq<char>) -> Seq<char>
    decreases s.len(),
{
    if s.len() == 0 {
        Seq::empty()
    } else {
        json_escape_spec(s.drop_last()) + escape_char(s.last())
    }
}

/// Escapes text for a JSON string literal.
pub fn json_escape(s: &str) -> (r: String)
    ensures
        r@ == json_escape_spec(s@),
{
    let v = chars_of(s);
    let mut out = String::new();
    let mut i: usize = 0;
    while i < v.len()
        invariant
            i <= v@.len(),
            out@ == json_escape_spec(v@.take(i as int)),
        decreases v@.len() - i,
    {
        let c = v[i];
        let ghost before = out@;
        if c == '\\' {
            push_chars(&mut out, &['\\', '\\']);
        } else if c == '"' {
            push_chars(&mut out, &['\\', '"']);
        } else if c == '\n' {
            push_chars(&mut out, &['\\', 'n']);
        } else if c == '\r' {
            push_chars(&mut out, &['\\', 'r']);
        } else if c == '\t' {
            push_chars(&mut out, &['\\', 't']);
        } else if (c as u32) < 0x20 {
            let hi = hex_digit_char((c as u32) / 16);
            let lo = hex_digit_char((c as u32) % 16);
            push_chars(&mut out, &['\\', 'u', '0', '0', hi, lo]);
        } else {
            push_chars(&mut out, &[c]);
        }
        proof {
            assert(v@.take(i + 1).drop_last() =~= v@.take(i as int));
            assert(v@.take(i + 1).last() == c);
            assert(out@ =~= before + escape_char(c));
        }
        i = i + 1;
    }
    assert(v@.take(v@.len() as int) =~= v@);
    out
}

/// The one-line JSON summary of a plan.
pub open spec fn json_plan_spec(plan: Plan, fill: Fill) -> Seq<char> {
    "{\"target\":\""@ + target_label(plan.target) + "\",\"output_width\":"@ + decimal(
        plan.out_w as nat,
    ) + ",\"output_height\":"@ + decimal(plan.out_h as nat) + ",\"output_path\":\""@
        + json_escape_spec(plan.output@) + "\",\"fill\":\""@ + fill_label(fill) + "\"}"@
}

pub fn render_json_plan(plan: &Plan, fill: Fill) -> (r: String)
    ensures
        r@ == json_plan_spec(*plan, fill),
{
    let mut s = "{\"target\":\"".to_owned();
    s.append(
        match plan.target {
            Target::Vertical => "9:16",
            Target::Horizontal => "16:9",
            Target::Auto => "auto",
        },
    );
    s.append("\",\"output_width\":");
    s.append(decimal_string(plan.out_w).as_str());
    s.append(",\"output_height\":");
    s.append(decimal_string(plan.out_h).as_str());
    s.append(",\"output_path\":\"");
    s.append(json_escape(plan.output.as_str()).as_str());
    s.append("\",\"fill\":\"");
    s.append(
        match fill {
            Fill::Blur => "blur",
            Fill::Color => "color",
        },
    );
    s.append("\"}");
    assert(s@ =~= json_plan_spec(*plan, fill));
    s
}


// ---------------------------------------------------------------------------
// Fill colors
// ---------------------------------------------------------------------------

/// The text a color is looked up by: trimmed, ASCII letters lowered.
pub open spec fn color_key(s: Seq<char>) -> Seq<char> {
    lower(trim(s))
}

pub open spec fn named_color(t: Seq<char>) -> Option<(u8, u8, u8)> {
    if t == "black"@ {
        Some((0, 0, 0))
    } else if t == "white"@ {
        Some((255, 255, 255))
    } else if t == "red"@ {
        Some((255, 0, 0))
    } else if t == "green"@ {
        Some((0, 128, 0))
    } else if t == "blue"@ {
        Some((0, 0, 255))
    } else if t == "gray"@ || t == "grey"@ {
        Some((128, 128, 128))
    } else {
        None
    }
}

/// `str::trim_start_matches('#')`: drops every leading `#`.
pub open spec fn strip_hashes(s: Seq<char>) -> Seq<char>
    decreases s.len(),
{
    if s.len() > 0 && s[0] == '#' {
        strip_hashes(s.drop_first())
    } else {
        s
    }
}

pub open spec fn hex_value(c: char) -> Option<nat> {
    if '0' <= c && c <= '9' {
        Some(((c as u32) - 48) as nat)
    } else if 'a' <= c && c <= 'f' {
        Some(((c as u32) - 87) as nat)
    } else if 'A' <= c && c <= 'F' {
        Some(((c as u32) - 55) as nat)
    } else {
        None
    }
}

/// `u8::from_str_radix` of a two-character string, base 16: an optional `+`
/// and then hex digits.
pub open spec fn hex_byte(a: char, b: char) -> Option<u8> {
    if a == '+' {
        match hex_value(b) {
            Some(y) => Some(y as u8),
            None => None,
        }
    } else {
        match (hex_value(a), hex_value(b)) {
            (Some(x), Some(y)) => Some((16 * x + y) as u8),
            _ => None,
        }
    }
}

/// The color a fill-color name or `#rrggbb` hex code stands for.
pub open spec fn fill_color_spec(s: Seq<char>) -> Option<(u8, u8, u8)> {
    let t = color_key(s);
    match named_color(t) {
        Some(c) => Some(c),
        None => {
            let h = strip_hashes(t);
            if all_ascii(h) && h.len() == 6 {
                match (hex_byte(h[0], h[1]), hex_byte(h[2], h[3]), hex_byte(h[4], h[5])) {
                    (Some(r), Some(g), Some(b)) => Some((r, g, b)),
                    _ => None,
                }
            } else {
                None
            }
        },
    }
}

/// Fill colors ignore the case of letters and surrounding whitespace.
pub proof fn law_fill_color_normalised(s: Seq<char>)
    ensures
        fill_color_spec(lower(s)) == fill_color_spec(s),
        fill_color_spec(trim(s)) == fill_color_spec(s),
{
    lemma_trim_lower(s);
    lemma_lower_idempotent(trim(s));
    assert(color_key(lower(s)) == color_key(s));
    lemma_trim_idempotent(s);
    assert(color_key(trim(s)) == color_key(s));
}

/// Inputs on which slicing the six bytes of a hex code into byte pairs would
/// cut a character in two.
pub open spec fn fill_color_panics(s: Seq<char>) -> bool {
    let h = strip_hashes(color_key(s));
    &&& named_color(color_key(s)) is None
    &&& utf8_len(h) == 6
    &&& !(is_byte_boundary(h, 2) && is_byte_boundary(h, 4))
}

fn hex_digit(c: char) -> (r: Option<u8>)
    ensures
        match r {
            Some(v) => hex_value(c) == Some(v as nat),
            None => hex_value(c) is None,
        },
{
    if '0' <= c && c <= '9' {
        Some(c as u8 - 48)
    } else if 'a' <= c && c <= 'f' {
        Some(c as u8 - 87)
    } else if 'A' <= c && c <= 'F' {
        Some(c as u8 - 55)
    } else {
        None
    }
}

fn hex_pair(a: char, b: char) -> (r: Option<u8>)
    ensures
        r == hex_byte(a, b),
{
    if a == '+' {
        hex_digit(b)
    } else {
        match (hex_digit(a), hex_digit(b)) {
            (Some(x), Some(y)) => Some(16 * x + y),
            _ => None,
        }
    }
}

fn is_ascii_slice(v: &[char], lo: usize, hi: usize) -> (r: bool)
    requires
        lo <= hi <= v@.len(),
    ensures
        r == all_ascii(v@.subrange(lo as int, hi as int)),
{
    let mut i = lo;
    while i < hi
        invariant
            lo <= i <= hi <= v@.len(),
            forall|k: int| lo <= k < i ==> (#[trigger] v@[k] as u32) < 0x80,
        decreases hi - i,
    {
        if v[i] as u32 >= 0x80 {
            assert(v@.subrange(lo as int, hi as int)[i - lo] == v@[i as int]);
            return false;
        }
        i = i + 1;
    }
    assert forall|k: int| 0 <= k < hi - lo implies (#[trigger] v@.subrange(
        lo as int,
        hi as int,
    )[k] as u32) < 0x80 by {
        assert(v@.subrange(lo as int, hi as int)[k] == v@[lo + k]);
    }
    true
}

/// The lookup key of a color name (see `color_key`).
fn color_key_chars(name_or_hex: &str) -> (t: Vec<char>)
    ensures
        t@ == color_key(name_or_hex@),
{
    let v = chars_of(name_or_hex);
    let (a, b) = trim_range(v.as_slice(), 0, v.len());
    assert(v@.subrange(0, v@.len() as int) =~= v@);
    lower_range(v.as_slice(), a, b)
}

fn named_color_exec(t: &[char]) -> (r: Option<[u8; 3]>)
    ensures
        match r {
            Some(a) => named_color(t@) == Some((a@[0], a@[1], a@[2])),
            None => named_color(t@) is None,
        },
{
    let c = if eq_chars(t, chars_of("black").as_slice()) {
        [0u8, 0, 0]
    } else if eq_chars(t, chars_of("white").as_slice()) {
        [255u8, 255, 255]
    } else if eq_chars(t, chars_of("red").as_slice()) {
        [255u8, 0, 0]
    } else if eq_chars(t, chars_of("green").as_slice()) {
        [0u8, 128, 0]
    } else if eq_chars(t, chars_of("blue").as_slice()) {
        [0u8, 0, 255]
    } else if eq_chars(t, chars_of("gray").as_slice()) || eq_chars(t, chars_of("grey").as_slice()) {
        [128u8, 128, 128]
    } else {
        return None;
    };
    assert(named_color(t@) == Some((c@[0], c@[1], c@[2])));
    Some(c)
}

/// Where the `#`s at the start of `t` end.
fn skip_hashes(t: &[char]) -> (k: usize)
    ensures
        k <= t@.len(),
        t@.subrange(k as int, t@.len() as int) == strip_hashes(t@),
{
    let mut k: usize = 0;
    assert(t@.subrange(0, t@.len() as int) =~= t@);
    while k < t.len() && t[k] == '#'
        invariant
            k <= t@.len(),
            strip_hashes(t@.subrange(k as int, t@.len() as int)) == strip_hashes(t@),
        decreases t@.len() - k,
    {
        assert(t@.subrange(k as int, t@.len() as int).drop_first() =~= t@.subrange(
            k + 1,
            t@.len() as int,
        ));
        k = k + 1;
    }
    k
}

fn parse_fill_color_impl(name_or_hex: &str) -> (r: Option<[u8; 3]>)
    requires
        !fill_color_panics(name_or_hex@),
    ensures
        match r {
            Some(a) => fill_color_spec(name_or_hex@) == Some((a@[0], a@[1], a@[2])),
            None => fill_color_spec(name_or_hex@) is None,
        },
{
    let t = color_key_chars(name_or_hex);
    match named_color_exec(t.as_slice()) {
        Some(c) => return Some(c),
        None => {},
    }
    let k = skip_hashes(t.as_slice());
    let ghost h = strip_hashes(t@);
    if t.len() - k == 6 && is_ascii_slice(t.as_slice(), k, t.len()) {
        assert(h[0] == t@[k as int] && h[1] == t@[k + 1] && h[2] == t@[k + 2] && h[3] == t@[k
            + 3] && h[4] == t@[k + 4] && h[5] == t@[k + 5]);
        let r = hex_pair(t[k], t[k + 1]);
        let g = hex_pair(t[k + 2], t[k + 3]);
        let bl = hex_pair(t[k + 4], t[k + 5]);
        match (r, g, bl) {
            (Some(x), Some(y), Some(z)) => {
                let out = [x, y, z];
                assert(out@[0] == x && out@[1] == y && out@[2] == z);
                Some(out)
            },
            _ => None,
        }
    } else {
        None
    }
}

/// Whether reading this fill color would slice a character in two (see
/// `fill_color_panics`); callers test it before asking for the color.
pub fn fill_color_would_panic(name_or_hex: &str) -> (r: bool)
    ensures
        r == fill_color_panics(name_or_hex@),
{
    let t = color_key_chars(name_or_hex);
    if named_color_exec(t.as_slice()).is_some() {
        return false;
    }
    let k = skip_hashes(t.as_slice());
    let h = &t.as_slice()[k..t.len()];
    assert(h@ == strip_hashes(t@));
    assert(h@.take(h@.len() as int) =~= h@);
    let n = utf8_len_prefix(h, h.len());
    if n != 6 {
        return false;
    }
    let at2 = char_index_at_byte(h, h.len(), 2);
    let at4 = char_index_at_byte(h, h.len(), 4);
    at2.is_none() || at4.is_none()
}

pub open spec fn fill_rgb(s: Seq<char>) -> Seq<u8> {
    match fill_color_spec(s) {
        Some((r, g, b)) => seq![r, g, b],
        None => seq![0u8, 0u8, 0u8],
    }
}

/// Whether a fill color names a known color or a `#rrggbb` hex code.
pub fn is_valid_fill_color(name_or_hex: &str) -> (r: bool)
    requires
        !fill_color_panics(name_or_hex@),
    ensures
        r == fill_color_spec(name_or_hex@) is Some,
{
    parse_fill_color_impl(name_or_hex).is_some()
}

/// The RGB of a fill color; black for anything unrecognised.
pub fn parse_fill_color(name_or_hex: &str) -> (r: [u8; 3])
    requires
        !fill_color_panics(name_or_hex@),
    ensures
        r@ == fill_rgb(name_or_hex@),
{
    match parse_fill_color_impl(name_or_hex) {
        Some(c) => {
            assert(c@ =~= fill_rgb(name_or_hex@));
            c
        },
        None => {
            let c = [0u8, 0, 0];
            assert(c@ =~= fill_rgb(name_or_hex@));
            c
        },
    }
}


// ---------------------------------------------------------------------------
// Reading ffprobe's answer
// ---------------------------------------------------------------------------

/// Why ffprobe's `width,height` line could not be read.
#[derive(Copy, Clone, Debug, PartialEq, Eq, Structural)]
pub enum ProbeParseError {
    Width,
    Height,
}

impl ProbeParseError {
    pub fn message(&self) -> (r: &'static str)
        ensures
            r@ == (match *self {
                ProbeParseError::Width => "could not parse video width"@,
                ProbeParseError::Height => "could not parse video height"@,
            }),
    {
        match self {
            ProbeParseError::Width => "could not parse video width",
            ProbeParseError::Height => "could not parse video height",
        }
    }
}

/// The text before the first comma (all of it when there is none).
pub open spec fn first_field(s: Seq<char>) -> Seq<char> {
    match find_from(s, seq![','], 0) {
        Some(i) => s.take(i),
        None => s,
    }
}

/// The text after the first comma, when there is one.
pub open spec fn after_first_comma(s: Seq<char>) -> Option<Seq<char>> {
    match find_from(s, seq![','], 0) {
        Some(i) => Some(s.skip(i + 1)),
        None => None,
    }
}

/// Reads `width,height` from ffprobe's CSV output: the text is trimmed, split
/// at commas, and the first two fields, trimmed, are parsed as `u32`.
pub open spec fn dimensions_spec(text: Seq<char>) -> Result<(u32, u32), ProbeParseError> {
    let t = trim(text);
    match parse_u32(trim(first_field(t))) {
        None => Err(ProbeParseError::Width),
        Some(w) => match after_first_comma(t) {
            None => Err(ProbeParseError::Height),
            Some(rest) => match parse_u32(trim(first_field(rest))) {
                None => Err(ProbeParseError::Height),
                Some(h) => Ok((w, h)),
            },
        },
    }
}

/// The first field of `v[lo..hi]` as a `u32`, and where the next field starts.
fn parse_field(v: &[char], lo: usize, hi: usize) -> (r: (Option<u32>, Option<usize>))
    requires
        lo <= hi <= v@.len(),
    ensures
        r.0 == parse_u32(trim(first_field(v@.subrange(lo as int, hi as int)))),
        match r.1 {
            Some(n) => lo <= n <= hi && after_first_comma(v@.subrange(lo as int, hi as int))
                == Some(v@.subrange(n as int, hi as int)),
            None => after_first_comma(v@.subrange(lo as int, hi as int)) is None,
        },
{
    let sub = &v[lo..hi];
    let comma = [','];
    let ghost s = v@.subrange(lo as int, hi as int);
    assert(sub@ == s);
    assert(comma@ =~= seq![',']);
    match find_from_exec(sub, &comma, 0) {
        Some(i) => {
            proof { crate::text::lemma_find_from(s, seq![','], 0int); }
            let (a, b) = trim_range(v, lo, lo + i);
            assert(v@.subrange(lo as int, lo + i) =~= s.take(i as int));
            assert(s.skip(i + 1) =~= v@.subrange(lo + i + 1, hi as int));
            (parse_u32_range(v, a, b), Some(lo + i + 1))
        },
        None => {
            let (a, b) = trim_range(v, lo, hi);
            (parse_u32_range(v, a, b), None)
        },
    }
}

/// Reads ffprobe's `width,height` answer (see `dimensions_spec`).
pub fn parse_probe_dimensions(text: &str) -> (r: Result<(u32, u32), ProbeParseError>)
    ensures
        r == dimensions_spec(text@),
{
    let v = chars_of(text);
    let (a, b) = trim_range(v.as_slice(), 0, v.len());
    assert(v@.subrange(0, v@.len() as int) =~= v@);
    let (w, next) = parse_field(v.as_slice(), a, b);
    match w {
        None => Err(ProbeParseError::Width),
        Some(w) => match next {
            None => Err(ProbeParseError::Height),
            Some(n) => {
                let (h, _) = parse_field(v.as_slice(), n, b);
                match h {
                    None => Err(ProbeParseError::Height),
                    Some(h) => Ok((w, h)),
                }
            },
        },
    }
}

// ---------------------------------------------------------------------------
// Locating ffmpeg
// ---------------------------------------------------------------------------

pub open spec fn exe_name_spec(name: Seq<char>, windows: bool) -> Seq<char> {
    if windows {
        name + ".exe"@
    } else {
        name
    }
}

/// The executable's file name on this platform (`.exe` on Windows).
pub fn exe_name(name: &str, windows: bool) -> (r: String)
    ensures
        r@ == exe_name_spec(name@, windows),
{
    let mut s = name.to_owned();
    if windows {
        s.append(".exe");
    }
    s
}

/// A path made by pushing `mid` onto `base` and then `part` onto that.
pub open spec fn nested_join(base: Seq<char>, mid: Seq<char>, part: Seq<char>, r: Seq<char>) -> bool {
    exists|b: Seq<char>| #[trigger] join_shape(base, mid, b) && join_shape(b, part, r)
}

/// Where ffmpeg tools are looked for, in order: the override directory, the
/// executable's directory and its `ffmpeg/` and `bin/` subdirectories, each
/// joined with the tool's file name, then that file name alone for a `PATH`
/// lookup. What a join gives is stated for every directory `joinable`
/// admits, drive paths such as `C:\\dir` among them (see `join_shape`); on
/// shares, verbatim paths and bare drives the platform decides.
pub fn tool_candidates(
    name: &str,
    windows: bool,
    override_dir: Option<&str>,
    exe_dir: Option<&str>,
) -> (r: Vec<String>)
    ensures
        r@.len() == (if override_dir is Some {
            1int
        } else {
            0
        }) + (if exe_dir is Some {
            3int
        } else {
            0
        }) + 1,
        r@.last()@ == exe_name_spec(name@, windows),
        override_dir matches Some(d) ==> (joinable(d@, exe_name_spec(name@, windows)) ==> join_shape(
            d@,
            exe_name_spec(name@, windows),
            r@[0]@,
        )),
        exe_dir matches Some(d) ==> (joinable(d@, exe_name_spec(name@, windows)) ==> ({
            let f = exe_name_spec(name@, windows);
            let o = if override_dir is Some {
                1int
            } else {
                0
            };
            &&& join_shape(d@, f, r@[o]@)
            &&& d@ != seq!['\\'] ==> nested_join(d@, "ffmpeg"@, f, r@[o + 1]@) && nested_join(
                d@,
                "bin"@,
                f,
                r@[o + 2]@,
            )
        })),
{
    let filename = exe_name(name, windows);
    let mut out: Vec<String> = Vec::new();
    match override_dir {
        Some(dir) => out.push(path_join(dir, filename.as_str())),
        None => {},
    }
    let ghost o = out@.len() as int;
    match exe_dir {
        Some(dir) => {
            out.push(path_join(dir, filename.as_str()));
            let ff = path_join(dir, "ffmpeg");
            out.push(path_join(ff.as_str(), filename.as_str()));
            let bin = path_join(dir, "bin");
            out.push(path_join(bin.as_str(), filename.as_str()));
            proof {
                let f = filename@;
                if joinable(dir@, f) && dir@ != seq!['\\'] {
                    reveal_strlit("ffmpeg");
                    reveal_strlit("bin");
                    assert(!"ffmpeg"@.contains(':'));
                    assert(!"bin"@.contains(':'));
                    assert(joinable(dir@, "ffmpeg"@));
                    assert(joinable(dir@, "bin"@));
                    lemma_join_base(dir@, "ffmpeg"@, ff@);
                    lemma_join_base(dir@, "bin"@, bin@);
                    assert(joinable(ff@, f));
                    assert(joinable(bin@, f));
                    assert(join_shape(dir@, "ffmpeg"@, ff@) && join_shape(ff@, f, out@[o + 1]@));
                    assert(join_shape(dir@, "bin"@, bin@) && join_shape(bin@, f, out@[o + 2]@));
                }
            }
        },
        None => {},
    }
    let bare = filename.clone();
    out.push(bare);
    out
}

/// The error shown when no candidate runs.
pub fn tool_not_found_message(name: &str) -> (r: String)
    ensures
        r@ == name@
            + " not found. Official releases bundle ffmpeg next to vertify — keep those files together. Developers: install ffmpeg (https://ffmpeg.org) or set VERTIFY_FFMPEG_DIR."@,
{
    let mut s = name.to_owned();
    s.append(
        " not found. Official releases bundle ffmpeg next to vertify — keep those files together. Developers: install ffmpeg (https://ffmpeg.org) or set VERTIFY_FFMPEG_DIR.",
    );
    s
}

// ---------------------------------------------------------------------------
// Running a conversion: the decisions between the outside steps
// ---------------------------------------------------------------------------

/// An existing output file stops the conversion unless overwriting is allowed
/// or nothing is written (dry run).
pub fn output_conflict(opts: &ConvertOptions, output_exists: bool) -> (r: bool)
    ensures
        r == (output_exists && !opts.overwrite && !opts.dry_run),
{
    output_exists && !opts.overwrite && !opts.dry_run
}

/// The warning printed when the clip already has the target's shape.
pub open spec fn orientation_warning_spec(plan: Plan) -> Option<Seq<char>> {
    if plan.already_oriented {
        Some(
            "warning: input already matches "@ + target_label(plan.target) + " ("@ + decimal(
                plan.out_w as nat,
            ) + "×"@ + decimal(plan.out_h as nat) + "); re-encoding"@,
        )
    } else {
        None
    }
}

pub fn orientation_warning(plan: &Plan) -> (r: Option<String>)
    ensures
        opt_string(r) == orientation_warning_spec(*plan),
{
    if !plan.already_oriented {
        return None;
    }
    let mut s = "warning: input already matches ".to_owned();
    s.append(
        match plan.target {
            Target::Vertical => "9:16",
            Target::Horizontal => "16:9",
            Target::Auto => "auto",
        },
    );
    s.append(" (");
    s.append(decimal_string(plan.out_w).as_str());
    s.append("×");
    s.append(decimal_string(plan.out_h).as_str());
    s.append("); re-encoding");
    assert(s@ =~= orientation_warning_spec(*plan).unwrap());
    Some(s)
}

/// What follows an ffmpeg run.
#[derive(Copy, Clone, Debug, PartialEq, Eq, Structural)]
pub enum EncodeNext {
    /// The output was written.
    Finished,
    /// Stream copy of the audio failed: encode again with AAC audio, with `-y`.
    RetryWithAac,
    /// Give up with ffmpeg's exit status.
    Failed,
}

/// After a run: success finishes; a failed first run with copied audio is
/// retried once with AAC audio; any other failure is final.
pub fn next_after_encode(mode: AudioMode, retried: bool, success: bool) -> (r: EncodeNext)
    ensures
        success ==> r == EncodeNext::Finished,
        !success && !retried && mode == AudioMode::Copy ==> r == EncodeNext::RetryWithAac,
        !success && (retried || mode != AudioMode::Copy) ==> r == EncodeNext::Failed,
{
    if success {
        EncodeNext::Finished
    } else if !retried && mode == AudioMode::Copy {
        EncodeNext::RetryWithAac
    } else {
        EncodeNext::Failed
    }
}

/// The arguments of the retry: AAC audio, and `-y` since the first run may
/// have left a partial file.
pub fn retry_args(opts: &ConvertOptions, plan: &Plan) -> (r: Vec<String>)
    ensures
        views(r@) == encode_args_spec(*opts, *plan, AudioMode::Aac, true),
{
    encode_args(opts, plan, AudioMode::Aac, true)
}

} // verus!

verus! {

// ---------------------------------------------------------------------------
// Laws of the encode arguments, the canvas, the fill colors and the JSON plan
// ---------------------------------------------------------------------------

/// The shared ffmpeg arguments start with the seek (`-ss` and the start) when
/// a start is given, then the length limit (`-t` and the duration) when a
/// duration is given, and nothing else before the overwrite flag; then come
/// `-hide_banner`, `-loglevel` and its level, `-stats`, `-i` and the input,
/// and `-vf` and the filter graph.
pub proof fn law_seek_and_duration_args(opts: ConvertOptions, filter: Seq<char>, preset: Seq<char>)
    ensures
        ({
            let a = base_args_spec(opts, filter, preset);
            let lead: Seq<Seq<char>> = (match opts.start {
                Some(s) => seq!["-ss"@, s@],
                None => Seq::empty(),
            }) + (match opts.duration {
                Some(d) => seq!["-t"@, d@],
                None => Seq::empty(),
            });
            let k = lead.len() as int;
            &&& a.len() >= k + 15
            &&& a.take(k) == lead
            &&& a[k] == (if opts.overwrite {
                "-y"@
            } else {
                "-n"@
            })
            &&& a[k + 1] == "-hide_banner"@
            &&& a[k + 2] == "-loglevel"@
            &&& a[k + 4] == "-stats"@
            &&& a[k + 5] == "-i"@
            &&& a[k + 6] == opts.input@
            &&& a[k + 7] == "-vf"@
            &&& a[k + 8] == filter
        }),
{
    let a = base_args_spec(opts, filter, preset);
    let lead = start_args_spec(opts) + duration_args_spec(opts);
    let core = core_args_spec(opts, filter, preset);
    let rest = metadata_args_spec(opts) + faststart_args_spec(opts) + views(opts.ffmpeg_args@);
    assert(a =~= lead + core + rest);
    let k = lead.len() as int;
    assert((lead + core + rest).take(k) =~= lead);
    assert forall|j: int| 0 <= j < 15 implies #[trigger] a[k + j] == core[j] by {
        assert((lead + core + rest)[k + j] == core[j]);
    }
}

/// The canvas keeps the 9:16 shape for every size it is computed for: its
/// long edge is `size` rounded down to even, and its short edge is 9/16 of
/// the long edge rounded to an even number (`16·short ≤ 9·long + 8 <
/// 16·short + 32`); a vertical canvas stands on its short edge.
pub proof fn law_canvas_ratio(size: u32, target: Target)
    requires
        canvas_fits(size),
        target != Target::Auto,
    ensures
        ({
            let (w, h) = canvas_spec(size, target);
            let long = if target == Target::Vertical {
                h
            } else {
                w
            };
            let short = if target == Target::Vertical {
                w
            } else {
                h
            };
            &&& long == size - size % 2
            &&& 16 * short <= 9 * long + 8
            &&& 9 * long + 8 < 16 * short + 32
            &&& short % 2 == 0
            &&& 0 <= short <= long
        }),
{
}

/// Text whose trimmed, lower-cased form is itself.
proof fn lemma_color_key_fixed(s: Seq<char>)
    requires
        s.len() > 0,
        !is_ws(s[0]),
        !is_ws(s.last()),
        forall|i: int| 0 <= i < s.len() ==> !('A' <= #[trigger] s[i] && s[i] <= 'Z'),
    ensures
        color_key(s) == s,
{
    assert(trim_start(s) == s);
    assert(trim_end(s) == s);
    assert(lower(s) =~= s);
}

/// The color of a `#` and six lower-case hex digits, read as three bytes.
proof fn lemma_hex_code(s: Seq<char>)
    requires
        s.len() == 7,
        s[0] == '#',
        forall|i: int| 1 <= i < 7 ==> ('0' <= #[trigger] s[i] && s[i] <= '9') || ('a' <= s[i] && s[i]
            <= 'f'),
        named_color(s) is None,
    ensures
        hex_byte(s[1], s[2]) is Some && hex_byte(s[3], s[4]) is Some && hex_byte(s[5], s[6]) is Some,
        fill_color_spec(s) == Some(
            (
                hex_byte(s[1], s[2]).unwrap(),
                hex_byte(s[3], s[4]).unwrap(),
                hex_byte(s[5], s[6]).unwrap(),
            ),
        ),
{
    assert forall|i: int| 0 <= i < s.len() implies !('A' <= #[trigger] s[i] && s[i] <= 'Z') by {
        if i >= 1 {
            assert(('0' <= s[i] && s[i] <= '9') || ('a' <= s[i] && s[i] <= 'f'));
        }
    }
    assert(s.last() == s[6]);
    assert(('0' <= s[6] && s[6] <= '9') || ('a' <= s[6] && s[6] <= 'f'));
    lemma_color_key_fixed(s);
    let h = s.drop_first();
    assert(strip_hashes(s) == strip_hashes(h));
    assert(h[0] == s[1]);
    assert(('0' <= s[1] && s[1] <= '9') || ('a' <= s[1] && s[1] <= 'f'));
    assert(strip_hashes(h) == h);
    assert forall|i: int| 0 <= i < h.len() implies (#[trigger] h[i] as u32) < 0x80 by {
        assert(h[i] == s[i + 1]);
        assert(('0' <= s[i + 1] && s[i + 1] <= '9') || ('a' <= s[i + 1] && s[i + 1] <= 'f'));
    }
    assert forall|i: int| 0 <= i < 6 implies hex_value(#[trigger] h[i]) is Some && h[i] != '+' by {
        assert(h[i] == s[i + 1]);
        assert(('0' <= s[i + 1] && s[i + 1] <= '9') || ('a' <= s[i + 1] && s[i + 1] <= 'f'));
    }
    assert(hex_value(h[0]) is Some && hex_value(h[1]) is Some);
    assert(hex_value(h[2]) is Some && hex_value(h[3]) is Some);
    assert(hex_value(h[4]) is Some && hex_value(h[5]) is Some);
    assert(h[0] != '+' && h[2] != '+' && h[4] != '+');
    assert(h[1] == s[2] && h[2] == s[3] && h[3] == s[4] && h[4] == s[5] && h[5] == s[6]);
}

} // verus!

verus! {

/// A name of lower-case letters is its own color key, so it reads as the
/// named color when it is one.
proof fn lemma_named(n: Seq<char>)
    requires
        n.len() > 0,
        forall|i: int| 0 <= i < n.len() ==> 'a' <= #[trigger] n[i] && n[i] <= 'z',
        named_color(n) is Some,
    ensures
        fill_color_spec(n) == named_color(n),
{
    assert('a' <= n[0] && n[0] <= 'z');
    assert(n.last() == n[n.len() - 1]);
    assert('a' <= n.last() && n.last() <= 'z');
    assert forall|i: int| 0 <= i < n.len() implies !('A' <= #[trigger] n[i] && n[i] <= 'Z') by {
        assert('a' <= n[i] && n[i] <= 'z');
    }
    lemma_color_key_fixed(n);
}

/// What the color table gives each name.
proof fn lemma_named_values()
    ensures
        named_color("black"@) == Some((0u8, 0u8, 0u8)),
        named_color("white"@) == Some((255u8, 255u8, 255u8)),
        named_color("red"@) == Some((255u8, 0u8, 0u8)),
        named_color("green"@) == Some((0u8, 128u8, 0u8)),
        named_color("blue"@) == Some((0u8, 0u8, 255u8)),
        named_color("gray"@) == Some((128u8, 128u8, 128u8)),
        named_color("grey"@) == Some((128u8, 128u8, 128u8)),
        forall|s: Seq<char>| s.len() > 0 && s[0] == '#' ==> named_color(s) is None,
{
    reveal_strlit("black");
    reveal_strlit("white");
    reveal_strlit("red");
    reveal_strlit("green");
    reveal_strlit("blue");
    reveal_strlit("gray");
    reveal_strlit("grey");
    // the names differ pairwise, at the character shown
    assert("white"@[0] != "black"@[0]);
    assert("red"@.len() != "black"@.len() && "red"@.len() != "white"@.len());
    assert("green"@[0] != "black"@[0] && "green"@[0] != "white"@[0]);
    assert("green"@.len() != "red"@.len());
    assert("blue"@.len() != "black"@.len() && "blue"@.len() != "white"@.len());
    assert("blue"@.len() != "red"@.len() && "blue"@.len() != "green"@.len());
    assert("gray"@.len() != "black"@.len() && "gray"@.len() != "white"@.len());
    assert("gray"@.len() != "red"@.len() && "gray"@.len() != "green"@.len());
    assert("gray"@[0] != "blue"@[0]);
    assert("grey"@.len() != "black"@.len() && "grey"@.len() != "white"@.len());
    assert("grey"@.len() != "red"@.len() && "grey"@.len() != "green"@.len());
    assert("grey"@[0] != "blue"@[0]);
    assert forall|s: Seq<char>| s.len() > 0 && s[0] == '#' implies named_color(s) is None by {
        assert(s != "black"@ && s != "white"@ && s != "red"@ && s != "green"@);
        assert(s != "blue"@ && s != "gray"@ && s != "grey"@);
    }
}

/// A name and a hex code with the same color parse alike.
proof fn lemma_name_is_code(n: Seq<char>, code: Seq<char>)
    requires
        n.len() > 0,
        forall|i: int| 0 <= i < n.len() ==> 'a' <= #[trigger] n[i] && n[i] <= 'z',
        code.len() == 7,
        code[0] == '#',
        forall|i: int| 1 <= i < 7 ==> ('0' <= #[trigger] code[i] && code[i] <= '9') || ('a'
            <= code[i] && code[i] <= 'f'),
        named_color(code) is None,
        named_color(n) == Some(
            (
                hex_byte(code[1], code[2]).unwrap(),
                hex_byte(code[3], code[4]).unwrap(),
                hex_byte(code[5], code[6]).unwrap(),
            ),
        ),
    ensures
        fill_color_spec(n) == fill_color_spec(code),
        fill_color_spec(code) == named_color(n),
{
    lemma_named(n);
    lemma_hex_code(code);
}

/// `black` reads as `#000000`, which is (0, 0, 0).
proof fn lemma_color_black()
    ensures
        fill_color_spec("black"@) == fill_color_spec("#000000"@),
        fill_color_spec("#000000"@) == Some((0u8, 0u8, 0u8)),
{
    lemma_named_values();
    assert(hex_value('f') == Some(15nat));
    assert(hex_value('0') == Some(0nat));
    assert(hex_value('8') == Some(8nat));
    assert(hex_byte('0', '0') == Some(0u8));
    assert(hex_byte('0', '0') == Some(0u8));
    assert(hex_byte('0', '0') == Some(0u8));
    reveal_strlit("black");
    reveal_strlit("#000000");
    lemma_name_is_code("black"@, "#000000"@);
}

/// `white` reads as `#ffffff`, which is (255, 255, 255).
proof fn lemma_color_white()
    ensures
        fill_color_spec("white"@) == fill_color_spec("#ffffff"@),
        fill_color_spec("#ffffff"@) == Some((255u8, 255u8, 255u8)),
{
    lemma_named_values();
    assert(hex_value('f') == Some(15nat));
    assert(hex_value('0') == Some(0nat));
    assert(hex_value('8') == Some(8nat));
    assert(hex_byte('f', 'f') == Some(255u8));
    assert(hex_byte('f', 'f') == Some(255u8));
    assert(hex_byte('f', 'f') == Some(255u8));
    reveal_strlit("white");
    reveal_strlit("#ffffff");
    lemma_name_is_code("white"@, "#ffffff"@);
}

/// `red` reads as `#ff0000`, which is (255, 0, 0).
proof fn lemma_color_red()
    ensures
        fill_color_spec("red"@) == fill_color_spec("#ff0000"@),
        fill_color_spec("#ff0000"@) == Some((255u8, 0u8, 0u8)),
{
    lemma_named_values();
    assert(hex_value('f') == Some(15nat));
    assert(hex_value('0') == Some(0nat));
    assert(hex_value('8') == Some(8nat));
    assert(hex_byte('f', 'f') == Some(255u8));
    assert(hex_byte('0', '0') == Some(0u8));
    assert(hex_byte('0', '0') == Some(0u8));
    reveal_strlit("red");
    reveal_strlit("#ff0000");
    lemma_name_is_code("red"@, "#ff0000"@);
}

/// `green` reads as `#008000`, which is (0, 128, 0).
proof fn lemma_color_green()
    ensures
        fill_color_spec("green"@) == fill_color_spec("#008000"@),
        fill_color_spec("#008000"@) == Some((0u8, 128u8, 0u8)),
{
    lemma_named_values();
    assert(hex_value('f') == Some(15nat));
    assert(hex_value('0') == Some(0nat));
    assert(hex_value('8') == Some(8nat));
    assert(hex_byte('0', '0') == Some(0u8));
    assert(hex_byte('8', '0') == Some(128u8));
    assert(hex_byte('0', '0') == Some(0u8));
    reveal_strlit("green");
    reveal_strlit("#008000");
    lemma_name_is_code("green"@, "#008000"@);
}

/// `blue` reads as `#0000ff`, which is (0, 0, 255).
proof fn lemma_color_blue()
    ensures
        fill_color_spec("blue"@) == fill_color_spec("#0000ff"@),
        fill_color_spec("#0000ff"@) == Some((0u8, 0u8, 255u8)),
{
    lemma_named_values();
    assert(hex_value('f') == Some(15nat));
    assert(hex_value('0') == Some(0nat));
    assert(hex_value('8') == Some(8nat));
    assert(hex_byte('0', '0') == Some(0u8));
    assert(hex_byte('0', '0') == Some(0u8));
    assert(hex_byte('f', 'f') == Some(255u8));
    reveal_strlit("blue");
    reveal_strlit("#0000ff");
    lemma_name_is_code("blue"@, "#0000ff"@);
}

/// `gray` reads as `#808080`, which is (128, 128, 128).
proof fn lemma_color_gray()
    ensures
        fill_color_spec("gray"@) == fill_color_spec("#808080"@),
        fill_color_spec("#808080"@) == Some((128u8, 128u8, 128u8)),
{
    lemma_named_values();
    assert(hex_value('f') == Some(15nat));
    assert(hex_value('0') == Some(0nat));
    assert(hex_value('8') == Some(8nat));
    assert(hex_byte('8', '0') == Some(128u8));
    assert(hex_byte('8', '0') == Some(128u8));
    assert(hex_byte('8', '0') == Some(128u8));
    reveal_strlit("gray");
    reveal_strlit("#808080");
    lemma_name_is_code("gray"@, "#808080"@);
}

/// `grey` reads as `#808080`, which is (128, 128, 128).
proof fn lemma_color_grey()
    ensures
        fill_color_spec("grey"@) == fill_color_spec("#808080"@),
        fill_color_spec("#808080"@) == Some((128u8, 128u8, 128u8)),
{
    lemma_named_values();
    assert(hex_value('f') == Some(15nat));
    assert(hex_value('0') == Some(0nat));
    assert(hex_value('8') == Some(8nat));
    assert(hex_byte('8', '0') == Some(128u8));
    assert(hex_byte('8', '0') == Some(128u8));
    assert(hex_byte('8', '0') == Some(128u8));
    reveal_strlit("grey");
    reveal_strlit("#808080");
    lemma_name_is_code("grey"@, "#808080"@);
}

/// Each named fill color is the color of its hex code: black is `#000000`,
/// white `#ffffff`, red `#ff0000`, green `#008000`, blue `#0000ff`, and gray
/// and grey `#808080`; the hex code's first byte is red and its last blue.
pub proof fn law_named_colors_are_hex_codes()
    ensures
        fill_color_spec("black"@) == fill_color_spec("#000000"@),
        fill_color_spec("white"@) == fill_color_spec("#ffffff"@),
        fill_color_spec("red"@) == fill_color_spec("#ff0000"@),
        fill_color_spec("green"@) == fill_color_spec("#008000"@),
        fill_color_spec("blue"@) == fill_color_spec("#0000ff"@),
        fill_color_spec("gray"@) == fill_color_spec("#808080"@),
        fill_color_spec("grey"@) == fill_color_spec("#808080"@),
        fill_color_spec("#ff0000"@) == Some((255u8, 0u8, 0u8)),
        fill_color_spec("#0000ff"@) == Some((0u8, 0u8, 255u8)),
{
    lemma_color_black();
    lemma_color_white();
    lemma_color_red();
    lemma_color_green();
    lemma_color_blue();
    lemma_color_gray();
    lemma_color_grey();
}

/// The JSON plan reports the canvas's shape as its target: a vertical plan
/// starts `{"target":"9:16"` and a horizontal one `{"target":"16:9"`. The
/// warning for an already-oriented clip names the same label.
pub proof fn law_json_plan_target_label(plan: Plan, fill: Fill)
    ensures
        plan.target == Target::Vertical ==> json_plan_spec(plan, fill).take(15)
            == "{\"target\":\"9:16"@,
        plan.target == Target::Horizontal ==> json_plan_spec(plan, fill).take(15)
            == "{\"target\":\"16:9"@,
        plan.target == Target::Vertical && plan.already_oriented ==> orientation_warning_spec(
            plan,
        ).unwrap().take(35) == "warning: input already matches 9:16"@,
        plan.target == Target::Horizontal && plan.already_oriented ==> orientation_warning_spec(
            plan,
        ).unwrap().take(35) == "warning: input already matches 16:9"@,
{
    reveal_strlit("{\"target\":\"");
    reveal_strlit("{\"target\":\"9:16");
    reveal_strlit("{\"target\":\"16:9");
    reveal_strlit("9:16");
    reveal_strlit("16:9");
    reveal_strlit("warning: input already matches ");
    reveal_strlit("warning: input already matches 9:16");
    reveal_strlit("warning: input already matches 16:9");
    let j = json_plan_spec(plan, fill);
    let head = "{\"target\":\""@ + target_label(plan.target);
    if plan.target != Target::Auto {
        assert(head.len() == 15);
        assert(j.take(15) =~= head);
        if plan.already_oriented {
            let w = orientation_warning_spec(plan).unwrap();
            let wh = "warning: input already matches "@ + target_label(plan.target);
            assert(wh.len() == 35);
            assert(w.take(35) =~= wh);
        }
    }
}

/// For a plan built from a clip (see `plan_matches`) on a canvas of size 2
/// or more, the target label's first number is the smaller edge: the plan is
/// vertical exactly when its canvas is taller than wide.
pub proof fn law_plan_shape_matches_target(
    plan: Plan,
    opts: ConvertOptions,
    probe: ProbeInfo,
    t: Target,
)
    requires
        plan_matches(plan, opts, probe, t),
        t != Target::Auto,
        canvas_fits(opts.size),
        opts.size >= 2,
    ensures
        plan.target == Target::Vertical <==> plan.out_w < plan.out_h,
        plan.target == Target::Horizontal <==> plan.out_w > plan.out_h,
{
    law_canvas_ratio(opts.size, t);
}

} // verus!
