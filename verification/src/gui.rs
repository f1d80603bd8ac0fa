//! The Flip Stage's state: what each user action and each message from the
//! background worker does to it, and what the stage tells the user. Drawing,
//! dialogs, textures and threads stay with the windowing layer, which reports
//! events here and performs the actions returned.

use crate::media::{
    build_plan, canvas_fits, canvas_spec, default_output_clear, input_named, is_default_output,
    opt_str,
    opt_string, orientation_of, oriented_fits,
    output_conflict, plan_would_overflow, resolve_spec, AudioMode, ConvertOptions, Fill, LogLevel,
    Orientation, ProbeInfo, Target,
};
use crate::paths::{final_name, has_final_name, is_plain_name, path_file_name};
use crate::text::{decimal, decimal_string};
use vstd::prelude::*;

verus! {

/// Where the stage is in its cycle.
#[derive(Copy, Clone, Debug, PartialEq, Eq, Structural)]
pub enum Phase {
    Idle,
    Loading,
    Ready,
    Encoding,
    Done,
    Error,
}

/// The Flip Stage's state.
pub struct VertifyApp {
    pub phase: Phase,
    pub input: Option<String>,
    pub probe: Option<ProbeInfo>,
    /// A preview frame of the loaded clip is on screen.
    pub has_preview: bool,
    pub to: Target,
    pub fill: Fill,
    pub size: u32,
    pub color: String,
    pub blur: u32,
    pub crf: u32,
    pub fast: bool,
    pub overwrite: bool,
    pub dry_run: bool,
    pub backstage_open: bool,
    pub error: Option<String>,
    pub output: Option<String>,
    /// A background job (probe or encode) is running.
    pub worker_busy: bool,
    /// No dialogs and no background work (for scripted runs).
    pub headless: bool,
    /// Why ffmpeg/ffprobe are unusable, when they are.
    pub tools_error: Option<String>,
    pub hover_phone: bool,
    pub drag_hover: bool,
}

/// A message from the background worker.
pub enum WorkerEvent {
    /// The clip was probed and a preview frame decoded.
    Loaded { path: String, probe: ProbeInfo },
    /// The encode finished and wrote `output`.
    Encoded { output: String },
    /// The job failed with this message.
    Failed(String),
    /// The worker went away without a message.
    Disconnected,
}

/// What the stage asks the windowing layer to do next.
pub enum StageAction {
    Nothing,
    /// Show the file picker.
    PickFile,
    /// Start an export (see `begin_export`).
    Export,
}

/// What `begin_export` leaves to the windowing layer.
pub enum ExportStep {
    /// Nothing to do (not ready, or refused with an error on the stage).
    Nothing,
    /// A scripted run: the stage is already marked done.
    Finished,
    /// Check whether `output` exists, ask before replacing it when
    /// `output_conflict` says so, then call `confirm_export`.
    Check { opts: ConvertOptions, output: String },
}

/// Keys the stage reacts to.
#[derive(Copy, Clone, Debug, PartialEq, Eq, Structural)]
pub enum StageKey {
    Open,
    Enter,
    Space,
    Comma,
    Escape,
}

/// Planning the loaded clip stays within `u32` arithmetic.
pub open spec fn stage_plan_fits(app: VertifyApp) -> bool {
    match app.probe {
        Some(p) => match resolve_spec(app.to, p.width, p.height) {
            Ok(t) => canvas_fits(app.size) && oriented_fits(t, p.width, p.height),
            Err(_) => true,
        },
        None => true,
    }
}

/// The stage a fresh app starts on: idle, or showing why the tools are missing.
pub open spec fn is_fresh(app: VertifyApp, tools_error: Option<Seq<char>>) -> bool {
    &&& app.phase == (if tools_error is Some {
        Phase::Error
    } else {
        Phase::Idle
    })
    &&& opt_string(app.error) == tools_error
    &&& opt_string(app.tools_error) == tools_error
    &&& app.input is None
    &&& app.probe is None
    &&& !app.has_preview
    &&& app.to == Target::Auto
    &&& app.fill == Fill::Blur
    &&& app.size == 1920
    &&& app.color@ == "black"@
    &&& app.blur == 40
    &&& app.crf == 21
    &&& !app.fast
    &&& !app.overwrite
    &&& !app.dry_run
    &&& !app.backstage_open
    &&& app.output is None
    &&& !app.worker_busy
    &&& !app.headless
    &&& !app.hover_phone
    &&& !app.drag_hover
}

/// What is known on every platform of the file name shown for `path`: for
/// a path without `\\` that ends in a name, that name; a plain name shows
/// itself; otherwise the whole path or a non-empty component (without `/`
/// when the path holds no `\\`).
pub open spec fn file_name_shown(path: Seq<char>, name: Seq<char>) -> bool {
    &&& !path.contains('\\') && has_final_name(path) ==> name == final_name(path)
    &&& is_plain_name(path) ==> name == path
    &&& name == path || (name.len() > 0 && (!path.contains('\\') ==> !name.contains('/')))
}

/// The name shown for an optional path (see `file_name_shown`).
pub open spec fn opt_name_shown(path: Option<String>, name: Option<Seq<char>>) -> bool {
    match path {
        Some(p) => name matches Some(n) && file_name_shown(p@, n),
        None => name is None,
    }
}

/// The file name shown for a path: its last component, or the whole path
/// when it has none.
pub fn file_name(path: &str) -> (r: String)
    ensures
        file_name_shown(path@, r@),
{
    match path_file_name(path) {
        Some(n) => n,
        None => path.to_owned(),
    }
}

pub open spec fn orientation_word(o: Orientation) -> Seq<char> {
    match o {
        Orientation::Landscape => "Landscape"@,
        Orientation::Portrait => "Portrait"@,
        Orientation::Square => "Square"@,
    }
}

pub open spec fn destination_word(t: Option<Target>) -> Seq<char> {
    match t {
        Some(Target::Vertical) => "Vertical 9:16"@,
        Some(Target::Horizontal) => "Horizontal 16:9"@,
        _ => "?"@,
    }
}

pub open spec fn fill_words(f: Fill) -> Seq<char> {
    match f {
        Fill::Blur => "soft blur bars"@,
        Fill::Color => "solid color bars"@,
    }
}

/// The status line, given the target the clip resolves to and the file name
/// of the output: an error when there is one, else a line for the phase.
pub open spec fn whisper_spec(
    app: VertifyApp,
    resolved: Option<Target>,
    output_name: Option<Seq<char>>,
) -> Seq<char> {
    match app.error {
        Some(e) => e@,
        None => match app.phase {
            Phase::Idle => "Drop a video · flip without cropping"@,
            Phase::Loading => "Reading clip…"@,
            Phase::Ready => {
                let orient = match app.probe {
                    Some(p) => orientation_of(p.width, p.height),
                    None => Orientation::Landscape,
                };
                orientation_word(orient) + " -> "@ + destination_word(resolved) + " · "@
                    + fill_words(app.fill)
            },
            Phase::Encoding => if app.dry_run {
                "Dry run — printing ffmpeg command…"@
            } else {
                "Encoding the flipped frame…"@
            },
            Phase::Done => match output_name {
                Some(n) => "Exported · "@ + n,
                None => "Exported"@,
            },
            Phase::Error => "Something went wrong"@,
        },
    }
}

/// The target the loaded clip resolves to, if any.
pub open spec fn clip_target(app: VertifyApp) -> Option<Target> {
    match app.probe {
        Some(p) => match resolve_spec(app.to, p.width, p.height) {
            Ok(t) => Some(t),
            Err(_) => None,
        },
        None => None,
    }
}

/// The stage once a probed clip is loaded: ready, with the clip and its
/// preview; a square clip with an automatic target opens the settings. The
/// settings and everything else stay; `error` is the error it ends with.
pub open spec fn after_load(
    app: VertifyApp,
    path: String,
    probe: ProbeInfo,
    error: Option<String>,
) -> VertifyApp {
    VertifyApp {
        phase: Phase::Ready,
        input: Some(path),
        probe: Some(probe),
        has_preview: true,
        backstage_open: if probe.width == probe.height && app.to == Target::Auto {
            true
        } else {
            app.backstage_open
        },
        error,
        ..app
    }
}

/// The loaded input's path is named (see `input_named`: no `\\`, and a
/// final component that is a name), or none is loaded: then no platform can
/// take the default output for the input itself.
pub open spec fn stage_input_clear(app: VertifyApp) -> bool {
    match app.input {
        Some(i) => input_named(i@),
        None => true,
    }
}

/// What can be said on every platform of the target `resolved_target`
/// reports: a resolved target of the loaded clip, none without one, and the
/// resolved target itself when the input path is clear.
pub open spec fn is_resolved_target(app: VertifyApp, r: Option<Target>) -> bool {
    &&& app.probe matches Some(p) ==> (stage_input_clear(app) ==> (resolve_spec(
        app.to,
        p.width,
        p.height,
    ) matches Ok(t) ==> r == Some(t)))
    &&& r matches Some(t) ==> (app.probe matches Some(p) && resolve_spec(
        app.to,
        p.width,
        p.height,
    ) == Ok::<Target, crate::media::PlanError>(t))
    &&& (app.probe is None || (app.probe matches Some(p) && resolve_spec(
        app.to,
        p.width,
        p.height,
    ) is Err)) ==> r is None
}

impl VertifyApp {
    /// A fresh stage; a tools error puts it in the error phase.
    pub fn with_tools(tools_ok: Result<(), String>) -> (app: Self)
        ensures
            is_fresh(
                app,
                match tools_ok {
                    Ok(_) => None,
                    Err(e) => Some(e@),
                },
            ),
    {
        let (phase, error, tools_error) = match tools_ok {
            Ok(_) => (Phase::Idle, None, None),
            Err(e) => (Phase::Error, Some(e.clone()), Some(e)),
        };
        VertifyApp {
            phase,
            input: None,
            probe: None,
            has_preview: false,
            to: Target::Auto,
            fill: Fill::Blur,
            size: 1920,
            color: "black".to_owned(),
            blur: 40,
            crf: 21,
            fast: false,
            overwrite: false,
            dry_run: false,
            backstage_open: false,
            error,
            output: None,
            worker_busy: false,
            headless: false,
            tools_error,
            hover_phone: false,
            drag_hover: false,
        }
    }

    /// Marks the export done with `output`.
    pub fn set_phase_done(&mut self, output: String)
        ensures
            *final(self) == (VertifyApp {
                phase: Phase::Done,
                output: Some(output),
                error: None,
                ..*old(self)
            }),
    {
        self.output = Some(output);
        self.phase = Phase::Done;
        self.error = None;
    }

    /// Clears the stage for a new clip; the encode settings other than the
    /// target are kept.
    pub fn reset(&mut self)
        ensures
            final(self).phase == Phase::Idle,
            final(self).input is None,
            final(self).probe is None,
            !final(self).has_preview,
            final(self).output is None,
            final(self).error is None,
            final(self).to == Target::Auto,
            !final(self).backstage_open,
            final(self).fill == old(self).fill,
            final(self).size == old(self).size,
            final(self).color == old(self).color,
            final(self).blur == old(self).blur,
            final(self).crf == old(self).crf,
            final(self).fast == old(self).fast,
            final(self).overwrite == old(self).overwrite,
            final(self).dry_run == old(self).dry_run,
            final(self).worker_busy == old(self).worker_busy,
            final(self).headless == old(self).headless,
    {
        self.phase = Phase::Idle;
        self.input = None;
        self.probe = None;
        self.has_preview = false;
        self.output = None;
        self.error = None;
        self.to = Target::Auto;
        self.backstage_open = false;
    }

    /// The conversion the stage's settings ask for, once a clip is loaded.
    pub fn options(&self) -> (r: Option<ConvertOptions>)
        ensures
            self.input is None ==> r is None,
            self.input matches Some(i) ==> (r matches Some(o) && o.input@ == i@ && o.output is None
                && o.output_dir is None && o.suffix is None && o.to == self.to && o.fill
                == self.fill && o.size == self.size && o.color@ == self.color@ && o.blur
                == self.blur && o.fast == self.fast && o.preset is None && o.crf == self.crf
                && o.overwrite == self.overwrite && o.dry_run == self.dry_run
                && o.ffmpeg_args@.len() == 0 && o.audio_mode == AudioMode::Copy
                && o.audio_bitrate@ == "192k"@ && !o.map_metadata && o.start is None
                && o.duration is None && o.loglevel == LogLevel::Warning && !o.no_faststart),
    {
        let input = match &self.input {
            Some(i) => i.clone(),
            None => return None,
        };
        Some(
            ConvertOptions {
                input,
                output: None,
                output_dir: None,
                suffix: None,
                to: self.to,
                fill: self.fill,
                size: self.size,
                color: self.color.clone(),
                blur: self.blur,
                fast: self.fast,
                preset: None,
                crf: self.crf,
                overwrite: self.overwrite,
                dry_run: self.dry_run,
                ffmpeg_args: Vec::new(),
                audio_mode: AudioMode::Copy,
                audio_bitrate: "192k".to_owned(),
                map_metadata: false,
                start: None,
                duration: None,
                loglevel: LogLevel::Warning,
                no_faststart: false,
            },
        )
    }

    /// The settings `resolved_target` plans with: the stage's target, fill,
    /// size, color and blur, and the loaded input (empty when none).
    fn planning_options(&self) -> (o: ConvertOptions)
        ensures
            o.to == self.to,
            o.size == self.size,
            o.fill == self.fill,
            o.output is None,
            o.output_dir is None,
            o.suffix is None,
            o.input@ == (match self.input {
                Some(i) => i@,
                None => Seq::<char>::empty(),
            }),
    {
        let input = match &self.input {
            Some(i) => i.clone(),
            None => String::new(),
        };
        ConvertOptions {
            input,
            output: None,
            output_dir: None,
            suffix: None,
            to: self.to,
            fill: self.fill,
            size: self.size,
            color: self.color.clone(),
            blur: self.blur,
            fast: false,
            preset: None,
            crf: 21,
            overwrite: false,
            dry_run: false,
            ffmpeg_args: Vec::new(),
            audio_mode: AudioMode::Copy,
            audio_bitrate: "192k".to_owned(),
            map_metadata: false,
            start: None,
            duration: None,
            loglevel: LogLevel::Warning,
            no_faststart: false,
        }
    }

    /// Whether planning the loaded clip would overflow `u32` arithmetic (see
    /// `stage_plan_fits`).
    pub fn plan_would_overflow(&self) -> (r: bool)
        ensures
            r == !stage_plan_fits(*self),
    {
        match &self.probe {
            Some(p) => plan_would_overflow(&self.planning_options(), p),
            None => false,
        }
    }

    /// The target an export of the loaded clip would use, when it can be
    /// planned: none without a clip or when `Auto` meets a square clip, the
    /// resolved target for a clip loaded from a named path. Planning also
    /// refuses an output that names the input file, which std's path
    /// comparison decides; for other input paths that is left to it.
    pub fn resolved_target(&self) -> (r: Option<Target>)
        requires
            stage_plan_fits(*self),
        ensures
            is_resolved_target(*self, r),
    {
        let probe = match &self.probe {
            Some(p) => p,
            None => return None,
        };
        let opts = self.planning_options();
        proof {
            if stage_input_clear(*self) {
                assert(default_output_clear(opts));
            }
        }
        match build_plan(&opts, probe) {
            Ok(plan) => Some(plan.target),
            Err(_) => None,
        }
    }

    /// The status line for a given resolved target and output file name
    /// (see `whisper_spec`).
    pub fn whisper_for(&self, resolved: Option<Target>, output_name: Option<&str>) -> (r: String)
        ensures
            r@ == whisper_spec(
                *self,
                resolved,
                match output_name {
                    Some(n) => Some(n@),
                    None => None,
                },
            ),
    {
        if let Some(err) = &self.error {
            return err.clone();
        }
        match self.phase {
            Phase::Idle => "Drop a video · flip without cropping".to_owned(),
            Phase::Loading => "Reading clip…".to_owned(),
            Phase::Ready => {
                let orient = match &self.probe {
                    Some(p) => p.orientation(),
                    None => Orientation::Landscape,
                };
                let mut s = match orient {
                    Orientation::Landscape => "Landscape".to_owned(),
                    Orientation::Portrait => "Portrait".to_owned(),
                    Orientation::Square => "Square".to_owned(),
                };
                s.append(" -> ");
                s.append(
                    match resolved {
                        Some(Target::Vertical) => "Vertical 9:16",
                        Some(Target::Horizontal) => "Horizontal 16:9",
                        _ => "?",
                    },
                );
                s.append(" · ");
                s.append(
                    match self.fill {
                        Fill::Blur => "soft blur bars",
                        Fill::Color => "solid color bars",
                    },
                );
                s
            },
            Phase::Encoding => if self.dry_run {
                "Dry run — printing ffmpeg command…".to_owned()
            } else {
                "Encoding the flipped frame…".to_owned()
            },
            Phase::Done => match output_name {
                Some(n) => {
                    let mut s = "Exported · ".to_owned();
                    s.append(n);
                    s
                },
                None => "Exported".to_owned(),
            },
            Phase::Error => "Something went wrong".to_owned(),
        }
    }

    /// The status line: the error when there is one, else what the phase
    /// means for the user.
    pub fn whisper(&self) -> (r: String)
        requires
            self.error is None && self.phase == Phase::Ready ==> stage_plan_fits(*self),
        ensures
            exists|t: Option<Target>, n: Option<Seq<char>>|
                is_resolved_target(*self, t) && opt_name_shown(self.output, n) && r@
                    == #[trigger] whisper_spec(*self, t, n),
    {
        let needs_target = self.error.is_none() && self.phase == Phase::Ready;
        let resolved = if needs_target {
            self.resolved_target()
        } else {
            None
        };
        let name = match &self.output {
            Some(p) => Some(file_name(p.as_str())),
            None => None,
        };
        let r = match &name {
            Some(n) => self.whisper_for(resolved, Some(n.as_str())),
            None => self.whisper_for(resolved, None),
        };
        proof {
            let n = match name {
                Some(n) => Some(n@),
                None => None,
            };
            if needs_target {
                assert(is_resolved_target(*self, resolved));
                assert(r@ == whisper_spec(*self, resolved, n));
            } else {
                // no target is shown outside an error-free ready stage
                let t = clip_target(*self);
                assert(is_resolved_target(*self, t));
                assert(whisper_spec(*self, t, n) == whisper_spec(*self, resolved, n));
                assert(r@ == whisper_spec(*self, t, n));
            }
        }
        r
    }

    /// The detail shown under the status line, given the resolved target and
    /// the input's file name.
    pub fn whisper_detail_for(&self, resolved: Option<Target>, input_name: Option<&str>) -> (r:
        Option<String>)
        requires
            self.phase == Phase::Ready && resolved is Some ==> canvas_fits(self.size),
        ensures
            opt_string(r) == detail_spec(
                *self,
                resolved,
                match input_name {
                    Some(n) => Some(n@),
                    None => None,
                },
            ),
    {
        match self.phase {
            Phase::Ready => {
                let t = match resolved {
                    Some(t) => t,
                    None => return None,
                };
                let long = self.size - self.size % 2;
                let q = (long * 9 + 8) / 16;
                let short = q - q % 2;
                let (ow, oh) = match t {
                    Target::Vertical => (short, long),
                    _ => (long, short),
                };
                let mut s = match input_name {
                    Some(n) => n.to_owned(),
                    None => String::new(),
                };
                s.append("\nOutput canvas ");
                s.append(decimal_string(ow).as_str());
                s.append("×");
                s.append(decimal_string(oh).as_str());
                s.append("\nFill: ");
                match self.fill {
                    Fill::Blur => {
                        s.append("blur (");
                        s.append(decimal_string(self.blur).as_str());
                        s.append(")");
                    },
                    Fill::Color => {
                        s.append("color (");
                        s.append(self.color.as_str());
                        s.append(")");
                    },
                }
                s.append("\nClick the frame or press Enter to export.");
                let ghost name = match input_name {
                    Some(n) => n@,
                    None => Seq::<char>::empty(),
                };
                assert(s@ =~= detail_spec(
                    *self,
                    resolved,
                    match input_name {
                        Some(n) => Some(n@),
                        None => None,
                    },
                ).unwrap());
                Some(s)
            },
            Phase::Done => match &self.output {
                Some(p) => {
                    let mut s = p.clone();
                    s.append("\nClick the frame to re-export, or Reveal to open the file.");
                    Some(s)
                },
                None => None,
            },
            Phase::Idle => Some(
                "Drag a video onto the stage, or click the frame / press O to open.\nThe whole frame is kept — never cropped.".to_owned(),
            ),
            Phase::Error => match &self.error {
                Some(e) => Some(e.clone()),
                None => None,
            },
            _ => None,
        }
    }

    /// The detail shown under the status line.
    pub fn whisper_detail(&self) -> (r: Option<String>)
        requires
            self.phase == Phase::Ready ==> stage_plan_fits(*self),
        ensures
            exists|t: Option<Target>, n: Option<Seq<char>>|
                is_resolved_target(*self, t) && opt_name_shown(self.input, n)
                    && opt_string(r) == #[trigger] detail_spec(*self, t, n),
    {
        let resolved = if self.phase == Phase::Ready {
            self.resolved_target()
        } else {
            None
        };
        let name = match &self.input {
            Some(p) => Some(file_name(p.as_str())),
            None => None,
        };
        proof {
            if self.phase == Phase::Ready && resolved is Some {
                let p = self.probe.unwrap();
                assert(resolve_spec(self.to, p.width, p.height) is Ok);
            }
        }
        let r = match &name {
            Some(n) => self.whisper_detail_for(resolved, Some(n.as_str())),
            None => self.whisper_detail_for(resolved, None),
        };
        proof {
            let n = match name {
                Some(n) => Some(n@),
                None => None,
            };
            if self.phase != Phase::Ready {
                // no target is shown outside the ready stage
                let t = clip_target(*self);
                assert(is_resolved_target(*self, t));
                assert(detail_spec(*self, t, n) == detail_spec(*self, resolved, n));
            }
        }
        r
    }

    /// The accessibility label of the phone frame.
    pub fn phone_a11y_label(&self) -> (r: &'static str)
        ensures
            r@ == (match self.phase {
                Phase::Idle | Phase::Error => "Open video"@,
                Phase::Loading => "Loading video"@,
                Phase::Encoding => "Encoding video"@,
                Phase::Ready => "Export flipped video"@,
                Phase::Done => "Re-export video"@,
            }),
    {
        match self.phase {
            Phase::Idle | Phase::Error => "Open video",
            Phase::Loading => "Loading video",
            Phase::Encoding => "Encoding video",
            Phase::Ready => "Export flipped video",
            Phase::Done => "Re-export video",
        }
    }

    /// The large line on the phone screen, when there is one; `hovered` says
    /// whether the pointer is over the frame.
    pub fn phone_title(&self, hovered: bool) -> (r: Option<&'static str>)
        ensures
            opt_str(r) == phone_title_spec(*self, hovered),
    {
        match self.phase {
            Phase::Idle | Phase::Error => {
                if self.phase == Phase::Error && self.error.is_some() {
                    Some("Can't open video")
                } else if self.drag_hover {
                    Some("Drop to open")
                } else if hovered {
                    Some("Drop it here")
                } else {
                    Some("Drop a video here")
                }
            },
            Phase::Loading => Some("Reading…"),
            Phase::Encoding => Some("Encoding…"),
            Phase::Done => Some("Exported"),
            Phase::Ready => None,
        }
    }

    /// The small line under the title on the phone screen, when there is one.
    pub fn phone_hint(&self, hovered: bool) -> (r: Option<&'static str>)
        ensures
            opt_str(r) == phone_hint_spec(*self, hovered),
    {
        match self.phase {
            Phase::Idle | Phase::Error => {
                if self.drag_hover {
                    Some("release to load")
                } else if hovered {
                    Some("or click to browse")
                } else {
                    Some("click · or press O")
                }
            },
            Phase::Loading | Phase::Encoding => None,
            Phase::Done => {
                if hovered {
                    Some("click to re-export")
                } else {
                    Some("click again to re-export")
                }
            },
            Phase::Ready => {
                if hovered {
                    Some("Click to export · Enter")
                } else {
                    Some("Click frame to export")
                }
            },
        }
    }

    /// Picks the target aspect in the settings panel; a pending error (such as
    /// the square-clip hint) is cleared.
    pub fn choose_target(&mut self, to: Target)
        ensures
            *final(self) == (VertifyApp { to, error: None, ..*old(self) }),
    {
        self.to = to;
        self.error = None;
    }

    /// Notes whether files are being dragged over the window: the stage shows
    /// a drop target only when it is interactive and could take a clip now.
    pub fn set_drag_hover(&mut self, files_hovering: bool)
        ensures
            *final(self) == (VertifyApp {
                drag_hover: !old(self).headless && files_hovering && old(self).phase != Phase::Loading
                    && old(self).phase != Phase::Encoding,
                ..*old(self)
            }),
    {
        self.drag_hover = !self.headless && files_hovering && self.phase != Phase::Loading
            && self.phase != Phase::Encoding;
    }

    /// Whether a click on the empty stage around the phone opens a clip: only
    /// when nothing is loaded and the tools work.
    pub fn stage_opens(&self) -> (r: bool)
        ensures
            r == ((self.phase == Phase::Idle || self.phase == Phase::Error)
                && self.tools_error is None),
    {
        (self.phase == Phase::Idle || self.phase == Phase::Error) && self.tools_error.is_none()
    }

    /// The label of the button that opens or closes the settings panel.
    pub fn settings_label(&self) -> (r: &'static str)
        ensures
            r@ == (if self.backstage_open {
                "Close"@
            } else {
                "Settings"@
            }),
    {
        if self.backstage_open {
            "Close"
        } else {
            "Settings"
        }
    }

    /// The phone frame's tooltip; when ready, it ends with the status line.
    pub fn phone_tooltip(&self) -> (r: String)
        requires
            self.error is None && self.phase == Phase::Ready ==> stage_plan_fits(*self),
        ensures
            self.phase == Phase::Idle || self.phase == Phase::Error ==> r@
                == "Open a video\nDrop a file here or press O"@,
            self.phase == Phase::Loading ==> r@ == "Reading the clip…"@,
            self.phase == Phase::Encoding ==> r@ == "Encoding in progress…"@,
            self.phase == Phase::Done ==> r@ == "Re-export · click the frame again\nOr use Reveal below"@,
            self.phase == Phase::Ready ==> exists|t: Option<Target>, n: Option<Seq<char>>|
                is_resolved_target(*self, t) && opt_name_shown(self.output, n) && r@
                    == "Export flipped video\nClick or press Enter\n"@ + #[trigger] whisper_spec(
                    *self,
                    t,
                    n,
                ),
    {
        match self.phase {
            Phase::Idle | Phase::Error => "Open a video\nDrop a file here or press O".to_owned(),
            Phase::Loading => "Reading the clip…".to_owned(),
            Phase::Encoding => "Encoding in progress…".to_owned(),
            Phase::Ready => {
                let w = self.whisper();
                let mut s = "Export flipped video\nClick or press Enter\n".to_owned();
                s.append(w.as_str());
                s
            },
            Phase::Done => "Re-export · click the frame again\nOr use Reveal below".to_owned(),
        }
    }

    /// Starts loading a clip: the stage shows the loading phase and the
    /// windowing layer is told to start the probe (`true`). A scripted stage
    /// ignores the request (`false`).
    pub fn begin_load(&mut self, path: String) -> (start: bool)
        ensures
            start == !old(self).headless,
            old(self).headless ==> *final(self) == *old(self),
            !old(self).headless ==> {
                &&& final(self).phase == Phase::Loading
                &&& final(self).error is None
                &&& final(self).output is None
                &&& !final(self).has_preview
                &&& opt_string(final(self).input) == Some(path@)
                &&& final(self).worker_busy
                &&& final(self).probe == old(self).probe
                &&& final(self).to == old(self).to
            },
    {
        if self.headless {
            return false;
        }
        self.phase = Phase::Loading;
        self.error = None;
        self.output = None;
        self.has_preview = false;
        self.input = Some(path);
        self.worker_busy = true;
        true
    }

    /// A probed clip with its preview arrives: the stage is ready; a square
    /// clip with an automatic target opens the settings with a hint.
    pub fn apply_loaded(&mut self, path: String, probe: ProbeInfo)
        ensures
            *final(self) == after_load(*old(self), path, probe, final(self).error),
            (probe.width == probe.height && old(self).to == Target::Auto) ==> opt_string(
                final(self).error,
            ) == Some("Square clip — pick 9:16 or 16:9"@),
            !(probe.width == probe.height && old(self).to == Target::Auto) ==> final(self).error
                == old(self).error,
    {
        self.input = Some(path);
        if probe.is_square() && self.to == Target::Auto {
            self.backstage_open = true;
            self.error = Some("Square clip — pick 9:16 or 16:9".to_owned());
        }
        self.has_preview = true;
        self.probe = Some(probe);
        self.phase = Phase::Ready;
    }

    /// Handles a message from the background worker.
    pub fn on_worker_event(&mut self, event: WorkerEvent)
        ensures
            match event {
                WorkerEvent::Loaded { path, probe } => *final(self) == (VertifyApp {
                    worker_busy: false,
                    ..after_load(*old(self), path, probe, final(self).error)
                }) && (if probe.width == probe.height && old(self).to == Target::Auto {
                    opt_string(final(self).error) == Some("Square clip — pick 9:16 or 16:9"@)
                } else {
                    final(self).error == old(self).error
                }),
                WorkerEvent::Encoded { output } => *final(self) == (VertifyApp {
                    worker_busy: false,
                    output: Some(output),
                    phase: Phase::Done,
                    ..*old(self)
                }),
                WorkerEvent::Failed(msg) => *final(self) == (VertifyApp {
                    worker_busy: false,
                    error: Some(msg),
                    phase: if old(self).has_preview {
                        Phase::Ready
                    } else {
                        Phase::Error
                    },
                    ..*old(self)
                }),
                WorkerEvent::Disconnected => *final(self) == (VertifyApp {
                    worker_busy: false,
                    ..*old(self)
                }),
            },
    {
        match event {
            WorkerEvent::Loaded { path, probe } => {
                self.worker_busy = false;
                self.apply_loaded(path, probe);
            },
            WorkerEvent::Encoded { output } => {
                self.worker_busy = false;
                self.output = Some(output);
                self.phase = Phase::Done;
            },
            WorkerEvent::Failed(msg) => {
                self.worker_busy = false;
                self.error = Some(msg);
                self.phase = if self.has_preview {
                    Phase::Ready
                } else {
                    Phase::Error
                };
            },
            WorkerEvent::Disconnected => {
                self.worker_busy = false;
            },
        }
    }

    /// Whether the file picker may open: the tools work, nothing is running,
    /// and the stage is not scripted.
    pub fn can_pick_file(&self) -> (r: bool)
        ensures
            r == (self.tools_error is None && !self.worker_busy && !self.headless),
    {
        self.tools_error.is_none() && !self.worker_busy && !self.headless
    }

    /// Clicking the phone frame opens a clip when there is none to export, and
    /// exports when one is ready or done.
    pub fn phone_click(&self) -> (r: StageAction)
        ensures
            (self.phase == Phase::Idle || self.phase == Phase::Error) ==> r is PickFile,
            (self.phase == Phase::Ready || self.phase == Phase::Done) ==> r is Export,
            (self.phase == Phase::Loading || self.phase == Phase::Encoding) ==> r is Nothing,
    {
        match self.phase {
            Phase::Idle | Phase::Error => StageAction::PickFile,
            Phase::Ready | Phase::Done => StageAction::Export,
            _ => StageAction::Nothing,
        }
    }

    /// Handles a key: `O` opens a clip unless busy, Enter or Space exports a
    /// ready clip, `,` toggles the settings and Escape closes them.
    pub fn on_key(&mut self, key: StageKey) -> (r: StageAction)
        ensures
            key == StageKey::Open ==> *final(self) == *old(self) && ((old(self).phase
                == Phase::Loading || old(self).phase == Phase::Encoding) ==> r is Nothing) && (!(
            old(self).phase == Phase::Loading || old(self).phase == Phase::Encoding)
                ==> r is PickFile),
            (key == StageKey::Enter || key == StageKey::Space) ==> *final(self) == *old(self) && (
            (old(self).phase == Phase::Ready || old(self).phase == Phase::Done) ==> r is Export)
                && (!(old(self).phase == Phase::Ready || old(self).phase == Phase::Done)
                ==> r is Nothing),
            key == StageKey::Comma ==> r is Nothing && final(self).backstage_open
                == !old(self).backstage_open,
            key == StageKey::Escape ==> r is Nothing && !final(self).backstage_open,
            final(self).phase == old(self).phase,
            final(self).error == old(self).error,
    {
        match key {
            StageKey::Open => match self.phase {
                Phase::Idle | Phase::Error | Phase::Ready | Phase::Done => StageAction::PickFile,
                _ => StageAction::Nothing,
            },
            StageKey::Enter | StageKey::Space => match self.phase {
                Phase::Ready | Phase::Done => StageAction::Export,
                _ => StageAction::Nothing,
            },
            StageKey::Comma => {
                self.backstage_open = !self.backstage_open;
                StageAction::Nothing
            },
            StageKey::Escape => {
                if self.backstage_open {
                    self.backstage_open = false;
                }
                StageAction::Nothing
            },
        }
    }

    /// Starts an export: only a ready or done stage exports; a square clip
    /// with an automatic target, or a clip that cannot be planned, opens the
    /// settings with an error instead.
    pub fn begin_export(&mut self) -> (r: ExportStep)
        requires
            stage_plan_fits(*old(self)),
        ensures
            !(old(self).phase == Phase::Ready || old(self).phase == Phase::Done) ==> (r is Nothing
                && *final(self) == *old(self)),
            (old(self).phase == Phase::Ready || old(self).phase == Phase::Done) && (old(self).probe matches Some(p) && p.width == p.height) && old(self).to == Target::Auto ==> (
            r is Nothing && final(self).backstage_open && opt_string(final(self).error) == Some(
                "Square clip — choose 9:16 or 16:9 in Backstage"@,
            )),
            r matches ExportStep::Check { opts, output } ==> ((old(self).phase == Phase::Ready
                || old(self).phase == Phase::Done) && !old(self).headless && (old(self).input
                matches Some(i) && opts.input@ == i@ && output@ != i@) && opts.to == old(self).to
                && opts.overwrite == old(self).overwrite && opts.dry_run == old(self).dry_run
                && *final(self) == *old(self)),
            r is Finished ==> old(self).headless && final(self).phase == Phase::Done
                && final(self).output is Some && final(self).error is None,
            r matches ExportStep::Check { output, .. } ==> is_export_output(*old(self), output@),
            r is Finished ==> (final(self).output matches Some(o) && is_export_output(
                *old(self),
                o@,
            )),
            (old(self).phase == Phase::Ready || old(self).phase == Phase::Done) && !((old(
                self,
            ).probe matches Some(p) && p.width == p.height) && old(self).to == Target::Auto)
                && old(self).input is Some && stage_input_clear(*old(self)) && old(self).probe is Some
                ==> (r is Finished || r is Check),
            (old(self).phase == Phase::Ready || old(self).phase == Phase::Done) && !((old(
                self,
            ).probe matches Some(p) && p.width == p.height) && old(self).to == Target::Auto)
                && old(self).input is Some && stage_input_clear(*old(self)) && old(self).probe is Some
                && !old(self).headless ==> r is Check,
            (old(self).phase == Phase::Ready || old(self).phase == Phase::Done) && !((old(
                self,
            ).probe matches Some(p) && p.width == p.height) && old(self).to == Target::Auto) && (
            old(self).input is None || old(self).probe is None) ==> (r is Nothing && *final(self)
                == *old(self)),
            (old(self).phase == Phase::Ready || old(self).phase == Phase::Done) && !((old(
                self,
            ).probe matches Some(p) && p.width == p.height) && old(self).to == Target::Auto)
                && old(self).input is Some && old(self).probe is Some ==> (r is Finished || r is Check
                || (r is Nothing && final(self).backstage_open && opt_string(final(self).error)
                == Some("Could not plan conversion — check target for square clips"@))),
    {
        if self.phase != Phase::Ready && self.phase != Phase::Done {
            return ExportStep::Nothing;
        }
        let square = match &self.probe {
            Some(p) => p.is_square(),
            None => false,
        };
        if square && self.to == Target::Auto {
            self.error = Some("Square clip — choose 9:16 or 16:9 in Backstage".to_owned());
            self.backstage_open = true;
            return ExportStep::Nothing;
        }
        let opts = match self.options() {
            Some(o) => o,
            None => return ExportStep::Nothing,
        };
        let probe = match &self.probe {
            Some(p) => *p,
            None => return ExportStep::Nothing,
        };
        proof {
            if stage_input_clear(*self) {
                assert(default_output_clear(opts));
            }
        }
        let plan = match build_plan(&opts, &probe) {
            Ok(plan) => plan,
            Err(_) => {
                self.error = Some(
                    "Could not plan conversion — check target for square clips".to_owned(),
                );
                self.backstage_open = true;
                return ExportStep::Nothing;
            },
        };
        if self.headless {
            self.set_phase_done(plan.output);
            return ExportStep::Finished;
        }
        ExportStep::Check { opts, output: plan.output }
    }

    /// Finishes starting an export once the windowing layer knows whether the
    /// output exists and, when asked, whether the user agreed to replace it.
    /// Returns the options to encode with, or `None` when the user declined.
    pub fn confirm_export(
        &mut self,
        opts: ConvertOptions,
        output_exists: bool,
        replace_confirmed: bool,
    ) -> (r: Option<ConvertOptions>)
        ensures
            (output_exists && !opts.overwrite && !opts.dry_run && !replace_confirmed) ==> (r is None
                && *final(self) == *old(self)),
            !(output_exists && !opts.overwrite && !opts.dry_run && !replace_confirmed) ==> (
            r matches Some(o) && o == (ConvertOptions {
                overwrite: opts.overwrite || output_exists && !opts.dry_run,
                ..opts
            }) && final(self).phase == Phase::Encoding && final(self).error is None && final(self).worker_busy),
    {
        let mut opts = opts;
        if output_conflict(&opts, output_exists) {
            if !replace_confirmed {
                return None;
            }
            opts.overwrite = true;
        }
        self.phase = Phase::Encoding;
        self.error = None;
        self.worker_busy = true;
        Some(opts)
    }
}

/// The phone screen's title: an empty stage invites a drop (and says why a
/// clip could not be opened), a busy one says what it is doing, an exported
/// one says so, and a ready one shows the clip alone.
pub open spec fn phone_title_spec(app: VertifyApp, hovered: bool) -> Option<Seq<char>> {
    match app.phase {
        Phase::Idle | Phase::Error => Some(
            if app.phase == Phase::Error && app.error is Some {
                "Can't open video"@
            } else if app.drag_hover {
                "Drop to open"@
            } else if hovered {
                "Drop it here"@
            } else {
                "Drop a video here"@
            },
        ),
        Phase::Loading => Some("Reading…"@),
        Phase::Encoding => Some("Encoding…"@),
        Phase::Done => Some("Exported"@),
        Phase::Ready => None,
    }
}

/// The phone screen's hint line: how to open, export or re-export from here.
pub open spec fn phone_hint_spec(app: VertifyApp, hovered: bool) -> Option<Seq<char>> {
    match app.phase {
        Phase::Idle | Phase::Error => Some(
            if app.drag_hover {
                "release to load"@
            } else if hovered {
                "or click to browse"@
            } else {
                "click · or press O"@
            },
        ),
        Phase::Loading | Phase::Encoding => None,
        Phase::Done => Some(
            if hovered {
                "click to re-export"@
            } else {
                "click again to re-export"@
            },
        ),
        Phase::Ready => Some(
            if hovered {
                "Click to export · Enter"@
            } else {
                "Click frame to export"@
            },
        ),
    }
}

/// The output an export of the loaded clip writes: the default output of
/// its input for the resolved target (see `is_default_output`), never the
/// input's own text.
pub open spec fn is_export_output(app: VertifyApp, out: Seq<char>) -> bool {
    match (app.input, clip_target(app)) {
        (Some(i), Some(t)) => out != i@ && is_default_output(out, i@, t, None, None),
        _ => false,
    }
}

/// The detail text under the status line (see `whisper_detail_for`).
pub open spec fn detail_spec(
    app: VertifyApp,
    resolved: Option<Target>,
    input_name: Option<Seq<char>>,
) -> Option<Seq<char>> {
    match app.phase {
        Phase::Ready => match resolved {
            Some(t) => {
                let dims = canvas_spec(app.size, if t == Target::Vertical {
                    Target::Vertical
                } else {
                    Target::Horizontal
                });
                let name = match input_name {
                    Some(n) => n,
                    None => Seq::empty(),
                };
                Some(
                    name + "\nOutput canvas "@ + decimal(dims.0 as nat) + "×"@ + decimal(
                        dims.1 as nat,
                    ) + "\nFill: "@ + (match app.fill {
                        Fill::Blur => "blur ("@ + decimal(app.blur as nat) + ")"@,
                        Fill::Color => "color ("@ + app.color@ + ")"@,
                    }) + "\nClick the frame or press Enter to export."@,
                )
            },
            None => None,
        },
        Phase::Done => match app.output {
            Some(p) => Some(p@ + "\nClick the frame to re-export, or Reveal to open the file."@),
            None => None,
        },
        Phase::Idle => Some(
            "Drag a video onto the stage, or click the frame / press O to open.\nThe whole frame is kept — never cropped."@,
        ),
        Phase::Error => opt_string(app.error),
        _ => None,
    }
}

} // verus!
