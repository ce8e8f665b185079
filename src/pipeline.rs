use vstd::prelude::*;
use crate::error::MergeError;
use crate::media::MediaKind;
use crate::fps::{lemma_equal_rates_not_normalized, normalization_target};

verus! {

/// The resolved configuration of one run.
pub struct MergeConfig {
    pub target_dir: String,
    /// Extension of the output, in place of the one of the inputs' kind.
    pub format: Option<String>,
    /// Frame rate, in whole frames per second, to bring video inputs to.
    pub fps: Option<u32>,
    /// Merge video inputs as they are, whatever their frame rates.
    pub skip_fps_changer: bool,
    pub verbose: bool,
}

/// The step that a run is at.
#[derive(PartialEq, Eq, Structural, Clone, Copy, Debug)]
pub enum Phase {
    EngineCheck,
    Scan,
    Inspect,
    Normalize,
    BuildManifest,
    Merge,
    Cleanup,
    Done,
    Failed,
}

/// A run's step, and whether a step has failed on the way.
#[derive(PartialEq, Eq, Structural, Clone, Copy, Debug)]
pub struct RunState {
    pub phase: Phase,
    pub failed: bool,
}

/// What the caller reports after running the current step.
#[derive(PartialEq, Eq, Structural, Clone, Copy, Debug)]
pub struct StepReport {
    /// The step succeeded.
    pub ok: bool,
    /// After a scan: the inputs' frame rates are to be probed.
    pub inspect: bool,
    /// After inspection: some input is to be re-encoded.
    pub normalize: bool,
}

pub open spec fn is_terminal(p: Phase) -> bool {
    p == Phase::Done || p == Phase::Failed
}

/// Frame rates are probed only for video inputs, and only where
/// normalization is not skipped.
pub open spec fn inspection_needed(kind: MediaKind, skip: bool) -> bool {
    kind == MediaKind::Video && !skip
}

/// The state that follows `s` once its step has run with outcome `e`.
pub open spec fn next_state(s: RunState, e: StepReport) -> RunState {
    match s.phase {
        Phase::Done | Phase::Failed => s,
        Phase::Cleanup => RunState {
            phase: if s.failed {
                Phase::Failed
            } else {
                Phase::Done
            },
            failed: s.failed,
        },
        _ => if !e.ok {
            RunState { phase: Phase::Cleanup, failed: true }
        } else {
            RunState {
                phase: match s.phase {
                    Phase::EngineCheck => Phase::Scan,
                    Phase::Scan => if e.inspect {
                        Phase::Inspect
                    } else {
                        Phase::BuildManifest
                    },
                    Phase::Inspect => if e.normalize {
                        Phase::Normalize
                    } else {
                        Phase::BuildManifest
                    },
                    Phase::Normalize => Phase::BuildManifest,
                    Phase::BuildManifest => Phase::Merge,
                    _ => Phase::Cleanup,
                },
                failed: false,
            }
        },
    }
}

/// The state a run starts in.
pub fn start() -> (r: RunState)
    ensures
        r == (RunState { phase: Phase::EngineCheck, failed: false }),
{
    RunState { phase: Phase::EngineCheck, failed: false }
}

/// Whether the inputs' frame rates are to be probed.
pub fn needs_inspection(kind: MediaKind, skip: bool) -> (r: bool)
    ensures
        r == inspection_needed(kind, skip),
{
    kind == MediaKind::Video && !skip
}

/// The state that follows `s` once its step has run with outcome `e`. Every
/// failure leads to cleanup, and cleanup leads to `Failed`; a run that went
/// through every step ends with cleanup, then `Done`.
pub fn advance(s: RunState, e: StepReport) -> (r: RunState)
    ensures
        r == next_state(s, e),
{
    match s.phase {
        Phase::Done | Phase::Failed => s,
        Phase::Cleanup => RunState {
            phase: if s.failed {
                Phase::Failed
            } else {
                Phase::Done
            },
            failed: s.failed,
        },
        _ => if !e.ok {
            RunState { phase: Phase::Cleanup, failed: true }
        } else {
            let phase = match s.phase {
                Phase::EngineCheck => Phase::Scan,
                Phase::Scan => if e.inspect {
                    Phase::Inspect
                } else {
                    Phase::BuildManifest
                },
                Phase::Inspect => if e.normalize {
                    Phase::Normalize
                } else {
                    Phase::BuildManifest
                },
                Phase::Normalize => Phase::BuildManifest,
                Phase::BuildManifest => Phase::Merge,
                _ => Phase::Cleanup,
            };
            RunState { phase, failed: false }
        },
    }
}

/// A run ends only through cleanup: every step into `Done` or `Failed`
/// starts at `Cleanup`, and `Done` is reached only where no step failed.
pub proof fn lemma_cleanup_before_end(s: RunState, e: StepReport)
    requires
        !is_terminal(s.phase),
        is_terminal(next_state(s, e).phase),
    ensures
        s.phase == Phase::Cleanup,
        next_state(s, e).phase == Phase::Done <==> !s.failed,
{
}

/// Where the engine is missing, the run goes to cleanup and then fails,
/// without scanning.
pub proof fn lemma_missing_engine_fails_first(e1: StepReport, e2: StepReport)
    requires
        !e1.ok,
    ensures
        next_state(RunState { phase: Phase::EngineCheck, failed: false }, e1) == (RunState {
            phase: Phase::Cleanup,
            failed: true,
        }),
        next_state(next_state(RunState { phase: Phase::EngineCheck, failed: false }, e1), e2).phase
            == Phase::Failed,
{
}

/// A failed scan (no supported file, or mixed kinds) goes to cleanup and then
/// fails: no manifest is built and nothing is merged.
pub proof fn lemma_failed_scan_ends_failed(e1: StepReport, e2: StepReport)
    requires
        !e1.ok,
    ensures
        next_state(RunState { phase: Phase::Scan, failed: false }, e1) == (RunState {
            phase: Phase::Cleanup,
            failed: true,
        }),
        next_state(next_state(RunState { phase: Phase::Scan, failed: false }, e1), e2).phase
            == Phase::Failed,
{
}

/// Video inputs that all have one frame rate, with no override, never reach
/// the step that creates a workspace and re-encodes: inspection leads
/// straight to the manifest.
pub proof fn lemma_equal_rates_no_workspace(rates: Seq<u64>, rate: u64, skip: bool, e: StepReport)
    requires
        rates.len() > 0,
        forall|i: int| 0 <= i < rates.len() ==> rates[i] == rate,
        e.ok,
        e.normalize == (normalization_target(rates, None, skip) is Some),
    ensures
        next_state(RunState { phase: Phase::Inspect, failed: false }, e).phase == Phase::BuildManifest,
{
    lemma_equal_rates_not_normalized(rates, rate, skip);
}

/// Audio inputs go from the scan straight to the manifest: no frame rate is
/// probed or changed.
pub proof fn lemma_audio_skips_frame_rates(skip: bool, e: StepReport)
    requires
        e.ok,
        e.inspect == inspection_needed(MediaKind::Audio, skip),
    ensures
        next_state(RunState { phase: Phase::Scan, failed: false }, e).phase == Phase::BuildManifest,
{
}

/// The pre-flight check: the run may go on only where the engine was found.
pub fn preflight(engine_found: bool) -> (r: Result<(), MergeError>)
    ensures
        engine_found <==> r is Ok,
        !engine_found ==> r matches Err(MergeError::EngineUnavailable),
{
    if engine_found {
        Ok(())
    } else {
        Err(MergeError::EngineUnavailable)
    }
}

/// The line that reports a failure to the user.
pub open spec fn message_of(e: MergeError) -> Seq<char> {
    match e {
        MergeError::EngineUnavailable => "❌ ffmpeg is not available. Please install it first."@,
        MergeError::DirectoryNotFound { message } => "❌ "@ + message@,
        MergeError::NoSupportedFilesFound => "❌ No supported media files found."@,
        MergeError::MixedMediaKinds => "❌ The directory holds both video and audio files."@,
        MergeError::ProbeFailed { path, output } => "❌ Could not read the frame rate of "@ + path@
            + "\n"@ + output@,
        MergeError::NormalizationFailed { path, output } => "❌ Could not change the frame rate of "@
            + path@ + "\n"@ + output@,
        MergeError::MergeFailed { path, output } => "❌ Could not merge into "@ + path@ + "\n"@
            + output@,
    }
}

fn joined(a: &str, b: &str, c: &str, d: &str) -> (r: String)
    ensures
        r@ == a@ + b@ + c@ + d@,
{
    let mut s = String::from_str(a);
    s.append(b);
    s.append(c);
    s.append(d);
    s
}

/// The line that reports `e` to the user.
pub fn error_message(e: &MergeError) -> (r: String)
    ensures
        r@ == message_of(*e),
{
    match e {
        MergeError::EngineUnavailable => String::from_str(
            "❌ ffmpeg is not available. Please install it first.",
        ),
        MergeError::DirectoryNotFound { message } => {
            let mut s = String::from_str("❌ ");
            s.append(message.as_str());
            s
        },
        MergeError::NoSupportedFilesFound => String::from_str("❌ No supported media files found."),
        MergeError::MixedMediaKinds => String::from_str(
            "❌ The directory holds both video and audio files.",
        ),
        MergeError::ProbeFailed { path, output } => joined(
            "❌ Could not read the frame rate of ",
            path.as_str(),
            "\n",
            output.as_str(),
        ),
        MergeError::NormalizationFailed { path, output } => joined(
            "❌ Could not change the frame rate of ",
            path.as_str(),
            "\n",
            output.as_str(),
        ),
        MergeError::MergeFailed { path, output } => joined(
            "❌ Could not merge into ",
            path.as_str(),
            "\n",
            output.as_str(),
        ),
    }
}

/// The note printed, in verbose mode, before an earlier artifact is removed.
pub fn removal_notice(name: &str) -> (r: String)
    ensures
        r@ == "🗑️  Removing old data: `"@ + name@ + "`"@,
{
    let mut s = String::from_str("🗑️  Removing old data: `");
    s.append(name);
    s.append("`");
    s
}

/// The line printed once the output is written.
pub fn generated_notice(output: &str) -> (r: String)
    ensures
        r@ == "🐣 Generated "@ + output@,
{
    let mut s = String::from_str("🐣 Generated ");
    s.append(output);
    s
}

} // verus!
