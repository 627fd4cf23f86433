use vstd::prelude::*;

use crate::error::Error;
use crate::gain::Decibels;
use crate::text::{ascii_fold, to_ascii_upper};
use crate::volume_rewrite::{OutputGainMode, VolumeTarget};

verus! {

/// The loudness presets of the gain normalizer.
#[derive(Debug, Clone, Copy, PartialEq, Eq, Structural)]
pub enum Preset {
    /// ReplayGain's loudness (-18 LUFS)
    ReplayGain,
    /// EBU R 128's loudness (-23 LUFS)
    R128,
    /// No output gain relative to the original
    ZeroGain,
    /// Keep the output gain as it is
    NoChange,
}

/// How the output gain mode is chosen.
#[derive(Debug, Clone, Copy, PartialEq, Eq, Structural)]
pub enum OutputGainSetting {
    /// From the album's loudness in album mode, else the track's
    Auto,
    /// Always from the track's loudness
    Track,
}

/// The modes of the comment editor.
#[derive(Debug, Clone, Copy, PartialEq, Eq, Structural)]
pub enum OperationMode {
    /// List the comments
    List,
    /// Delete some comments and append others
    Modify,
    /// Replace all comments
    Replace,
}

/// The target that a preset stands for.
pub fn volume_target_for(preset: Preset) -> (r: VolumeTarget)
    ensures
        preset == Preset::ReplayGain ==> r == VolumeTarget::LUFS(Decibels::replay_gain_lufs_spec()),
        preset == Preset::R128 ==> r == VolumeTarget::LUFS(Decibels::r128_lufs_spec()),
        preset == Preset::ZeroGain ==> r == VolumeTarget::ZeroGain,
        preset == Preset::NoChange ==> r == VolumeTarget::NoChange,
{
    match preset {
        Preset::ReplayGain => VolumeTarget::LUFS(Decibels::replay_gain_lufs()),
        Preset::R128 => VolumeTarget::LUFS(Decibels::r128_lufs()),
        Preset::ZeroGain => VolumeTarget::ZeroGain,
        Preset::NoChange => VolumeTarget::NoChange,
    }
}

/// The output gain mode: `Auto` follows album mode.
pub fn output_gain_mode_for(setting: OutputGainSetting, album_mode: bool) -> (r: OutputGainMode)
    ensures
        r == (if setting == OutputGainSetting::Auto && album_mode {
            OutputGainMode::Album
        } else {
            OutputGainMode::Track
        }),
{
    match setting {
        OutputGainSetting::Auto => if album_mode {
            OutputGainMode::Album
        } else {
            OutputGainMode::Track
        },
        OutputGainSetting::Track => OutputGainMode::Track,
    }
}

/// Album mode and target once `--clear` is applied: clearing keeps the
/// output gain and computes no album loudness.
pub fn apply_clear(clear: bool, album_mode: bool, target: VolumeTarget) -> (r: (bool, VolumeTarget))
    ensures
        clear ==> r == (false, VolumeTarget::NoChange),
        !clear ==> r == (album_mode, target),
{
    if clear {
        (false, VolumeTarget::NoChange)
    } else {
        (album_mode, target)
    }
}

/// The number of worker threads: the request, at most the number of cores;
/// zero is refused.
pub fn thread_count(requested: usize, cores: usize) -> (r: Result<usize, Error>)
    ensures
        requested == 0 ==> r is Err && r->Err_0 == Error::InvalidThreadCount,
        requested > 0 ==> r == Ok::<usize, Error>(if requested < cores {
            requested
        } else {
            cores
        }),
{
    if requested == 0 {
        Err(Error::InvalidThreadCount)
    } else if requested < cores {
        Ok(requested)
    } else {
        Ok(cores)
    }
}

/// The comment editor's mode from its three flags: list is the default, and
/// at most one of modify and replace may be given, without list.
pub fn operation_mode(list: bool, modify: bool, replace: bool) -> (r: Option<OperationMode>)
    ensures
        !modify && !replace ==> r == Some(OperationMode::List),
        !list && modify && !replace ==> r == Some(OperationMode::Modify),
        !list && !modify && replace ==> r == Some(OperationMode::Replace),
        (modify && replace) || (list && (modify || replace)) ==> r is None,
{
    match (list, modify, replace) {
        (_, false, false) => Some(OperationMode::List),
        (false, true, false) => Some(OperationMode::Modify),
        (false, false, true) => Some(OperationMode::Replace),
        _ => None,
    }
}

/// The file extensions of Ogg media, upper-cased.
pub open spec fn media_extensions() -> Seq<Seq<char>> {
    seq!["OGG"@, "OGV"@, "OGA"@, "OGX"@, "OGM"@, "SPX"@, "OPUS"@]
}

/// Is `ext` (compared ignoring ASCII case) the extension of an Ogg media
/// file? Such a path is refused as a tags file.
pub fn is_media_extension(ext: &str) -> (r: bool)
    ensures
        r == media_extensions().contains(ascii_fold(ext@)),
{
    let folded = to_ascii_upper(ext);
    let names: Vec<String> = vec![
        "OGG".to_owned(),
        "OGV".to_owned(),
        "OGA".to_owned(),
        "OGX".to_owned(),
        "OGM".to_owned(),
        "SPX".to_owned(),
        "OPUS".to_owned(),
    ];
    proof {
        assert(names@.len() == 7);
    }
    let mut i: usize = 0;
    while i < names.len()
        invariant
            i <= names@.len(),
            names@.len() == 7,
            forall|j: int| 0 <= j < 7 ==> #[trigger] names@[j]@ == media_extensions()[j],
            folded@ == ascii_fold(ext@),
            forall|j: int| 0 <= j < i ==> media_extensions()[j] != folded@,
        decreases names@.len() - i,
    {
        if names[i] == folded {
            proof {
                assert(media_extensions()[i as int] == folded@);
            }
            return true;
        }
        i = i + 1;
    }
    false
}

} // verus!
