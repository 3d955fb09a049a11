//! Error kinds of the capture session and the choice of an input device by
//! name.
use vstd::prelude::*;

verus! {

/// Failures of the capture session, each distinguishable by kind.
#[derive(Clone, Copy, Debug, PartialEq, Eq, Structural)]
pub enum PngTuberAudioError {
    /// The input devices could not be listed.
    DeviceEnumerationFailed,
    /// No input device has the requested name, or no default device exists.
    DeviceNotFound,
    /// The device offers no usable default input configuration.
    DeviceConfigUnavailable,
    /// The device's sample format is not 32-bit float.
    UnsupportedSampleFormat,
    /// The input stream could not be built.
    StreamBuildFailed,
    /// The input stream could not be started.
    StreamPlaybackFailed,
}

/// Which input device to open.
#[derive(Clone, Copy, Debug, PartialEq, Eq, Structural)]
pub enum DeviceChoice {
    /// The host's default input device.
    Default,
    /// The device at this position of the enumeration.
    Listed(usize),
}

/// The selector that asks for the host's default input device.
pub open spec fn default_selector() -> Seq<char> {
    "default"@
}

/// Whether an enumerated device name (absent where the name could not be
/// read) is exactly `desired`.
pub open spec fn name_matches(name: Option<String>, desired: Seq<char>) -> bool {
    match name {
        Some(n) => n@ == desired,
        None => false,
    }
}

/// Chooses the input device for `desired`: the literal `"default"` asks for
/// the host's default device (which must exist); any other string is matched
/// exactly against the enumerated names, and the first match wins. No match
/// is `DeviceNotFound`, never a fallback to the default device.
pub fn select_input_device(
    desired: &str,
    has_default_device: bool,
    device_names: &Vec<Option<String>>,
) -> (r: Result<DeviceChoice, PngTuberAudioError>)
    ensures
        desired@ == default_selector() ==> r == if has_default_device {
            Ok::<DeviceChoice, PngTuberAudioError>(DeviceChoice::Default)
        } else {
            Err(PngTuberAudioError::DeviceNotFound)
        },
        desired@ != default_selector() ==> match r {
            Ok(DeviceChoice::Listed(i)) => {
                &&& i < device_names@.len()
                &&& name_matches(device_names@[i as int], desired@)
                &&& forall|j: int|
                    0 <= j < i ==> !name_matches(#[trigger] device_names@[j], desired@)
            },
            Ok(DeviceChoice::Default) => false,
            Err(e) => {
                &&& e == PngTuberAudioError::DeviceNotFound
                &&& forall|j: int|
                    0 <= j < device_names@.len() ==> !name_matches(
                        #[trigger] device_names@[j],
                        desired@,
                    )
            },
        },
{
    let wanted: String = desired.to_owned();
    let default_name: String = "default".to_owned();
    if wanted == default_name {
        if has_default_device {
            return Ok(DeviceChoice::Default);
        } else {
            return Err(PngTuberAudioError::DeviceNotFound);
        }
    }
    let mut i: usize = 0;
    while i < device_names.len()
        invariant
            wanted@ == desired@,
            desired@ != default_selector(),
            i <= device_names@.len(),
            forall|j: int| 0 <= j < i ==> !name_matches(#[trigger] device_names@[j], desired@),
        decreases device_names@.len() - i,
    {
        match &device_names[i] {
            Some(name) => {
                if *name == wanted {
                    return Ok(DeviceChoice::Listed(i));
                }
            },
            None => {},
        }
        i = i + 1;
    }
    Err(PngTuberAudioError::DeviceNotFound)
}

} // verus!
