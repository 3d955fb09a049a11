use pngtubers::device::{select_input_device, DeviceChoice, PngTuberAudioError};

fn names(list: &[Option<&str>]) -> Vec<Option<String>> {
    list.iter().map(|n| n.map(|s| s.to_string())).collect()
}

#[test]
fn default_selector_picks_default_device() {
    let devices = names(&[Some("ZOOM F3 Driver")]);
    assert_eq!(select_input_device("default", true, &devices), Ok(DeviceChoice::Default));
}

#[test]
fn default_selector_without_default_device() {
    let devices = names(&[Some("ZOOM F3 Driver")]);
    assert_eq!(
        select_input_device("default", false, &devices),
        Err(PngTuberAudioError::DeviceNotFound)
    );
}

#[test]
fn named_device_is_matched_exactly() {
    let devices = names(&[Some("Mic"), None, Some("ZOOM F3 Driver"), Some("ZOOM F3 Driver")]);
    assert_eq!(
        select_input_device("ZOOM F3 Driver", true, &devices),
        Ok(DeviceChoice::Listed(2))
    );
    assert_eq!(select_input_device("Mic", true, &devices), Ok(DeviceChoice::Listed(0)));
}

#[test]
fn missing_device_is_not_found() {
    let devices = names(&[Some("Mic"), None, Some("ZOOM F3 Driver")]);
    assert_eq!(
        select_input_device("ZOOM F3", true, &devices),
        Err(PngTuberAudioError::DeviceNotFound)
    );
    assert_eq!(
        select_input_device("mic", true, &devices),
        Err(PngTuberAudioError::DeviceNotFound)
    );
    assert_eq!(
        select_input_device("Mic", true, &Vec::new()),
        Err(PngTuberAudioError::DeviceNotFound)
    );
}
