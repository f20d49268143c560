use std::sync::Mutex;

use jpresentation::error::AppError;
use jpresentation::platform::{
    audience_target, encode_query, identify_window, monitor_dto, monitor_id, speaker_placement, MonitorDto,
    PlatformSurface, SpeakerPlacement, SurfacesSetting,
};

#[test]
fn hidden_when_speaker_off() {
    let setting = SurfacesSetting {
        use_speaker: false,
        speaker_monitor_id: Some("hdmi".into()),
        audience_monitor_id: Some("primary".into()),
    };
    let (placement, missing) = speaker_placement(&setting, &vec!["primary".into(), "hdmi".into()]);
    assert_eq!(placement, SpeakerPlacement::Hidden);
    assert!(!missing);
}

#[test]
fn preview_when_on_without_monitor() {
    let setting = SurfacesSetting {
        use_speaker: true,
        speaker_monitor_id: None,
        audience_monitor_id: Some("primary".into()),
    };
    let (placement, missing) = speaker_placement(&setting, &vec!["primary".into()]);
    assert_eq!(placement, SpeakerPlacement::Preview);
    assert!(!missing);
}

#[test]
fn preview_and_missing_when_id_unknown_or_same_as_audience() {
    let unknown = SurfacesSetting {
        use_speaker: true,
        speaker_monitor_id: Some("gone".into()),
        audience_monitor_id: Some("primary".into()),
    };
    let (placement, missing) = speaker_placement(&unknown, &vec!["primary".into()]);
    assert_eq!(placement, SpeakerPlacement::Preview);
    assert!(missing);

    let same = SurfacesSetting {
        use_speaker: true,
        speaker_monitor_id: Some("primary".into()),
        audience_monitor_id: Some("primary".into()),
    };
    let (placement, missing) = speaker_placement(&same, &vec!["primary".into(), "hdmi".into()]);
    assert_eq!(placement, SpeakerPlacement::Preview);
    assert!(missing);
}

#[test]
fn monitor_when_id_exists_and_differs() {
    let setting = SurfacesSetting {
        use_speaker: true,
        speaker_monitor_id: Some("hdmi".into()),
        audience_monitor_id: Some("primary".into()),
    };
    let (placement, missing) = speaker_placement(&setting, &vec!["primary".into(), "hdmi".into()]);
    assert_eq!(placement, SpeakerPlacement::Monitor("hdmi".into()));
    assert!(!missing);
}

fn display(id: &str, primary: bool) -> MonitorDto {
    MonitorDto {
        id: id.into(),
        name: "Display".into(),
        width: 1920,
        height: 1080,
        is_primary: primary,
        position_x: 0,
        position_y: 0,
    }
}

#[test]
fn monitor_ids_name_and_position() {
    assert_eq!(monitor_id(Some("HDMI-1"), 1920, 0), "HDMI-1@1920,0");
    assert_eq!(monitor_id(None, -1280, -24), "Display@-1280,-24");
}

#[test]
fn monitor_dto_marks_the_primary_display() {
    let main = monitor_dto(Some("eDP-1"), 2560, 1600, 0, 0, Some("eDP-1@0,0"));
    assert_eq!(main.id, "eDP-1@0,0");
    assert!(main.is_primary);
    assert_eq!(main.width, 2560);
    let other = monitor_dto(None, 1920, 1080, 2560, 0, Some("eDP-1@0,0"));
    assert_eq!(other.id, "Display@2560,0");
    assert_eq!(other.name, "Display");
    assert!(!other.is_primary);
}

#[test]
fn audience_goes_to_requested_or_first_secondary_display() {
    let monitors = vec![display("a@0,0", true), display("b@1920,0", false), display("c@3840,0", false)];
    assert_eq!(audience_target(Some("c@3840,0"), &monitors), Some("c@3840,0".to_string()));
    assert_eq!(audience_target(Some("gone@0,0"), &monitors), None);
    assert_eq!(audience_target(None, &monitors), Some("b@1920,0".to_string()));
    assert_eq!(audience_target(None, &vec![display("a@0,0", true)]), None);
    assert_eq!(audience_target(None, &vec![display("a@0,0", true), display("b@0,0", true)]), None);
}

#[test]
fn query_values_are_percent_encoded() {
    assert_eq!(encode_query("Sala A/B"), "Sala%20A%2FB");
    assert_eq!(encode_query("a-b.c_d~"), "a-b.c_d%7E");
    assert_eq!(encode_query("Écran"), "%C3%89cran");
    assert_eq!(encode_query(""), "");
}

#[test]
fn identify_window_is_centred_and_named() {
    let w = identify_window(1, Some("Main Hall"), 1920, 0, 1920, 1080);
    assert_eq!(w.label, "identify-1");
    assert_eq!(w.url_hash, "#/identify?label=Main%20Hall&size=1920x1080");
    assert_eq!(w.title, "Main Hall (1920\u{d7}1080)");
    assert_eq!((w.x, w.y), (1920 + 720, 420));
    let small = identify_window(0, None, -800, 10, 400, 200);
    assert_eq!(small.title, "Display (400\u{d7}200)");
    assert_eq!((small.x, small.y), (-800, 10));
}

struct FakeSurface {
    monitors: Vec<MonitorDto>,
    speaker: Mutex<Option<SpeakerPlacement>>,
    audience: Mutex<Option<Option<String>>>,
}

impl PlatformSurface for FakeSurface {
    fn list_monitors(&self) -> Result<Vec<MonitorDto>, AppError> {
        Ok(self.monitors.clone())
    }

    fn place_audience(&self, monitor_id: Option<&str>) -> Result<(), AppError> {
        *self.audience.lock().expect("audience") = Some(monitor_id.map(str::to_string));
        Ok(())
    }

    fn place_speaker(&self, placement: &SpeakerPlacement) -> Result<(), AppError> {
        *self.speaker.lock().expect("speaker") = Some(placement.clone());
        Ok(())
    }

    fn identify_monitors(&self) -> Result<(), AppError> {
        Ok(())
    }
}

fn monitor(id: &str) -> MonitorDto {
    MonitorDto {
        id: id.into(),
        name: id.into(),
        width: 1920,
        height: 1080,
        is_primary: id == "primary",
        position_x: 0,
        position_y: 0,
    }
}

fn apply(surface: &FakeSurface, setting: &SurfacesSetting) -> Result<bool, AppError> {
    let ids: Vec<String> = surface.list_monitors()?.into_iter().map(|item| item.id).collect();
    let (placement, missing) = speaker_placement(setting, &ids);
    surface.place_audience(setting.audience_monitor_id.as_deref())?;
    surface.place_speaker(&placement)?;
    Ok(missing)
}

#[test]
fn fake_surface_records_preview() {
    let surface = FakeSurface {
        monitors: vec![monitor("primary"), monitor("hdmi")],
        speaker: Mutex::new(None),
        audience: Mutex::new(None),
    };
    let setting = SurfacesSetting {
        use_speaker: true,
        speaker_monitor_id: None,
        audience_monitor_id: Some("hdmi".into()),
    };
    let missing = apply(&surface, &setting).expect("apply");
    assert!(!missing);
    assert_eq!(surface.speaker.lock().expect("speaker").clone(), Some(SpeakerPlacement::Preview));
    assert_eq!(surface.audience.lock().expect("audience").clone(), Some(Some("hdmi".into())));
}
