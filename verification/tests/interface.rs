use audio_separator::gui_state::{GuiState, GuiStatus};
use audio_separator::i18n::Language;
use audio_separator::runtime_locate::{
    first_usable, library_candidates, native_library_name, wants_gui, LibCandidate, TargetOs,
};

fn describe(c: &LibCandidate) -> (bool, &'static str) {
    match c {
        LibCandidate::NearExe(p) => (true, p),
        LibCandidate::Absolute(p) => (false, p),
    }
}

#[test]
fn runtime_library_candidates() {
    let mac: Vec<_> = library_candidates(TargetOs::MacOs).iter().map(describe).collect();
    assert_eq!(
        mac,
        vec![
            (true, "../Frameworks/libonnxruntime.dylib"),
            (true, "libonnxruntime.dylib"),
            (false, "/opt/homebrew/lib/libonnxruntime.dylib"),
            (false, "/usr/local/lib/libonnxruntime.dylib"),
        ]
    );
    let win: Vec<_> = library_candidates(TargetOs::Windows).iter().map(describe).collect();
    assert_eq!(win, vec![(true, "onnxruntime.dll")]);
    let other: Vec<_> = library_candidates(TargetOs::Other).iter().map(describe).collect();
    assert_eq!(
        other,
        vec![
            (true, "libonnxruntime.so"),
            (false, "/usr/lib/libonnxruntime.so"),
            (false, "/usr/local/lib/libonnxruntime.so"),
        ]
    );
    assert_eq!(native_library_name(TargetOs::Windows), "onnxruntime.dll");
    assert_eq!(native_library_name(TargetOs::MacOs), "libonnxruntime.dylib");
    assert_eq!(native_library_name(TargetOs::Other), "libonnxruntime.so");
}

#[test]
fn first_usable_candidate() {
    assert_eq!(first_usable(&[false, true, true]), Some(1));
    assert_eq!(first_usable(&[false, false]), None);
    assert_eq!(first_usable(&[]), None);
}

#[test]
fn gui_when_asked_or_without_input() {
    assert!(wants_gui(true, true));
    assert!(wants_gui(false, false));
    assert!(!wants_gui(false, true));
}

#[test]
fn picking_input_fills_output_dir() {
    let mut s: GuiState<u32> = GuiState::new();
    assert_eq!(s.lang, Language::Zh);
    assert!(!s.is_running());
    s.input_picked(Some("/music/a.mp3".to_string()));
    assert_eq!(s.input_path, "/music/a.mp3");
    assert_eq!(s.output_dir, "/music");
    s.input_picked(Some("/other/b.mp3".to_string()));
    assert_eq!(s.output_dir, "/music");
    s.input_picked(None);
    assert_eq!(s.input_path, "/other/b.mp3");
    s.output_picked(Some("/out".to_string()));
    assert_eq!(s.output_dir, "/out");
    s.output_picked(None);
    assert_eq!(s.output_dir, "/out");
}

#[test]
fn dropping_file_sets_input() {
    let mut s: GuiState<u32> = GuiState::new();
    s.file_dropped("/x/y/z.ogg".to_string());
    assert_eq!(s.input_path, "/x/y/z.ogg");
    assert_eq!(s.output_dir, "/x/y");
}

#[test]
fn start_without_input_is_an_error() {
    let mut s: GuiState<u32> = GuiState::new();
    assert_eq!(s.start_requested(), None);
    assert!(matches!(&s.status, GuiStatus::Failed(e) if e == "请选择输入文件"));
    s.toggle_language();
    assert_eq!(s.lang, Language::En);
    assert_eq!(s.start_requested(), None);
    assert!(matches!(&s.status, GuiStatus::Failed(e) if e == "Please select an input file"));
}

#[test]
fn start_with_input_runs_job() {
    let mut s: GuiState<u32> = GuiState::new();
    s.input_path = "/music/song.mp3".to_string();
    s.progress_reported("writing".to_string());
    assert_eq!(
        s.start_requested(),
        Some(("/music/song.mp3".to_string(), "/music".to_string()))
    );
    assert!(s.is_running());
    assert_eq!(s.progress_stage, "");
    s.job_finished(Ok(7));
    assert!(matches!(s.status, GuiStatus::Succeeded(7)));
    s.job_finished(Err("boom".to_string()));
    assert!(matches!(&s.status, GuiStatus::Failed(e) if e == "boom"));
}

#[test]
fn start_uses_given_output_dir() {
    let mut s: GuiState<u32> = GuiState::new();
    s.input_path = "song.mp3".to_string();
    s.output_dir = "/out".to_string();
    assert_eq!(s.start_requested(), Some(("song.mp3".to_string(), "/out".to_string())));
    let mut s: GuiState<u32> = GuiState::new();
    s.input_path = "song.mp3".to_string();
    assert_eq!(s.start_requested(), Some(("song.mp3".to_string(), "".to_string())));
}

#[test]
fn start_while_running_changes_nothing() {
    let mut s: GuiState<u32> = GuiState::new();
    s.input_path = "/music/song.mp3".to_string();
    assert!(s.start_requested().is_some());
    s.progress_reported("separating".to_string());
    s.input_path = "/music/other.mp3".to_string();
    assert_eq!(s.start_requested(), None);
    assert!(s.is_running());
    assert_eq!(s.progress_stage, "separating");
    assert_eq!(s.input_path, "/music/other.mp3");
}
