use audio_separator::i18n::{cli_stage_label, stage_label, t, toggle_caption, toggled, Language};
use audio_separator::stage::Stage;
use audio_separator::text::{join2, str_eq};

const ALL_STAGES: [Stage; 6] = [
    Stage::DownloadingModel,
    Stage::Decoding,
    Stage::Resampling,
    Stage::Separating,
    Stage::ResamplingOutput,
    Stage::Writing,
];

#[test]
fn str_eq_compares_characters() {
    assert!(str_eq("abc", "abc"));
    assert!(!str_eq("abc", "abd"));
    assert!(!str_eq("a", "ab"));
    assert!(str_eq("", ""));
    assert!(str_eq("人声", "人声"));
}

#[test]
fn join2_concatenates() {
    assert_eq!(join2("song", "_vocals.wav"), "song_vocals.wav");
    assert_eq!(join2("", "x"), "x");
}

#[test]
fn stage_names_are_the_wire_names() {
    assert_eq!(Stage::DownloadingModel.name(), "downloading_model");
    assert_eq!(Stage::Decoding.name(), "decoding");
    assert_eq!(Stage::Resampling.name(), "resampling");
    assert_eq!(Stage::Separating.name(), "separating");
    assert_eq!(Stage::ResamplingOutput.name(), "resampling_output");
    assert_eq!(Stage::Writing.name(), "writing");
}

#[test]
fn stage_name_round_trip() {
    for st in ALL_STAGES {
        assert_eq!(Stage::from_name(st.name()), Some(st));
    }
    assert_eq!(Stage::from_name("resample"), None);
    assert_eq!(Stage::from_name(""), None);
    assert_eq!(Stage::from_name("Decoding"), None);
}

#[test]
fn tables_hold_each_language() {
    let zh = t(Language::Zh);
    let en = t(Language::En);
    assert_eq!(zh.title, "Audio Separator");
    assert_eq!(en.title, "Audio Separator");
    assert_eq!(zh.separate_btn, "分离");
    assert_eq!(en.separate_btn, "Separate");
    assert_eq!(zh.input_required, "请选择输入文件");
    assert_eq!(en.input_required, "Please select an input file");
    assert_eq!(en.duration_label, "Duration: {:.1}s");
    assert_eq!(zh.duration_label, "时长：{:.1} 秒");
}

#[test]
fn default_language_is_chinese() {
    assert_eq!(Language::default(), Language::Zh);
}

#[test]
fn toggling_twice_restores_language() {
    for lang in [Language::Zh, Language::En] {
        assert_ne!(toggled(lang), lang);
        assert_eq!(toggled(toggled(lang)), lang);
    }
    assert_eq!(toggle_caption(Language::Zh), "EN");
    assert_eq!(toggle_caption(Language::En), "中文");
}

#[test]
fn gui_stage_labels() {
    let en = t(Language::En);
    assert_eq!(stage_label("downloading_model", &en), "Downloading model…");
    assert_eq!(stage_label("decoding", &en), "Decoding audio…");
    assert_eq!(stage_label("resampling", &en), "Resampling…");
    assert_eq!(stage_label("resampling_output", &en), "Resampling…");
    assert_eq!(stage_label("separating", &en), "Separating…");
    assert_eq!(stage_label("writing", &en), "Writing output…");
    assert_eq!(stage_label("", &en), "Working…");
    let zh = t(Language::Zh);
    assert_eq!(stage_label("separating", &zh), "正在分离…");
    assert_eq!(stage_label("unknown", &zh), "处理中…");
}

#[test]
fn cli_stage_labels() {
    assert_eq!(cli_stage_label("downloading_model"), "Downloading model");
    assert_eq!(cli_stage_label("decoding"), "Decoding audio");
    assert_eq!(cli_stage_label("resampling"), "Resampling");
    assert_eq!(cli_stage_label("separating"), "Separating");
    assert_eq!(cli_stage_label("resampling_output"), "Resampling output");
    assert_eq!(cli_stage_label("writing"), "Writing output");
    assert_eq!(cli_stage_label("custom"), "custom");
}
