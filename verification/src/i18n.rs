//! User-facing text: the two interface languages, their string tables and
//! the labels shown for each pipeline stage.
use vstd::prelude::*;
use crate::stage::Stage;

verus! {

/// An interface language.
#[derive(Clone, Copy, Debug, PartialEq, Eq, Structural)]
pub enum Language {
    Zh,
    En,
}

impl Default for Language {
    fn default() -> (l: Self)
        ensures
            l == Language::Zh,
    {
        Language::Zh
    }
}

/// The strings of the graphical interface in one language.
pub struct Translations {
    pub title: &'static str,
    pub subtitle: &'static str,
    pub input_file: &'static str,
    pub output_dir: &'static str,
    pub browse: &'static str,
    pub separate_btn: &'static str,
    pub working: &'static str,
    pub input_required: &'static str,
    pub drag_drop_hint: &'static str,
    pub select_file: &'static str,
    pub select_output_dir: &'static str,
    pub completed: &'static str,
    pub vocals_label: &'static str,
    pub accomp_label: &'static str,
    pub stage_downloading: &'static str,
    pub stage_decoding: &'static str,
    pub stage_resampling: &'static str,
    pub stage_separating: &'static str,
    pub stage_writing: &'static str,
    pub duration_label: &'static str,
}

/// `tr` holds the Chinese string table.
pub open spec fn is_zh_table(tr: Translations) -> bool {
    &&& tr.title@ == "Audio Separator"@
    &&& tr.subtitle@ == "分离音频中的人声与伴奏"@
    &&& tr.input_file@ == "输入文件："@
    &&& tr.output_dir@ == "输出目录："@
    &&& tr.browse@ == "浏览…"@
    &&& tr.separate_btn@ == "分离"@
    &&& tr.working@ == "处理中…"@
    &&& tr.input_required@ == "请选择输入文件"@
    &&& tr.drag_drop_hint@ == "或将文件拖放到此处"@
    &&& tr.select_file@ == "选择音频文件"@
    &&& tr.select_output_dir@ == "选择输出目录"@
    &&& tr.completed@ == "完成！"@
    &&& tr.vocals_label@ == "人声："@
    &&& tr.accomp_label@ == "伴奏："@
    &&& tr.stage_downloading@ == "正在下载模型…"@
    &&& tr.stage_decoding@ == "正在解码音频…"@
    &&& tr.stage_resampling@ == "正在重采样…"@
    &&& tr.stage_separating@ == "正在分离…"@
    &&& tr.stage_writing@ == "正在写入…"@
    &&& tr.duration_label@ == "时长：{:.1} 秒"@
}

/// `tr` holds the English string table.
pub open spec fn is_en_table(tr: Translations) -> bool {
    &&& tr.title@ == "Audio Separator"@
    &&& tr.subtitle@ == "Separate vocals from background music"@
    &&& tr.input_file@ == "Input file:"@
    &&& tr.output_dir@ == "Output directory:"@
    &&& tr.browse@ == "Browse…"@
    &&& tr.separate_btn@ == "Separate"@
    &&& tr.working@ == "Working…"@
    &&& tr.input_required@ == "Please select an input file"@
    &&& tr.drag_drop_hint@ == "or drag and drop files here"@
    &&& tr.select_file@ == "Select audio file"@
    &&& tr.select_output_dir@ == "Select output directory"@
    &&& tr.completed@ == "Done!"@
    &&& tr.vocals_label@ == "Vocals:"@
    &&& tr.accomp_label@ == "Accompaniment:"@
    &&& tr.stage_downloading@ == "Downloading model…"@
    &&& tr.stage_decoding@ == "Decoding audio…"@
    &&& tr.stage_resampling@ == "Resampling…"@
    &&& tr.stage_separating@ == "Separating…"@
    &&& tr.stage_writing@ == "Writing output…"@
    &&& tr.duration_label@ == "Duration: {:.1}s"@
}

/// `tr` is the string table of `lang`.
pub open spec fn is_table_of(tr: Translations, lang: Language) -> bool {
    match lang {
        Language::Zh => is_zh_table(tr),
        Language::En => is_en_table(tr),
    }
}

/// The string table of a language.
pub fn t(lang: Language) -> (tr: Translations)
    ensures
        is_table_of(tr, lang),
{
    match lang {
        Language::Zh => Translations {
            title: "Audio Separator",
            subtitle: "分离音频中的人声与伴奏",
            input_file: "输入文件：",
            output_dir: "输出目录：",
            browse: "浏览…",
            separate_btn: "分离",
            working: "处理中…",
            input_required: "请选择输入文件",
            drag_drop_hint: "或将文件拖放到此处",
            select_file: "选择音频文件",
            select_output_dir: "选择输出目录",
            completed: "完成！",
            vocals_label: "人声：",
            accomp_label: "伴奏：",
            stage_downloading: "正在下载模型…",
            stage_decoding: "正在解码音频…",
            stage_resampling: "正在重采样…",
            stage_separating: "正在分离…",
            stage_writing: "正在写入…",
            duration_label: "时长：{:.1} 秒",
        },
        Language::En => Translations {
            title: "Audio Separator",
            subtitle: "Separate vocals from background music",
            input_file: "Input file:",
            output_dir: "Output directory:",
            browse: "Browse…",
            separate_btn: "Separate",
            working: "Working…",
            input_required: "Please select an input file",
            drag_drop_hint: "or drag and drop files here",
            select_file: "Select audio file",
            select_output_dir: "Select output directory",
            completed: "Done!",
            vocals_label: "Vocals:",
            accomp_label: "Accompaniment:",
            stage_downloading: "Downloading model…",
            stage_decoding: "Decoding audio…",
            stage_resampling: "Resampling…",
            stage_separating: "Separating…",
            stage_writing: "Writing output…",
            duration_label: "Duration: {:.1}s",
        },
    }
}

/// The other interface language.
pub open spec fn spec_toggled(lang: Language) -> Language {
    match lang {
        Language::Zh => Language::En,
        Language::En => Language::Zh,
    }
}

/// The language that the language button switches to.
pub fn toggled(lang: Language) -> (r: Language)
    ensures
        r == spec_toggled(lang),
{
    match lang {
        Language::Zh => Language::En,
        Language::En => Language::Zh,
    }
}

/// The caption of the language button: the name of the language it switches to.
pub fn toggle_caption(lang: Language) -> (s: &'static str)
    ensures
        lang == Language::Zh ==> s@ == "EN"@,
        lang == Language::En ==> s@ == "中文"@,
{
    match lang {
        Language::Zh => "EN",
        Language::En => "中文",
    }
}

/// Switching the language twice gives back the language one started with.
pub proof fn lemma_toggle_involutive(lang: Language)
    ensures
        spec_toggled(spec_toggled(lang)) == lang,
        spec_toggled(lang) != lang,
{
}

/// The graphical label of a progress stage name: the stage's text in the
/// table, both resampling stages sharing one text, and the generic
/// "working" text for any other name.
pub open spec fn spec_stage_label(stage: Seq<char>, tr: Translations) -> Seq<char> {
    if stage == Stage::DownloadingModel.spec_name() {
        tr.stage_downloading@
    } else if stage == Stage::Decoding.spec_name() {
        tr.stage_decoding@
    } else if stage == Stage::Resampling.spec_name() || stage
        == Stage::ResamplingOutput.spec_name() {
        tr.stage_resampling@
    } else if stage == Stage::Separating.spec_name() {
        tr.stage_separating@
    } else if stage == Stage::Writing.spec_name() {
        tr.stage_writing@
    } else {
        tr.working@
    }
}

/// The text the graphical interface shows for the stage name `stage`.
pub fn stage_label(stage: &str, tr: &Translations) -> (s: &'static str)
    ensures
        s@ == spec_stage_label(stage@, *tr),
{
    let r = Stage::from_name(stage);
    proof {
        crate::stage::lemma_stage_name_round_trip(Stage::DownloadingModel, stage@);
        crate::stage::lemma_stage_name_round_trip(Stage::Decoding, stage@);
        crate::stage::lemma_stage_name_round_trip(Stage::Resampling, stage@);
        crate::stage::lemma_stage_name_round_trip(Stage::Separating, stage@);
        crate::stage::lemma_stage_name_round_trip(Stage::ResamplingOutput, stage@);
        crate::stage::lemma_stage_name_round_trip(Stage::Writing, stage@);
    }
    match r {
        Some(Stage::DownloadingModel) => tr.stage_downloading,
        Some(Stage::Decoding) => tr.stage_decoding,
        Some(Stage::Resampling) => tr.stage_resampling,
        Some(Stage::ResamplingOutput) => tr.stage_resampling,
        Some(Stage::Separating) => tr.stage_separating,
        Some(Stage::Writing) => tr.stage_writing,
        None => tr.working,
    }
}

/// The label the command line prints for a known stage.
pub open spec fn spec_cli_label(st: Stage) -> Seq<char> {
    match st {
        Stage::DownloadingModel => "Downloading model"@,
        Stage::Decoding => "Decoding audio"@,
        Stage::Resampling => "Resampling"@,
        Stage::Separating => "Separating"@,
        Stage::ResamplingOutput => "Resampling output"@,
        Stage::Writing => "Writing output"@,
    }
}

/// The label the command line prints for the stage name `stage`: the
/// stage's own label when the name is known, the name itself otherwise.
pub fn cli_stage_label<'a>(stage: &'a str) -> (s: &'a str)
    ensures
        s@ == match Stage::spec_from_name(stage@) {
            Some(st) => spec_cli_label(st),
            None => stage@,
        },
{
    let r = Stage::from_name(stage);
    match r {
        Some(Stage::DownloadingModel) => "Downloading model",
        Some(Stage::Decoding) => "Decoding audio",
        Some(Stage::Resampling) => "Resampling",
        Some(Stage::Separating) => "Separating",
        Some(Stage::ResamplingOutput) => "Resampling output",
        Some(Stage::Writing) => "Writing output",
        None => stage,
    }
}

} // verus!
