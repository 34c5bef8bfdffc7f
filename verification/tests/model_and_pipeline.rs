use audio_separator::model_lookup::{
    after_probe, lookup_begin, missing_model_message, parse_content_length, DownloadProgress,
    LookupStep, ModelLocation, DEFAULT_MODEL_FILENAME,
};
use audio_separator::pipeline::{
    download_progress, output_file_names, output_names_for_stem, separation_progress, Command,
    Event, Job, Phase, Pipeline, Progress, WORK_RATE,
};
use audio_separator::stage::Stage;

fn run_lookup(explicit: bool, answers: [bool; 3]) -> (LookupStep, usize) {
    let mut step = lookup_begin(explicit);
    let mut probes = 0;
    while let LookupStep::Probe(loc) = step {
        probes += 1;
        let exists = match loc {
            ModelLocation::Explicit => answers[0],
            ModelLocation::WorkingDir => answers[1],
            ModelLocation::Cache => answers[2],
        };
        step = after_probe(loc, exists);
    }
    (step, probes)
}

#[test]
fn explicit_model_path_has_no_fallback() {
    assert_eq!(run_lookup(true, [true, true, true]), (LookupStep::Use(ModelLocation::Explicit), 1));
    assert_eq!(run_lookup(true, [false, true, true]), (LookupStep::MissingExplicit, 1));
}

#[test]
fn working_dir_before_cache_before_fetch() {
    assert_eq!(run_lookup(false, [false, true, true]), (LookupStep::Use(ModelLocation::WorkingDir), 1));
    assert_eq!(run_lookup(false, [false, false, true]), (LookupStep::Use(ModelLocation::Cache), 2));
    assert_eq!(run_lookup(false, [true, false, false]), (LookupStep::Fetch, 2));
    assert_eq!(DEFAULT_MODEL_FILENAME, "Kim_Vocal_1.onnx");
}

#[test]
fn missing_model_text() {
    assert_eq!(missing_model_message("/m/x.onnx"), "Model file not found: /m/x.onnx");
}

#[test]
fn content_length_agrees_with_std() {
    let cases = [
        "12345", "+7", "", "+", "-1", "-0", "0", "007", "18446744073709551615",
        "18446744073709551616", "99999999999999999999999", "12a", " 12", "12 ", "++1", "٣",
    ];
    for s in cases {
        assert_eq!(parse_content_length(s), s.parse::<u64>().ok().unwrap_or(0), "{:?}", s);
    }
    assert_eq!(parse_content_length("18446744073709551615"), u64::MAX);
    assert_eq!(parse_content_length("+42"), 42);
}

#[test]
fn download_progress_counts_bytes() {
    let mut p = DownloadProgress::start(1000);
    p.record(400);
    p.record(600);
    assert_eq!(p, DownloadProgress { downloaded: 1000, total: 1000 });
    assert_eq!(download_progress(300, 1000), Progress { stage: Stage::DownloadingModel, done: 300, total: 1000 });
    assert_eq!(download_progress(300, 0), Progress { stage: Stage::DownloadingModel, done: 0, total: 1 });
}

fn run_pipeline(rate: u32) -> Vec<Command> {
    let mut p = Pipeline::new();
    let mut out = Vec::new();
    loop {
        let c = p.command();
        out.push(c);
        if let Command::Finish { .. } = c {
            break;
        }
        let ev = if p.phase == Phase::Decode {
            Event::Decoded { sample_rate: rate }
        } else {
            Event::Done
        };
        p.advance(ev);
    }
    out
}

fn report(stage: Stage, done: u64, total: u64) -> Command {
    Command::Report(Progress { stage, done, total })
}

#[test]
fn pipeline_at_working_rate_skips_resampling() {
    let trace = run_pipeline(WORK_RATE);
    assert_eq!(
        trace,
        vec![
            report(Stage::DownloadingModel, 0, 1),
            Command::Run(Job::EnsureModel),
            report(Stage::Decoding, 0, 1),
            Command::Run(Job::Decode),
            report(Stage::Decoding, 1, 1),
            report(Stage::Separating, 0, 1),
            Command::Run(Job::LoadSeparator),
            Command::Run(Job::Separate),
            report(Stage::Writing, 0, 1),
            Command::Run(Job::CreateOutputDir),
            Command::Run(Job::WriteVocals),
            report(Stage::Writing, 1, 2),
            Command::Run(Job::WriteAccompaniment),
            report(Stage::Writing, 1, 1),
            Command::Finish { sample_rate: 44100 },
        ]
    );
}

#[test]
fn pipeline_resamples_there_and_back() {
    let trace = run_pipeline(48000);
    assert_eq!(trace.len(), 22);
    assert_eq!(trace[6], Command::Run(Job::ResampleInput { from: 48000, to: 44100 }));
    assert_eq!(trace[12], Command::Run(Job::ResampleVocals { from: 44100, to: 48000 }));
    assert_eq!(trace[13], Command::Run(Job::ResampleAccompaniment { from: 44100, to: 48000 }));
    assert_eq!(trace[21], Command::Finish { sample_rate: 48000 });
    for c in &trace {
        if let Command::Report(p) = c {
            assert!(p.total > 0 && p.done <= p.total);
        }
    }
}

#[test]
fn separation_progress_counts_windows() {
    assert_eq!(separation_progress(0, 4), Progress { stage: Stage::Separating, done: 1, total: 4 });
    assert_eq!(separation_progress(3, 4), Progress { stage: Stage::Separating, done: 4, total: 4 });
}

#[test]
fn output_names_from_stem() {
    let (v, a) = output_names_for_stem("song");
    assert_eq!(v, "song_vocals.wav");
    assert_eq!(a, "song_accompaniment.wav");
    assert_ne!(v, a);
}

#[test]
fn output_names_from_path() {
    assert_eq!(
        output_file_names("/music/live.take2.mp3"),
        ("live.take2_vocals.wav".to_string(), "live.take2_accompaniment.wav".to_string())
    );
    assert_eq!(
        output_file_names("track.flac"),
        ("track_vocals.wav".to_string(), "track_accompaniment.wav".to_string())
    );
    assert_eq!(output_file_names(""), ("_vocals.wav".to_string(), "_accompaniment.wav".to_string()));
}
