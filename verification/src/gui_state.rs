//! The state of the graphical interface and how it reacts to the user and
//! to the background job; drawing and the background threads belong to
//! the application.
use vstd::prelude::*;
use crate::i18n::{Language, t, spec_toggled, toggled};
use crate::paths::{parent_of, path_parent};

verus! {

/// Where the separation job stands, as shown to the user.
pub enum GuiStatus<R> {
    Idle,
    Running,
    Succeeded(R),
    Failed(String),
}

/// The interface state: the two paths being edited, the language, the
/// job's status and the name of the stage last reported.
pub struct GuiState<R> {
    pub input_path: String,
    pub output_dir: String,
    pub lang: Language,
    pub status: GuiStatus<R>,
    pub progress_stage: String,
}

/// The output directory after choosing the input `input`: an empty output
/// directory is filled with the input's parent, when it has one.
pub open spec fn populated_output(output_dir: Seq<char>, input: Seq<char>) -> Seq<char> {
    if output_dir.len() == 0 {
        match path_parent(input) {
            Some(p) => p,
            None => output_dir,
        }
    } else {
        output_dir
    }
}

/// The output directory used for a job: the one entered, or else the
/// input's parent, or else the working directory.
pub open spec fn job_output_dir(output_dir: Seq<char>, input: Seq<char>) -> Seq<char> {
    if output_dir.len() == 0 {
        match path_parent(input) {
            Some(p) => p,
            None => "."@,
        }
    } else {
        output_dir
    }
}

/// The error shown when a job is requested without an input path.
pub open spec fn input_required_text(lang: Language) -> Seq<char> {
    match lang {
        Language::Zh => "请选择输入文件"@,
        Language::En => "Please select an input file"@,
    }
}

impl<R> GuiState<R> {
    /// The state at start-up: nothing entered, Chinese, idle.
    pub fn new() -> (s: Self)
        ensures
            s.input_path@.len() == 0,
            s.output_dir@.len() == 0,
            s.lang == Language::Zh,
            s.status is Idle,
            s.progress_stage@.len() == 0,
    {
        GuiState {
            input_path: String::new(),
            output_dir: String::new(),
            lang: Language::Zh,
            status: GuiStatus::Idle,
            progress_stage: String::new(),
        }
    }

    /// A job is running.
    pub fn is_running(&self) -> (r: bool)
        ensures
            r == (self.status is Running),
    {
        match self.status {
            GuiStatus::Running => true,
            _ => false,
        }
    }

    /// Fills an empty output directory with the parent of the input path.
    pub fn auto_populate_output(&mut self)
        ensures
            final(self).output_dir@ == populated_output(old(self).output_dir@, old(self).input_path@),
            final(self).input_path == old(self).input_path,
            final(self).lang == old(self).lang,
            final(self).status == old(self).status,
            final(self).progress_stage == old(self).progress_stage,
    {
        if self.output_dir.as_str().is_empty() {
            match parent_of(self.input_path.as_str()) {
                Some(p) => {
                    self.output_dir = p;
                },
                None => {},
            }
        }
    }

    /// The file chooser for the input returned: a chosen file becomes the input.
    pub fn input_picked(&mut self, picked: Option<String>)
        ensures
            picked matches Some(p) ==> final(self).input_path == p && final(self).output_dir@
                == populated_output(old(self).output_dir@, p@),
            picked is None ==> final(self).input_path == old(self).input_path
                && final(self).output_dir == old(self).output_dir,
            final(self).lang == old(self).lang,
            final(self).status == old(self).status,
            final(self).progress_stage == old(self).progress_stage,
    {
        match picked {
            Some(p) => {
                self.input_path = p;
                self.auto_populate_output();
            },
            None => {},
        }
    }

    /// The folder chooser for the output returned: a chosen folder becomes the output directory.
    pub fn output_picked(&mut self, picked: Option<String>)
        ensures
            picked matches Some(p) ==> final(self).output_dir == p,
            picked is None ==> final(self).output_dir == old(self).output_dir,
            final(self).input_path == old(self).input_path,
            final(self).lang == old(self).lang,
            final(self).status == old(self).status,
            final(self).progress_stage == old(self).progress_stage,
    {
        match picked {
            Some(p) => {
                self.output_dir = p;
            },
            None => {},
        }
    }

    /// A file was dropped on the window: it becomes the input.
    pub fn file_dropped(&mut self, path: String)
        ensures
            final(self).input_path == path,
            final(self).output_dir@ == populated_output(old(self).output_dir@, path@),
            final(self).lang == old(self).lang,
            final(self).status == old(self).status,
            final(self).progress_stage == old(self).progress_stage,
    {
        self.input_path = path;
        self.auto_populate_output();
    }

    /// The job reported progress in stage `stage`.
    pub fn progress_reported(&mut self, stage: String)
        ensures
            final(self).progress_stage == stage,
            final(self).input_path == old(self).input_path,
            final(self).output_dir == old(self).output_dir,
            final(self).lang == old(self).lang,
            final(self).status == old(self).status,
    {
        self.progress_stage = stage;
    }

    /// The job ended with `outcome`.
    pub fn job_finished(&mut self, outcome: Result<R, String>)
        ensures
            outcome matches Ok(r) ==> final(self).status == GuiStatus::Succeeded(r),
            outcome matches Err(e) ==> final(self).status == GuiStatus::<R>::Failed(e),
            final(self).input_path == old(self).input_path,
            final(self).output_dir == old(self).output_dir,
            final(self).lang == old(self).lang,
            final(self).progress_stage == old(self).progress_stage,
    {
        self.status = match outcome {
            Ok(r) => GuiStatus::Succeeded(r),
            Err(e) => GuiStatus::Failed(e),
        };
    }

    /// The language button was pressed.
    pub fn toggle_language(&mut self)
        ensures
            final(self).lang == spec_toggled(old(self).lang),
            final(self).input_path == old(self).input_path,
            final(self).output_dir == old(self).output_dir,
            final(self).status == old(self).status,
            final(self).progress_stage == old(self).progress_stage,
    {
        self.lang = toggled(self.lang);
    }

    /// The separate button was pressed. While a job runs nothing happens:
    /// one job at a time. Otherwise, without an input path the status
    /// becomes the "input required" error of the current language and no
    /// job starts; with one the job is running, the stage is cleared, and
    /// the input path and output directory for the job are returned.
    pub fn start_requested(&mut self) -> (job: Option<(String, String)>)
        ensures
            old(self).status is Running ==> job is None && *final(self) == *old(self),
            !(old(self).status is Running) && old(self).input_path@.len() == 0 ==> job is None,
            !(old(self).status is Running) && old(self).input_path@.len() == 0
                ==> (final(self).status matches GuiStatus::Failed(e)
                && e@ == input_required_text(old(self).lang)),
            !(old(self).status is Running) && old(self).input_path@.len() == 0
                ==> final(self).progress_stage == old(self).progress_stage,
            !(old(self).status is Running) && old(self).input_path@.len() != 0
                ==> (job matches Some(j) && j.0@ == old(self).input_path@
                && j.1@ == job_output_dir(old(self).output_dir@, old(self).input_path@)),
            !(old(self).status is Running) && old(self).input_path@.len() != 0
                ==> final(self).status is Running && final(self).progress_stage@.len() == 0,
            final(self).input_path == old(self).input_path,
            final(self).output_dir == old(self).output_dir,
            final(self).lang == old(self).lang,
    {
        if self.is_running() {
            return None;
        }
        if self.input_path.as_str().is_empty() {
            let tr = t(self.lang);
            self.status = GuiStatus::Failed(String::from_str(tr.input_required));
            None
        } else {
            let input = self.input_path.clone();
            let out = if self.output_dir.as_str().is_empty() {
                match parent_of(self.input_path.as_str()) {
                    Some(p) => p,
                    None => {
                        proof {
                            reveal_strlit(".");
                        }
                        String::from_str(".")
                    },
                }
            } else {
                self.output_dir.clone()
            };
            self.status = GuiStatus::Running;
            self.progress_stage = String::new();
            Some((input, out))
        }
    }
}

} // verus!
