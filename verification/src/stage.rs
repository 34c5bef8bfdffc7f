//! The named stages through which a separation job reports progress.
use vstd::prelude::*;
use crate::text::str_eq;

verus! {

/// A stage of the separation pipeline, as reported to progress listeners.
#[derive(Clone, Copy, Debug, PartialEq, Eq, Structural)]
pub enum Stage {
    DownloadingModel,
    Decoding,
    Resampling,
    Separating,
    ResamplingOutput,
    Writing,
}

impl Stage {
    /// The wire name of a stage.
    pub open spec fn spec_name(self) -> Seq<char> {
        match self {
            Stage::DownloadingModel => "downloading_model"@,
            Stage::Decoding => "decoding"@,
            Stage::Resampling => "resampling"@,
            Stage::Separating => "separating"@,
            Stage::ResamplingOutput => "resampling_output"@,
            Stage::Writing => "writing"@,
        }
    }

    /// The wire name of this stage, as carried in progress updates.
    pub fn name(&self) -> (s: &'static str)
        ensures
            s@ == self.spec_name(),
    {
        match self {
            Stage::DownloadingModel => "downloading_model",
            Stage::Decoding => "decoding",
            Stage::Resampling => "resampling",
            Stage::Separating => "separating",
            Stage::ResamplingOutput => "resampling_output",
            Stage::Writing => "writing",
        }
    }

    /// The stage whose wire name is `s`, if any.
    pub open spec fn spec_from_name(s: Seq<char>) -> Option<Stage> {
        if s == Stage::DownloadingModel.spec_name() {
            Some(Stage::DownloadingModel)
        } else if s == Stage::Decoding.spec_name() {
            Some(Stage::Decoding)
        } else if s == Stage::Resampling.spec_name() {
            Some(Stage::Resampling)
        } else if s == Stage::Separating.spec_name() {
            Some(Stage::Separating)
        } else if s == Stage::ResamplingOutput.spec_name() {
            Some(Stage::ResamplingOutput)
        } else if s == Stage::Writing.spec_name() {
            Some(Stage::Writing)
        } else {
            None
        }
    }

    /// The stage whose wire name is `s`, if any.
    pub fn from_name(s: &str) -> (r: Option<Stage>)
        ensures
            r == Stage::spec_from_name(s@),
    {
        if str_eq(s, "downloading_model") {
            Some(Stage::DownloadingModel)
        } else if str_eq(s, "decoding") {
            Some(Stage::Decoding)
        } else if str_eq(s, "resampling") {
            Some(Stage::Resampling)
        } else if str_eq(s, "separating") {
            Some(Stage::Separating)
        } else if str_eq(s, "resampling_output") {
            Some(Stage::ResamplingOutput)
        } else if str_eq(s, "writing") {
            Some(Stage::Writing)
        } else {
            None
        }
    }
}

/// Distinct stages have distinct wire names.
pub proof fn lemma_stage_names_distinct(a: Stage, b: Stage)
    requires
        a != b,
    ensures
        a.spec_name() != b.spec_name(),
{
    reveal_strlit("downloading_model");
    reveal_strlit("decoding");
    reveal_strlit("resampling");
    reveal_strlit("separating");
    reveal_strlit("resampling_output");
    reveal_strlit("writing");
    if a.spec_name() == b.spec_name() {
        let x = a.spec_name();
        let y = b.spec_name();
        assert(x.len() == y.len());
        assert(x[0] == y[0]);
    }
}

/// Reading back the wire name of a stage gives that stage, and a name that
/// is read as a stage is that stage's wire name.
pub proof fn lemma_stage_name_round_trip(st: Stage, s: Seq<char>)
    ensures
        Stage::spec_from_name(st.spec_name()) == Some(st),
        Stage::spec_from_name(s) matches Some(x) ==> x.spec_name() == s,
        Stage::spec_from_name(s) is None ==> forall|x: Stage| #[trigger] x.spec_name() != s,
{
    assert forall|x: Stage| x != st implies #[trigger] x.spec_name() != st.spec_name() by {
        lemma_stage_names_distinct(x, st);
    }
    assert(Stage::spec_from_name(s) is None ==> forall|x: Stage| #[trigger] x.spec_name() != s) by {
        if Stage::spec_from_name(s) is None {
            assert forall|x: Stage| #[trigger] x.spec_name() != s by {
                match x {
                    Stage::DownloadingModel => {},
                    Stage::Decoding => {},
                    Stage::Resampling => {},
                    Stage::Separating => {},
                    Stage::ResamplingOutput => {},
                    Stage::Writing => {},
                }
            }
        }
    }
}

} // verus!
