//! Where the separation model comes from: the order in which candidate
//! locations are probed, and the reading of the download size.
use vstd::prelude::*;
use vstd::string::*;
use crate::text::join2;

verus! {

/// File name of the default separation model.
pub const DEFAULT_MODEL_FILENAME: &'static str = "Kim_Vocal_1.onnx";

/// Where the default model is downloaded from.
pub const DEFAULT_MODEL_URL: &'static str = "https://github.com/TRvlvr/model_repo/releases/download/all_public_uvr_models/Kim_Vocal_1.onnx";

/// Directory of the model cache below the user's local data directory.
pub const MODEL_CACHE_APP_DIR: &'static str = "audio-separator";

/// Sub-directory of the application directory that holds models.
pub const MODEL_CACHE_SUBDIR: &'static str = "models";

/// A place where the model file may be found.
#[derive(Clone, Copy, Debug, PartialEq, Eq, Structural)]
pub enum ModelLocation {
    /// The path the user gave.
    Explicit,
    /// The default file name in the working directory.
    WorkingDir,
    /// The default file name in the model cache directory.
    Cache,
}

/// The next thing to do while looking for the model.
#[derive(Clone, Copy, Debug, PartialEq, Eq, Structural)]
pub enum LookupStep {
    /// Check whether the model file exists at this location.
    Probe(ModelLocation),
    /// Use the model file at this location.
    Use(ModelLocation),
    /// The path the user gave does not exist: fail.
    MissingExplicit,
    /// No copy was found: obtain the model into the cache.
    Fetch,
}

/// The first location to check: the user's path when one was given,
/// otherwise the working directory.
pub open spec fn spec_lookup_begin(explicit_given: bool) -> LookupStep {
    if explicit_given {
        LookupStep::Probe(ModelLocation::Explicit)
    } else {
        LookupStep::Probe(ModelLocation::WorkingDir)
    }
}

/// The step after checking `probed`: use it when the file is there;
/// otherwise fail for the user's path, or go on from the working directory
/// to the cache, and from the cache to fetching.
pub open spec fn spec_after_probe(probed: ModelLocation, exists: bool) -> LookupStep {
    if exists {
        LookupStep::Use(probed)
    } else {
        match probed {
            ModelLocation::Explicit => LookupStep::MissingExplicit,
            ModelLocation::WorkingDir => LookupStep::Probe(ModelLocation::Cache),
            ModelLocation::Cache => LookupStep::Fetch,
        }
    }
}

/// The first step of the model lookup.
pub fn lookup_begin(explicit_given: bool) -> (s: LookupStep)
    ensures
        s == spec_lookup_begin(explicit_given),
{
    if explicit_given {
        LookupStep::Probe(ModelLocation::Explicit)
    } else {
        LookupStep::Probe(ModelLocation::WorkingDir)
    }
}

/// The step after learning whether the model file exists at `probed`.
pub fn after_probe(probed: ModelLocation, exists: bool) -> (s: LookupStep)
    ensures
        s == spec_after_probe(probed, exists),
{
    if exists {
        LookupStep::Use(probed)
    } else {
        match probed {
            ModelLocation::Explicit => LookupStep::MissingExplicit,
            ModelLocation::WorkingDir => LookupStep::Probe(ModelLocation::Cache),
            ModelLocation::Cache => LookupStep::Fetch,
        }
    }
}

/// Whether the file exists at `loc`, given the answers for the three locations.
pub open spec fn answer(loc: ModelLocation, explicit_exists: bool, local_exists: bool, cached_exists: bool) -> bool {
    match loc {
        ModelLocation::Explicit => explicit_exists,
        ModelLocation::WorkingDir => local_exists,
        ModelLocation::Cache => cached_exists,
    }
}

/// Runs the lookup for at most `fuel` probes against fixed answers.
pub open spec fn run_lookup(
    step: LookupStep,
    fuel: nat,
    explicit_exists: bool,
    local_exists: bool,
    cached_exists: bool,
) -> LookupStep
    decreases fuel,
{
    match step {
        LookupStep::Probe(loc) => if fuel == 0 {
            step
        } else {
            run_lookup(
                spec_after_probe(loc, answer(loc, explicit_exists, local_exists, cached_exists)),
                (fuel - 1) as nat,
                explicit_exists,
                local_exists,
                cached_exists,
            )
        },
        _ => step,
    }
}

/// The outcome of the lookup: a given path is used if it exists and is an
/// error otherwise, with no fallback; without one, the working directory
/// comes before the cache, and the model is fetched only when neither has it.
pub open spec fn lookup_outcome(
    explicit_given: bool,
    explicit_exists: bool,
    local_exists: bool,
    cached_exists: bool,
) -> LookupStep {
    if explicit_given {
        if explicit_exists {
            LookupStep::Use(ModelLocation::Explicit)
        } else {
            LookupStep::MissingExplicit
        }
    } else if local_exists {
        LookupStep::Use(ModelLocation::WorkingDir)
    } else if cached_exists {
        LookupStep::Use(ModelLocation::Cache)
    } else {
        LookupStep::Fetch
    }
}

/// Following the steps from the start with any answers ends, after at most
/// three probes, in the outcome `lookup_outcome` describes.
pub proof fn lemma_lookup_resolves(
    explicit_given: bool,
    explicit_exists: bool,
    local_exists: bool,
    cached_exists: bool,
)
    ensures
        run_lookup(spec_lookup_begin(explicit_given), 3, explicit_exists, local_exists, cached_exists)
            == lookup_outcome(explicit_given, explicit_exists, local_exists, cached_exists),
        !(lookup_outcome(explicit_given, explicit_exists, local_exists, cached_exists) is Probe),
{
    reveal_with_fuel(run_lookup, 4);
}

/// The error text for a user-given model path that does not exist.
pub fn missing_model_message(path_display: &str) -> (m: String)
    ensures
        m@ == "Model file not found: "@ + path_display@,
{
    join2("Model file not found: ", path_display)
}

/// The decimal value of a sequence of digit characters.
pub open spec fn digits_value(s: Seq<char>) -> nat
    decreases s.len(),
{
    if s.len() == 0 {
        0
    } else {
        digits_value(s.drop_last()) * 10 + (s.last() as nat - '0' as nat) as nat
    }
}

/// Every character is an ASCII decimal digit.
pub open spec fn all_digits(s: Seq<char>) -> bool {
    forall|i: int| 0 <= i < s.len() ==> '0' <= #[trigger] s[i] <= '9'
}

/// The text without one leading `+`.
pub open spec fn unsigned_body(s: Seq<char>) -> Seq<char> {
    if s.len() > 0 && s[0] == '+' {
        s.drop_first()
    } else {
        s
    }
}

/// The value of `s` read as an unsigned 64-bit decimal number: an optional
/// `+` followed by at least one digit and nothing else, within range.
pub open spec fn spec_parse_u64(s: Seq<char>) -> Option<u64> {
    let body = unsigned_body(s);
    if body.len() > 0 && all_digits(body) && digits_value(body) <= u64::MAX {
        Some(digits_value(body) as u64)
    } else {
        None
    }
}

proof fn lemma_digits_value_monotone(s: Seq<char>, i: int)
    requires
        0 <= i <= s.len(),
        all_digits(s),
    ensures
        digits_value(s.take(i)) <= digits_value(s),
    decreases s.len() - i,
{
    if i < s.len() {
        lemma_digits_value_monotone(s, i + 1);
        assert(s.take(i + 1).drop_last() =~= s.take(i));
        assert('0' <= s[i] <= '9');
    } else {
        assert(s.take(i) =~= s);
    }
}

/// The size announced by a `Content-Length` header value, zero when it is
/// not an unsigned 64-bit decimal number.
pub fn parse_content_length(s: &str) -> (n: u64)
    ensures
        n == match spec_parse_u64(s@) {
            Some(v) => v,
            None => 0,
        },
{
    let len = s.unicode_len();
    let mut start: usize = 0;
    if len > 0 && s.get_char(0) == '+' {
        start = 1;
    }
    let ghost body = unsigned_body(s@);
    assert(body =~= s@.subrange(start as int, len as int));
    if start >= len {
        return 0;
    }
    let mut value: u64 = 0;
    let mut i: usize = start;
    while i < len
        invariant
            len == s@.len(),
            start <= i <= len,
            body == s@.subrange(start as int, len as int),
            body == unsigned_body(s@),
            all_digits(body.take(i - start)),
            value == digits_value(body.take(i - start)),
        decreases len - i,
    {
        let c = s.get_char(i);
        assert(c == body[i - start]);
        assert(body.take(i - start + 1).drop_last() =~= body.take(i - start));
        if c < '0' || c > '9' {
            assert(!('0' <= body[i - start] <= '9'));
            assert(!all_digits(body));
            return 0;
        }
        let d = (c as u32 - '0' as u32) as u64;
        proof {
            let t = body.take(i - start + 1);
            assert(t.last() == c);
            assert(t.drop_last() =~= body.take(i - start));
            assert(digits_value(t) == value * 10 + d);
            assert(all_digits(t));
        }
        match value.checked_mul(10) {
            Some(v10) => match v10.checked_add(d) {
                Some(v) => {
                    value = v;
                },
                None => {
                    proof {
                        assert(all_digits(body.take(i - start + 1)));
                        if all_digits(body) {
                            lemma_digits_value_monotone(body, i - start + 1);
                        }
                    }
                    return 0;
                },
            },
            None => {
                proof {
                    assert(all_digits(body.take(i - start + 1)));
                    if all_digits(body) {
                        lemma_digits_value_monotone(body, i - start + 1);
                    }
                }
                return 0;
            },
        }
        i = i + 1;
    }
    assert(body.take(len - start) =~= body);
    value
}

/// The byte count of a download in progress.
#[derive(Clone, Copy, Debug, PartialEq, Eq, Structural)]
pub struct DownloadProgress {
    pub downloaded: u64,
    pub total: u64,
}

impl DownloadProgress {
    /// A download of `total` announced bytes (zero when unknown), none received yet.
    pub fn start(total: u64) -> (p: Self)
        ensures
            p.downloaded == 0,
            p.total == total,
    {
        DownloadProgress { downloaded: 0, total }
    }

    /// Records `n` more received bytes.
    pub fn record(&mut self, n: u64)
        requires
            old(self).downloaded + n <= u64::MAX,
        ensures
            final(self).downloaded == old(self).downloaded + n,
            final(self).total == old(self).total,
    {
        self.downloaded = self.downloaded + n;
    }
}

} // verus!
