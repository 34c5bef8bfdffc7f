//! Where to look for the ONNX Runtime shared library, and the command-line
//! decision between the graphical and the batch interface.
use vstd::prelude::*;

verus! {

/// The operating system the program runs on, as far as library lookup cares.
#[derive(Clone, Copy, Debug, PartialEq, Eq, Structural)]
pub enum TargetOs {
    Windows,
    MacOs,
    Other,
}

/// A place to look for the runtime library.
#[derive(Clone, Copy, Debug)]
pub enum LibCandidate {
    /// This path relative to the directory of the executable.
    NearExe(&'static str),
    /// This absolute path.
    Absolute(&'static str),
}

/// The file name of the runtime library on `os`.
pub fn native_library_name(os: TargetOs) -> (s: &'static str)
    ensures
        os == TargetOs::Windows ==> s@ == "onnxruntime.dll"@,
        os == TargetOs::MacOs ==> s@ == "libonnxruntime.dylib"@,
        os == TargetOs::Other ==> s@ == "libonnxruntime.so"@,
{
    match os {
        TargetOs::Windows => "onnxruntime.dll",
        TargetOs::MacOs => "libonnxruntime.dylib",
        TargetOs::Other => "libonnxruntime.so",
    }
}

/// The view of a candidate: whether it is relative to the executable, and its path.
pub open spec fn candidate_view(c: LibCandidate) -> (bool, Seq<char>) {
    match c {
        LibCandidate::NearExe(p) => (true, p@),
        LibCandidate::Absolute(p) => (false, p@),
    }
}

/// The places searched on `os`, in order: an application bundle's
/// framework directory, the executable's directory and Homebrew's two
/// prefixes on macOS; the executable's directory on Windows; elsewhere the
/// executable's directory, then the system and the local library directory.
pub open spec fn spec_library_candidates(os: TargetOs) -> Seq<(bool, Seq<char>)> {
    match os {
        TargetOs::MacOs => seq![
            (true, "../Frameworks/libonnxruntime.dylib"@),
            (true, "libonnxruntime.dylib"@),
            (false, "/opt/homebrew/lib/libonnxruntime.dylib"@),
            (false, "/usr/local/lib/libonnxruntime.dylib"@),
        ],
        TargetOs::Windows => seq![(true, "onnxruntime.dll"@)],
        TargetOs::Other => seq![
            (true, "libonnxruntime.so"@),
            (false, "/usr/lib/libonnxruntime.so"@),
            (false, "/usr/local/lib/libonnxruntime.so"@),
        ],
    }
}

/// The places to look for the runtime library on `os`, in search order.
pub fn library_candidates(os: TargetOs) -> (v: Vec<LibCandidate>)
    ensures
        v@.map_values(|c: LibCandidate| candidate_view(c)) == spec_library_candidates(os),
{
    let mut v: Vec<LibCandidate> = Vec::new();
    match os {
        TargetOs::MacOs => {
            v.push(LibCandidate::NearExe("../Frameworks/libonnxruntime.dylib"));
            v.push(LibCandidate::NearExe("libonnxruntime.dylib"));
            v.push(LibCandidate::Absolute("/opt/homebrew/lib/libonnxruntime.dylib"));
            v.push(LibCandidate::Absolute("/usr/local/lib/libonnxruntime.dylib"));
        },
        TargetOs::Windows => {
            v.push(LibCandidate::NearExe("onnxruntime.dll"));
        },
        TargetOs::Other => {
            v.push(LibCandidate::NearExe("libonnxruntime.so"));
            v.push(LibCandidate::Absolute("/usr/lib/libonnxruntime.so"));
            v.push(LibCandidate::Absolute("/usr/local/lib/libonnxruntime.so"));
        },
    }
    assert(v@.map_values(|c: LibCandidate| candidate_view(c)) =~= spec_library_candidates(os));
    v
}

/// The position of the first usable candidate, given for each candidate
/// whether it exists with a path representable as text.
pub fn first_usable(usable: &[bool]) -> (r: Option<usize>)
    ensures
        r matches Some(i) ==> i < usable@.len() && usable@[i as int] && forall|j: int|
            0 <= j < i ==> !usable@[j],
        r is None ==> forall|j: int| 0 <= j < usable@.len() ==> !usable@[j],
{
    let mut i: usize = 0;
    while i < usable.len()
        invariant
            i <= usable@.len(),
            forall|j: int| 0 <= j < i ==> !usable@[j],
        decreases usable@.len() - i,
    {
        if usable[i] {
            return Some(i);
        }
        i = i + 1;
    }
    None
}

/// The graphical interface is started when asked for, or when no input file is given.
pub fn wants_gui(gui_flag: bool, has_input: bool) -> (r: bool)
    ensures
        r == (gui_flag || !has_input),
{
    gui_flag || !has_input
}

} // verus!
