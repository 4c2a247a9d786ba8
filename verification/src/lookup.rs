//! Where the app looks for the files that it works with, and which of them it
//! takes.

use vstd::prelude::*;

verus! {

/// The position of the first file that is on disk.
pub open spec fn first_found(on_disk: Seq<bool>) -> Option<int>
    decreases on_disk.len(),
{
    if on_disk.len() == 0 {
        None
    } else {
        match first_found(on_disk.drop_last()) {
            Some(i) => Some(i),
            None => if on_disk.last() {
                Some(on_disk.len() - 1)
            } else {
                None
            },
        }
    }
}

/// The first file found is on disk, and none before it is; nothing is found only
/// if nothing is on disk.
pub proof fn law_first_found(on_disk: Seq<bool>)
    ensures
        match first_found(on_disk) {
            Some(i) => 0 <= i < on_disk.len() && on_disk[i] && forall|j: int|
                0 <= j < i ==> !#[trigger] on_disk[j],
            None => forall|j: int| 0 <= j < on_disk.len() ==> !#[trigger] on_disk[j],
        },
    decreases on_disk.len(),
{
    if on_disk.len() > 0 {
        let fewer = on_disk.drop_last();
        law_first_found(fewer);
        match first_found(fewer) {
            Some(i) => {
                assert(fewer[i] == on_disk[i]);
                assert forall|j: int| 0 <= j < i implies !#[trigger] on_disk[j] by {
                    assert(fewer[j] == on_disk[j]);
                }
            },
            None => {
                assert forall|j: int| 0 <= j < fewer.len() implies !#[trigger] on_disk[j] by {
                    assert(fewer[j] == on_disk[j]);
                }
            },
        }
    }
}

/// The position of the first file that is on disk.
pub fn find_first(on_disk: &Vec<bool>) -> (r: Option<usize>)
    ensures
        match r {
            Some(i) => first_found(on_disk@) == Some(i as int),
            None => first_found(on_disk@) is None,
        },
{
    let mut i: usize = 0;
    assert(first_found(on_disk@.take(0)) is None);
    while i < on_disk.len()
        invariant
            i <= on_disk@.len(),
            first_found(on_disk@.take(i as int)) is None,
        decreases on_disk@.len() - i,
    {
        assert(on_disk@.take(i + 1).drop_last() =~= on_disk@.take(i as int));
        if on_disk[i] {
            proof {
                lemma_found_stays(on_disk@, i + 1);
            }
            return Some(i);
        }
        i = i + 1;
    }
    assert(on_disk@.take(on_disk@.len() as int) =~= on_disk@);
    None
}

/// What is found first stays so, whatever comes after it.
proof fn lemma_found_stays(on_disk: Seq<bool>, n: int)
    requires
        0 <= n <= on_disk.len(),
        first_found(on_disk.take(n)) is Some,
    ensures
        first_found(on_disk) == first_found(on_disk.take(n)),
    decreases on_disk.len() - n,
{
    if n < on_disk.len() {
        assert(on_disk.take(n + 1).drop_last() =~= on_disk.take(n));
        lemma_found_stays(on_disk, n + 1);
    } else {
        assert(on_disk.take(n) =~= on_disk);
    }
}

/// The directory that a file is looked for in.
#[derive(Clone, Copy, Debug, PartialEq, Eq, Structural)]
pub enum Place {
    /// The resources that the app was shipped with.
    Resources,
    /// The app's own data directory.
    AppData,
    /// The directory that the query engine's script is in.
    BesideWorker,
    /// The directory that the app was started in.
    WorkingDir,
    /// The directories in which the system finds commands.
    CommandPath,
}

/// A file to look for.
#[derive(Debug, PartialEq, Eq)]
pub struct Spot {
    pub place: Place,
    pub relative: String,
}

#[verifier::ext_equal]
pub struct SpotView {
    pub place: Place,
    pub relative: Seq<char>,
}

impl DeepView for Spot {
    type V = SpotView;

    open spec fn deep_view(&self) -> SpotView {
        SpotView { place: self.place, relative: self.relative@ }
    }
}

/// A file that the app looks for.
#[derive(Clone, Copy, Debug, PartialEq, Eq, Structural)]
pub enum Wanted {
    /// The query engine's script.
    Worker,
    /// The Python interpreter that runs it.
    Python,
    /// The installer of the Python environment.
    Uv,
    /// The list of the packages to install.
    Requirements,
    /// The defaults that a team ships its app with.
    TeamConfig,
}

/// Where a file is looked for, the places that come first being preferred.
pub open spec fn spots(wanted: Wanted) -> Seq<SpotView> {
    match wanted {
        Wanted::Worker => seq![
            SpotView { place: Place::WorkingDir, relative: "../sidecar/paperdock_worker.py"@ },
            SpotView { place: Place::WorkingDir, relative: "sidecar/paperdock_worker.py"@ },
            SpotView { place: Place::Resources, relative: "paperdock_worker.py"@ },
        ],
        Wanted::Python => seq![
            SpotView { place: Place::AppData, relative: "pyenv/bin/python"@ },
            SpotView { place: Place::BesideWorker, relative: ".venv/bin/python"@ },
        ],
        Wanted::Uv => seq![
            SpotView { place: Place::Resources, relative: "bin/uv"@ },
            SpotView { place: Place::WorkingDir, relative: "src-tauri/bin/uv"@ },
            SpotView { place: Place::WorkingDir, relative: "bin/uv"@ },
            SpotView { place: Place::CommandPath, relative: "uv"@ },
        ],
        Wanted::Requirements => seq![
            SpotView { place: Place::Resources, relative: "requirements.lock"@ },
            SpotView { place: Place::WorkingDir, relative: "sidecar/requirements.lock"@ },
            SpotView { place: Place::WorkingDir, relative: "../sidecar/requirements.lock"@ },
        ],
        Wanted::TeamConfig => seq![
            SpotView { place: Place::Resources, relative: "team_config.json"@ },
            SpotView { place: Place::WorkingDir, relative: "team_config.json"@ },
            SpotView { place: Place::WorkingDir, relative: "src-tauri/team_config.json"@ },
        ],
    }
}

fn spot(place: Place, relative: &str) -> (r: Spot)
    ensures
        r.deep_view() == (SpotView { place, relative: relative@ }),
{
    Spot { place, relative: relative.to_string() }
}

/// Where a file is looked for, the places that come first being preferred.
pub fn spots_for(wanted: Wanted) -> (r: Vec<Spot>)
    ensures
        r.deep_view() == spots(wanted),
{
    let r = match wanted {
        Wanted::Worker => vec![
            spot(Place::WorkingDir, "../sidecar/paperdock_worker.py"),
            spot(Place::WorkingDir, "sidecar/paperdock_worker.py"),
            spot(Place::Resources, "paperdock_worker.py"),
        ],
        Wanted::Python => vec![
            spot(Place::AppData, "pyenv/bin/python"),
            spot(Place::BesideWorker, ".venv/bin/python"),
        ],
        Wanted::Uv => vec![
            spot(Place::Resources, "bin/uv"),
            spot(Place::WorkingDir, "src-tauri/bin/uv"),
            spot(Place::WorkingDir, "bin/uv"),
            spot(Place::CommandPath, "uv"),
        ],
        Wanted::Requirements => vec![
            spot(Place::Resources, "requirements.lock"),
            spot(Place::WorkingDir, "sidecar/requirements.lock"),
            spot(Place::WorkingDir, "../sidecar/requirements.lock"),
        ],
        Wanted::TeamConfig => vec![
            spot(Place::Resources, "team_config.json"),
            spot(Place::WorkingDir, "team_config.json"),
            spot(Place::WorkingDir, "src-tauri/team_config.json"),
        ],
    };
    assert(r.deep_view() =~= spots(wanted));
    r
}

/// The place to start the query engine from: the first at which its script was
/// found, or the most preferred where it was found nowhere.
pub fn resolve_worker(on_disk: &Vec<bool>) -> (r: usize)
    ensures
        r == match first_found(on_disk@) {
            Some(i) => i,
            None => 0,
        },
{
    match find_first(on_disk) {
        Some(i) => i,
        None => 0,
    }
}

/// Is there an interpreter to run the query engine? If not, the first-run setup is
/// needed.
pub fn env_ready(on_disk: &Vec<bool>) -> (r: bool)
    ensures
        r == exists|i: int| 0 <= i < on_disk@.len() && on_disk@[i],
{
    proof {
        law_first_found(on_disk@);
    }
    find_first(on_disk).is_some()
}

/// The command that runs the query engine: the interpreter that was found, or the
/// system's own.
pub fn interpreter(found: Option<String>) -> (r: String)
    ensures
        r@ == match found {
            Some(path) => path@,
            None => "python3"@,
        },
{
    match found {
        Some(path) => path,
        None => "python3".to_string(),
    }
}

} // verus!
