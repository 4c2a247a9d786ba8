//! The first-run setup of the Python environment that the query engine runs in.

use crate::text;
use vstd::prelude::*;

verus! {

// ---- free space -----------------------------------------------------------

/// The room that the setup needs, in bytes.
pub const NEED: u64 = 1_500_000_000;

/// What follows the first line feed, if there is one.
pub open spec fn after_line(s: Seq<char>) -> Option<Seq<char>>
    decreases s.len(),
{
    if s.len() == 0 {
        None
    } else if s[0] == '\n' {
        Some(s.drop_first())
    } else {
        after_line(s.drop_first())
    }
}

/// What stands before the first line feed.
pub open spec fn first_line(s: Seq<char>) -> Seq<char>
    decreases s.len(),
{
    if s.len() == 0 || s[0] == '\n' {
        Seq::empty()
    } else {
        seq![s[0]] + first_line(s.drop_first())
    }
}

/// The fourth word on the second line of what `df -Pk` prints: the free space of
/// the volume in kibibytes.
pub open spec fn free_kibibytes(printed: Seq<char>) -> Option<nat> {
    match after_line(printed) {
        Some(rest) => {
            let words = text::words(first_line(rest));
            if words.len() > 3 {
                text::unsigned_value(words[3], u64::MAX as nat)
            } else {
                None
            }
        },
        None => None,
    }
}

/// The free space of a volume in bytes, going by what `df -Pk` prints. More than a
/// `u64` holds counts as the most that it holds.
pub open spec fn free_space(printed: Seq<char>) -> Option<nat> {
    match free_kibibytes(printed) {
        Some(n) => if n * 1024 > u64::MAX {
            Some(u64::MAX as nat)
        } else {
            Some(n * 1024)
        },
        None => None,
    }
}

/// The second line, if there is one.
fn second_line(s: &str) -> (r: Option<String>)
    ensures
        r.deep_view() == match after_line(s@) {
            Some(rest) => Some(first_line(rest)),
            None => None,
        },
{
    let chars = text::chars_of(s);
    let mut start: usize = 0;
    assert(s@.skip(0) =~= s@);
    while start < chars.len() && chars[start] != '\n'
        invariant
            start <= chars@.len(),
            chars@ == s@,
            after_line(s@) == after_line(s@.skip(start as int)),
        decreases chars@.len() - start,
    {
        assert(s@.skip(start as int).drop_first() =~= s@.skip(start + 1));
        start = start + 1;
    }
    if start == chars.len() {
        return None;
    }
    let ghost rest = s@.skip(start + 1);
    assert(s@.skip(start as int).drop_first() =~= rest);
    let mut line = String::new();
    let mut i: usize = start + 1;
    assert(first_line(rest) =~= line@ + first_line(s@.skip(i as int)));
    while i < chars.len() && chars[i] != '\n'
        invariant
            i <= chars@.len(),
            chars@ == s@,
            first_line(rest) == line@ + first_line(s@.skip(i as int)),
        decreases chars@.len() - i,
    {
        let ghost before = line@;
        assert(s@.skip(i as int).drop_first() =~= s@.skip(i + 1));
        line.push(chars[i]);
        assert(first_line(rest) =~= line@ + first_line(s@.skip(i + 1)));
        i = i + 1;
    }
    assert(first_line(s@.skip(i as int)) =~= Seq::empty());
    assert(line@ =~= first_line(rest));
    Some(line)
}

/// The free space of a volume in bytes, going by what `df -Pk` prints.
pub fn free_bytes(printed: &str) -> (r: Option<u64>)
    ensures
        match r {
            Some(n) => free_space(printed@) == Some(n as nat),
            None => free_space(printed@) is None,
        },
{
    let line = match second_line(printed) {
        Some(line) => line,
        None => {
            return None;
        },
    };
    let words = text::split_words(line.as_str());
    if words.len() <= 3 {
        return None;
    }
    match text::read_unsigned(words[3].as_str(), u64::MAX) {
        Some(n) => if n > u64::MAX / 1024 {
            Some(u64::MAX)
        } else {
            Some(n * 1024)
        },
        None => None,
    }
}

/// Is there room for the setup? A volume of unknown size counts as large enough.
pub fn enough_space(free: Option<u64>) -> (r: bool)
    ensures
        r == match free {
            Some(n) => n >= NEED,
            None => true,
        },
{
    match free {
        Some(n) => n >= NEED,
        None => true,
    }
}

// ---- events ---------------------------------------------------------------

/// What the window learns of the setup.
#[derive(Debug, PartialEq, Eq)]
pub enum SetupEvent {
    Status { message: String },
    Done,
    Error { message: String },
}

#[verifier::ext_equal]
pub enum SetupEventView {
    Status { message: Seq<char> },
    Done,
    Error { message: Seq<char> },
}

impl DeepView for SetupEvent {
    type V = SetupEventView;

    open spec fn deep_view(&self) -> SetupEventView {
        match self {
            SetupEvent::Status { message } => SetupEventView::Status { message: message@ },
            SetupEvent::Done => SetupEventView::Done,
            SetupEvent::Error { message } => SetupEventView::Error { message: message@ },
        }
    }
}

impl Clone for SetupEvent {
    fn clone(&self) -> (r: Self)
        ensures
            r.deep_view() == self.deep_view(),
    {
        match self {
            SetupEvent::Status { message } => SetupEvent::Status { message: message.clone() },
            SetupEvent::Done => SetupEvent::Done,
            SetupEvent::Error { message } => SetupEvent::Error { message: message.clone() },
        }
    }
}

/// An event that ends the setup.
pub open spec fn ends_setup(event: SetupEventView) -> bool {
    event is Done || event is Error
}

/// What the window learns of a line that the installer prints.
pub open spec fn event_of_line(line: Seq<char>) -> Option<SetupEventView> {
    if text::is_blank(line) {
        None
    } else {
        Some(SetupEventView::Status { message: text::trimmed(line) })
    }
}

/// What the window learns of a line that the installer prints: the line, unless it
/// is blank.
pub fn progress_event(line: &str) -> (r: Option<SetupEvent>)
    ensures
        r.deep_view() == event_of_line(line@),
        r.deep_view() == if text::is_blank(line@) {
            None::<SetupEventView>
        } else {
            Some(SetupEventView::Status { message: text::trimmed(line@) })
        },
{
    let message = text::trim(line);
    if message.as_str().is_empty() {
        None
    } else {
        Some(SetupEvent::Status { message })
    }
}

// ---- steps ----------------------------------------------------------------

/// What the setup does next. Each step either succeeds or fails.
#[derive(Clone, Copy, Debug, PartialEq, Eq, Structural)]
pub enum SetupStep {
    /// Look whether the environment is there already.
    CheckReady,
    /// Look for the installer, the list of packages and the environment's place.
    FindFiles,
    /// Look for the app's data folder.
    FindFolder,
    /// Make the app's data folder.
    MakeFolder,
    /// Look whether there is room.
    MeasureSpace,
    /// Have the installer fetch Python.
    MakePython,
    /// Have the installer fetch the packages.
    InstallPackages,
    /// Look whether the environment is there now.
    CheckAgain,
    /// Nothing: the setup is over.
    End,
}

/// What to tell the window, and what to do next.
#[derive(Debug, PartialEq, Eq)]
pub struct SetupMove {
    pub tell: Vec<SetupEvent>,
    pub next: SetupStep,
}

#[verifier::ext_equal]
pub struct SetupMoveView {
    pub tell: Seq<SetupEventView>,
    pub next: SetupStep,
}

impl DeepView for SetupMove {
    type V = SetupMoveView;

    open spec fn deep_view(&self) -> SetupMoveView {
        SetupMoveView { tell: self.tell.deep_view(), next: self.next }
    }
}

/// What the user reads where a step fails. `gigabytes` is how much room there is.
pub open spec fn failure_text(step: SetupStep, gigabytes: Seq<char>) -> Seq<char> {
    match step {
        SetupStep::FindFiles =>
            "This build is missing its setup files (uv / requirements). Please reinstall PaperDock."@,
        SetupStep::FindFolder => "Could not locate the app data folder."@,
        SetupStep::MakeFolder => "Cannot write to the app data folder — check permissions."@,
        SetupStep::MeasureSpace =>
            "Not enough free disk space for setup — about 1.5 GB needed, "@ + gigabytes
                + " GB free. Free some space and try again."@,
        SetupStep::MakePython =>
            "Could not set up Python. Check your internet connection and retry."@,
        SetupStep::InstallPackages =>
            "Could not install the reading packages. Check your connection and retry."@,
        SetupStep::CheckAgain =>
            "Setup finished but the environment is incomplete. Please retry."@,
        SetupStep::CheckReady => Seq::empty(),
        SetupStep::End => Seq::empty(),
    }
}

/// The move after a step. Only an environment that is not there yet gets set up,
/// and from then on the first failure ends the setup.
pub open spec fn move_after(step: SetupStep, ok: bool, gigabytes: Seq<char>) -> SetupMoveView {
    match (step, ok) {
        (SetupStep::CheckReady, true) => SetupMoveView {
            tell: seq![SetupEventView::Done],
            next: SetupStep::End,
        },
        (SetupStep::CheckReady, false) => SetupMoveView {
            tell: Seq::empty(),
            next: SetupStep::FindFiles,
        },
        (SetupStep::FindFiles, true) => SetupMoveView {
            tell: Seq::empty(),
            next: SetupStep::FindFolder,
        },
        (SetupStep::FindFolder, true) => SetupMoveView {
            tell: Seq::empty(),
            next: SetupStep::MakeFolder,
        },
        (SetupStep::MakeFolder, true) => SetupMoveView {
            tell: Seq::empty(),
            next: SetupStep::MeasureSpace,
        },
        (SetupStep::MeasureSpace, true) => SetupMoveView {
            tell: seq![SetupEventView::Status { message: "Downloading Python (one-time)…"@ }],
            next: SetupStep::MakePython,
        },
        (SetupStep::MakePython, true) => SetupMoveView {
            tell: seq![
                SetupEventView::Status {
                    message: "Installing packages (this can take a minute)…"@,
                },
            ],
            next: SetupStep::InstallPackages,
        },
        (SetupStep::InstallPackages, true) => SetupMoveView {
            tell: Seq::empty(),
            next: SetupStep::CheckAgain,
        },
        (SetupStep::CheckAgain, true) => SetupMoveView {
            tell: seq![SetupEventView::Status { message: "Ready."@ }, SetupEventView::Done],
            next: SetupStep::End,
        },
        (SetupStep::End, _) => SetupMoveView { tell: Seq::empty(), next: SetupStep::End },
        (step, false) => SetupMoveView {
            tell: seq![SetupEventView::Error { message: failure_text(step, gigabytes) }],
            next: SetupStep::End,
        },
    }
}

fn failure(step: SetupStep, gigabytes: &str) -> (r: SetupEvent)
    ensures
        r.deep_view() == (SetupEventView::Error { message: failure_text(step, gigabytes@) }),
{
    let message = match step {
        SetupStep::FindFiles =>
            "This build is missing its setup files (uv / requirements). Please reinstall PaperDock.".to_string(),
        SetupStep::FindFolder => "Could not locate the app data folder.".to_string(),
        SetupStep::MakeFolder =>
            "Cannot write to the app data folder — check permissions.".to_string(),
        SetupStep::MeasureSpace => {
            let mut m =
                "Not enough free disk space for setup — about 1.5 GB needed, ".to_string();
            m.append(gigabytes);
            m.append(" GB free. Free some space and try again.");
            m
        },
        SetupStep::MakePython =>
            "Could not set up Python. Check your internet connection and retry.".to_string(),
        SetupStep::InstallPackages =>
            "Could not install the reading packages. Check your connection and retry.".to_string(),
        SetupStep::CheckAgain =>
            "Setup finished but the environment is incomplete. Please retry.".to_string(),
        SetupStep::CheckReady => String::new(),
        SetupStep::End => String::new(),
    };
    SetupEvent::Error { message }
}

fn status(message: &str) -> (r: SetupEvent)
    ensures
        r.deep_view() == (SetupEventView::Status { message: message@ }),
{
    SetupEvent::Status { message: message.to_string() }
}

/// The move after a step. `gigabytes` is how much room there is, for the case that
/// it is too little.
pub fn setup_env(step: SetupStep, ok: bool, gigabytes: &str) -> (r: SetupMove)
    ensures
        r.deep_view() == move_after(step, ok, gigabytes@),
{
    let mut tell: Vec<SetupEvent> = Vec::new();
    let next = match (step, ok) {
        (SetupStep::CheckReady, true) => {
            tell.push(SetupEvent::Done);
            SetupStep::End
        },
        (SetupStep::CheckReady, false) => SetupStep::FindFiles,
        (SetupStep::FindFiles, true) => SetupStep::FindFolder,
        (SetupStep::FindFolder, true) => SetupStep::MakeFolder,
        (SetupStep::MakeFolder, true) => SetupStep::MeasureSpace,
        (SetupStep::MeasureSpace, true) => {
            tell.push(status("Downloading Python (one-time)…"));
            SetupStep::MakePython
        },
        (SetupStep::MakePython, true) => {
            tell.push(status("Installing packages (this can take a minute)…"));
            SetupStep::InstallPackages
        },
        (SetupStep::InstallPackages, true) => SetupStep::CheckAgain,
        (SetupStep::CheckAgain, true) => {
            tell.push(status("Ready."));
            tell.push(SetupEvent::Done);
            SetupStep::End
        },
        (SetupStep::End, _) => SetupStep::End,
        (step, false) => {
            tell.push(failure(step, gigabytes));
            SetupStep::End
        },
    };
    assert(tell.deep_view() =~= move_after(step, ok, gigabytes@).tell);
    SetupMove { tell, next }
}

// ---- the installer --------------------------------------------------------

/// The environment variable that has the installer use a Python of its own, and
/// never the system's.
pub const PYTHON_PREFERENCE: &'static str = "UV_PYTHON_PREFERENCE";

/// The value for that variable.
pub const ONLY_MANAGED: &'static str = "only-managed";

/// The folder of the app's data directory that the environment is made in.
pub const ENVIRONMENT_FOLDER: &'static str = "pyenv";

/// The installer's arguments for making a Python environment.
pub fn venv_arguments(pyenv: &str) -> (r: Vec<String>)
    ensures
        r.deep_view() == seq!["venv"@, pyenv@, "--python"@, "3.12"@],
{
    let r = vec![
        "venv".to_string(),
        pyenv.to_string(),
        "--python".to_string(),
        "3.12".to_string(),
    ];
    assert(r.deep_view() =~= seq!["venv"@, pyenv@, "--python"@, "3.12"@]);
    r
}

/// The installer's arguments for installing the listed packages into it.
pub open spec fn install_words(pyenv: Seq<char>, requirements: Seq<char>) -> Seq<Seq<char>> {
    seq!["pip"@, "install"@, "--python"@, pyenv + "/bin/python"@, "-r"@, requirements]
}

/// The installer's arguments for installing the listed packages into it.
pub fn install_arguments(pyenv: &str, requirements: &str) -> (r: Vec<String>)
    ensures
        r.deep_view() == install_words(pyenv@, requirements@),
{
    let mut python = pyenv.to_string();
    python.append("/bin/python");
    let r = vec![
        "pip".to_string(),
        "install".to_string(),
        "--python".to_string(),
        python,
        "-r".to_string(),
        requirements.to_string(),
    ];
    assert(r.deep_view() =~= install_words(pyenv@, requirements@));
    r
}

// ---- laws -----------------------------------------------------------------

/// How many steps are left at most.
pub open spec fn steps_left(step: SetupStep) -> nat {
    match step {
        SetupStep::CheckReady => 8,
        SetupStep::FindFiles => 7,
        SetupStep::FindFolder => 6,
        SetupStep::MakeFolder => 5,
        SetupStep::MeasureSpace => 4,
        SetupStep::MakePython => 3,
        SetupStep::InstallPackages => 2,
        SetupStep::CheckAgain => 1,
        SetupStep::End => 0,
    }
}

/// All that the window learns of a setup from a step on, where `ok` says how each
/// step turns out.
pub open spec fn setup_told(
    step: SetupStep,
    ok: spec_fn(SetupStep) -> bool,
    gigabytes: Seq<char>,
) -> Seq<SetupEventView>
    decreases steps_left(step),
{
    if step == SetupStep::End {
        Seq::empty()
    } else {
        let m = move_after(step, ok(step), gigabytes);
        m.tell + setup_told(m.next, ok, gigabytes)
    }
}

/// A setup ends after at most eight steps.
pub proof fn law_setup_ends(step: SetupStep, ok: bool, gigabytes: Seq<char>)
    requires
        step != SetupStep::End,
    ensures
        steps_left(move_after(step, ok, gigabytes).next) < steps_left(step) <= 8,
{
}

/// However its steps turn out, a setup says exactly once how it ended, and nothing
/// after that.
pub proof fn law_setup_ends_once(
    step: SetupStep,
    ok: spec_fn(SetupStep) -> bool,
    gigabytes: Seq<char>,
)
    requires
        step != SetupStep::End,
    ensures
        ({
            let told = setup_told(step, ok, gigabytes);
            &&& told.len() > 0
            &&& ends_setup(told.last())
            &&& forall|i: int| 0 <= i < told.len() - 1 ==> !ends_setup(#[trigger] told[i])
        }),
    decreases steps_left(step),
{
    let m = move_after(step, ok(step), gigabytes);
    if m.next != SetupStep::End {
        law_setup_ends_once(m.next, ok, gigabytes);
        let rest = setup_told(m.next, ok, gigabytes);
        let told = setup_told(step, ok, gigabytes);
        assert(told == m.tell + rest);
        assert forall|i: int| 0 <= i < told.len() - 1 implies !ends_setup(#[trigger] told[i]) by {
            if i >= m.tell.len() {
                assert(told[i] == rest[i - m.tell.len()]);
            }
        }
    } else {
        assert(setup_told(m.next, ok, gigabytes) =~= Seq::empty());
        assert(setup_told(step, ok, gigabytes) =~= m.tell);
    }
}

/// A setup reports success exactly when the environment was there to begin with,
/// or every step succeeded and it was there in the end.
pub proof fn law_setup_succeeds(ok: spec_fn(SetupStep) -> bool, gigabytes: Seq<char>)
    ensures
        setup_told(SetupStep::CheckReady, ok, gigabytes).last() is Done <==> {
            ||| ok(SetupStep::CheckReady)
            ||| {
                &&& ok(SetupStep::FindFiles)
                &&& ok(SetupStep::FindFolder)
                &&& ok(SetupStep::MakeFolder)
                &&& ok(SetupStep::MeasureSpace)
                &&& ok(SetupStep::MakePython)
                &&& ok(SetupStep::InstallPackages)
                &&& ok(SetupStep::CheckAgain)
            }
        },
{
    reveal_with_fuel(setup_told, 9);
}

/// The installer runs only after every check before it has passed.
pub proof fn law_installer_runs_last(step: SetupStep, ok: bool, gigabytes: Seq<char>)
    ensures
        ({
            let next = move_after(step, ok, gigabytes).next;
            &&& next == SetupStep::MakePython ==> step == SetupStep::MeasureSpace && ok
            &&& next == SetupStep::MeasureSpace ==> step == SetupStep::MakeFolder && ok
            &&& next == SetupStep::MakeFolder ==> step == SetupStep::FindFolder && ok
            &&& next == SetupStep::FindFolder ==> step == SetupStep::FindFiles && ok
            &&& next == SetupStep::FindFiles ==> step == SetupStep::CheckReady && !ok
        }),
{
}

/// A text with a line feed falls into its first line and what follows.
pub proof fn law_lines_end_at_the_line_feed(line: Seq<char>, rest: Seq<char>)
    requires
        !line.contains('\n'),
    ensures
        after_line(line.push('\n') + rest) == Some(rest),
        first_line(line.push('\n') + rest) == line,
        after_line(line) is None,
        first_line(line) == line,
    decreases line.len(),
{
    let s = line.push('\n') + rest;
    if line.len() == 0 {
        assert(s.drop_first() =~= rest);
        assert(first_line(s) =~= line);
        assert(first_line(line) =~= line);
    } else {
        let fewer = line.drop_first();
        assert(line.contains(line[0]));
        assert forall|i: int| 0 <= i < fewer.len() implies fewer[i] != '\n' by {
            assert(line.contains(line[i + 1]));
        }
        law_lines_end_at_the_line_feed(fewer, rest);
        assert(s.drop_first() =~= fewer.push('\n') + rest);
        assert(s[0] == line[0]);
        assert(seq![line[0]] + fewer =~= line);
    }
}

/// The free space is the fourth word of the second line, in kibibytes.
pub proof fn law_the_fourth_word_is_the_free_space(
    head: Seq<char>,
    line: Seq<char>,
    rest: Seq<char>,
    n: nat,
)
    requires
        !head.contains('\n'),
        !line.contains('\n'),
        text::words(line).len() > 3,
        text::words(line)[3] == text::decimal(n),
        n * 1024 <= u64::MAX,
    ensures
        free_space(head.push('\n') + (line.push('\n') + rest)) == Some(n * 1024),
        free_space(head.push('\n') + line) == Some(n * 1024),
{
    law_lines_end_at_the_line_feed(head, line.push('\n') + rest);
    law_lines_end_at_the_line_feed(head, line);
    law_lines_end_at_the_line_feed(line, rest);
    text::law_decimal_reads_back(n);
    assert(text::unsigned_value(text::decimal(n), u64::MAX as nat) == Some(n));
}

/// A step that succeeds leads on to the next, in the order of the setup; a step that fails
/// after the first look ends the setup with what went wrong.
pub proof fn law_the_setup_goes_step_by_step(gigabytes: Seq<char>)
    ensures
        move_after(SetupStep::CheckReady, false, gigabytes).next == SetupStep::FindFiles,
        move_after(SetupStep::FindFiles, true, gigabytes).next == SetupStep::FindFolder,
        move_after(SetupStep::FindFolder, true, gigabytes).next == SetupStep::MakeFolder,
        move_after(SetupStep::MakeFolder, true, gigabytes).next == SetupStep::MeasureSpace,
        move_after(SetupStep::MeasureSpace, true, gigabytes).next == SetupStep::MakePython,
        move_after(SetupStep::MakePython, true, gigabytes).next == SetupStep::InstallPackages,
        move_after(SetupStep::InstallPackages, true, gigabytes).next == SetupStep::CheckAgain,
        forall|step: SetupStep|
            step != SetupStep::CheckReady && step != SetupStep::End ==> (#[trigger] move_after(
                step,
                false,
                gigabytes,
            )).next == SetupStep::End && move_after(step, false, gigabytes).tell == seq![
                SetupEventView::Error { message: failure_text(step, gigabytes) },
            ],
        failure_text(SetupStep::MeasureSpace, gigabytes)
            == "Not enough free disk space for setup — about 1.5 GB needed, "@ + gigabytes
            + " GB free. Free some space and try again."@,
{
}

/// What the installer prints is told line by line, as it is but for the white space around
/// it; only blank lines are not.
pub proof fn law_the_installer_is_quoted(line: Seq<char>)
    ensures
        line.len() > 0 && !text::is_space(line[0]) && !text::is_space(line.last())
            ==> event_of_line(line) == Some(SetupEventView::Status { message: line }),
        event_of_line(line) is None <==> text::only_spaces(line, 0, line.len() as int),
        event_of_line(line) matches Some(event) ==> event == (SetupEventView::Status {
            message: text::trimmed(line),
        }),
{
    text::law_blank_is_white_space(line);
    if line.len() > 0 && !text::is_space(line[0]) && !text::is_space(line.last()) {
        text::law_trimmed_text_stays(line);
    }
}

/// Where the free space cannot be read off, it is not known: without a second line, with
/// fewer than four words on it, or with a fourth that is no number.
pub proof fn law_unknown_space(head: Seq<char>, line: Seq<char>)
    requires
        !head.contains('\n'),
        !line.contains('\n'),
    ensures
        free_space(head) is None,
        text::words(line).len() <= 3 ==> free_space(head.push('\n') + line) is None,
        text::words(line).len() > 3 && text::unsigned_value(
            text::words(line)[3],
            u64::MAX as nat,
        ) is None ==> free_space(head.push('\n') + line) is None,
{
    law_lines_end_at_the_line_feed(head, line);
    law_lines_end_at_the_line_feed(line, Seq::empty());
}

} // verus!
