use paperdock::setup::{
    enough_space, free_bytes, install_arguments, progress_event, setup_env, venv_arguments, SetupEvent,
    SetupStep, NEED,
};

const DF: &str = "Filesystem 1024-blocks      Used Available Capacity  Mounted on\n\
    /dev/disk1s1  488245288 200000000 287000000    42%    /\n";

fn run(ok: impl Fn(SetupStep) -> bool) -> Vec<SetupEvent> {
    let mut told = Vec::new();
    let mut step = SetupStep::CheckReady;
    while step != SetupStep::End {
        let mut m = setup_env(step, ok(step), "0.7");
        told.append(&mut m.tell);
        step = m.next;
    }
    told
}

fn status(message: &str) -> SetupEvent {
    SetupEvent::Status { message: message.to_string() }
}

fn error(message: &str) -> SetupEvent {
    SetupEvent::Error { message: message.to_string() }
}

#[test]
fn free_space_is_read() {
    assert_eq!(free_bytes(DF), Some(287000000 * 1024));
    assert_eq!(free_bytes("one line"), None);
    assert_eq!(free_bytes("a\n"), None);
    assert_eq!(free_bytes("a\nb c d\n1 2 3 4"), None);
    assert_eq!(free_bytes("a\nb c d e\n"), None);
    assert_eq!(free_bytes("a\r\nb c d 5\r\n"), Some(5120));
    assert_eq!(free_bytes("a\nb c d 18446744073709551615"), Some(u64::MAX));
    assert_eq!(free_bytes("a\nb c d 18014398509481983"), Some(18014398509481983 * 1024));
    assert_eq!(free_bytes("a\nb c d 18014398509481984"), Some(u64::MAX));
    assert_eq!(free_bytes("a\nb c d 18446744073709551616"), None);
}

#[test]
fn unknown_space_is_enough() {
    assert!(enough_space(None));
    assert!(enough_space(Some(NEED)));
    assert!(!enough_space(Some(NEED - 1)));
    assert_eq!(NEED, 1_500_000_000);
}

#[test]
fn a_ready_environment_is_left_alone() {
    assert_eq!(run(|_| true), vec![SetupEvent::Done]);
}

#[test]
fn a_setup_that_succeeds_says_so() {
    assert_eq!(
        run(|step| step != SetupStep::CheckReady),
        vec![
            status("Downloading Python (one-time)…"),
            status("Installing packages (this can take a minute)…"),
            status("Ready."),
            SetupEvent::Done,
        ]
    );
}

#[test]
fn a_setup_that_fails_says_why() {
    let fails = |bad: SetupStep| run(move |step| step != SetupStep::CheckReady && step != bad);
    assert_eq!(
        fails(SetupStep::FindFiles),
        vec![error("This build is missing its setup files (uv / requirements). Please reinstall PaperDock.")]
    );
    assert_eq!(fails(SetupStep::FindFolder), vec![error("Could not locate the app data folder.")]);
    assert_eq!(
        fails(SetupStep::MakeFolder),
        vec![error("Cannot write to the app data folder — check permissions.")]
    );
    assert_eq!(
        fails(SetupStep::MeasureSpace),
        vec![error("Not enough free disk space for setup — about 1.5 GB needed, 0.7 GB free. Free some space and try again.")]
    );
    assert_eq!(
        fails(SetupStep::MakePython),
        vec![
            status("Downloading Python (one-time)…"),
            error("Could not set up Python. Check your internet connection and retry."),
        ]
    );
    assert_eq!(
        fails(SetupStep::InstallPackages).last(),
        Some(&error("Could not install the reading packages. Check your connection and retry."))
    );
    assert_eq!(
        fails(SetupStep::CheckAgain).last(),
        Some(&error("Setup finished but the environment is incomplete. Please retry."))
    );
}

#[test]
fn lines_of_the_installer_are_shown() {
    assert_eq!(progress_event("  Resolved 3 packages \n"), Some(status("Resolved 3 packages")));
    assert_eq!(progress_event(" \t"), None);
}

#[test]
fn the_installer_is_told_what_to_do() {
    assert_eq!(venv_arguments("/d/pyenv"), vec!["venv", "/d/pyenv", "--python", "3.12"]);
    assert_eq!(
        install_arguments("/d/pyenv", "/r.lock"),
        vec!["pip", "install", "--python", "/d/pyenv/bin/python", "-r", "/r.lock"]
    );
}
