use lclhst::trust::{install, Event, Outcome, Platform, Step, Task};

const PATH: &str = "/home/me/.config/lclhst/rootCA.pem";

fn reason(step: Step) -> String {
    match step {
        Step::Fail(reason) => reason,
        other => panic!("{other:?}"),
    }
}

#[test]
fn macos_uses_the_system_keychain() {
    match install(Some(PATH), Event::Begin(Platform::MacOs)) {
        Step::Run(Task::AddTrustedCert, lines, args) => {
            assert_eq!(
                lines,
                vec!["adding the lclhst CA to the system keychain (sudo will prompt)…"]
            );
            assert_eq!(
                args,
                vec![
                    "security",
                    "add-trusted-cert",
                    "-d",
                    "-r",
                    "trustRoot",
                    "-k",
                    "/Library/Keychains/System.keychain",
                    PATH,
                ]
            );
        }
        other => panic!("{other:?}"),
    }
    match install(Some(PATH), Event::Ended(Task::AddTrustedCert, Outcome::Succeeded)) {
        Step::Done(lines) => assert_eq!(
            lines,
            vec![
                "done. Safari and Chrome trust lclhst shares from this machine now.".to_string(),
                format!(
                    "Firefox keeps its own store: settings → privacy → certificates → import {PATH},"
                ),
                "or set security.enterprise_roots.enabled=true in about:config.".to_string(),
            ]
        ),
        other => panic!("{other:?}"),
    }
}

#[test]
fn linux_copies_and_then_updates() {
    match install(Some(PATH), Event::Begin(Platform::Linux)) {
        Step::Run(Task::CopyCa, lines, args) => {
            assert_eq!(
                lines,
                vec!["installing the lclhst CA system-wide (sudo will prompt)…"]
            );
            assert_eq!(
                args,
                vec!["cp", PATH, "/usr/local/share/ca-certificates/lclhst-ca.crt"]
            );
        }
        other => panic!("{other:?}"),
    }
    match install(Some(PATH), Event::Ended(Task::CopyCa, Outcome::Succeeded)) {
        Step::Run(Task::UpdateCertificates, lines, args) => {
            assert!(lines.is_empty());
            assert_eq!(args, vec!["update-ca-certificates"]);
        }
        other => panic!("{other:?}"),
    }
    match install(Some(PATH), Event::Ended(Task::UpdateCertificates, Outcome::Succeeded)) {
        Step::Done(lines) => assert_eq!(
            lines,
            vec![
                "done. Note: browsers with their own stores (Firefox, Chrome's NSS)".to_string(),
                format!("may need a manual import of {PATH}."),
            ]
        ),
        other => panic!("{other:?}"),
    }
}

#[test]
fn other_platforms_are_told_what_to_do() {
    assert_eq!(
        reason(install(Some(PATH), Event::Begin(Platform::Other))),
        format!(
            "automatic trust install isn't supported on this platform yet; \
             import {PATH} into your trust store manually"
        )
    );
}

#[test]
fn failures_are_explained() {
    let ended = |task, outcome| reason(install(Some(PATH), Event::Ended(task, outcome)));
    let failed = |task| ended(task, Outcome::Failed("exit status: 1".to_string()));
    let not_run = |task| ended(task, Outcome::NotRun);
    assert_eq!(
        failed(Task::AddTrustedCert),
        "security add-trusted-cert failed (status exit status: 1)"
    );
    assert_eq!(
        failed(Task::CopyCa),
        "could not copy the CA into /usr/local/share/ca-certificates"
    );
    assert_eq!(
        failed(Task::UpdateCertificates),
        format!(
            "update-ca-certificates failed — on Fedora/Arch use the trust anchor \
             tooling with {PATH}"
        )
    );
    assert_eq!(not_run(Task::AddTrustedCert), "running `security` — is this macOS?");
    assert_eq!(not_run(Task::CopyCa), "copying the CA certificate");
    assert_eq!(
        not_run(Task::UpdateCertificates),
        "running update-ca-certificates (Debian/Ubuntu layout)"
    );
}

#[test]
fn paths_have_to_be_text() {
    assert_eq!(
        reason(install(None, Event::Begin(Platform::Linux))),
        "CA path is not valid UTF-8"
    );
}
