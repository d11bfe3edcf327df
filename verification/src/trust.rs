//! Installing the lclhst CA into this machine's trust store, mkcert-style.
//! Elevates via sudo where the platform store requires it.

use vstd::prelude::*;

use crate::text;

verus! {

/// The platforms, as far as their trust stores differ.
#[derive(Debug, Clone, Copy, PartialEq, Eq, Structural)]
pub enum Platform {
    MacOs,
    Linux,
    Other,
}

/// The commands that are run, each through sudo.
#[derive(Debug, Clone, Copy, PartialEq, Eq, Structural)]
pub enum Task {
    /// Add the CA to the system keychain (macOS).
    AddTrustedCert,
    /// Copy the CA to where local CAs are collected (Debian/Ubuntu).
    CopyCa,
    /// Rebuild the system's bundle of CAs (Debian/Ubuntu).
    UpdateCertificates,
}

/// How a command ended.
#[derive(Debug)]
pub enum Outcome {
    /// It could not be run.
    NotRun,
    /// It failed, with this status.
    Failed(String),
    /// It succeeded.
    Succeeded,
}

/// What has happened so far.
#[derive(Debug)]
pub enum Event {
    /// The installation begins, on this platform.
    Begin(Platform),
    /// A command ended.
    Ended(Task, Outcome),
}

/// What to do next.
#[derive(Debug)]
pub enum Step {
    /// Print these lines, then run this command with these arguments to sudo.
    Run(Task, Vec<String>, Vec<String>),
    /// Print these lines: the CA is installed.
    Done(Vec<String>),
    /// Give up, for this reason.
    Fail(String),
}

/// The keychain that macOS trusts system-wide.
pub const SYSTEM_KEYCHAIN: &'static str = "/Library/Keychains/System.keychain";

/// Where Debian and Ubuntu collect local CAs.
pub const LOCAL_CA_FILE: &'static str = "/usr/local/share/ca-certificates/lclhst-ca.crt";

/// What is printed before a command is run.
pub open spec fn notice(task: Task) -> Seq<Seq<char>> {
    match task {
        Task::AddTrustedCert => seq![
            "adding the lclhst CA to the system keychain (sudo will prompt)…"@,
        ],
        Task::CopyCa => seq!["installing the lclhst CA system-wide (sudo will prompt)…"@],
        Task::UpdateCertificates => seq![],
    }
}

/// The arguments to sudo for a command, for the CA at `path`.
pub open spec fn arguments(task: Task, path: Seq<char>) -> Seq<Seq<char>> {
    match task {
        Task::AddTrustedCert => seq![
            "security"@,
            "add-trusted-cert"@,
            "-d"@,
            "-r"@,
            "trustRoot"@,
            "-k"@,
            SYSTEM_KEYCHAIN@,
            path,
        ],
        Task::CopyCa => seq!["cp"@, path, LOCAL_CA_FILE@],
        Task::UpdateCertificates => seq!["update-ca-certificates"@],
    }
}

/// Why the installation fails when a command could not be run.
pub open spec fn not_run_text(task: Task) -> Seq<char> {
    match task {
        Task::AddTrustedCert => "running `security` — is this macOS?"@,
        Task::CopyCa => "copying the CA certificate"@,
        Task::UpdateCertificates => "running update-ca-certificates (Debian/Ubuntu layout)"@,
    }
}

/// Why the installation fails when a command failed.
pub open spec fn failed_text(task: Task, path: Seq<char>, status: Seq<char>) -> Seq<char> {
    match task {
        Task::AddTrustedCert => "security add-trusted-cert failed (status "@ + status + ")"@,
        Task::CopyCa => "could not copy the CA into /usr/local/share/ca-certificates"@,
        Task::UpdateCertificates => "update-ca-certificates failed — on Fedora/Arch use the trust \
            anchor tooling with "@ + path,
    }
}

/// Why the installation fails on other platforms.
pub open spec fn unsupported_text(path: Seq<char>) -> Seq<char> {
    "automatic trust install isn't supported on this platform yet; import "@ + path
        + " into your trust store manually"@
}

/// Whether a step runs the command for the CA at `path`.
pub open spec fn runs(step: Step, task: Task, path: Seq<char>) -> bool {
    step matches Step::Run(t, lines, args) && t == task && text::texts(lines@) == notice(task)
        && text::texts(args@) == arguments(task, path)
}

/// Whether a step gives up for the reason.
pub open spec fn fails(step: Step, reason: Seq<char>) -> bool {
    step matches Step::Fail(s) && s@ == reason
}

/// Whether a step says that the CA is installed, with these lines.
pub open spec fn finishes(step: Step, lines: Seq<Seq<char>>) -> bool {
    step matches Step::Done(v) && text::texts(v@) == lines
}

/// What an event calls for. A path that is not UTF-8 is `None`.
pub open spec fn reaction(path: Option<Seq<char>>, event: Event, step: Step) -> bool {
    match path {
        None => fails(step, "CA path is not valid UTF-8"@),
        Some(path) => match event {
            Event::Begin(Platform::MacOs) => runs(step, Task::AddTrustedCert, path),
            Event::Begin(Platform::Linux) => runs(step, Task::CopyCa, path),
            Event::Begin(Platform::Other) => fails(step, unsupported_text(path)),
            Event::Ended(task, Outcome::NotRun) => fails(step, not_run_text(task)),
            Event::Ended(task, Outcome::Failed(status)) => fails(
                step,
                failed_text(task, path, status@),
            ),
            Event::Ended(Task::AddTrustedCert, Outcome::Succeeded) => finishes(
                step,
                seq![
                    "done. Safari and Chrome trust lclhst shares from this machine now."@,
                    "Firefox keeps its own store: settings → privacy → certificates → import "@
                        + path + ","@,
                    "or set security.enterprise_roots.enabled=true in about:config."@,
                ],
            ),
            Event::Ended(Task::CopyCa, Outcome::Succeeded) => runs(
                step,
                Task::UpdateCertificates,
                path,
            ),
            Event::Ended(Task::UpdateCertificates, Outcome::Succeeded) => finishes(
                step,
                seq![
                    "done. Note: browsers with their own stores (Firefox, Chrome's NSS)"@,
                    "may need a manual import of "@ + path + "."@,
                ],
            ),
        },
    }
}

/// The command, with what is printed before it.
fn run(task: Task, path: &str) -> (r: Step)
    ensures
        runs(r, task, path@),
{
    let mut lines: Vec<String> = Vec::new();
    let mut args: Vec<String> = Vec::new();
    match task {
        Task::AddTrustedCert => {
            lines.push(
                "adding the lclhst CA to the system keychain (sudo will prompt)…".to_owned(),
            );
            args.push("security".to_owned());
            args.push("add-trusted-cert".to_owned());
            args.push("-d".to_owned());
            args.push("-r".to_owned());
            args.push("trustRoot".to_owned());
            args.push("-k".to_owned());
            args.push(SYSTEM_KEYCHAIN.to_owned());
            args.push(path.to_owned());
        },
        Task::CopyCa => {
            lines.push("installing the lclhst CA system-wide (sudo will prompt)…".to_owned());
            args.push("cp".to_owned());
            args.push(path.to_owned());
            args.push(LOCAL_CA_FILE.to_owned());
        },
        Task::UpdateCertificates => {
            args.push("update-ca-certificates".to_owned());
        },
    }
    assert(text::texts(lines@) =~= notice(task));
    assert(text::texts(args@) =~= arguments(task, path@));
    Step::Run(task, lines, args)
}

/// Why the installation fails when a command failed.
fn failed(task: Task, path: &str, status: &str) -> (r: String)
    ensures
        r@ == failed_text(task, path@, status@),
{
    match task {
        Task::AddTrustedCert => {
            let mut out: String = "security add-trusted-cert failed (status ".to_owned();
            out.append(status);
            out.append(")");
            out
        },
        Task::CopyCa => "could not copy the CA into /usr/local/share/ca-certificates".to_owned(),
        Task::UpdateCertificates => {
            let mut out: String = "update-ca-certificates failed — on Fedora/Arch use the trust \
                anchor tooling with ".to_owned();
            out.append(path);
            out
        },
    }
}

/// One step of installing the CA at `path` into the system trust store.
pub fn install(path: Option<&str>, event: Event) -> (r: Step)
    ensures
        reaction(
            match path {
                Some(p) => Some(p@),
                None => None,
            },
            event,
            r,
        ),
{
    let path = match path {
        Some(path) => path,
        None => {
            return Step::Fail("CA path is not valid UTF-8".to_owned());
        },
    };
    match event {
        Event::Begin(Platform::MacOs) => run(Task::AddTrustedCert, path),
        Event::Begin(Platform::Linux) => run(Task::CopyCa, path),
        Event::Begin(Platform::Other) => {
            let mut out: String =
                "automatic trust install isn't supported on this platform yet; import ".to_owned();
            out.append(path);
            out.append(" into your trust store manually");
            Step::Fail(out)
        },
        Event::Ended(task, Outcome::NotRun) => {
            let reason = match task {
                Task::AddTrustedCert => "running `security` — is this macOS?",
                Task::CopyCa => "copying the CA certificate",
                Task::UpdateCertificates => "running update-ca-certificates (Debian/Ubuntu layout)",
            };
            Step::Fail(reason.to_owned())
        },
        Event::Ended(task, Outcome::Failed(status)) => Step::Fail(
            failed(task, path, status.as_str()),
        ),
        Event::Ended(Task::AddTrustedCert, Outcome::Succeeded) => {
            let mut import: String =
                "Firefox keeps its own store: settings → privacy → certificates → import ".to_owned();
            import.append(path);
            import.append(",");
            let mut lines: Vec<String> = Vec::new();
            lines.push(
                "done. Safari and Chrome trust lclhst shares from this machine now.".to_owned(),
            );
            lines.push(import);
            lines.push("or set security.enterprise_roots.enabled=true in about:config.".to_owned());
            assert(text::texts(lines@) =~= seq![
                "done. Safari and Chrome trust lclhst shares from this machine now."@,
                import@,
                "or set security.enterprise_roots.enabled=true in about:config."@,
            ]);
            Step::Done(lines)
        },
        Event::Ended(Task::CopyCa, Outcome::Succeeded) => run(Task::UpdateCertificates, path),
        Event::Ended(Task::UpdateCertificates, Outcome::Succeeded) => {
            let mut import: String = "may need a manual import of ".to_owned();
            import.append(path);
            import.append(".");
            let mut lines: Vec<String> = Vec::new();
            lines.push(
                "done. Note: browsers with their own stores (Firefox, Chrome's NSS)".to_owned(),
            );
            lines.push(import);
            assert(text::texts(lines@) =~= seq![
                "done. Note: browsers with their own stores (Firefox, Chrome's NSS)"@,
                import@,
            ]);
            Step::Done(lines)
        },
    }
}

/// The commands that are still to come once a step has been taken.
pub open spec fn commands_left(step: Step) -> nat {
    match step {
        Step::Run(Task::CopyCa, _, _) => 2,
        Step::Run(_, _, _) => 1,
        _ => 0,
    }
}

/// The installation comes to an end: whatever a command comes to, fewer are
/// left after it than before.
pub proof fn installation_ends(
    path: Option<Seq<char>>,
    task: Task,
    lines: Vec<String>,
    args: Vec<String>,
    outcome: Outcome,
    next: Step,
)
    requires
        reaction(path, Event::Ended(task, outcome), next),
    ensures
        commands_left(next) < commands_left(Step::Run(task, lines, args)),
{
}

/// Success is only reported after every command has succeeded: the last one
/// did, and a failure before it would have ended the installation.
pub proof fn success_is_earned(path: Option<Seq<char>>, event: Event, step: Step)
    requires
        reaction(path, event, step),
        step is Done,
    ensures
        event matches Event::Ended(_, outcome) && outcome is Succeeded,
{
}

/// The CA that is installed is the one at the given path: on macOS it is added to
/// the system keychain as a trusted root, on Linux it is copied to the local CAs and
/// the bundle is rebuilt; each through sudo, and nothing else is run.
pub proof fn the_given_ca_is_installed(path: Seq<char>, event: Event, step: Step)
    requires
        reaction(Some(path), event, step),
    ensures
        step matches Step::Run(task, _, args) ==> {
            &&& task == Task::AddTrustedCert ==> event == Event::Begin(Platform::MacOs)
                && text::texts(args@) == seq![
                "security"@,
                "add-trusted-cert"@,
                "-d"@,
                "-r"@,
                "trustRoot"@,
                "-k"@,
                "/Library/Keychains/System.keychain"@,
                path,
            ]
            &&& task == Task::CopyCa ==> event == Event::Begin(Platform::Linux) && text::texts(
                args@,
            ) == seq!["cp"@, path, "/usr/local/share/ca-certificates/lclhst-ca.crt"@]
            &&& task == Task::UpdateCertificates ==> (event matches Event::Ended(done, outcome)
                && done == Task::CopyCa && outcome is Succeeded) && text::texts(args@) == seq![
                "update-ca-certificates"@,
            ]
        },
        event is Begin && !(event == Event::Begin(Platform::Other)) ==> step is Run,
        event == Event::Begin(Platform::Other) ==> (step matches Step::Fail(s) && s@
            == "automatic trust install isn't supported on this platform yet; import "@ + path
            + " into your trust store manually"@),
        (event matches Event::Ended(task, outcome) && outcome is Succeeded && task
            != Task::CopyCa) ==> step is Done,
        (event matches Event::Ended(_, outcome) && !(outcome is Succeeded)) ==> step is Fail,
{
}

/// A command that could not be run, or that failed, ends the installation with its
/// own reason; where the system's status or the path helps, it is in it.
pub proof fn failures_are_explained(
    path: Seq<char>,
    task: Task,
    status: String,
    step: Step,
    not_run: Step,
)
    requires
        reaction(Some(path), Event::Ended(task, Outcome::Failed(status)), step),
        reaction(Some(path), Event::Ended(task, Outcome::NotRun), not_run),
    ensures
        step matches Step::Fail(s) && s@ == match task {
            Task::AddTrustedCert => "security add-trusted-cert failed (status "@ + status@ + ")"@,
            Task::CopyCa => "could not copy the CA into /usr/local/share/ca-certificates"@,
            Task::UpdateCertificates => "update-ca-certificates failed — on Fedora/Arch use the trust \
                anchor tooling with "@ + path,
        },
        not_run matches Step::Fail(s) && s@ == match task {
            Task::AddTrustedCert => "running `security` — is this macOS?"@,
            Task::CopyCa => "copying the CA certificate"@,
            Task::UpdateCertificates => "running update-ca-certificates (Debian/Ubuntu layout)"@,
        },
{
}

/// The user is told what is about to happen before being asked for a password, and
/// in the end where the CA is still to be imported by hand, with its path.
pub proof fn users_are_told(path: Seq<char>, event: Event, step: Step)
    requires
        reaction(Some(path), event, step),
    ensures
        step matches Step::Run(task, lines, _) ==> text::texts(lines@) == match task {
            Task::AddTrustedCert => seq![
                "adding the lclhst CA to the system keychain (sudo will prompt)…"@,
            ],
            Task::CopyCa => seq!["installing the lclhst CA system-wide (sudo will prompt)…"@],
            Task::UpdateCertificates => Seq::<Seq<char>>::empty(),
        },
        step matches Step::Done(lines) ==> {
            ||| text::texts(lines@) == seq![
                "done. Safari and Chrome trust lclhst shares from this machine now."@,
                "Firefox keeps its own store: settings → privacy → certificates → import "@ + path
                    + ","@,
                "or set security.enterprise_roots.enabled=true in about:config."@,
            ]
            ||| text::texts(lines@) == seq![
                "done. Note: browsers with their own stores (Firefox, Chrome's NSS)"@,
                "may need a manual import of "@ + path + "."@,
            ]
        },
{
}

/// A CA whose path is no text is not installed.
pub proof fn paths_have_to_be_texts(event: Event, step: Step)
    requires
        reaction(None, event, step),
    ensures
        step matches Step::Fail(s) && s@ == "CA path is not valid UTF-8"@,
{
}

} // verus!
