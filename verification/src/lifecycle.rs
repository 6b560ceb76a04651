//! Starting the relay: in which mode it runs, and what is logged on the way.
use crate::audit::{notice, notice_views, EventKind, Notice, NoticeView};
use crate::text::{decimal, push_decimal};
use vstd::prelude::*;

verus! {

/// How the relay runs.
#[derive(Clone, Copy, Debug, PartialEq, Eq, Structural)]
pub enum RunMode {
    /// In the foreground.
    Console,
    /// Under the service control manager.
    Service,
}

/// Whether a command line asks for the foreground.
pub open spec fn asks_for_console(args: Seq<String>) -> bool {
    exists|i: int| 0 <= i < args.len() && (#[trigger] args[i])@ == "--console"@
}

/// The mode that a command line asks for: the foreground where `--console` is
/// among the words, in any place.
pub fn run_mode(args: &Vec<String>) -> (mode: RunMode)
    ensures
        mode == if asks_for_console(args@) {
            RunMode::Console
        } else {
            RunMode::Service
        },
{
    let flag = "--console".to_owned();
    let mut i: usize = 0;
    while i < args.len()
        invariant
            i <= args@.len(),
            flag@ == "--console"@,
            forall|k: int| 0 <= k < i ==> (#[trigger] args@[k])@ != "--console"@,
        decreases args@.len() - i,
    {
        if args[i] == flag {
            assert(args@[i as int]@ == "--console"@);
            return RunMode::Console;
        }
        i = i + 1;
    }
    RunMode::Service
}

/// What is logged once the relay runs, with `pending` records waiting from before.
pub fn started(pending: u64) -> (notices: Vec<Notice>)
    ensures
        notice_views(notices@) == seq![
            NoticeView {
                kind: EventKind::StoreOpened,
                message: "Fjall store opened successfully; "@ + decimal(pending as nat)
                    + " records pending"@,
            },
            NoticeView {
                kind: EventKind::ServiceStarted,
                message: "Service started successfully"@,
            },
        ],
{
    let mut text = "Fjall store opened successfully; ".to_owned();
    push_decimal(&mut text, pending as u128);
    text.append(" records pending");
    let mut notices: Vec<Notice> = Vec::new();
    notices.push(notice(EventKind::StoreOpened, text));
    notices.push(notice(EventKind::ServiceStarted, "Service started successfully".to_owned()));
    assert(notice_views(notices@) =~= seq![notices@[0]@, notices@[1]@]);
    notices
}

/// What is logged once the configuration is read and usable, `version` being the
/// relay's own.
pub fn configured(version: &str) -> (n: Notice)
    ensures
        n@ == (NoticeView {
            kind: EventKind::ConfigLoaded,
            message: "Configuration loaded; version="@ + version@,
        }),
{
    let mut text = "Configuration loaded; version=".to_owned();
    text.append(version);
    notice(EventKind::ConfigLoaded, text)
}

/// What is logged where the named pipe cannot be created.
pub fn pipe_refused(reason: &str) -> (n: Notice)
    ensures
        n@ == (NoticeView {
            kind: EventKind::PipeCreateFailed,
            message: "Named pipe creation failed: "@ + reason@,
        }),
{
    let mut text = "Named pipe creation failed: ".to_owned();
    text.append(reason);
    notice(EventKind::PipeCreateFailed, text)
}

/// What is logged where the relay ends for a reason of its own.
pub fn terminated(reason: &str) -> (n: Notice)
    ensures
        n@ == (NoticeView {
            kind: EventKind::ServiceFailed,
            message: "Service terminated unexpectedly: "@ + reason@,
        }),
{
    let mut text = "Service terminated unexpectedly: ".to_owned();
    text.append(reason);
    notice(EventKind::ServiceFailed, text)
}

/// A command line asks for the foreground where any part of it does, and a single word
/// does where it is the flag.
pub proof fn law_any_word_asks(a: Seq<String>, b: Seq<String>, word: String)
    ensures
        asks_for_console(a + b) <==> asks_for_console(a) || asks_for_console(b),
        asks_for_console(seq![word]) <==> word@ == "--console"@,
        !asks_for_console(seq![]),
{
    let all = a + b;
    if asks_for_console(a) {
        let i = choose|i: int| 0 <= i < a.len() && (#[trigger] a[i])@ == "--console"@;
        assert(all[i]@ == "--console"@);
    }
    if asks_for_console(b) {
        let i = choose|i: int| 0 <= i < b.len() && (#[trigger] b[i])@ == "--console"@;
        assert(all[a.len() + i]@ == "--console"@);
    }
    if asks_for_console(all) {
        let i = choose|i: int| 0 <= i < all.len() && (#[trigger] all[i])@ == "--console"@;
        if i < a.len() {
            assert(a[i]@ == "--console"@);
        } else {
            assert(b[i - a.len()]@ == "--console"@);
        }
    }
    assert(seq![word][0] == word);
}

} // verus!
