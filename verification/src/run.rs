//! What the program is asked to do.
use crate::paths::texts_of;
use crate::text::{parse_small_integer, same_text, small_integer_value};
use vstd::prelude::*;
use vstd::string::*;

verus! {

/// What the program is asked to do.
#[derive(Clone, Copy, Debug, PartialEq, Eq, Structural)]
pub enum RunMode {
    /// Print the details once.
    Once,
    /// Print the page of details.
    Html,
    /// Show what happens when the primary window starts anew.
    TestPrimaryReset,
    /// Show what happens when the secondary window starts anew.
    TestWeeklyReset,
    /// Show what happens when usage is too fast.
    TestPaceAlert,
    /// Stay in the tray.
    Tray,
}

/// What `args` ask for. Where they ask for more than one thing, the first of the list counts,
/// whatever their order.
pub open spec fn asked_for(args: Seq<Seq<char>>) -> RunMode {
    if args.contains("--once"@) {
        RunMode::Once
    } else if args.contains("--html"@) {
        RunMode::Html
    } else if args.contains("--test-5h-reset"@) {
        RunMode::TestPrimaryReset
    } else if args.contains("--test-weekly-reset"@) {
        RunMode::TestWeeklyReset
    } else if args.contains("--test-pace-alert"@) {
        RunMode::TestPaceAlert
    } else {
        RunMode::Tray
    }
}

fn has_arg(args: &Vec<String>, flag: &str) -> (r: bool)
    ensures
        r == texts_of(args@).contains(flag@),
{
    let mut i: usize = 0;
    while i < args.len()
        invariant
            i <= args@.len(),
            forall|j: int| 0 <= j < i ==> #[trigger] texts_of(args@)[j] != flag@,
        decreases args@.len() - i,
    {
        if same_text(args[i].as_str(), flag) {
            proof {
                assert(texts_of(args@)[i as int] == flag@);
            }
            return true;
        }
        i += 1;
    }
    false
}

/// What `args` ask for.
pub fn run_mode(args: &Vec<String>) -> (mode: RunMode)
    ensures
        mode == asked_for(texts_of(args@)),
{
    if has_arg(args, "--once") {
        RunMode::Once
    } else if has_arg(args, "--html") {
        RunMode::Html
    } else if has_arg(args, "--test-5h-reset") {
        RunMode::TestPrimaryReset
    } else if has_arg(args, "--test-weekly-reset") {
        RunMode::TestWeeklyReset
    } else if has_arg(args, "--test-pace-alert") {
        RunMode::TestPaceAlert
    } else {
        RunMode::Tray
    }
}

/// The process that a lock file names, if it names one.
pub fn lock_holder(content: &str) -> (pid: Option<i32>)
    ensures
        pid == small_integer_value(content@),
{
    parse_small_integer(content)
}

/// The program is asked for what its arguments name, in this order, wherever they stand among others;
/// where they name nothing of that, it stays in the tray.
pub proof fn law_arguments_ask_for_what_they_name(args: Seq<Seq<char>>, i: int)
    ensures
        0 <= i < args.len() && args[i] == "--once"@ ==> asked_for(args) is Once,
        0 <= i < args.len() && args[i] == "--html"@ && !args.contains("--once"@) ==> asked_for(
            args,
        ) is Html,
        0 <= i < args.len() && args[i] == "--test-5h-reset"@ && !args.contains("--once"@)
            && !args.contains("--html"@) ==> asked_for(args) is TestPrimaryReset,
        0 <= i < args.len() && args[i] == "--test-weekly-reset"@ && !args.contains("--once"@)
            && !args.contains("--html"@) && !args.contains("--test-5h-reset"@) ==> asked_for(
            args,
        ) is TestWeeklyReset,
        0 <= i < args.len() && args[i] == "--test-pace-alert"@ && !args.contains("--once"@)
            && !args.contains("--html"@) && !args.contains("--test-5h-reset"@) && !args.contains(
            "--test-weekly-reset"@,
        ) ==> asked_for(args) is TestPaceAlert,
        !args.contains("--once"@) && !args.contains("--html"@) && !args.contains(
            "--test-5h-reset"@,
        ) && !args.contains("--test-weekly-reset"@) && !args.contains("--test-pace-alert"@)
            ==> asked_for(args) is Tray,
{
}

} // verus!
