use cliphist::commands::{copy_outcome, decode_arguments, decode_outcome, read_history, wipe_outcome};
use cliphist::{ClipboardEntry, CliphistError, CommandRun};

fn failed(text: &str) -> CliphistError {
    CliphistError::CommandFailed(text.to_string())
}

fn exited(success: bool, stderr: &str) -> CommandRun {
    CommandRun::Exited { success, stderr: stderr.to_string() }
}

#[test]
fn failure_of_a_run() {
    assert_eq!(CommandRun::NotRun("no such file".to_string()).failure(), Some("no such file"));
    assert_eq!(exited(false, "boom").failure(), Some("boom"));
    assert_eq!(exited(true, "only a warning").failure(), None);
}

#[test]
fn history_of_a_successful_listing() {
    assert_eq!(
        read_history(&exited(true, ""), "3\tfoo\n1\tbar\n"),
        Ok(vec![
            ClipboardEntry { index: 3, content: "foo".to_string() },
            ClipboardEntry { index: 1, content: "bar".to_string() },
        ])
    );
    assert_eq!(read_history(&exited(true, "noise"), ""), Ok(vec![]));
}

#[test]
fn history_of_a_failed_listing() {
    assert_eq!(read_history(&exited(false, "db locked"), "3\tfoo\n"), Err(failed("db locked")));
    assert_eq!(
        read_history(&CommandRun::NotRun("No such file or directory".to_string()), ""),
        Err(failed("No such file or directory"))
    );
}

#[test]
fn history_of_an_unreadable_listing() {
    assert_eq!(
        read_history(&exited(true, ""), "garbage"),
        Err(CliphistError::ParseError("Invalid line format: garbage".to_string()))
    );
}

#[test]
fn outcome_of_the_wipe() {
    assert_eq!(wipe_outcome(&exited(true, "")), Ok(()));
    assert_eq!(wipe_outcome(&exited(false, "cannot wipe")), Err(failed("cannot wipe")));
    assert_eq!(wipe_outcome(&CommandRun::NotRun("not found".to_string())), Err(failed("not found")));
}

#[test]
fn arguments_of_the_decode() {
    assert_eq!(decode_arguments(0), vec!["decode".to_string(), "0".to_string()]);
    assert_eq!(decode_arguments(1203), vec!["decode".to_string(), "1203".to_string()]);
    assert_eq!(decode_arguments(u64::MAX - 2), vec!["decode".to_string(), "18446744073709551613".to_string()]);
}

#[test]
fn outcome_of_the_decode() {
    assert_eq!(decode_outcome(5, &exited(true, "")), Ok(()));
    assert_eq!(
        decode_outcome(5, &CommandRun::NotRun("not found".to_string())),
        Err(failed("Failed to decode history entry 5: not found"))
    );
    assert_eq!(
        decode_outcome(77, &exited(false, "no such id")),
        Err(failed("Failed to decode history entry 77: no such id"))
    );
}

#[test]
fn outcome_of_the_copy() {
    assert_eq!(copy_outcome(&exited(true, "")), Ok(()));
    assert_eq!(
        copy_outcome(&exited(false, "whatever it said")),
        Err(failed("Failed to copy content to clipboard using wl-copy"))
    );
    assert_eq!(copy_outcome(&CommandRun::NotRun("not found".to_string())), Err(failed("not found")));
}
