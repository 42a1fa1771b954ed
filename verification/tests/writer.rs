use manifest_submission::plan::FileWrite;
use manifest_submission::writer::{
    write_changes_to_dir, Action, Event, WriteSchedule, MAX_IN_FLIGHT,
};
use manifest_submission::Error;
use std::collections::BTreeMap;

fn change(path: &str, content: &str) -> (String, String) {
    (String::from(path), String::from(content))
}

/// What a simulated run left behind.
struct Run {
    result: Result<(), Error>,
    most_in_flight: usize,
    started: Vec<usize>,
}

/// Runs a change set against a directory held in memory. A write to a name in
/// `unwritable` fails. Of the running writes, `pick` chooses the one that
/// ends next, by its position among them.
fn run(
    changes: &[(String, String)],
    directory: &mut BTreeMap<String, String>,
    unwritable: &[&str],
    pick: fn(usize, usize) -> usize,
) -> Run {
    let job = write_changes_to_dir(changes);
    let writes: Vec<FileWrite> = job.writes;
    let mut schedule = job.schedule;
    let mut running: Vec<usize> = Vec::new();
    let mut started: Vec<usize> = Vec::new();
    let mut most_in_flight = 0;
    let mut turn = 0;
    loop {
        match schedule.next_action() {
            Action::CreateDirectory => {
                assert!(started.is_empty());
                schedule.report(Event::DirectoryCreated);
            }
            Action::Write(index) => {
                assert!(index < writes.len());
                running.push(index);
                started.push(index);
                most_in_flight = most_in_flight.max(running.len());
            }
            Action::Wait => {
                assert!(!running.is_empty());
                let index = running.remove(pick(turn, running.len()));
                turn += 1;
                let write = &writes[index];
                if unwritable.contains(&write.file_name.as_str()) {
                    schedule.report(Event::WriteFailed(format!("cannot write {}", write.file_name)));
                } else {
                    directory.insert(write.file_name.clone(), write.content.clone());
                    schedule.report(Event::WriteSucceeded);
                }
            }
            Action::Finish(result) => {
                return Run { result, most_in_flight, started };
            }
        }
    }
}

fn oldest_first(_turn: usize, _running: usize) -> usize {
    0
}

fn newest_first(_turn: usize, running: usize) -> usize {
    running - 1
}

fn alternating(turn: usize, running: usize) -> usize {
    turn % running
}

fn files(entries: &[(&str, &str)]) -> BTreeMap<String, String> {
    entries.iter().map(|(name, content)| (name.to_string(), content.to_string())).collect()
}

#[test]
fn cap_is_two() {
    assert_eq!(MAX_IN_FLIGHT, 2);
}

#[test]
fn round_trip_into_an_empty_directory() {
    let changes = vec![change("a.txt", "hello"), change("dir/b.txt", "world")];
    for pick in [oldest_first, newest_first, alternating] {
        let mut directory = BTreeMap::new();
        let outcome = run(&changes, &mut directory, &[], pick);
        assert_eq!(outcome.result, Ok(()));
        assert_eq!(directory, files(&[("a.txt", "hello"), ("b.txt", "world")]));
        assert_eq!(directory["a.txt"].as_bytes(), "hello".as_bytes());
        assert_eq!(directory["b.txt"].as_bytes(), "world".as_bytes());
    }
}

#[test]
fn skipped_entries_cause_no_error() {
    let changes = vec![change("", "x"), change("/", "y")];
    let mut directory = BTreeMap::new();
    let outcome = run(&changes, &mut directory, &[], oldest_first);
    assert_eq!(outcome.result, Ok(()));
    assert!(outcome.started.is_empty());
    assert!(directory.is_empty());
}

#[test]
fn exact_actions_of_a_run_of_three() {
    let mut schedule = WriteSchedule::new(3);
    assert_eq!(schedule.next_action(), Action::CreateDirectory);
    schedule.report(Event::DirectoryCreated);
    assert_eq!(schedule.next_action(), Action::Write(0));
    assert_eq!(schedule.next_action(), Action::Write(1));
    assert_eq!(schedule.next_action(), Action::Wait);
    assert_eq!(schedule.next_action(), Action::Wait);
    schedule.report(Event::WriteSucceeded);
    assert_eq!(schedule.next_action(), Action::Write(2));
    assert_eq!(schedule.next_action(), Action::Wait);
    schedule.report(Event::WriteSucceeded);
    assert_eq!(schedule.next_action(), Action::Wait);
    schedule.report(Event::WriteSucceeded);
    assert_eq!(schedule.next_action(), Action::Finish(Ok(())));
    assert_eq!(schedule.next_action(), Action::Finish(Ok(())));
}

#[test]
fn empty_plan_still_creates_the_directory() {
    let mut schedule = WriteSchedule::new(0);
    assert_eq!(schedule.next_action(), Action::CreateDirectory);
    schedule.report(Event::DirectoryCreated);
    assert_eq!(schedule.next_action(), Action::Finish(Ok(())));
}

#[test]
fn single_write_uses_one_slot() {
    let mut schedule = WriteSchedule::new(1);
    assert_eq!(schedule.next_action(), Action::CreateDirectory);
    schedule.report(Event::DirectoryCreated);
    assert_eq!(schedule.next_action(), Action::Write(0));
    assert_eq!(schedule.next_action(), Action::Wait);
    schedule.report(Event::WriteSucceeded);
    assert_eq!(schedule.next_action(), Action::Finish(Ok(())));
}

#[test]
fn no_write_before_the_directory_is_there() {
    let mut schedule = WriteSchedule::new(4);
    for _ in 0..5 {
        assert_eq!(schedule.next_action(), Action::CreateDirectory);
    }
    schedule.report(Event::WriteSucceeded);
    assert_eq!(schedule.next_action(), Action::CreateDirectory);
}

#[test]
fn never_more_than_two_in_flight() {
    for count in 3..12 {
        let changes: Vec<(String, String)> =
            (0..count).map(|i| change(&format!("d{}/f{}.yaml", i, i), "x")).collect();
        for pick in [oldest_first, newest_first, alternating] {
            let mut directory = BTreeMap::new();
            let outcome = run(&changes, &mut directory, &[], pick);
            assert_eq!(outcome.result, Ok(()));
            assert_eq!(outcome.most_in_flight, 2);
            assert_eq!(outcome.started, (0..count).collect::<Vec<usize>>());
            assert_eq!(directory.len(), count);
        }
    }
}

#[test]
fn failed_directory_ends_the_run_before_any_write() {
    let mut schedule = WriteSchedule::new(3);
    assert_eq!(schedule.next_action(), Action::CreateDirectory);
    schedule.report(Event::DirectoryFailed(String::from("permission denied")));
    let expected = Action::Finish(Err(Error::DirectorySetup(String::from("permission denied"))));
    assert_eq!(schedule.next_action(), expected);
    schedule.report(Event::DirectoryCreated);
    assert_eq!(schedule.next_action(), expected);
}

#[test]
fn one_unwritable_entry_fails_the_run_and_keeps_the_rest() {
    let changes = vec![
        change("one.yaml", "1"),
        change("two.yaml", "2"),
        change("locked/three.yaml", "3"),
        change("four.yaml", "4"),
    ];
    let mut directory = BTreeMap::new();
    let outcome = run(&changes, &mut directory, &["three.yaml"], oldest_first);
    assert_eq!(
        outcome.result,
        Err(Error::EntryWrite(String::from("cannot write three.yaml")))
    );
    assert_eq!(directory, files(&[("one.yaml", "1"), ("two.yaml", "2")]));
}

#[test]
fn failure_keeps_what_was_there_before() {
    let changes = vec![change("bad", "new"), change("good", "new")];
    let mut directory = files(&[("good", "old"), ("other", "kept")]);
    let outcome = run(&changes, &mut directory, &["bad"], newest_first);
    assert!(outcome.result.is_err());
    assert_eq!(directory, files(&[("good", "new"), ("other", "kept")]));
}

#[test]
fn first_failure_wins() {
    let mut schedule = WriteSchedule::new(3);
    schedule.next_action();
    schedule.report(Event::DirectoryCreated);
    assert_eq!(schedule.next_action(), Action::Write(0));
    assert_eq!(schedule.next_action(), Action::Write(1));
    schedule.report(Event::WriteFailed(String::from("disk full")));
    let expected = Action::Finish(Err(Error::EntryWrite(String::from("disk full"))));
    assert_eq!(schedule.next_action(), expected);
    schedule.report(Event::WriteFailed(String::from("read-only file system")));
    assert_eq!(schedule.next_action(), expected);
    schedule.report(Event::DirectoryFailed(String::from("late")));
    schedule.report(Event::WriteSucceeded);
    assert_eq!(schedule.next_action(), expected);
}

#[test]
fn no_write_is_started_after_a_failure() {
    let changes: Vec<(String, String)> =
        (0..6).map(|i| change(&format!("f{}", i), "x")).collect();
    let mut directory = BTreeMap::new();
    let outcome = run(&changes, &mut directory, &["f0"], oldest_first);
    assert!(outcome.result.is_err());
    assert_eq!(outcome.started, vec![0, 1]);
    assert!(directory.is_empty());
}

#[test]
fn unaccounted_report_settles_nothing() {
    let mut schedule = WriteSchedule::new(1);
    schedule.next_action();
    schedule.report(Event::DirectoryCreated);
    schedule.report(Event::WriteSucceeded);
    assert_eq!(schedule.next_action(), Action::Write(0));
    assert_eq!(schedule.next_action(), Action::Wait);
    schedule.report(Event::WriteSucceeded);
    schedule.report(Event::WriteSucceeded);
    assert_eq!(schedule.next_action(), Action::Finish(Ok(())));
}

#[test]
fn writing_twice_leaves_the_same_content() {
    let changes = vec![
        change("a.txt", "hello"),
        change("dir/b.txt", "world"),
        change("other/c.txt", ""),
    ];
    let mut directory = BTreeMap::new();
    assert_eq!(run(&changes, &mut directory, &[], oldest_first).result, Ok(()));
    let once = directory.clone();
    assert_eq!(run(&changes, &mut directory, &[], alternating).result, Ok(()));
    assert_eq!(directory, once);
    assert_eq!(directory, files(&[("a.txt", "hello"), ("b.txt", "world"), ("c.txt", "")]));
}

#[test]
fn write_replaces_the_whole_content() {
    let mut directory = files(&[("a.txt", "a much longer text from before")]);
    let changes = vec![change("a.txt", "short")];
    assert_eq!(run(&changes, &mut directory, &[], oldest_first).result, Ok(()));
    assert_eq!(directory, files(&[("a.txt", "short")]));
}

#[test]
fn job_holds_the_plan_and_a_fresh_schedule() {
    let changes = vec![change("x/a", "1"), change("", "2"), change("b", "3")];
    let mut job = write_changes_to_dir(&changes);
    assert_eq!(job.writes.len(), 2);
    assert_eq!(job.writes[0].file_name, "a");
    assert_eq!(job.writes[1].file_name, "b");
    assert_eq!(job.schedule.next_action(), Action::CreateDirectory);
    job.schedule.report(Event::DirectoryCreated);
    assert_eq!(job.schedule.next_action(), Action::Write(0));
    assert_eq!(job.schedule.next_action(), Action::Write(1));
    assert_eq!(job.schedule.next_action(), Action::Wait);
}

#[test]
fn error_gives_its_text_and_copies_itself() {
    let errors = [
        Error::Interaction(String::from("closed input")),
        Error::DirectorySetup(String::from("no such device")),
        Error::EntryWrite(String::from("disk full")),
    ];
    let texts = ["closed input", "no such device", "disk full"];
    for (error, text) in errors.iter().zip(texts) {
        assert_eq!(error.message(), text);
        assert_eq!(&error.duplicate(), error);
    }
}
