use std::io::BufRead;
use trim::in_place::{first_step, next_step, scratch_file_name, Event, Step};
use trim::trim::trim_lines;
use trim::util::hash_default;

fn test_data() -> Vec<(&'static str, &'static str, i32)> {
    vec![
        ("", "", 1),
        ("abc", "abc", 1),
        ("\nasd fgh\nabc", "\nasd fgh\nabc", 1),
        ("ab \t  \r abc", "ab \t  \r abc", 1),
        ("ab \t  \r \nabc", "ab\nabc", 7),
        ("\n \n \n\t\t \t \n \t\r \n\r   \r\r \n     \n \n", "", 33),
        ("ab \ncd \n  \n\n  \n", "ab\ncd", 11),
        ("  \n\t\r \r \n 123 absoi", "\n\n 123 absoi", 8),
        ("abc", "abc", 1),
        ("abc\n", "abc", 1),
        ("abc\n\n", "abc", 3),
        ("abc ", "abc", 2),
        ("abc \n", "abc", 2),
    ]
}

/// A file and its scratch file, held in memory.
struct Disk {
    file: String,
    scratch: Option<String>,
}

/// Runs the replacement on `disk`, failing the step numbered `fail_at`
/// (if any); returns the steps taken.
fn replace(disk: &mut Disk, suppress_newline: bool, fail_at: Option<usize>) -> Vec<Step> {
    let mut steps = vec![];
    let mut step = first_step();
    loop {
        steps.push(step);
        let event = if fail_at == Some(steps.len() - 1) {
            if step == Step::TrimIntoScratch {
                disk.scratch = Some("partial".to_string());
            }
            Event::Error
        } else {
            match step {
                Step::ProbeScratch => Event::ScratchExists(disk.scratch.is_some()),
                Step::RemoveScratch => {
                    disk.scratch = None;
                    Event::Done
                }
                Step::CopyToScratch => {
                    disk.scratch = Some(disk.file.clone());
                    Event::Done
                }
                Step::OpenScratch => {
                    disk.scratch = Some(String::new());
                    Event::Done
                }
                Step::TrimIntoScratch => {
                    let lines: Vec<String> =
                        disk.file.as_bytes().lines().map(|l| l.unwrap()).collect();
                    let t = trim_lines(&lines, suppress_newline);
                    disk.scratch = Some(t.output);
                    Event::Trimmed(t.result.bytes_saved)
                }
                Step::RenameOverFile { .. } => {
                    disk.file = disk.scratch.take().unwrap();
                    Event::Done
                }
                Step::Finished { .. } | Step::Failed => return steps,
            }
        };
        step = next_step(step, event);
    }
}

#[test]
fn trim_parametrized_inplace_n_suppress_newline() {
    for (input, expected_raw, savings) in test_data() {
        let mut disk = Disk { file: input.to_string(), scratch: Some("stale".to_string()) };
        let steps = replace(&mut disk, false, None);
        match steps.last() {
            Some(Step::Finished { bytes_saved }) => assert_eq!(savings as i64 - 1, *bytes_saved),
            _ => panic!(),
        }
        assert_eq!(format!("{}\n", expected_raw), disk.file);
        assert!(disk.scratch.is_none());
    }
}

#[test]
fn trim_parametrized_inplace_suppress_newline() {
    for (input, expected_raw, savings) in test_data() {
        let mut disk = Disk { file: input.to_string(), scratch: None };
        let steps = replace(&mut disk, true, None);
        match steps.last() {
            Some(Step::Finished { bytes_saved }) => assert_eq!(savings as i64 - 1, *bytes_saved),
            _ => panic!(),
        }
        assert_eq!(expected_raw, disk.file);
    }
}

#[test]
fn steps_in_order() {
    let mut disk = Disk { file: "a \n".to_string(), scratch: Some("old".to_string()) };
    let steps = replace(&mut disk, false, None);
    assert_eq!(
        vec![
            Step::ProbeScratch,
            Step::RemoveScratch,
            Step::CopyToScratch,
            Step::OpenScratch,
            Step::TrimIntoScratch,
            Step::RenameOverFile { bytes_saved: 1 },
            Step::Finished { bytes_saved: 1 },
        ],
        steps
    );
    let mut disk = Disk { file: "a".to_string(), scratch: None };
    let steps = replace(&mut disk, false, None);
    assert_eq!(Step::CopyToScratch, steps[1]);
}

#[test]
fn failure_before_rename_leaves_file_alone() {
    for fail_at in 0..5 {
        let mut disk = Disk { file: "keep  \n\n".to_string(), scratch: Some("x".to_string()) };
        let steps = replace(&mut disk, false, Some(fail_at));
        assert_eq!(Some(&Step::Failed), steps.last());
        assert!(!steps.iter().any(|s| matches!(s, Step::RenameOverFile { .. })));
        assert_eq!("keep  \n\n", disk.file);
    }
}

#[test]
fn failed_rename_is_reported() {
    assert_eq!(Step::Failed, next_step(Step::RenameOverFile { bytes_saved: 3 }, Event::Error));
    assert_eq!(Step::Failed, next_step(Step::CopyToScratch, Event::Trimmed(3)));
    assert_eq!(Step::Failed, next_step(Step::Failed, Event::Done));
    assert_eq!(
        Step::Finished { bytes_saved: 2 },
        next_step(Step::Finished { bytes_saved: 2 }, Event::Error)
    );
}

#[test]
fn scratch_name_is_hash_of_path() {
    let name = scratch_file_name("dir/file.txt");
    assert_eq!(format!("{}.trim", hash_default("dir/file.txt")), name);
    assert_eq!(name, scratch_file_name("dir/file.txt"));
    assert_ne!(name, scratch_file_name("other/file.txt"));
}
