use std::path::PathBuf;
use trim::clargs::{choose_plan, exit_code, is_dash, Opt, Plan, PlanError};
use trim::util::{green, red, red_padding_with_len, summary_line};

fn opt(in_place: bool, files: &[&str]) -> Opt {
    Opt {
        in_place,
        suppress_newline: false,
        suppress_summary: false,
        suppress_visual: false,
        files: files.iter().map(PathBuf::from).collect(),
    }
}

#[test]
fn plans() {
    assert_eq!(Ok(Plan::StdinNoFiles), choose_plan(false, 0, false));
    assert_eq!(Ok(Plan::StdinDash), choose_plan(false, 1, true));
    assert_eq!(Ok(Plan::OneFile), choose_plan(false, 1, false));
    assert_eq!(Ok(Plan::InPlace), choose_plan(true, 3, false));
    assert_eq!(Err(PlanError::StdinInPlace), choose_plan(true, 0, false));
    assert_eq!(Err(PlanError::StdinInPlace), choose_plan(true, 2, true));
    assert_eq!(Err(PlanError::DashAmongFiles), choose_plan(false, 2, true));
    assert_eq!(Err(PlanError::SeveralFiles), choose_plan(false, 2, false));
}

#[test]
fn plans_from_options() {
    assert_eq!(Ok(Plan::StdinNoFiles), opt(false, &[]).plan());
    assert_eq!(Ok(Plan::StdinDash), opt(false, &["-"]).plan());
    assert_eq!(Err(PlanError::DashAmongFiles), opt(false, &["a", "-"]).plan());
    assert_eq!(Ok(Plan::OneFile), opt(false, &["a"]).plan());
    assert_eq!(Ok(Plan::InPlace), opt(true, &["a", "b"]).plan());
    assert_eq!(Err(PlanError::StdinInPlace), opt(true, &["-"]).plan());
    assert_eq!(Err(PlanError::SeveralFiles), opt(false, &["a", "b"]).plan());
}

#[test]
fn plan_error_messages() {
    assert_eq!("Cannot read from stdin if `-i` is specified", PlanError::StdinInPlace.message());
    assert_eq!("Can't mix `-` with other files", PlanError::DashAmongFiles.message());
    assert_eq!("Cannot handle multiple files without `-i`", PlanError::SeveralFiles.message());
}

#[test]
fn dash() {
    assert!(is_dash("-"));
    assert!(!is_dash("--"));
    assert!(!is_dash(""));
    assert!(!is_dash("a"));
}

#[test]
fn exit_codes() {
    assert_eq!(0, exit_code(0));
    assert_eq!(1, exit_code(1));
    assert_eq!(1, exit_code(7));
}

#[test]
fn colours() {
    assert_eq!("\u{1b}[31mbad\u{1b}[0m", red("bad"));
    assert_eq!("\u{1b}[32mgood\u{1b}[0m", green("good"));
    assert_eq!("\u{1b}[41;37m____\u{1b}[0m", red_padding_with_len(4));
    assert_eq!("\u{1b}[41;37m\u{1b}[0m", red_padding_with_len(0));
}

#[test]
fn summary_lines() {
    assert_eq!("     0 bytes ish from stdin", summary_line(0, "stdin"));
    assert_eq!("    12 bytes ish from \u{1b}[32m\"a.txt\"\u{1b}[0m", summary_line(12, "\"a.txt\""));
}
