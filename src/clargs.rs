//! The options of a run, and what they ask for.
use std::path::PathBuf;
use vstd::prelude::*;

verus! {

#[verifier::external_type_specification]
#[verifier::external_body]
pub struct ExPathBuf(PathBuf);

/// The options of a run.
pub struct Opt {
    /// Trim the files in place, replacing their content atomically.
    pub in_place: bool,
    /// Leave out the line feed after the last line.
    pub suppress_newline: bool,
    /// Leave out the summary.
    pub suppress_summary: bool,
    /// Leave out the visual report of the trim.
    pub suppress_visual: bool,
    /// Files to trim; standard input when there are none or one is `-`.
    pub files: Vec<PathBuf>,
}

/// Where the lines come from and where the trimmed text goes.
#[derive(Clone, Copy, Debug, PartialEq, Eq, Structural)]
pub enum Plan {
    /// Each file is trimmed in place.
    InPlace,
    /// No file was named: standard input to standard output.
    StdinNoFiles,
    /// The one file named is `-`: standard input to standard output.
    StdinDash,
    /// The one file named goes to standard output.
    OneFile,
}

/// Options that ask for something that cannot be done.
#[derive(Clone, Copy, Debug, PartialEq, Eq, Structural)]
pub enum PlanError {
    /// In-place trimming, but the lines would come from standard input.
    StdinInPlace,
    /// `-` together with other files.
    DashAmongFiles,
    /// Several files, but not in place.
    SeveralFiles,
}

impl PlanError {
    /// What went wrong, in words.
    pub fn message(&self) -> (r: &'static str)
        ensures
            r@ == match self {
                PlanError::StdinInPlace => "Cannot read from stdin if `-i` is specified"@,
                PlanError::DashAmongFiles => "Can't mix `-` with other files"@,
                PlanError::SeveralFiles => "Cannot handle multiple files without `-i`"@,
            },
    {
        match self {
            PlanError::StdinInPlace => "Cannot read from stdin if `-i` is specified",
            PlanError::DashAmongFiles => "Can't mix `-` with other files",
            PlanError::SeveralFiles => "Cannot handle multiple files without `-i`",
        }
    }
}

/// The plan for a run: standard input is read when no file is named or
/// `-` is; in place needs files; `-` must stand alone; and without in
/// place only one file can be named.
pub open spec fn plan_of(in_place: bool, n_files: nat, dash_given: bool) -> Result<
    Plan,
    PlanError,
> {
    let stdin = n_files == 0 || dash_given;
    if in_place {
        if stdin {
            Err(PlanError::StdinInPlace)
        } else {
            Ok(Plan::InPlace)
        }
    } else if n_files == 0 {
        Ok(Plan::StdinNoFiles)
    } else if dash_given {
        if n_files == 1 {
            Ok(Plan::StdinDash)
        } else {
            Err(PlanError::DashAmongFiles)
        }
    } else if n_files == 1 {
        Ok(Plan::OneFile)
    } else {
        Err(PlanError::SeveralFiles)
    }
}

/// Chooses the plan for a run with `n_files` files named, `dash_given`
/// telling whether one of them is `-`.
pub fn choose_plan(in_place: bool, n_files: usize, dash_given: bool) -> (r: Result<
    Plan,
    PlanError,
>)
    ensures
        r == plan_of(in_place, n_files as nat, dash_given),
{
    let stdin = n_files == 0 || dash_given;
    if in_place {
        if stdin {
            Err(PlanError::StdinInPlace)
        } else {
            Ok(Plan::InPlace)
        }
    } else if n_files == 0 {
        Ok(Plan::StdinNoFiles)
    } else if dash_given {
        if n_files == 1 {
            Ok(Plan::StdinDash)
        } else {
            Err(PlanError::DashAmongFiles)
        }
    } else if n_files == 1 {
        Ok(Plan::OneFile)
    } else {
        Err(PlanError::SeveralFiles)
    }
}

/// Relies on std's `Path::to_str`: the path as text, when it is valid
/// Unicode.
#[verifier::external_body]
fn path_str(p: &PathBuf) -> (r: Option<&str>) {
    p.to_str()
}

/// Whether the text is `-`.
pub fn is_dash(t: &str) -> (r: bool)
    ensures
        r == (t@ == seq!['-']),
{
    if t.unicode_len() == 1 {
        let c = t.get_char(0);
        proof {
            if c == '-' {
                assert(t@ =~= seq!['-']);
            }
        }
        c == '-'
    } else {
        false
    }
}

impl Opt {
    /// The plan these options ask for. Which names spell `-` is read from
    /// the paths, so the result is the plan for that reading.
    pub fn plan(&self) -> (r: Result<Plan, PlanError>)
        ensures
            exists|d: bool| r == plan_of(self.in_place, self.files.len() as nat, d),
            self.files.len() == 0 ==> r == plan_of(self.in_place, 0, false),
    {
        let mut dash = false;
        let mut i: usize = 0;
        while i < self.files.len()
            invariant
                i <= self.files.len(),
            decreases self.files.len() - i,
        {
            match path_str(&self.files[i]) {
                Some(t) => {
                    if is_dash(t) {
                        dash = true;
                    }
                },
                None => {},
            }
            i = i + 1;
        }
        let r = choose_plan(self.in_place, self.files.len(), dash);
        assert(r == plan_of(self.in_place, self.files.len() as nat, dash));
        r
    }
}

/// The exit status of a run: 0 when every file went well, else 1.
pub fn exit_code(failures: usize) -> (r: i32)
    ensures
        r == (if failures == 0 {
            0i32
        } else {
            1i32
        }),
{
    if failures == 0 {
        0
    } else {
        1
    }
}

} // verus!
