//! The program as a whole: which repository it opens, and what it opens next.

use crate::gui::main_loop::Leaving;
use crate::text;
use vstd::prelude::*;

verus! {

/// The program, for a repository.
#[derive(Debug)]
pub struct App {
    pub repo_path: String,
    pub debug: bool,
}

/// Why a directory is refused.
pub open spec fn not_a_repository(path: Seq<char>) -> Seq<char> {
    "'"@ + path + "' is not a git repository"@
}

/// The arguments that open a repository in the same way.
pub open spec fn relaunch_args(path: Seq<char>, debug: bool) -> Seq<Seq<char>> {
    if debug {
        seq!["--path"@, path, "--debug"@]
    } else {
        seq!["--path"@, path]
    }
}

/// Gives the arguments that open a repository in the same way.
pub fn relaunch_repo(path: &str, debug: bool) -> (r: Vec<String>)
    ensures
        text::texts(r@) == relaunch_args(path@, debug),
{
    let mut args: Vec<String> = Vec::new();
    args.push("--path".to_string());
    args.push(path.to_string());
    if debug {
        args.push("--debug".to_string());
    }
    assert(text::texts(args@) =~= relaunch_args(path@, debug));
    args
}

impl App {
    /// Opens a directory, which has to be a repository.
    pub fn new(repo_path: String, debug: bool, is_valid_repo: bool) -> (r: Result<App, String>)
        ensures
            match r {
                Ok(app) => is_valid_repo && app == (App { repo_path, debug }),
                Err(e) => !is_valid_repo && e@ == not_a_repository(repo_path@),
            },
    {
        if !is_valid_repo {
            let mut e = "'".to_string();
            e.append(repo_path.as_str());
            e.append("' is not a git repository");
            return Err(e);
        }
        Ok(App { repo_path, debug })
    }

    /// Ends the program: where another repository is to be opened, gives the arguments to
    /// start again with.
    pub fn run(self, leaving: &mut Leaving) -> (r: Option<Vec<String>>)
        ensures
            *final(leaving) == (Leaving { pending_repo_open: None, ..*old(leaving) }),
            match old(leaving).pending_repo_open {
                Some(path) => r is Some && text::texts(r->0@) == relaunch_args(path@, self.debug),
                None => r is None,
            },
    {
        match leaving.take_pending_repo_open() {
            Some(path) => Some(relaunch_repo(path.as_str(), self.debug)),
            None => None,
        }
    }
}

// ---------------------------------------------------------------------------
// Laws
// ---------------------------------------------------------------------------

/// The program starts again with the path of the repository, and says that it is being
/// debugged only where it is.
pub proof fn a_repository_is_opened_in_the_same_way(path: Seq<char>, debug: bool)
    ensures
        relaunch_args(path, debug).take(2) == seq!["--path"@, path],
        relaunch_args(path, debug).skip(2) == if debug {
            seq!["--debug"@]
        } else {
            seq![]
        },
{
}

/// A directory that is refused is named in quotes.
pub proof fn a_refused_directory_is_named(path: Seq<char>)
    ensures
        not_a_repository(path) == "'"@ + path + "' is not a git repository"@,
{
}

} // verus!
