use vstd::prelude::*;
use vstd::string::*;

verus! {

pub const USER_DATA_DIR_FLAG: &'static str = "--user-data-dir=";

pub const NO_FIRST_RUN_FLAG: &'static str = "--no-first-run";

pub const NO_DEFAULT_BROWSER_CHECK_FLAG: &'static str = "--no-default-browser-check";

/// The command line of a launch, after the executable: an isolated profile
/// directory, no first-run UI, no default-browser prompt, then the page to
/// open, if any.
pub open spec fn launch_args_spec(profile_dir: Seq<char>, url: Option<Seq<char>>) -> Seq<Seq<char>> {
    let fixed = seq![USER_DATA_DIR_FLAG@ + profile_dir, NO_FIRST_RUN_FLAG@, NO_DEFAULT_BROWSER_CHECK_FLAG@];
    match url {
        Some(u) => fixed.push(u),
        None => fixed,
    }
}

/// The arguments the browser is started with, given the profile directory
/// as displayed text.
pub fn launch_args(profile_dir: &str, url: Option<&str>) -> (r: Vec<String>)
    ensures
        r@.map_values(|s: String| s@) == launch_args_spec(profile_dir@, match url {
            Some(u) => Some(u@),
            None => None,
        }),
{
    let mut profile_flag = String::from_str(USER_DATA_DIR_FLAG);
    profile_flag.append(profile_dir);
    let mut r: Vec<String> = Vec::new();
    r.push(profile_flag);
    r.push(String::from_str(NO_FIRST_RUN_FLAG));
    r.push(String::from_str(NO_DEFAULT_BROWSER_CHECK_FLAG));
    if let Some(u) = url {
        r.push(String::from_str(u));
    }
    let ghost uv = match url {
        Some(u) => Some(u@),
        None => None::<Seq<char>>,
    };
    assert(r@.map_values(|s: String| s@) =~= launch_args_spec(profile_dir@, uv));
    r
}

} // verus!
