use vstd::prelude::*;
pub use crate::manifest::CrashtestList;
use crate::text::{path_join, path_join_spec};
use crate::urls::{file_url_of, scheme_of, test_url_for_file};
use crate::harness::CommandSpec;

verus! {

/// The path of the root manifest inside a gecko source tree.
pub fn crashtests_list_path(gecko_root: &str) -> (r: String)
    ensures
        r@ == path_join_spec(
            path_join_spec(path_join_spec(gecko_root@, "testing"@), "crashtest"@),
            "crashtests.list"@,
        ),
{
    let a = path_join(gecko_root, "testing");
    let b = path_join(a.as_str(), "crashtest");
    path_join(b.as_str(), "crashtests.list")
}

/// The URL of a root manifest whose canonical path is given: owed
/// exactly when the path is absolute, and then it is that path's own
/// file URL.
pub fn crashtests_list_url(canonical_list_path: &str) -> (r: Option<String>)
    ensures
        r is Some <==> (canonical_list_path@.len() > 0 && canonical_list_path@[0] == '/'),
        r matches Some(u) ==> u@ == file_url_of(canonical_list_path@) && scheme_of(u@) == "file"@,
{
    test_url_for_file(canonical_list_path)
}

/// Replays one crashtest against firefox from an object directory.
pub struct CrashtestRunner {
    pub objdir: String,
}

impl CrashtestRunner {
    /// Takes the canonical object directory.
    pub fn new(objdir: String) -> (s: Self)
        ensures
            s.objdir@ == objdir@,
    {
        CrashtestRunner { objdir }
    }

    /// The decision part of running one test: a URL whose scheme is not
    /// `file` is skipped outright; otherwise the exact firefox
    /// invocation, headless, against a scratch profile directory that
    /// lives only for this run.
    pub fn plan(&self, url: &str, profile_dir: &str) -> (r: Option<CommandSpec>)
        ensures
            scheme_of(url@) != "file"@ ==> r is None,
            scheme_of(url@) == "file"@ ==> (r matches Some(c) && {
                &&& c.program@ == path_join_spec(
                    path_join_spec(path_join_spec(self.objdir@, "dist"@), "bin"@),
                    "firefox"@,
                )
                &&& c.args.deep_view() =~= seq![
                    "-layoutdebug"@,
                    url@,
                    "-autoclose"@,
                    "-no-remote"@,
                    "-profile"@,
                    profile_dir@,
                ]
                &&& c.env@.len() == 2
                &&& c.env@[0].0@ == "MOZ_GDB_SLEEP"@ && c.env@[0].1@ == "0"@
                &&& c.env@[1].0@ == "MOZ_HEADLESS"@ && c.env@[1].1@ == "1"@
            }),
    {
        if !crate::urls::is_file_url(url) {
            return None;
        }
        let a = path_join(self.objdir.as_str(), "dist");
        let b = path_join(a.as_str(), "bin");
        let firefox = path_join(b.as_str(), "firefox");
        let mut env: Vec<(String, String)> = Vec::new();
        env.push((String::from_str("MOZ_GDB_SLEEP"), String::from_str("0")));
        env.push((String::from_str("MOZ_HEADLESS"), String::from_str("1")));
        let mut args: Vec<String> = Vec::new();
        args.push(String::from_str("-layoutdebug"));
        args.push(String::from_str(url));
        args.push(String::from_str("-autoclose"));
        args.push(String::from_str("-no-remote"));
        args.push(String::from_str("-profile"));
        args.push(String::from_str(profile_dir));
        let c = CommandSpec { program: firefox, args, env };
        proof {
            assert(c.args.deep_view() =~= seq![
                "-layoutdebug"@,
                url@,
                "-autoclose"@,
                "-no-remote"@,
                "-profile"@,
                profile_dir@,
            ]);
        }
        Some(c)
    }
}

} // verus!
