use vstd::prelude::*;
use crate::text::{path_join, path_join_spec};
use crate::urls::scheme_of;
use crate::harness::CommandSpec;

verus! {

/// Replays one crashtest against WebKitTestRunner from a build tree.
pub struct CrashtestRunner {
    pub test_runner: String,
    pub plugin_path: String,
    pub test_runner_injected_bundle: String,
    pub dependencies_path: String,
}

/// The `Debug/lib` directory of a canonical WebKit build tree.
pub open spec fn debug_lib_spec(build_dir: Seq<char>) -> Seq<char> {
    path_join_spec(path_join_spec(build_dir, "Debug"@), "lib"@)
}

impl CrashtestRunner {
    /// Takes the canonical build directory and resolves the runner
    /// binary, plugin directory, injected bundle, and GTK dependency
    /// libraries inside it.
    pub fn new(build_dir: String) -> (s: Self)
        ensures
            s.test_runner@ == path_join_spec(
                path_join_spec(path_join_spec(build_dir@, "Debug"@), "bin"@),
                "WebKitTestRunner"@,
            ),
            s.plugin_path@ == path_join_spec(debug_lib_spec(build_dir@), "plugins"@),
            s.test_runner_injected_bundle@ == path_join_spec(
                debug_lib_spec(build_dir@),
                "libTestRunnerInjectedBundle.so"@,
            ),
            s.dependencies_path@ == path_join_spec(
                path_join_spec(path_join_spec(build_dir@, "DependenciesGTK"@), "Root"@),
                "lib"@,
            ),
    {
        let debug = path_join(build_dir.as_str(), "Debug");
        let bin = path_join(debug.as_str(), "bin");
        let lib = path_join(debug.as_str(), "lib");
        let deps_a = path_join(build_dir.as_str(), "DependenciesGTK");
        let deps_b = path_join(deps_a.as_str(), "Root");
        CrashtestRunner {
            test_runner: path_join(bin.as_str(), "WebKitTestRunner"),
            plugin_path: path_join(lib.as_str(), "plugins"),
            test_runner_injected_bundle: path_join(lib.as_str(), "libTestRunnerInjectedBundle.so"),
            dependencies_path: path_join(deps_b.as_str(), "lib"),
        }
    }

    /// The decision part of running one test: a URL whose scheme is not
    /// `file` is skipped outright; otherwise the exact invocation with
    /// its library-path and bundle environment.
    pub fn plan(&self, url: &str) -> (r: Option<CommandSpec>)
        ensures
            scheme_of(url@) != "file"@ ==> r is None,
            scheme_of(url@) == "file"@ ==> (r matches Some(c) && {
                &&& c.program@ == self.test_runner@
                &&& c.args.deep_view() =~= seq![url@]
                &&& c.env@.len() == 3
                &&& c.env@[0].0@ == "LD_LIBRARY_PATH"@ && c.env@[0].1@ == self.dependencies_path@
                &&& c.env@[1].0@ == "TEST_RUNNER_TEST_PLUGIN_PATH"@ && c.env@[1].1@
                    == self.plugin_path@
                &&& c.env@[2].0@ == "TEST_RUNNER_INJECTED_BUNDLE_FILENAME"@ && c.env@[2].1@
                    == self.test_runner_injected_bundle@
            }),
    {
        if !crate::urls::is_file_url(url) {
            return None;
        }
        let mut env: Vec<(String, String)> = Vec::new();
        env.push((String::from_str("LD_LIBRARY_PATH"), self.dependencies_path.clone()));
        env.push((String::from_str("TEST_RUNNER_TEST_PLUGIN_PATH"), self.plugin_path.clone()));
        env.push(
            (
                String::from_str("TEST_RUNNER_INJECTED_BUNDLE_FILENAME"),
                self.test_runner_injected_bundle.clone(),
            ),
        );
        let mut args: Vec<String> = Vec::new();
        args.push(String::from_str(url));
        let c = CommandSpec { program: self.test_runner.clone(), args, env };
        proof {
            assert(c.args.deep_view() =~= seq![url@]);
        }
        Some(c)
    }
}

} // verus!
