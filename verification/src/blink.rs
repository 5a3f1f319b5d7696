use vstd::prelude::*;
use crate::text::{str_eq, str_eq_chars, str_contains, str_ends_with, file_stem, path_join,
    path_join_spec, stem_spec, contains_spec, ends_with_spec};
use crate::urls::{file_url_of, scheme_of, test_url_for_file};
use crate::harness::CommandSpec;

verus! {

broadcast use vstd::string::group_string_axioms;

/// The directory name, besides `resources` and `third_party`, whose
/// subtree holds vendored content and is pruned whole.
pub open spec fn vendored_dir_name() -> Seq<char> {
    seq!['e', 'x', 't', 'e', 'r', 'n', 'a', 'l']
}

fn vendored_dir_chars() -> (r: Vec<char>)
    ensures
        r@ == vendored_dir_name(),
{
    let mut cs: Vec<char> = Vec::new();
    cs.push('e');
    cs.push('x');
    cs.push('t');
    cs.push('e');
    cs.push('r');
    cs.push('n');
    cs.push('a');
    cs.push('l');
    proof {
        assert(cs@ =~= vendored_dir_name());
    }
    cs
}

/// Directories whose whole subtree is pruned during the walk.
pub open spec fn pruned_dir_spec(name: Seq<char>) -> bool {
    name == "resources"@ || name == vendored_dir_name() || name == "third_party"@
}

/// Whether a directory of this name is pruned whole.
pub fn prunes_dir(name: &str) -> (r: bool)
    ensures
        r == pruned_dir_spec(name@),
{
    if str_eq(name, "resources") {
        return true;
    }
    let vendored = vendored_dir_chars();
    if str_eq_chars(name, &vendored) {
        return true;
    }
    str_eq(name, "third_party")
}

/// The filename filtering policy of the directory scanner. The
/// required stem substring is a deliberate, coarse inclusion heuristic
/// — configurable, since the corpus gives no format guarantee.
pub struct ScanFilter {
    pub required_stem_substring: Option<String>,
}

impl ScanFilter {
    /// A filter with the given required stem substring, or none.
    pub fn new(required_stem_substring: Option<String>) -> (s: Self)
        ensures
            s.required_stem_substring == required_stem_substring,
    {
        ScanFilter { required_stem_substring }
    }

    /// The policy the corpus is scanned with by default: only files
    /// whose stem mentions `crash` are taken.
    pub fn default_policy() -> (s: Self)
        ensures
            s.required_stem_substring matches Some(r) && r@ == "crash"@,
    {
        ScanFilter { required_stem_substring: Some(String::from_str("crash")) }
    }

    /// Whether a file with this stem is a test: baseline and metadata
    /// files are never taken, and the required substring must occur.
    pub open spec fn accepts_stem_spec(self, stem: Seq<char>) -> bool {
        &&& !ends_with_spec(stem, "-expected"@)
        &&& stem != "README"@
        &&& stem != "OWNERS"@
        &&& match self.required_stem_substring {
            Some(s) => contains_spec(stem, s@),
            None => true,
        }
    }

    /// Whether a file with this stem is taken as a test.
    pub fn accepts_stem(&self, stem: &str) -> (r: bool)
        ensures
            r == self.accepts_stem_spec(stem@),
    {
        if str_ends_with(stem, "-expected") {
            return false;
        }
        if str_eq(stem, "README") {
            return false;
        }
        if str_eq(stem, "OWNERS") {
            return false;
        }
        match &self.required_stem_substring {
            Some(s) => str_contains(stem, s.as_str()),
            None => true,
        }
    }

    /// Whether a file entry at this depth, with this name, is taken:
    /// the root entry itself (depth zero) never is.
    pub fn accepts_file(&self, depth: usize, file_name: &str) -> (r: bool)
        ensures
            r == (depth > 0 && self.accepts_stem_spec(stem_spec(file_name@))),
    {
        if depth == 0 {
            return false;
        }
        let stem = file_stem(file_name);
        self.accepts_stem(stem.as_str())
    }

    /// The test URL for an accepted file entry, or `None` when the
    /// entry is filtered out or its path cannot name a file URL. Every
    /// accepted entry below the root with an absolute path yields one.
    pub fn evaluate_file(&self, depth: usize, file_name: &str, path: &str) -> (r: Option<String>)
        ensures
            r matches Some(u) ==> depth > 0 && self.accepts_stem_spec(stem_spec(file_name@)) && u@
                == file_url_of(path@) && scheme_of(u@) == "file"@,
            (depth > 0 && self.accepts_stem_spec(stem_spec(file_name@)) && path@.len() > 0
                && path@[0] == '/') ==> r is Some,
    {
        if self.accepts_file(depth, file_name) {
            test_url_for_file(path)
        } else {
            None
        }
    }

    /// Whether a file whose path below the scan root runs through the
    /// given directory components would be yielded at all: no component
    /// on the way may be pruned, and the filename's stem must be taken.
    pub open spec fn yields_path_spec(self, components: Seq<Seq<char>>) -> bool {
        &&& components.len() >= 1
        &&& forall|i: int| 0 <= i < components.len() - 1 ==> !pruned_dir_spec(#[trigger] components[i])
        &&& self.accepts_stem_spec(stem_spec(components.last()))
    }

    /// Whole-path form of the walk's filtering decisions.
    pub fn yields_path(&self, components: &Vec<String>) -> (r: bool)
        ensures
            r == self.yields_path_spec(components.deep_view()),
    {
        let n = components.len();
        if n == 0 {
            return false;
        }
        let mut i: usize = 0;
        while i < n - 1
            invariant
                0 <= i <= n - 1,
                n == components@.len() >= 1,
                forall|j: int| 0 <= j < i ==> !pruned_dir_spec(#[trigger] components.deep_view()[j]),
            decreases n - 1 - i,
        {
            if prunes_dir(components[i].as_str()) {
                proof {
                    assert(components.deep_view()[i as int] == components@[i as int]@);
                }
                return false;
            }
            proof {
                assert(components.deep_view()[i as int] == components@[i as int]@);
            }
            i = i + 1;
        }
        let stem = file_stem(components[n - 1].as_str());
        proof {
            assert(components.deep_view().last() == components@[n - 1]@);
        }
        self.accepts_stem(stem.as_str())
    }
}

/// No entry below a pruned directory — `resources`, `third_party`, or
/// the vendored-content directory — is ever yielded, whatever its name.
pub proof fn lemma_pruned_dir_excluded(filter: ScanFilter, components: Seq<Seq<char>>, i: int)
    requires
        0 <= i < components.len() - 1,
        pruned_dir_spec(components[i]),
    ensures
        !filter.yields_path_spec(components),
{
}

/// No baseline or metadata file — stem ending in `-expected`, or named
/// exactly `README` or `OWNERS` — is ever yielded, whatever it
/// otherwise mentions.
pub proof fn lemma_metadata_file_excluded(filter: ScanFilter, components: Seq<Seq<char>>)
    requires
        components.len() >= 1,
        ends_with_spec(stem_spec(components.last()), "-expected"@) || stem_spec(components.last())
            == "README"@ || stem_spec(components.last()) == "OWNERS"@,
    ensures
        !filter.yields_path_spec(components),
{
}

/// The corpus subdirectory the walk starts at.
pub fn web_tests_path(chromium_src: &str) -> (r: String)
    ensures
        r@ == path_join_spec(
            path_join_spec(path_join_spec(chromium_src@, "third_party"@), "blink"@),
            "web_tests"@,
        ),
{
    let a = path_join(chromium_src, "third_party");
    let b = path_join(a.as_str(), "blink");
    path_join(b.as_str(), "web_tests")
}

/// Replays one crashtest against content_shell.
pub struct CrashtestRunner {
    pub content_shell: String,
}

impl CrashtestRunner {
    /// Takes the canonical build output directory.
    pub fn new(out_path: String) -> (s: Self)
        ensures
            s.content_shell@ == path_join_spec(out_path@, "content_shell"@),
    {
        let content_shell = path_join(out_path.as_str(), "content_shell");
        CrashtestRunner { content_shell }
    }

    /// The decision part of running one test: a URL whose scheme is not
    /// `file` is skipped outright; otherwise the exact invocation.
    pub fn plan(&self, url: &str) -> (r: Option<CommandSpec>)
        ensures
            scheme_of(url@) != "file"@ ==> r is None,
            scheme_of(url@) == "file"@ ==> (r matches Some(c) && {
                &&& c.program@ == self.content_shell@
                &&& c.args.deep_view() =~= seq![
                    "--run-web-tests"@,
                    "--single-process"@,
                    "--enable-experimental-web-platform-features"@,
                    url@,
                ]
                &&& c.env@.len() == 0
            }),
    {
        if !crate::urls::is_file_url(url) {
            return None;
        }
        let mut args: Vec<String> = Vec::new();
        args.push(String::from_str("--run-web-tests"));
        args.push(String::from_str("--single-process"));
        args.push(String::from_str("--enable-experimental-web-platform-features"));
        args.push(String::from_str(url));
        let c = CommandSpec { program: self.content_shell.clone(), args, env: Vec::new() };
        proof {
            assert(c.args.deep_view() =~= seq![
                "--run-web-tests"@,
                "--single-process"@,
                "--enable-experimental-web-platform-features"@,
                url@,
            ]);
        }
        Some(c)
    }
}

} // verus!
