use vstd::prelude::*;
use vstd::string::*;
use crate::text::{join, join_strings, views};
use crate::workspace::{replace_hyphens, underscored};

verus! {

/// Names the files and the command that produce a package's documentation graph.
pub struct DocGenerator;

/// The arguments to `cargo` that make rustdoc emit the documentation graph of
/// `package` as JSON; a feature selection turns the default features off and
/// names the selected ones.
pub open spec fn rustdoc_arg_list(package: Seq<char>, features: Option<Seq<Seq<char>>>) -> Seq<
    Seq<char>,
> {
    seq!["+nightly"@, "rustdoc"@, "-p"@, package] + match features {
        Some(fs) => if fs.len() > 0 {
            seq!["--no-default-features"@, "--features"@, join(fs, ","@)]
        } else {
            seq!["--no-default-features"@]
        },
        None => Seq::empty(),
    } + seq!["--lib"@, "--"@, "-Z"@, "unstable-options"@, "--output-format"@, "json"@]
}

impl DocGenerator {
    /// The file the documentation graph of `package` is written to.
    pub fn json_file_name(package: &str) -> (r: String)
        ensures
            r@ == underscored(package@) + ".json"@,
    {
        let mut s = replace_hyphens(package);
        s.append(".json");
        s
    }

    /// The lock file that serialises generation for `package`.
    pub fn lock_file_name(package: &str) -> (r: String)
        ensures
            r@ == underscored(package@) + ".lock"@,
    {
        let mut s = replace_hyphens(package);
        s.append(".lock");
        s
    }

    /// The `cargo` arguments that generate the documentation graph of `package`.
    pub fn rustdoc_args(package: &str, features: Option<&Vec<String>>) -> (r: Vec<String>)
        ensures
            views(r@) == rustdoc_arg_list(
                package@,
                match features {
                    Some(f) => Some(views(f@)),
                    None => None,
                },
            ),
    {
        let mut r: Vec<String> = Vec::new();
        r.push(String::from_str("+nightly"));
        r.push(String::from_str("rustdoc"));
        r.push(String::from_str("-p"));
        r.push(String::from_str(package));
        match features {
            Some(f) => {
                r.push(String::from_str("--no-default-features"));
                if f.len() > 0 {
                    r.push(String::from_str("--features"));
                    r.push(join_strings(f, ","));
                }
            },
            None => {},
        }
        r.push(String::from_str("--lib"));
        r.push(String::from_str("--"));
        r.push(String::from_str("-Z"));
        r.push(String::from_str("unstable-options"));
        r.push(String::from_str("--output-format"));
        r.push(String::from_str("json"));
        assert(views(r@) =~= rustdoc_arg_list(
            package@,
            match features {
                Some(f) => Some(views(f@)),
                None => None,
            },
        ));
        r
    }
}

} // verus!
