//! Building the release binary for a deployment: which workspace to build
//! in, and where the binary lands.

use crate::text::{contains, contains_text};
use vstd::prelude::*;
use vstd::string::*;

verus! {

/// An ancestor directory of the app's manifest, innermost first: its path
/// (none when it is not valid text) and the content of its `Cargo.toml`
/// (none when there is no readable one).
#[derive(Clone, Debug)]
pub struct Ancestor {
    pub path: Option<String>,
    pub manifest: Option<String>,
}

/// Whether the manifest declares a workspace that names the app.
pub open spec fn is_app_workspace(manifest: Option<String>, name: Seq<char>) -> bool {
    manifest matches Some(m) && contains_text(m@, "[workspace]"@) && contains_text(m@, name)
}

/// The directory to build in after looking at `ancestors` (innermost first):
/// the outermost one whose manifest is a workspace naming the app, with the
/// search stopping at the first such directory whose path is not text.
pub open spec fn workspace_after(current: Seq<char>, ancestors: Seq<Ancestor>, name: Seq<char>) -> Seq<char>
    decreases ancestors.len(),
{
    if ancestors.len() == 0 {
        current
    } else if is_app_workspace(ancestors[0].manifest, name) {
        match ancestors[0].path {
            Some(p) => workspace_after(p@, ancestors.drop_first(), name),
            None => current,
        }
    } else {
        workspace_after(current, ancestors.drop_first(), name)
    }
}

/// Chooses the directory to build the app `name` in, starting from the
/// directory of its manifest.
pub fn workspace_path(manifest_dir: &str, ancestors: &Vec<Ancestor>, name: &str) -> (r: String)
    ensures
        r@ == workspace_after(manifest_dir@, ancestors@, name@),
{
    let mut current = String::from_str(manifest_dir);
    let mut i: usize = 0;
    assert(ancestors@.skip(0) =~= ancestors@);
    while i < ancestors.len()
        invariant
            i <= ancestors@.len(),
            workspace_after(current@, ancestors@.skip(i as int), name@) == workspace_after(
                manifest_dir@,
                ancestors@,
                name@,
            ),
        decreases ancestors.len() - i,
    {
        let a = &ancestors[i];
        proof {
            assert(ancestors@.skip(i as int)[0] == *a);
            assert(ancestors@.skip(i as int).drop_first() =~= ancestors@.skip(i + 1));
        }
        let matches = match &a.manifest {
            Some(m) => contains(m.as_str(), "[workspace]") && contains(m.as_str(), name),
            None => false,
        };
        if matches {
            match &a.path {
                Some(p) => {
                    current = p.clone();
                },
                None => {
                    return current;
                },
            }
        }
        i = i + 1;
    }
    assert(ancestors@.skip(i as int) =~= Seq::<Ancestor>::empty());
    current
}

/// The target directory of a workspace.
pub fn target_path(workspace: &str) -> (r: String)
    ensures
        r@ == workspace@ + "/target"@,
{
    let mut s = String::from_str(workspace);
    s.append("/target");
    s
}

/// Where the release build of app `name` puts its binary.
pub fn release_binary_path(target: &str, name: &str) -> (r: String)
    ensures
        r@ == target@ + "/"@ + name@ + "/x86_64-unknown-linux-gnu/release/"@ + name@,
{
    let mut s = String::from_str(target);
    s.append("/");
    s.append(name);
    s.append("/x86_64-unknown-linux-gnu/release/");
    s.append(name);
    s
}

} // verus!
