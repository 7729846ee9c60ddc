//! Where a profile's files lie: beside the client binary, named after the profile.
use crate::config::opt_string_text;
use crate::status::SupervisorError;
use vstd::prelude::*;
use vstd::string::StringExecFns;

verus! {

/// The parent directory of a path, as `std::path::Path::parent` gives it.
pub uninterp spec fn path_parent(p: Seq<char>) -> Option<Seq<char>>;

/// A path extended by one more component, as `std::path::Path::join` gives it.
pub uninterp spec fn path_join(dir: Seq<char>, name: Seq<char>) -> Seq<char>;

/// Relies on `std::path::Path::parent`: the parent directory of `p`, `None`
/// for a root or an empty path. Its result depends on `p` alone.
#[verifier::external_body]
fn parent_dir(p: &str) -> (r: Option<String>)
    ensures
        opt_string_text(r) == path_parent(p@),
{
    std::path::Path::new(p).parent().map(|d| d.to_string_lossy().into_owned())
}

/// Relies on `std::path::Path::join`: `dir` extended by `name`. Its result
/// depends on the two arguments alone.
#[verifier::external_body]
fn join_path(dir: &str, name: &str) -> (r: String)
    ensures
        r@ == path_join(dir@, name@),
{
    std::path::Path::new(dir).join(name).to_string_lossy().into_owned()
}

/// The file `<id><ext>` in the directory of the client binary, if it has one.
pub open spec fn profile_file(frpc_path: Seq<char>, id: Seq<char>, ext: Seq<char>) -> Option<
    Seq<char>,
> {
    match path_parent(frpc_path) {
        Some(d) => Some(path_join(d, id + ext)),
        None => None,
    }
}

pub open spec fn file_result(f: Option<Seq<char>>, r: Result<String, SupervisorError>) -> bool {
    match f {
        Some(p) => r is Ok && r->Ok_0@ == p,
        None => r == Err::<String, SupervisorError>(SupervisorError::InvalidBinaryPath),
    }
}

fn file_beside(frpc_path: &str, id: &str, ext: &str) -> (r: Result<String, SupervisorError>)
    ensures
        file_result(profile_file(frpc_path@, id@, ext@), r),
{
    match parent_dir(frpc_path) {
        Some(dir) => {
            let mut name = String::from_str(id);
            name.append(ext);
            Ok(join_path(dir.as_str(), name.as_str()))
        },
        None => Err(SupervisorError::InvalidBinaryPath),
    }
}

/// The rendered configuration of profile `id`: `<id>.ini` beside the binary.
pub fn config_path(frpc_path: &str, id: &str) -> (r: Result<String, SupervisorError>)
    ensures
        file_result(profile_file(frpc_path@, id@, ".ini"@), r),
{
    file_beside(frpc_path, id, ".ini")
}

/// The captured output of profile `id`: `<id>.out` beside the binary.
pub fn log_path(frpc_path: &str, id: &str) -> (r: Result<String, SupervisorError>)
    ensures
        file_result(profile_file(frpc_path@, id@, ".out"@), r),
{
    file_beside(frpc_path, id, ".out")
}

} // verus!
