//! Where an environment and its companions live under the root directory:
//! `<root>/<fingerprint>/` is the environment, `<root>/<fingerprint>.lock`
//! its lock file and `<root>/<fingerprint>.requirements` the requirements it
//! was built from.
use vstd::prelude::*;
use vstd::string::StringExecFns;

verus! {

/// `a` followed by `b`.
fn joined(a: &str, b: &str) -> (r: String)
    ensures
        r@ == a@ + b@,
{
    let mut s = a.to_owned();
    s.append(b);
    s
}

/// The environment directory of `fingerprint` under `root`.
pub fn env_dir(root: &str, fingerprint: &str) -> (r: String)
    ensures
        r@ == root@ + seq!['/'] + fingerprint@,
{
    proof {
        reveal_strlit("/");
    }
    let s = joined(root, "/");
    joined(s.as_str(), fingerprint)
}

/// The lock file beside the environment directory `dir`.
pub fn lock_path(dir: &str) -> (r: String)
    ensures
        r@ == dir@ + seq!['.', 'l', 'o', 'c', 'k'],
{
    proof {
        reveal_strlit(".lock");
    }
    joined(dir, ".lock")
}

/// The requirements file beside the environment directory `dir`.
pub fn requirements_path(dir: &str) -> (r: String)
    ensures
        r@ == dir@ + seq!['.', 'r', 'e', 'q', 'u', 'i', 'r', 'e', 'm', 'e', 'n', 't', 's'],
{
    proof {
        reveal_strlit(".requirements");
    }
    joined(dir, ".requirements")
}

/// The interpreter inside the environment directory `dir`.
pub fn python_path(dir: &str) -> (r: String)
    ensures
        r@ == dir@ + seq!['/', 'b', 'i', 'n', '/', 'p', 'y', 't', 'h', 'o', 'n'],
{
    proof {
        reveal_strlit("/bin/python");
    }
    joined(dir, "/bin/python")
}

/// The package installer inside the environment directory `dir`.
pub fn pip_path(dir: &str) -> (r: String)
    ensures
        r@ == dir@ + seq!['/', 'b', 'i', 'n', '/', 'p', 'i', 'p'],
{
    proof {
        reveal_strlit("/bin/pip");
    }
    joined(dir, "/bin/pip")
}

} // verus!
