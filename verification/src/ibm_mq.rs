//! Where the IBM MQ client library is looked for when it is loaded at run time.
use crate::text::concat2;
use vstd::prelude::*;
use vstd::string::*;

verus! {

/// The operating systems whose library names differ.
#[derive(Debug, Clone, Copy, PartialEq, Eq, Structural)]
pub enum TargetOs {
    Windows,
    MacOs,
    /// Linux and every other Unix.
    Other,
}

/// The file name of the client library on a system.
pub open spec fn library_name(os: TargetOs) -> Seq<char> {
    match os {
        TargetOs::Windows => "mqm.dll"@,
        TargetOs::MacOs => "libmqm_r.dylib"@,
        TargetOs::Other => "libmqm_r.so"@,
    }
}

/// The file name of the client library on a system.
pub fn default_library_name(os: TargetOs) -> (r: &'static str)
    ensures
        r@ == library_name(os),
{
    match os {
        TargetOs::Windows => "mqm.dll",
        TargetOs::MacOs => "libmqm_r.dylib",
        TargetOs::Other => "libmqm_r.so",
    }
}

/// The paths tried, in order: an explicit override, then the `lib64` and `lib` directories
/// of an installation, then the bare name for the system's search path; an empty override
/// or installation path counts as none.
pub open spec fn candidates(over: Option<Seq<char>>, install: Option<Seq<char>>, name: Seq<char>) -> Seq<Seq<char>> {
    let a = match over {
        Some(p) => if p.len() > 0 { seq![p] } else { Seq::empty() },
        None => Seq::empty(),
    };
    let b = match install {
        Some(base) => if base.len() > 0 {
            a.push(base + "/lib64/"@ + name).push(base + "/lib/"@ + name)
        } else {
            a
        },
        None => a,
    };
    b.push(name)
}

/// The paths tried when loading the client library (see [`candidates`]).
pub fn library_candidates(override_path: Option<&str>, installation_path: Option<&str>, name: &str) -> (r: Vec<String>)
    ensures
        r@.map_values(|s: String| s@) == candidates(
            crate::http::opt_str_view(override_path),
            crate::http::opt_str_view(installation_path),
            name@,
        ),
{
    let mut out: Vec<String> = Vec::new();
    match override_path {
        Some(p) => {
            if p.unicode_len() > 0 {
                out.push(String::from_str(p));
            }
        },
        None => {},
    }
    match installation_path {
        Some(base) => {
            if base.unicode_len() > 0 {
                let mut lib64 = concat2(base, "/lib64/");
                lib64.append(name);
                out.push(lib64);
                let mut lib = concat2(base, "/lib/");
                lib.append(name);
                out.push(lib);
            }
        },
        None => {},
    }
    out.push(String::from_str(name));
    proof {
        reveal_strlit("/lib64/");
        reveal_strlit("/lib/");
    }
    assert(out@.map_values(|s: String| s@) =~= candidates(
        crate::http::opt_str_view(override_path),
        crate::http::opt_str_view(installation_path),
        name@,
    ));
    out
}

} // verus!
