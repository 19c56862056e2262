//! Transport URLs of the memory endpoint: an in-process channel (`memory://namespace`, or a
//! bare namespace), a Unix domain socket (`unix:///path`, `ipc:///path`, `ipc://name`) on
//! Unix, or a named pipe (`pipe://name`, `ipc://name`) on Windows.
use crate::text::{find_seq, lemma_find_from_bounds, lemma_find_from_first, occurs_at, split_once, str_eq};
use vstd::prelude::*;
use vstd::string::*;

verus! {

/// What a transport URL connects to.
#[derive(Debug, Clone, Copy, PartialEq, Eq, Structural)]
pub enum TransportKind {
    /// An in-process channel, found by its namespace.
    Memory,
    /// A Unix domain socket, found by its path.
    Unix,
    /// A Windows named pipe, found by its name.
    Pipe,
}

/// A parsed transport URL.
#[derive(Debug)]
pub enum TransportUrl {
    /// In-process memory transport: `memory://namespace`.
    Memory { namespace: String },
    /// Unix domain socket: `unix:///path`, `ipc:///path` or `ipc://name`.
    Unix { path: String },
    /// Windows named pipe: `pipe://name` or `ipc://name`.
    Pipe { name: String },
}

impl View for TransportUrl {
    type V = (TransportKind, Seq<char>);

    open spec fn view(&self) -> (TransportKind, Seq<char>) {
        match self {
            TransportUrl::Memory { namespace } => (TransportKind::Memory, namespace@),
            TransportUrl::Unix { path } => (TransportKind::Unix, path@),
            TransportUrl::Pipe { name } => (TransportKind::Pipe, name@),
        }
    }
}

/// Why a transport URL is refused.
#[derive(Debug, Clone, Copy, PartialEq, Eq, Structural)]
pub enum TransportUrlErrorKind {
    /// The URL is empty.
    Empty,
    /// `memory://` names no namespace.
    EmptyNamespace,
    /// A `unix://` path is not absolute.
    RelativeUnixPath,
    /// `ipc://` names nothing.
    EmptyIpcName,
    /// `pipe://` names nothing.
    EmptyPipeName,
    /// The scheme is none of `memory`, `unix`, `ipc`.
    UnknownScheme,
}

/// A refused transport URL: why, and the URL or scheme concerned (empty where none is).
#[derive(Debug)]
pub struct TransportUrlError {
    pub kind: TransportUrlErrorKind,
    pub detail: String,
}

impl View for TransportUrlError {
    type V = (TransportUrlErrorKind, Seq<char>);

    open spec fn view(&self) -> (TransportUrlErrorKind, Seq<char>) {
        (self.kind, self.detail@)
    }
}

/// The text a transport URL error reads as.
pub open spec fn transport_error_text(e: (TransportUrlErrorKind, Seq<char>)) -> Seq<char> {
    match e.0 {
        TransportUrlErrorKind::Empty => "Transport URL cannot be empty"@,
        TransportUrlErrorKind::EmptyNamespace => "Memory namespace cannot be empty"@,
        TransportUrlErrorKind::RelativeUnixPath => "Unix socket path must be absolute: "@ + e.1,
        TransportUrlErrorKind::EmptyIpcName => "IPC transport identifier cannot be empty"@,
        TransportUrlErrorKind::EmptyPipeName => "Pipe name cannot be empty"@,
        TransportUrlErrorKind::UnknownScheme => "Unknown transport scheme: "@ + e.1,
    }
}

impl TransportUrlError {
    /// The text this error reads as.
    pub fn message(&self) -> (r: String)
        ensures
            r@ == transport_error_text(self@),
    {
        match self.kind {
            TransportUrlErrorKind::Empty => String::from_str("Transport URL cannot be empty"),
            TransportUrlErrorKind::EmptyNamespace => String::from_str(
                "Memory namespace cannot be empty",
            ),
            TransportUrlErrorKind::RelativeUnixPath => {
                let mut out = String::from_str("Unix socket path must be absolute: ");
                out.append(self.detail.as_str());
                out
            },
            TransportUrlErrorKind::EmptyIpcName => String::from_str(
                "IPC transport identifier cannot be empty",
            ),
            TransportUrlErrorKind::EmptyPipeName => String::from_str("Pipe name cannot be empty"),
            TransportUrlErrorKind::UnknownScheme => {
                let mut out = String::from_str("Unknown transport scheme: ");
                out.append(self.detail.as_str());
                out
            },
        }
    }
}

/// The socket path of the named IPC endpoint `name` in the directory `socket_dir`.
pub open spec fn named_socket_path(socket_dir: Seq<char>, name: Seq<char>) -> Seq<char> {
    socket_dir + "/"@ + name + ".sock"@
}

/// What `url` parses to, with named IPC sockets placed in `socket_dir`. A URL without a
/// scheme is a memory namespace.
pub open spec fn parse_transport(url: Seq<char>, socket_dir: Seq<char>) -> Result<
    (TransportKind, Seq<char>),
    (TransportUrlErrorKind, Seq<char>),
> {
    if url.len() == 0 {
        Err((TransportUrlErrorKind::Empty, Seq::empty()))
    } else {
        match find_seq(url, "://"@) {
            None => Ok((TransportKind::Memory, url)),
            Some(i) => {
                let scheme = url.subrange(0, i);
                let rest = url.subrange(i + "://"@.len(), url.len() as int);
                if scheme == "memory"@ {
                    if rest.len() == 0 {
                        Err((TransportUrlErrorKind::EmptyNamespace, Seq::empty()))
                    } else {
                        Ok((TransportKind::Memory, rest))
                    }
                } else if scheme == "unix"@ {
                    if rest.len() > 0 && rest[0] == '/' {
                        Ok((TransportKind::Unix, rest))
                    } else {
                        Err((TransportUrlErrorKind::RelativeUnixPath, url))
                    }
                } else if scheme == "ipc"@ {
                    if rest.len() == 0 {
                        Err((TransportUrlErrorKind::EmptyIpcName, Seq::empty()))
                    } else if rest[0] == '/' {
                        Ok((TransportKind::Unix, rest))
                    } else {
                        Ok((TransportKind::Unix, named_socket_path(socket_dir, rest)))
                    }
                } else {
                    Err((TransportUrlErrorKind::UnknownScheme, scheme))
                }
            },
        }
    }
}

/// Whether parsing `url` places a named IPC socket, and so needs the socket directory.
pub open spec fn names_ipc_socket(url: Seq<char>) -> bool {
    url.len() > 0 && match find_seq(url, "://"@) {
        Some(i) => {
            let rest = url.subrange(i + "://"@.len(), url.len() as int);
            url.subrange(0, i) == "ipc"@ && rest.len() > 0 && rest[0] != '/'
        },
        None => false,
    }
}

/// What the text `display_name` writes for a parsed URL.
pub open spec fn display_text(u: (TransportKind, Seq<char>)) -> Seq<char> {
    match u.0 {
        TransportKind::Memory => "memory://"@ + u.1,
        TransportKind::Unix => "unix://"@ + u.1,
        TransportKind::Pipe => "pipe://"@ + u.1,
    }
}

/// What `url` parses to on Windows: named pipes in place of sockets, where `ipc://name`
/// becomes the pipe `mq-bridge-name`; a URL without a scheme is a memory namespace.
pub open spec fn parse_transport_windows(url: Seq<char>) -> Result<
    (TransportKind, Seq<char>),
    (TransportUrlErrorKind, Seq<char>),
> {
    if url.len() == 0 {
        Err((TransportUrlErrorKind::Empty, Seq::empty()))
    } else {
        match find_seq(url, "://"@) {
            None => Ok((TransportKind::Memory, url)),
            Some(i) => {
                let scheme = url.subrange(0, i);
                let rest = url.subrange(i + "://"@.len(), url.len() as int);
                if scheme == "memory"@ {
                    if rest.len() == 0 {
                        Err((TransportUrlErrorKind::EmptyNamespace, Seq::empty()))
                    } else {
                        Ok((TransportKind::Memory, rest))
                    }
                } else if scheme == "pipe"@ {
                    if rest.len() == 0 {
                        Err((TransportUrlErrorKind::EmptyPipeName, Seq::empty()))
                    } else {
                        Ok((TransportKind::Pipe, rest))
                    }
                } else if scheme == "ipc"@ {
                    if rest.len() == 0 {
                        Err((TransportUrlErrorKind::EmptyIpcName, Seq::empty()))
                    } else {
                        Ok((TransportKind::Pipe, "mq-bridge-"@ + rest))
                    }
                } else {
                    Err((TransportUrlErrorKind::UnknownScheme, scheme))
                }
            },
        }
    }
}

impl TransportUrl {
    /// Parses a transport URL. A named IPC endpoint `ipc://name` becomes the socket
    /// `<socket_dir>/name.sock`; no other URL reads `socket_dir`.
    pub fn parse(url: &str, socket_dir: &str) -> (r: Result<TransportUrl, TransportUrlError>)
        ensures
            match r {
                Ok(u) => parse_transport(url@, socket_dir@) == Ok::<_, (TransportUrlErrorKind, Seq<char>)>(u@),
                Err(e) => parse_transport(url@, socket_dir@) == Err::<(TransportKind, Seq<char>), _>(e@),
            },
    {
        proof {
            reveal_strlit("");
        }
        if url.unicode_len() == 0 {
            return Err(TransportUrlError { kind: TransportUrlErrorKind::Empty, detail: String::new() });
        }
        match split_once(url, "://") {
            None => Ok(TransportUrl::Memory { namespace: String::from_str(url) }),
            Some((scheme, rest)) => {
                let n = rest.unicode_len();
                if str_eq(scheme, "memory") {
                    if n == 0 {
                        Err(
                            TransportUrlError {
                                kind: TransportUrlErrorKind::EmptyNamespace,
                                detail: String::new(),
                            },
                        )
                    } else {
                        Ok(TransportUrl::Memory { namespace: String::from_str(rest) })
                    }
                } else if str_eq(scheme, "unix") {
                    if n > 0 && rest.get_char(0) == '/' {
                        Ok(TransportUrl::Unix { path: String::from_str(rest) })
                    } else {
                        Err(
                            TransportUrlError {
                                kind: TransportUrlErrorKind::RelativeUnixPath,
                                detail: String::from_str(url),
                            },
                        )
                    }
                } else if str_eq(scheme, "ipc") {
                    if n == 0 {
                        Err(
                            TransportUrlError {
                                kind: TransportUrlErrorKind::EmptyIpcName,
                                detail: String::new(),
                            },
                        )
                    } else if rest.get_char(0) == '/' {
                        Ok(TransportUrl::Unix { path: String::from_str(rest) })
                    } else {
                        let mut path = String::from_str(socket_dir);
                        path.append("/");
                        path.append(rest);
                        path.append(".sock");
                        Ok(TransportUrl::Unix { path })
                    }
                } else {
                    Err(
                        TransportUrlError {
                            kind: TransportUrlErrorKind::UnknownScheme,
                            detail: String::from_str(scheme),
                        },
                    )
                }
            },
        }
    }

    /// Parses a transport URL as Windows does (see [`parse_transport_windows`]).
    pub fn parse_windows(url: &str) -> (r: Result<TransportUrl, TransportUrlError>)
        ensures
            match r {
                Ok(u) => parse_transport_windows(url@) == Ok::<_, (TransportUrlErrorKind, Seq<char>)>(u@),
                Err(e) => parse_transport_windows(url@) == Err::<(TransportKind, Seq<char>), _>(e@),
            },
    {
        proof {
            reveal_strlit("");
        }
        if url.unicode_len() == 0 {
            return Err(TransportUrlError { kind: TransportUrlErrorKind::Empty, detail: String::new() });
        }
        match split_once(url, "://") {
            None => Ok(TransportUrl::Memory { namespace: String::from_str(url) }),
            Some((scheme, rest)) => {
                let n = rest.unicode_len();
                if str_eq(scheme, "memory") {
                    if n == 0 {
                        Err(TransportUrlError { kind: TransportUrlErrorKind::EmptyNamespace, detail: String::new() })
                    } else {
                        Ok(TransportUrl::Memory { namespace: String::from_str(rest) })
                    }
                } else if str_eq(scheme, "pipe") {
                    if n == 0 {
                        Err(TransportUrlError { kind: TransportUrlErrorKind::EmptyPipeName, detail: String::new() })
                    } else {
                        Ok(TransportUrl::Pipe { name: String::from_str(rest) })
                    }
                } else if str_eq(scheme, "ipc") {
                    if n == 0 {
                        Err(TransportUrlError { kind: TransportUrlErrorKind::EmptyIpcName, detail: String::new() })
                    } else {
                        let mut name = String::from_str("mq-bridge-");
                        name.append(rest);
                        Ok(TransportUrl::Pipe { name })
                    }
                } else {
                    Err(TransportUrlError { kind: TransportUrlErrorKind::UnknownScheme, detail: String::from_str(scheme) })
                }
            },
        }
    }

    /// Whether parsing `url` places a named IPC socket, and so needs the socket directory.
    pub fn needs_socket_dir(url: &str) -> (r: bool)
        ensures
            r == names_ipc_socket(url@),
    {
        if url.unicode_len() == 0 {
            return false;
        }
        match split_once(url, "://") {
            None => false,
            Some((scheme, rest)) => str_eq(scheme, "ipc") && rest.unicode_len() > 0
                && rest.get_char(0) != '/',
        }
    }

    /// The URL written out, for logs.
    pub fn display_name(&self) -> (r: String)
        ensures
            r@ == display_text(self@),
    {
        match self {
            TransportUrl::Memory { namespace } => {
                let mut out = String::from_str("memory://");
                out.append(namespace.as_str());
                out
            },
            TransportUrl::Unix { path } => {
                let mut out = String::from_str("unix://");
                out.append(path.as_str());
                out
            },
            TransportUrl::Pipe { name } => {
                let mut out = String::from_str("pipe://");
                out.append(name.as_str());
                out
            },
        }
    }

    /// The namespace or path a channel is looked up by.
    pub fn namespace(&self) -> (r: String)
        ensures
            r@ == self@.1,
    {
        match self {
            TransportUrl::Memory { namespace } => namespace.clone(),
            TransportUrl::Unix { path } => path.clone(),
            TransportUrl::Pipe { name } => name.clone(),
        }
    }
}

/// Parsing what `display_name` writes gives the URL back, for any memory namespace that is
/// not empty and any absolute socket path.
pub proof fn lemma_display_name_parses_back(u: (TransportKind, Seq<char>), socket_dir: Seq<char>)
    requires
        u.1.len() > 0,
        u.0 != TransportKind::Pipe,
        u.0 == TransportKind::Unix ==> u.1[0] == '/',
    ensures
        parse_transport(display_text(u), socket_dir) == Ok::<_, (TransportUrlErrorKind, Seq<char>)>(u),
{
    reveal_strlit("://");
    reveal_strlit("memory://");
    reveal_strlit("unix://");
    reveal_strlit("memory");
    reveal_strlit("unix");
    let s = display_text(u);
    let p = "://"@;
    let at: int = if u.0 == TransportKind::Memory {
        6
    } else {
        4
    };
    assert(s.subrange(at, at + 3) =~= p);
    assert(occurs_at(s, p, at));
    lemma_find_from_first(s, p, 0, at);
    lemma_find_from_bounds(s, p, 0);
    let i = find_seq(s, p)->Some_0;
    if i < at {
        assert(s.subrange(i, i + 3)[0] == s[i]);
        assert(s[i] == ':');
    }
    assert(i == at);
    assert(s.subrange(0, at) =~= if u.0 == TransportKind::Memory {
        "memory"@
    } else {
        "unix"@
    });
    assert(s.subrange(at + 3, s.len() as int) =~= u.1);
}

/// On Windows, parsing what `display_name` writes gives the URL back, for any memory
/// namespace or pipe name that is not empty.
pub proof fn lemma_display_name_parses_back_on_windows(u: (TransportKind, Seq<char>))
    requires
        u.1.len() > 0,
        u.0 != TransportKind::Unix,
    ensures
        parse_transport_windows(display_text(u)) == Ok::<_, (TransportUrlErrorKind, Seq<char>)>(u),
{
    reveal_strlit("://");
    reveal_strlit("memory://");
    reveal_strlit("pipe://");
    reveal_strlit("memory");
    reveal_strlit("pipe");
    let s = display_text(u);
    let p = "://"@;
    let at: int = if u.0 == TransportKind::Memory {
        6
    } else {
        4
    };
    assert(s.subrange(at, at + 3) =~= p);
    assert(occurs_at(s, p, at));
    lemma_find_from_first(s, p, 0, at);
    lemma_find_from_bounds(s, p, 0);
    let i = find_seq(s, p)->Some_0;
    if i < at {
        assert(s.subrange(i, i + 3)[0] == s[i]);
        assert(s[i] == ':');
    }
    assert(i == at);
    assert(s.subrange(0, at) =~= if u.0 == TransportKind::Memory {
        "memory"@
    } else {
        "pipe"@
    });
    assert(s.subrange(at + 3, s.len() as int) =~= u.1);
}

/// The directory under `XDG_RUNTIME_DIR` a named socket goes in, as `Path::join` writes
/// it: `mq-bridge` after the directory, with a `/` between them unless the directory is
/// empty or already ends in one.
pub open spec fn xdg_socket_dir(xdg: Seq<char>) -> Seq<char> {
    if xdg.len() == 0 || xdg.last() == '/' {
        xdg + "mq-bridge"@
    } else {
        xdg + "/mq-bridge"@
    }
}

/// The directory named IPC sockets go in: `/run/mq-bridge` where that directory exists or
/// can be made; else `mq-bridge` under `XDG_RUNTIME_DIR` where that is set and the
/// directory exists or can be made; else `/tmp/mq-bridge`.
pub fn ipc_socket_dir(run_dir_usable: bool, xdg_runtime_dir: Option<&str>, xdg_dir_usable: bool) -> (r: String)
    ensures
        run_dir_usable ==> r@ == "/run/mq-bridge"@,
        !run_dir_usable ==> match xdg_runtime_dir {
            Some(x) => if xdg_dir_usable {
                r@ == xdg_socket_dir(x@)
            } else {
                r@ == "/tmp/mq-bridge"@
            },
            None => r@ == "/tmp/mq-bridge"@,
        },
{
    if run_dir_usable {
        return String::from_str("/run/mq-bridge");
    }
    match xdg_runtime_dir {
        Some(x) => {
            if xdg_dir_usable {
                let n = x.unicode_len();
                if n == 0 || x.get_char(n - 1) == '/' {
                    let mut d = String::from_str(x);
                    d.append("mq-bridge");
                    d
                } else {
                    let mut d = String::from_str(x);
                    d.append("/mq-bridge");
                    d
                }
            } else {
                String::from_str("/tmp/mq-bridge")
            }
        },
        None => String::from_str("/tmp/mq-bridge"),
    }
}

} // verus!
