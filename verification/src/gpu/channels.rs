//! Where the host's display servers listen.
use vstd::prelude::*;
use vstd::string::*;

verus! {

/// The Wayland socket: the runtime directory and the display's name, or what they are by default.
pub open spec fn wayland_socket(dir: Option<Seq<char>>, display: Option<Seq<char>>) -> Seq<char> {
    let d = match dir {
        Some(d) => d,
        None => "/run/user/1000"@,
    };
    let n = match display {
        Some(n) => n,
        None => "wayland-0"@,
    };
    d + "/"@ + n
}

pub open spec fn text_of(s: Option<&str>) -> Option<Seq<char>> {
    match s {
        Some(s) => Some(s@),
        None => None,
    }
}

/// The path of the Wayland socket.
pub fn wayland_path(dir: Option<&str>, display: Option<&str>) -> (r: String)
    ensures
        r@ == wayland_socket(text_of(dir), text_of(display)),
{
    let mut s: String = String::new();
    match dir {
        Some(d) => {
            s.append(d);
        },
        None => {
            s.append("/run/user/1000");
        },
    }
    s.append("/");
    match display {
        Some(n) => {
            s.append(n);
        },
        None => {
            s.append("wayland-0");
        },
    }
    assert(s@ =~= wayland_socket(text_of(dir), text_of(display)));
    s
}

/// The X11 socket of a local display, whose name starts with a colon. Others have none.
pub open spec fn x11_socket(display: Seq<char>) -> Option<Seq<char>> {
    if display.len() > 0 && display[0] == ':' {
        Some("/tmp/.X11-unix/X"@ + display.skip(1))
    } else {
        None
    }
}

/// The path of a local display's X11 socket.
pub fn x11_path(display: &str) -> (r: Option<String>)
    ensures
        match r {
            Some(s) => x11_socket(display@) == Some(s@),
            None => x11_socket(display@) is None,
        },
{
    let n: usize = display.unicode_len();
    if n == 0 || display.get_char(0) != ':' {
        return None;
    }
    let mut s: String = String::new();
    s.append("/tmp/.X11-unix/X");
    s.append(display.substring_char(1, n));
    assert(s@ =~= "/tmp/.X11-unix/X"@ + display@.skip(1));
    Some(s)
}

/// The directory that PipeWire's socket is in: the first that is set.
pub open spec fn pipewire_dir(
    runtime: Option<String>,
    session: Option<String>,
    profile: Option<String>,
) -> Option<String> {
    if runtime is Some {
        runtime
    } else if session is Some {
        session
    } else {
        profile
    }
}

/// The directory and the name of PipeWire's socket, where a directory is set.
pub fn pipewire_place(
    runtime: Option<String>,
    session: Option<String>,
    profile: Option<String>,
    remote: Option<String>,
) -> (r: Option<(String, String)>)
    ensures
        match r {
            Some((dir, name)) => {
                &&& pipewire_dir(runtime, session, profile) == Some(dir)
                &&& name@ == match remote {
                    Some(n) => n@,
                    None => "pipewire-0"@,
                }
            },
            None => pipewire_dir(runtime, session, profile) is None,
        },
{
    let dir: Option<String> = if runtime.is_some() {
        runtime
    } else if session.is_some() {
        session
    } else {
        profile
    };
    match dir {
        Some(d) => {
            let name: String = match remote {
                Some(n) => n,
                None => {
                    let mut n: String = String::new();
                    n.append("pipewire-0");
                    assert(n@ =~= "pipewire-0"@);
                    n
                },
            };
            Some((d, name))
        },
        None => None,
    }
}

} // verus!
