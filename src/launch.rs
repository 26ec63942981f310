//! What the backend is started with: its arguments and environment, the
//! single shell line used through the Linux subsystem, its port and its
//! access token.
use vstd::prelude::*;
use crate::cli::{strings_view, CliArgs};
use crate::error::LaunchError;
use crate::paths::{bash_escape, shell_quoted, trim_text, trimmed};
use crate::text::{decimal, push_char, push_decimal};

verus! {

/// The line added to the backend's own help text.
pub const LAUNCHER_USAGE: &'static str = "      --inspect      Open the DevTools in the window.";

/// The arguments the backend is started with, in their fixed order: the base
/// directory, the port, the frontend folder, the flag that keeps the backend
/// from opening a browser, then the passed-on arguments unchanged.
pub open spec fn backend_args(
    base: Seq<char>,
    port: u16,
    frontend: Seq<char>,
    extra: Seq<Seq<char>>,
) -> Seq<Seq<char>> {
    seq![base, "--port="@ + decimal(port as nat), "--frontend_folder="@ + frontend, "--no_browser"@]
        + extra
}

/// Builds the backend's argument list.
pub fn backend_arguments(base: &str, port: u16, frontend: &str, extra: &Vec<String>) -> (r: Vec<
    String,
>)
    ensures
        strings_view(r@) == backend_args(base@, port, frontend@, strings_view(extra@)),
{
    let mut r: Vec<String> = Vec::new();
    r.push(String::from_str(base));
    let mut p = String::from_str("--port=");
    push_decimal(&mut p, port as u64);
    r.push(p);
    let mut f = String::from_str("--frontend_folder=");
    f.append(frontend);
    r.push(f);
    r.push(String::from_str("--no_browser"));
    let ghost head = strings_view(r@);
    assert(head =~= seq![base@, "--port="@ + decimal(port as nat), "--frontend_folder="@ + frontend@, "--no_browser"@]);
    let mut i: usize = 0;
    while i < extra.len()
        invariant
            i <= extra@.len(),
            strings_view(r@) == head + strings_view(extra@).take(i as int),
        decreases extra@.len() - i,
    {
        let ghost prev = r@;
        r.push(extra[i].clone());
        assert(strings_view(r@) =~= strings_view(prev).push(extra@[i as int]@));
        assert(strings_view(extra@).take(i as int + 1) =~= strings_view(extra@).take(i as int).push(
            extra@[i as int]@,
        ));
        i = i + 1;
        assert(strings_view(r@) =~= head + strings_view(extra@).take(i as int));
    }
    assert(strings_view(extra@).take(i as int) =~= strings_view(extra@));
    r
}

pub open spec fn pairs_view(v: Seq<(String, String)>) -> Seq<(Seq<char>, Seq<char>)> {
    v.map_values(|p: (String, String)| (p.0@, p.1@))
}

/// The variables set for the backend: its access token and the
/// configuration-path override.
pub fn backend_environment(token: &str, casa: &str) -> (r: Vec<(String, String)>)
    ensures
        pairs_view(r@) == seq![("CARTA_AUTH_TOKEN"@, token@), ("CASAPATH"@, casa@)],
{
    let mut r: Vec<(String, String)> = Vec::new();
    r.push((String::from_str("CARTA_AUTH_TOKEN"), String::from_str(token)));
    r.push((String::from_str("CASAPATH"), String::from_str(casa)));
    assert(pairs_view(r@) =~= seq![("CARTA_AUTH_TOKEN"@, token@), ("CASAPATH"@, casa@)]);
    r
}

/// Each word quoted for the shell and preceded by a space.
pub open spec fn quoted_words(ws: Seq<Seq<char>>) -> Seq<char>
    decreases ws.len(),
{
    if ws.len() == 0 {
        Seq::empty()
    } else {
        quoted_words(ws.drop_last()) + seq![' '] + shell_quoted(ws.last())
    }
}

/// The part of the shell line that adds the backend's library directory, if
/// there is one, to the library search path.
pub open spec fn library_prefix(libs: Option<Seq<char>>) -> Seq<char> {
    match libs {
        Some(l) => "export LD_LIBRARY_PATH="@ + shell_quoted(l) + ":\"$LD_LIBRARY_PATH\"; "@,
        None => Seq::empty(),
    }
}

/// The shell line that starts the backend inside the Linux subsystem; every
/// value is quoted on its own, and all paths are in the subsystem's form.
pub open spec fn wsl_line(
    backend: Seq<char>,
    frontend: Seq<char>,
    base: Seq<char>,
    token: Seq<char>,
    libs: Option<Seq<char>>,
    casa: Seq<char>,
    port: u16,
    extra: Seq<Seq<char>>,
) -> Seq<char> {
    library_prefix(libs) + "export CARTA_AUTH_TOKEN="@ + shell_quoted(token) + "; export CASAPATH="@ + shell_quoted(
        casa,
    ) + "; exec "@ + shell_quoted(backend) + seq![' '] + shell_quoted(base) + " --port="@
        + decimal(port as nat) + " --frontend_folder="@ + shell_quoted(frontend)
        + " --no_browser"@ + quoted_words(extra)
}

/// Builds the shell line that starts the backend through the subsystem.
pub fn wsl_launch_command(
    backend: &str,
    frontend: &str,
    base: &str,
    token: &str,
    libs: Option<&str>,
    casa: &str,
    port: u16,
    extra: &Vec<String>,
) -> (r: String)
    ensures
        r@ == wsl_line(
            backend@,
            frontend@,
            base@,
            token@,
            match libs {
                Some(l) => Some(l@),
                None => None,
            },
            casa@,
            port,
            strings_view(extra@),
        ),
{
    let mut r = String::new();
    match libs {
        Some(l) => {
            r.append("export LD_LIBRARY_PATH=");
            r.append(bash_escape(l).as_str());
            r.append(":\"$LD_LIBRARY_PATH\"; ");
        },
        None => {},
    }
    r.append("export CARTA_AUTH_TOKEN=");
    r.append(bash_escape(token).as_str());
    r.append("; export CASAPATH=");
    r.append(bash_escape(casa).as_str());
    r.append("; exec ");
    r.append(bash_escape(backend).as_str());
    push_char(&mut r, ' ');
    r.append(bash_escape(base).as_str());
    r.append(" --port=");
    push_decimal(&mut r, port as u64);
    r.append(" --frontend_folder=");
    r.append(bash_escape(frontend).as_str());
    r.append(" --no_browser");
    let ghost head = r@;
    let mut i: usize = 0;
    while i < extra.len()
        invariant
            i <= extra@.len(),
            r@ == head + quoted_words(strings_view(extra@).take(i as int)),
        decreases extra@.len() - i,
    {
        let ghost before = r@;
        push_char(&mut r, ' ');
        r.append(bash_escape(extra[i].as_str()).as_str());
        assert(strings_view(extra@).take(i as int + 1).drop_last() =~= strings_view(extra@).take(
            i as int,
        ));
        i = i + 1;
        assert(r@ =~= head + quoted_words(strings_view(extra@).take(i as int)));
    }
    assert(strings_view(extra@).take(i as int) =~= strings_view(extra@));
    assert(Seq::<char>::empty() + "export CARTA_AUTH_TOKEN="@ =~= "export CARTA_AUTH_TOKEN="@);
    r
}

/// The flag that asks the backend for its version or its help text.
pub fn help_flag(version: bool) -> (r: &'static str)
    ensures
        r@ == if version {
            "--version"@
        } else {
            "--help"@
        },
{
    if version {
        "--version"
    } else {
        "--help"
    }
}

/// The shell line that runs the backend, in the subsystem's form, for its
/// version or help text.
pub fn wsl_help_command(backend: &str, version: bool) -> (r: String)
    ensures
        r@ == "exec "@ + shell_quoted(backend@) + seq![' '] + shell_quoted(
            if version {
                "--version"@
            } else {
                "--help"@
            },
        ),
{
    let mut r = String::from_str("exec ");
    r.append(bash_escape(backend).as_str());
    push_char(&mut r, ' ');
    r.append(bash_escape(help_flag(version)).as_str());
    r
}

/// The address the front end loads from the backend.
pub fn window_url(port: u16, token: &str) -> (r: String)
    ensures
        r@ == "http://localhost:"@ + decimal(port as nat) + "/?token="@ + token@,
{
    let mut r = String::from_str("http://localhost:");
    push_decimal(&mut r, port as u64);
    r.append("/?token=");
    r.append(token);
    r
}

/// The distribution to run the backend in, from the value of the variable
/// that names it: surrounding whitespace removed, and none if nothing is left.
pub fn wsl_distro_name(value: &str) -> (r: Option<String>)
    ensures
        match r {
            Some(d) => trimmed(value@).len() > 0 && d@ == trimmed(value@),
            None => trimmed(value@).len() == 0,
        },
{
    let t = trim_text(value);
    if t.unicode_len() == 0 {
        None
    } else {
        Some(String::from_str(t))
    }
}

/// The arguments of the subsystem's launcher for `command`: the distribution,
/// if one is named, then `--` and the command.
pub fn wsl_arguments(distro: Option<&str>, command: &Vec<String>) -> (r: Vec<String>)
    ensures
        strings_view(r@) == match distro {
            Some(d) => seq!["-d"@, d@],
            None => Seq::empty(),
        } + seq!["--"@] + strings_view(command@),
{
    let mut r: Vec<String> = Vec::new();
    match distro {
        Some(d) => {
            r.push(String::from_str("-d"));
            r.push(String::from_str(d));
        },
        None => {},
    }
    r.push(String::from_str("--"));
    let ghost head = strings_view(r@);
    assert(head =~= match distro {
        Some(d) => seq!["-d"@, d@],
        None => Seq::empty(),
    } + seq!["--"@]);
    let mut i: usize = 0;
    while i < command.len()
        invariant
            i <= command@.len(),
            strings_view(r@) == head + strings_view(command@).take(i as int),
        decreases command@.len() - i,
    {
        let ghost prev = r@;
        r.push(command[i].clone());
        assert(strings_view(r@) =~= strings_view(prev).push(command@[i as int]@));
        assert(strings_view(command@).take(i as int + 1) =~= strings_view(command@).take(
            i as int,
        ).push(command@[i as int]@));
        i = i + 1;
    }
    assert(strings_view(command@).take(i as int) =~= strings_view(command@));
    r
}

/// Relies on `portpicker::pick_unused_port`: a port that was free when it was
/// tried, drawn from 15000 to 24999 or assigned by the system on a bind to
/// port 0 (never 0 itself), or `None` when no free port was found.
#[verifier::external_body]
fn pick_unused_port() -> (r: Option<u16>)
    ensures
        r matches Some(p) ==> p != 0,
{
    portpicker::pick_unused_port()
}

/// The port for the backend: the one given on the command line, or else the
/// one found free. A malformed port on the command line is an error.
pub fn port_from_choice(cli: &CliArgs, picked: Option<u16>) -> (r: Result<u16, LaunchError>)
    ensures
        match cli.port_error {
            Some(m) => r matches Err(LaunchError::PortInvalid(e)) && e@ == m@,
            None => match cli.explicit_port {
                Some(p) => r == Ok::<u16, LaunchError>(p),
                None => match picked {
                    Some(p) => r == Ok::<u16, LaunchError>(p),
                    None => r matches Err(LaunchError::NoFreePort),
                },
            },
        },
{
    match &cli.port_error {
        Some(m) => Err(LaunchError::PortInvalid(m.clone())),
        None => match cli.explicit_port {
            Some(p) => Ok(p),
            None => match picked {
                Some(p) => Ok(p),
                None => Err(LaunchError::NoFreePort),
            },
        },
    }
}

/// Chooses the backend's port, looking for a free one only when the command
/// line names none.
pub fn choose_backend_port(cli: &CliArgs) -> (r: Result<u16, LaunchError>)
    ensures
        match cli.port_error {
            Some(m) => r matches Err(LaunchError::PortInvalid(e)) && e@ == m@,
            None => match cli.explicit_port {
                Some(p) => r == Ok::<u16, LaunchError>(p),
                None => match r {
                    Ok(p) => p != 0,
                    Err(e) => e is NoFreePort,
                },
            },
        },
{
    if cli.port_error.is_none() && cli.explicit_port.is_none() {
        port_from_choice(cli, pick_unused_port())
    } else {
        port_from_choice(cli, None)
    }
}

pub open spec fn is_lower_hex(c: char) -> bool {
    ('0' <= c && c <= '9') || ('a' <= c && c <= 'f')
}

/// A version-4 UUID written as 36 characters: lower-case hexadecimal digits
/// in groups of 8, 4, 4, 4 and 12 joined by `-`, with the version digit `4`.
pub open spec fn is_uuid_text(s: Seq<char>) -> bool {
    &&& s.len() == 36
    &&& forall|i: int|
        0 <= i < 36 ==> if i == 8 || i == 13 || i == 18 || i == 23 {
            #[trigger] s[i] == '-'
        } else {
            is_lower_hex(s[i])
        }
    &&& s[14] == '4'
}

/// Relies on `uuid::Uuid::new_v4` and the `Display` of `uuid::Uuid`: a random
/// version-4 UUID in its hyphenated lower-case form.
#[verifier::external_body]
fn random_uuid_text() -> (r: String)
    ensures
        is_uuid_text(r@),
{
    uuid::Uuid::new_v4().to_string()
}

/// A fresh access token for the connections between the front end and the
/// backend.
pub fn new_auth_token() -> (r: String)
    ensures
        is_uuid_text(r@),
{
    random_uuid_text()
}

/// A fresh label for a new window: `carta-` and a random UUID.
pub fn new_window_label() -> (r: String)
    ensures
        r@.len() == 42,
        r@.take(6) == "carta-"@,
        is_uuid_text(r@.skip(6)),
{
    let mut r = String::from_str("carta-");
    let id = random_uuid_text();
    r.append(id.as_str());
    proof {
        reveal_strlit("carta-");
        assert(r@.take(6) =~= "carta-"@);
        assert(r@.skip(6) =~= id@);
    }
    r
}

} // verus!
