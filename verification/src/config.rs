//! The node's settings: where it keeps its data, the port it serves on (from
//! the command line's `-p` option) and the program version.
use vstd::prelude::*;
use vstd::string::*;
use crate::text::{decimal_string, decimal_text, parse_u32, parse_u32_spec, text_eq};

verus! {

/// The text of each argument.
pub open spec fn texts(v: Seq<String>) -> Seq<Seq<char>> {
    v.map_values(|s: String| s@)
}

/// The position of the first `-p` among the arguments (their number if none is `-p`).
pub open spec fn flag_index(a: Seq<Seq<char>>) -> int
    decreases a.len(),
{
    if a.len() == 0 {
        0
    } else if a[0] == "-p"@ {
        0
    } else {
        1 + flag_index(a.drop_first())
    }
}

proof fn lemma_flag_index(a: Seq<Seq<char>>, i: int)
    requires
        0 <= i <= a.len(),
        forall|j: int| 0 <= j < i ==> a[j] != "-p"@,
        i == a.len() || a[i] == "-p"@,
    ensures
        flag_index(a) == i,
    decreases a.len(),
{
    if a.len() > 0 && i > 0 {
        let t = a.drop_first();
        assert forall|j: int| 0 <= j < i - 1 implies t[j] != "-p"@ by {
            assert(t[j] == a[j + 1]);
        }
        lemma_flag_index(t, i - 1);
        assert(a[0] != "-p"@);
    }
}

/// What the arguments say of the port.
pub enum PortChoice {
    /// The port to serve on, as text.
    Port(Seq<char>),
    /// The argument after `-p` is not a port number.
    Invalid(Seq<char>),
    /// `-p` is the last argument.
    Missing,
}

/// The port setting: a `-p` counts only where at least two arguments precede
/// it (the program name and one more); the argument after it must then be a
/// `u32`, which is written back in plain decimal. Without such a `-p` the port
/// is 8000.
pub open spec fn port_choice(a: Seq<Seq<char>>) -> PortChoice {
    let p = flag_index(a);
    if 1 < p < a.len() {
        if p + 1 < a.len() {
            match parse_u32_spec(a[p + 1]) {
                Some(n) => PortChoice::Port(decimal_text(n as nat)),
                None => PortChoice::Invalid(a[p + 1]),
            }
        } else {
            PortChoice::Missing
        }
    } else {
        PortChoice::Port("8000"@)
    }
}

/// Where the first `-p` stands at any position after the second argument and
/// the argument after it reads as a `u32` `n`, the port is `n` in decimal.
pub proof fn law_port_follows_first_flag(a: Seq<Seq<char>>, p: int, n: u32)
    requires
        1 < p,
        p + 1 < a.len(),
        a[p] == "-p"@,
        forall|j: int| 0 <= j < p ==> a[j] != "-p"@,
        parse_u32_spec(a[p + 1]) == Some(n),
    ensures
        port_choice(a) == PortChoice::Port(decimal_text(n as nat)),
{
    lemma_flag_index(a, p);
}

/// Without any `-p` among the arguments the port is 8000.
pub proof fn law_port_defaults_to_8000(a: Seq<Seq<char>>)
    requires
        forall|j: int| 0 <= j < a.len() ==> a[j] != "-p"@,
    ensures
        port_choice(a) == PortChoice::Port("8000"@),
{
    lemma_flag_index(a, a.len() as int);
}

/// A port setting that the command line gets wrong.
pub enum ConfigError {
    /// The argument after `-p`, which is not a port number.
    InvalidPort(String),
    /// Nothing follows `-p`.
    MissingPort,
}

pub open spec fn port_error_matches(e: ConfigError, c: PortChoice) -> bool {
    match c {
        PortChoice::Port(_) => false,
        PortChoice::Invalid(t) => e matches ConfigError::InvalidPort(u) && u@ == t,
        PortChoice::Missing => e matches ConfigError::MissingPort,
    }
}

/// Reads the port from the program's arguments (the program name first).
pub fn parse_port(args: &Vec<String>) -> (r: Result<String, ConfigError>)
    ensures
        match r {
            Ok(port) => port_choice(texts(args@)) == PortChoice::Port(port@),
            Err(e) => port_error_matches(e, port_choice(texts(args@))),
        },
{
    let ghost a = texts(args@);
    let n = args.len();
    let mut port_index: usize = 0;
    let mut port_flag = false;
    while port_index < n
        invariant
            n == args@.len(),
            a == texts(args@),
            a.len() == n,
            port_index <= n,
            forall|j: int| 0 <= j < port_index ==> a[j] != "-p"@,
            port_flag ==> port_index < n && a[port_index as int] == "-p"@,
        ensures
            port_index == n || port_flag,
            port_flag ==> port_index < n && a[port_index as int] == "-p"@,
            forall|j: int| 0 <= j < port_index ==> a[j] != "-p"@,
            port_index <= n,
        decreases n - port_index,
    {
        assert(a[port_index as int] == args@[port_index as int]@);
        if text_eq(&args[port_index], "-p") {
            port_flag = true;
            break;
        }
        port_index = port_index + 1;
    }
    proof {
        lemma_flag_index(a, port_index as int);
    }
    if port_index > 1 && port_flag {
        if port_index + 1 < n {
            let arg = &args[port_index + 1];
            match parse_u32(arg.as_str()) {
                Some(port) => Ok(decimal_string(port)),
                None => Err(ConfigError::InvalidPort(arg.clone())),
            }
        } else {
            Err(ConfigError::MissingPort)
        }
    } else {
        Ok(String::from_str("8000"))
    }
}

/// The node's settings. The data paths and the version are fixed; the port
/// comes from the command line.
#[allow(non_camel_case_types)]
pub struct global_data {
    port: String,
}

impl global_data {
    pub closed spec fn port_text(&self) -> Seq<char> {
        self.port@
    }

    /// The settings for the given program arguments (the program name first).
    pub fn from_args(args: &Vec<String>) -> (r: Result<global_data, ConfigError>)
        ensures
            match r {
                Ok(g) => port_choice(texts(args@)) == PortChoice::Port(g.port_text()),
                Err(e) => port_error_matches(e, port_choice(texts(args@))),
            },
    {
        match parse_port(args) {
            Ok(port) => Ok(global_data { port }),
            Err(e) => Err(e),
        }
    }

    /// The directory that holds the node's data.
    pub fn data_path() -> (r: String)
        ensures
            r@ == ".data"@,
    {
        String::from_str(".data")
    }

    /// The file that holds the cluster table.
    pub fn node_path() -> (r: String)
        ensures
            r@ == ".data"@ + "/.node"@,
    {
        let mut p = global_data::data_path();
        p.append("/.node");
        p
    }

    /// The port the server listens on.
    pub fn port(&self) -> (r: String)
        ensures
            r@ == self.port_text(),
    {
        self.port.clone()
    }

    /// The program version.
    pub fn version() -> (r: String)
        ensures
            r@ == "0.1.0"@,
    {
        String::from_str("0.1.0")
    }
}

} // verus!
