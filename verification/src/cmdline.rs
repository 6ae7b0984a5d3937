//! The command line: which host to serve or to fetch from, and the options
//! that follow it.
//!
//! The loss probabilities `-p` and `-q` are kept as the texts given; they
//! are read as numbers where the settings are put to use.

use vstd::prelude::*;
use crate::text::{
    chars_of, char_is_alphabetic, is_alphabetic, is_ascii_letter, parse_u32, same_text, starts_with_char, push_str,
    u32_of_text,
};
use crate::utils::{first_usable_interface, InterfaceInfo};

verus! {

/// The settings of a run.
pub struct Settings {
    pub client_port: u32,
    pub server_port: u32,
    pub server: bool,
    pub hostname: String,
    pub local_hostname: String,
    /// The text of the loss probability `p`; none means no loss.
    pub p: Option<String>,
    /// The text of the loss probability `q`; none means no loss.
    pub q: Option<String>,
    pub filename: Vec<String>,
    pub logfile: String,
}

pub struct SettingsView {
    pub client_port: u32,
    pub server_port: u32,
    pub server: bool,
    pub hostname: Seq<char>,
    pub local_hostname: Seq<char>,
    pub p: Option<Seq<char>>,
    pub q: Option<Seq<char>>,
    pub filename: Seq<Seq<char>>,
    pub logfile: Seq<char>,
}

pub open spec fn text_option(o: Option<String>) -> Option<Seq<char>> {
    match o {
        Some(s) => Some(s@),
        None => None,
    }
}

pub open spec fn texts(v: Seq<String>) -> Seq<Seq<char>> {
    v.map_values(|s: String| s@)
}

impl View for Settings {
    type V = SettingsView;

    open spec fn view(&self) -> SettingsView {
        SettingsView {
            client_port: self.client_port,
            server_port: self.server_port,
            server: self.server,
            hostname: self.hostname@,
            local_hostname: self.local_hostname@,
            p: text_option(self.p),
            q: text_option(self.q),
            filename: texts(self.filename@),
            logfile: self.logfile@,
        }
    }
}

/// How reading the options ends.
#[derive(Clone, Copy, Debug, PartialEq, Eq)]
pub enum ArgsOutcome {
    /// All options were read.
    Parsed,
    /// `-h` asks for the usage text.
    Help,
    /// An option lacks its value; the text says which.
    MissingValue(&'static str),
    /// The value of `-t` is not a port number.
    BadPort,
    /// A file to fetch was named in server mode.
    FileInServerMode,
}

/// What reading the options gives: the settings so far, how it ended, and
/// the probability texts given on the way, in order.
pub struct ArgsParse {
    pub settings: Settings,
    pub outcome: ArgsOutcome,
    pub probabilities: Vec<String>,
}

pub open spec fn default_settings() -> SettingsView {
    SettingsView {
        client_port: 6001,
        server_port: 5001,
        server: false,
        hostname: Seq::empty(),
        local_hostname: Seq::empty(),
        p: None,
        q: None,
        filename: Seq::empty(),
        logfile: "tbd.log"@,
    }
}

/// The settings of a run where nothing else is given.
pub fn default_options() -> (r: Settings)
    ensures
        r@ == default_settings(),
{
    let r = Settings {
        client_port: 6001,
        server_port: 5001,
        server: false,
        hostname: String::new(),
        local_hostname: String::new(),
        p: None,
        q: None,
        filename: Vec::new(),
        logfile: String::from_str("tbd.log"),
    };
    assert(texts(r.filename@) =~= Seq::<Seq<char>>::empty());
    r
}

/// The address a server binds to when no host is given.
pub open spec fn default_server_host() -> Seq<char> {
    "127.0.0.1"@
}

/// Where the host part of the command line leaves the settings and the
/// index of the first option: `-s` first means server mode, with the host
/// to bind to next unless an option follows (127.0.0.1 otherwise);
/// otherwise the first argument is the host to fetch from.
pub open spec fn target_of(args: Seq<Seq<char>>) -> Option<(SettingsView, nat)> {
    if args.len() < 2 {
        None
    } else if args[1] == "-s"@ {
        if args.len() > 2 && !(args[2].len() > 0 && args[2][0] == '-') {
            Some((SettingsView { server: true, hostname: args[2], ..default_settings() }, 3))
        } else {
            Some((SettingsView { server: true, hostname: default_server_host(), ..default_settings() }, 2))
        }
    } else {
        Some((SettingsView { hostname: args[1], ..default_settings() }, 2))
    }
}

/// Reads the host part of the command line (the program path first).
pub fn parse_target(args: &Vec<String>) -> (r: Option<(Settings, usize)>)
    ensures
        match r {
            Some((s, i)) => target_of(texts(args@)) == Some((s@, i as nat)),
            None => target_of(texts(args@)) is None,
        },
{
    if args.len() < 2 {
        return None;
    }
    let mut settings = default_options();
    let mut i: usize = 1;
    if same_text(&args[1], "-s") {
        settings.server = true;
        i = i + 1;
        if args.len() > 2 && !starts_with_char(&args[i], '-') {
            push_str(&mut settings.hostname, &args[i]);
            i = i + 1;
        } else {
            settings.hostname = String::from_str("127.0.0.1");
        }
    } else {
        push_str(&mut settings.hostname, &args[i]);
        i = i + 1;
    }
    proof {
        assert(texts(args@)[1] == args@[1]@);
        if args@.len() > 2 {
            assert(texts(args@)[2] == args@[2]@);
        }
        assert(Seq::<char>::empty() + args@[1]@ == args@[1]@);
        if args@.len() > 2 {
            assert(Seq::<char>::empty() + args@[2]@ == args@[2]@);
        }
    }
    Some((settings, i))
}

/// The settings once every option is read: where only one of the loss
/// probabilities was given, the other takes the same value.
pub open spec fn mirrored(s: SettingsView) -> SettingsView {
    if s.p is Some && s.q is None {
        SettingsView { q: s.p, ..s }
    } else if s.p is None && s.q is Some {
        SettingsView { p: s.q, ..s }
    } else {
        s
    }
}

/// Reading the options from `args[i]` on, with settings `s` and the
/// probability texts `probs` so far: the settings, how it ends and the
/// probability texts.
pub open spec fn options_from(s: SettingsView, args: Seq<Seq<char>>, i: nat, probs: Seq<Seq<char>>) -> (
    SettingsView,
    ArgsOutcome,
    Seq<Seq<char>>,
)
    decreases args.len() - i,
{
    if i >= args.len() {
        (mirrored(s), ArgsOutcome::Parsed, probs)
    } else {
        let a = args[i as int];
        if a == "-h"@ {
            (s, ArgsOutcome::Help, probs)
        } else if a == "-t"@ {
            if i + 1 >= args.len() {
                (s, ArgsOutcome::MissingValue("Expected a port but got nothing!"), probs)
            } else {
                match u32_of_text(args[(i + 1) as int]) {
                    Some(port) => options_from(SettingsView { server_port: port, ..s }, args, i + 2, probs),
                    None => (s, ArgsOutcome::BadPort, probs),
                }
            }
        } else if a == "-p"@ {
            if i + 1 >= args.len() {
                (s, ArgsOutcome::MissingValue("Expected a probability p but got nothing!"), probs)
            } else {
                options_from(
                    SettingsView { p: Some(args[(i + 1) as int]), ..s },
                    args,
                    i + 2,
                    probs.push(args[(i + 1) as int]),
                )
            }
        } else if a == "-q"@ {
            if i + 1 >= args.len() {
                (s, ArgsOutcome::MissingValue("Expected a probability q but got nothing!"), probs)
            } else {
                options_from(
                    SettingsView { q: Some(args[(i + 1) as int]), ..s },
                    args,
                    i + 2,
                    probs.push(args[(i + 1) as int]),
                )
            }
        } else if a == "-l"@ {
            if i + 1 >= args.len() {
                (s, ArgsOutcome::MissingValue("Expected a logfile but got nothing!"), probs)
            } else {
                options_from(SettingsView { logfile: args[(i + 1) as int], ..s }, args, i + 2, probs)
            }
        } else if s.server {
            (s, ArgsOutcome::FileInServerMode, probs)
        } else {
            options_from(SettingsView { filename: s.filename.push(a), ..s }, args, i + 1, probs)
        }
    }
}

/// Reads the options from `args[start]` on: `-h`, `-t <port>`,
/// `-p <p>`, `-q <q>`, `-l <logfile>`, and the files to fetch.
pub fn parse_options(settings: Settings, args: &Vec<String>, start: usize) -> (r: ArgsParse)
    ensures
        options_from(settings@, texts(args@), start as nat, Seq::empty()) == (
            r.settings@,
            r.outcome,
            texts(r.probabilities@),
        ),
{
    let ghost goal = options_from(settings@, texts(args@), start as nat, Seq::empty());
    let ghost a = texts(args@);
    let mut current = settings;
    let mut probabilities: Vec<String> = Vec::new();
    let mut i = start;
    proof {
        assert(texts(probabilities@) =~= Seq::<Seq<char>>::empty());
    }
    while i < args.len()
        invariant
            a == texts(args@),
            i >= start,
            goal == options_from(current@, a, i as nat, texts(probabilities@)),
            goal == options_from(settings@, a, start as nat, Seq::empty()),
        decreases args@.len() - i,
    {
        let arg = &args[i];
        assert(a[i as int] == arg@);
        if same_text(arg, "-h") {
            return ArgsParse { settings: current, outcome: ArgsOutcome::Help, probabilities };
        } else if same_text(arg, "-t") {
            if i + 1 >= args.len() {
                return ArgsParse {
                    settings: current,
                    outcome: ArgsOutcome::MissingValue("Expected a port but got nothing!"),
                    probabilities,
                };
            }
            assert(a[i + 1] == args@[i + 1]@);
            match parse_u32(&args[i + 1]) {
                Some(port) => {
                    current.server_port = port;
                },
                None => {
                    return ArgsParse { settings: current, outcome: ArgsOutcome::BadPort, probabilities };
                },
            }
            i = i + 2;
        } else if same_text(arg, "-p") {
            if i + 1 >= args.len() {
                return ArgsParse {
                    settings: current,
                    outcome: ArgsOutcome::MissingValue("Expected a probability p but got nothing!"),
                    probabilities,
                };
            }
            assert(a[i + 1] == args@[i + 1]@);
            current.p = Some(args[i + 1].clone());
            let ghost before = probabilities@;
            probabilities.push(args[i + 1].clone());
            proof {
                assert(texts(probabilities@) =~= texts(before).push(a[i + 1]));
            }
            i = i + 2;
        } else if same_text(arg, "-q") {
            if i + 1 >= args.len() {
                return ArgsParse {
                    settings: current,
                    outcome: ArgsOutcome::MissingValue("Expected a probability q but got nothing!"),
                    probabilities,
                };
            }
            assert(a[i + 1] == args@[i + 1]@);
            current.q = Some(args[i + 1].clone());
            let ghost before = probabilities@;
            probabilities.push(args[i + 1].clone());
            proof {
                assert(texts(probabilities@) =~= texts(before).push(a[i + 1]));
            }
            i = i + 2;
        } else if same_text(arg, "-l") {
            if i + 1 >= args.len() {
                return ArgsParse {
                    settings: current,
                    outcome: ArgsOutcome::MissingValue("Expected a logfile but got nothing!"),
                    probabilities,
                };
            }
            assert(a[i + 1] == args@[i + 1]@);
            current.logfile = args[i + 1].clone();
            i = i + 2;
        } else {
            if current.server {
                return ArgsParse { settings: current, outcome: ArgsOutcome::FileInServerMode, probabilities };
            }
            let ghost before = current@;
            current.filename.push(arg.clone());
            proof {
                assert(texts(current.filename@) =~= before.filename.push(a[i as int]));
            }
            i = i + 1;
        }
    }
    if current.p.is_some() && current.q.is_none() {
        current.q = current.p.clone();
    } else if current.p.is_none() && current.q.is_some() {
        current.p = current.q.clone();
    }
    ArgsParse { settings: current, outcome: ArgsOutcome::Parsed, probabilities }
}

/// Whether a host name has to be looked up: it holds a letter.
pub open spec fn names_a_host(hostname: Seq<char>) -> bool {
    exists|k: int|
        0 <= k < hostname.len() && char_is_alphabetic(#[trigger] hostname[k]) && hostname[k] != '.'
            && hostname[k] != ':'
}

/// Decides whether the host given is a name to be resolved rather than an
/// address.
pub fn needs_lookup(hostname: &String) -> (r: bool)
    ensures
        r == names_a_host(hostname@),
        (forall|k: int| 0 <= k < hostname@.len() ==> (#[trigger] hostname@[k] as u32) < 0x80) ==> (r
            <==> exists|k: int| 0 <= k < hostname@.len() && is_ascii_letter(#[trigger] hostname@[k])),
{
    let chars = chars_of(hostname);
    let mut k: usize = 0;
    while k < chars.len()
        invariant
            chars@ == hostname@,
            k <= chars@.len(),
            forall|j: int|
                0 <= j < k ==> !(char_is_alphabetic(#[trigger] chars@[j]) && chars@[j] != '.'
                    && chars@[j] != ':'),
            forall|j: int|
                0 <= j < k ==> ((#[trigger] chars@[j]) as u32) < 0x80 ==> !is_ascii_letter(chars@[j]),
        decreases chars@.len() - k,
    {
        let c = chars[k];
        if is_alphabetic(c) && c != '.' && c != ':' {
            assert(hostname@[k as int] == c);
            return true;
        }
        k = k + 1;
    }
    false
}

/// Where a client reaches the network from: the first address of the first
/// usable interface, if any (127.0.0.1 is used otherwise).
pub fn client_local_address(ifaces: &Vec<InterfaceInfo>) -> (r: Option<Vec<u8>>)
    ensures
        r matches Some(a) ==> exists|k: int|
            crate::utils::is_first_usable(ifaces@, k) && a@ == (#[trigger] ifaces@[k]).ips@[0]@,
        r is None ==> forall|j: int|
            0 <= j < ifaces@.len() ==> !crate::utils::usable(#[trigger] ifaces@[j]),
{
    match first_usable_interface(ifaces) {
        Some(k) => {
            let a = ifaces[k].ips[0].clone();
            assert(crate::utils::is_first_usable(ifaces@, k as int));
            Some(a)
        },
        None => None,
    }
}

/// The settings, before `-p` and `-q` are mirrored, when reading the
/// options from `args[i]` on runs to the end.
pub open spec fn options_end(s: SettingsView, args: Seq<Seq<char>>, i: nat) -> SettingsView
    decreases args.len() - i,
{
    if i >= args.len() {
        s
    } else {
        let a = args[i as int];
        if a == "-t"@ && i + 1 < args.len() {
            match u32_of_text(args[(i + 1) as int]) {
                Some(port) => options_end(SettingsView { server_port: port, ..s }, args, i + 2),
                None => s,
            }
        } else if a == "-p"@ && i + 1 < args.len() {
            options_end(SettingsView { p: Some(args[(i + 1) as int]), ..s }, args, i + 2)
        } else if a == "-q"@ && i + 1 < args.len() {
            options_end(SettingsView { q: Some(args[(i + 1) as int]), ..s }, args, i + 2)
        } else if a == "-l"@ && i + 1 < args.len() {
            options_end(SettingsView { logfile: args[(i + 1) as int], ..s }, args, i + 2)
        } else if a == "-h"@ || a == "-t"@ || a == "-p"@ || a == "-q"@ || a == "-l"@ || s.server {
            s
        } else {
            options_end(SettingsView { filename: s.filename.push(a), ..s }, args, i + 1)
        }
    }
}

proof fn lemma_options_end(s: SettingsView, args: Seq<Seq<char>>, i: nat, probs: Seq<Seq<char>>)
    ensures
        options_from(s, args, i, probs).1 == ArgsOutcome::Parsed ==> options_from(s, args, i, probs).0
            == mirrored(options_end(s, args, i)),
    decreases args.len() - i,
{
    reveal_strlit("-h");
    reveal_strlit("-t");
    reveal_strlit("-p");
    reveal_strlit("-q");
    reveal_strlit("-l");
    // The option names differ in their second character.
    assert("-h"@[1] == 'h' && "-t"@[1] == 't' && "-p"@[1] == 'p' && "-q"@[1] == 'q' && "-l"@[1] == 'l');
    if i < args.len() {
        let a = args[i as int];
        if a == "-h"@ {
        } else if a == "-t"@ {
            if i + 1 < args.len() {
                match u32_of_text(args[(i + 1) as int]) {
                    Some(port) => lemma_options_end(SettingsView { server_port: port, ..s }, args, i + 2, probs),
                    None => {},
                }
            }
        } else if a == "-p"@ {
            if i + 1 < args.len() {
                lemma_options_end(
                    SettingsView { p: Some(args[(i + 1) as int]), ..s },
                    args,
                    i + 2,
                    probs.push(args[(i + 1) as int]),
                );
            }
        } else if a == "-q"@ {
            if i + 1 < args.len() {
                lemma_options_end(
                    SettingsView { q: Some(args[(i + 1) as int]), ..s },
                    args,
                    i + 2,
                    probs.push(args[(i + 1) as int]),
                );
            }
        } else if a == "-l"@ {
            if i + 1 < args.len() {
                lemma_options_end(SettingsView { logfile: args[(i + 1) as int], ..s }, args, i + 2, probs);
            }
        } else if !s.server {
            lemma_options_end(SettingsView { filename: s.filename.push(a), ..s }, args, i + 1, probs);
        }
    }
}

/// One loss probability given serves for both, and none given means no
/// loss: once every option is read, a probability that was given keeps its
/// value, `p` and `q` are equal where at most one of them was given, and
/// both are absent where neither was.
pub proof fn one_probability_serves_for_both(args: Seq<Seq<char>>, i: nat, s: SettingsView)
    ensures
        ({
            let (r, outcome, _) = options_from(s, args, i, Seq::empty());
            let given = options_end(s, args, i);
            &&& outcome == ArgsOutcome::Parsed && given.p is Some ==> r.p == given.p
            &&& outcome == ArgsOutcome::Parsed && given.q is Some ==> r.q == given.q
            &&& outcome == ArgsOutcome::Parsed && (given.p is None || given.q is None) ==> r.p == r.q
            &&& outcome == ArgsOutcome::Parsed && given.p is None && given.q is None ==> r.p is None
                && r.q is None
        }),
{
    lemma_options_end(s, args, i, Seq::empty());
}

/// An option that needs a value cannot end the command line: where the
/// options read to the end, the same options followed by `-t`, `-p`, `-q`
/// or `-l` alone end with the missing value of that option instead.
pub proof fn option_without_value_is_refused(
    s: SettingsView,
    args: Seq<Seq<char>>,
    i: nat,
    probs: Seq<Seq<char>>,
    opt: Seq<char>,
)
    requires
        i <= args.len(),
        options_from(s, args, i, probs).1 == ArgsOutcome::Parsed,
        opt == "-t"@ || opt == "-p"@ || opt == "-q"@ || opt == "-l"@,
    ensures
        opt == "-t"@ ==> options_from(s, args.push(opt), i, probs).1 == ArgsOutcome::MissingValue(
            "Expected a port but got nothing!",
        ),
        opt == "-p"@ ==> options_from(s, args.push(opt), i, probs).1 == ArgsOutcome::MissingValue(
            "Expected a probability p but got nothing!",
        ),
        opt == "-q"@ ==> options_from(s, args.push(opt), i, probs).1 == ArgsOutcome::MissingValue(
            "Expected a probability q but got nothing!",
        ),
        opt == "-l"@ ==> options_from(s, args.push(opt), i, probs).1 == ArgsOutcome::MissingValue(
            "Expected a logfile but got nothing!",
        ),
    decreases args.len() - i,
{
    reveal_strlit("-h");
    reveal_strlit("-t");
    reveal_strlit("-p");
    reveal_strlit("-q");
    reveal_strlit("-l");
    // The option names differ in their second character.
    assert("-h"@[1] == 'h' && "-t"@[1] == 't' && "-p"@[1] == 'p' && "-q"@[1] == 'q' && "-l"@[1] == 'l');
    let ext = args.push(opt);
    if i == args.len() {
        assert(ext[i as int] == opt);
    } else {
        let a = args[i as int];
        assert(ext[i as int] == a);
        if i + 1 < args.len() {
            assert(ext[(i + 1) as int] == args[(i + 1) as int]);
        }
        if a == "-h"@ {
        } else if a == "-t"@ {
            match u32_of_text(args[(i + 1) as int]) {
                Some(port) => option_without_value_is_refused(
                    SettingsView { server_port: port, ..s },
                    args,
                    i + 2,
                    probs,
                    opt,
                ),
                None => {},
            }
        } else if a == "-p"@ {
            option_without_value_is_refused(
                SettingsView { p: Some(args[(i + 1) as int]), ..s },
                args,
                i + 2,
                probs.push(args[(i + 1) as int]),
                opt,
            );
        } else if a == "-q"@ {
            option_without_value_is_refused(
                SettingsView { q: Some(args[(i + 1) as int]), ..s },
                args,
                i + 2,
                probs.push(args[(i + 1) as int]),
                opt,
            );
        } else if a == "-l"@ {
            option_without_value_is_refused(
                SettingsView { logfile: args[(i + 1) as int], ..s },
                args,
                i + 2,
                probs,
                opt,
            );
        } else if !s.server {
            option_without_value_is_refused(
                SettingsView { filename: s.filename.push(a), ..s },
                args,
                i + 1,
                probs,
                opt,
            );
        }
    }
}

} // verus!
