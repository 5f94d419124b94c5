//! What a remote host is asked over ssh, and what its answers mean.

use std::collections::hash_map::DefaultHasher;
use std::hash::Hasher;

use vstd::prelude::*;
use vstd::std_specs::hash::DefaultHasherAdditionalSpecFns;
use vstd::utf8::{encode_utf8, is_ascii_chars};

use crate::build_info::FULL_VERSION;
use crate::protocol::{DEFAULT_SESSION_NAME, PROTOCOL_VERSION};
use crate::remote_args::RemoteKeybindings;
use crate::text;
use crate::text::{clone_strings, decimal, lines_of, occurs_in, trim_spec};
use crate::version;

verus! {

/// The variable that names a binary to install on the remote.
pub const REMOTE_BINARY_ENV_VAR: &'static str = "HERDR_REMOTE_BINARY";

/// The variable under which a bridge command only shows that it exists.
pub const REMOTE_BRIDGE_PROBE_ENV_VAR: &'static str = "HERDR_REMOTE_BRIDGE_PROBE";

pub const REATTACH_COMMAND_ENV_VAR: &'static str = "HERDR_REATTACH_COMMAND";

pub const MAIN_DISPLAY_NAME_ENV_VAR: &'static str = "HERDR_MAIN_DISPLAY_NAME";

pub const MAIN_REMOTE_TARGET_ENV_VAR: &'static str = "HERDR_MAIN_REMOTE_TARGET";

pub const REMOTE_KEYBINDINGS_ENV_VAR: &'static str = "HERDR_REMOTE_KEYBINDINGS";

pub const CLIENT_SOCKET_PATH_ENV_VAR: &'static str = "HERDR_CLIENT_SOCKET_PATH";

pub const SOCKET_PATH_ENV_VAR: &'static str = "HERDR_SOCKET_PATH";

pub const UPDATE_MANIFEST_URL: &'static str = "https://herdr.dev/latest.json";

/// The longest path of a unix socket, in bytes, that every supported system takes.
pub const MAX_SOCKET_PATH: usize = 103;

/// What a bridge carries.
#[derive(Debug, Clone, Copy, PartialEq, Eq, Structural)]
pub enum RemoteBridgeKind {
    Client,
    Api,
}

impl RemoteBridgeKind {
    pub open spec fn subcommand_spec(self) -> Seq<char> {
        match self {
            RemoteBridgeKind::Client => "remote-client-bridge"@,
            RemoteBridgeKind::Api => "remote-api-bridge"@,
        }
    }

    /// The subcommand that serves this bridge on the remote.
    pub fn subcommand(self) -> (r: &'static str)
        ensures
            r@ == self.subcommand_spec(),
    {
        match self {
            RemoteBridgeKind::Client => "remote-client-bridge",
            RemoteBridgeKind::Api => "remote-api-bridge",
        }
    }

    pub open spec fn path_label_spec(self) -> Seq<char> {
        match self {
            RemoteBridgeKind::Client => "client"@,
            RemoteBridgeKind::Api => "api"@,
        }
    }

    /// The part of a socket path that names this bridge.
    pub fn path_label(self) -> (r: &'static str)
        ensures
            r@ == self.path_label_spec(),
    {
        match self {
            RemoteBridgeKind::Client => "client",
            RemoteBridgeKind::Api => "api",
        }
    }
}

/// An ssh connection: the destination, and the options that precede it.
#[derive(Debug, PartialEq, Eq)]
pub struct SshTarget {
    pub destination: String,
    pub options: Vec<String>,
}

/// Whether one of the options sets the connect timeout.
pub open spec fn sets_connect_timeout(options: Seq<Seq<char>>) -> bool {
    exists|i: int|
        0 <= i < options.len() && occurs_in("ConnectTimeout"@, #[trigger] options[i])
}

/// The arguments of the ssh command that runs `command` on the destination.
pub open spec fn ssh_argv(
    destination: Seq<char>,
    options: Seq<Seq<char>>,
    command: Seq<char>,
) -> Seq<Seq<char>> {
    let timeout = if sets_connect_timeout(options) {
        Seq::empty()
    } else {
        seq!["-o"@, "ConnectTimeout=10"@]
    };
    let no_tty = if options.contains("-T"@) {
        Seq::empty()
    } else {
        seq!["-T"@]
    };
    timeout + options + no_tty + seq![destination, command]
}

impl SshTarget {
    pub fn new(destination: String, options: Vec<String>) -> (r: Self)
        ensures
            r.destination@ == destination@,
            r.options.deep_view() == options.deep_view(),
    {
        SshTarget { destination, options }
    }

    /// A destination without options.
    pub fn bare(destination: &str) -> (r: Self)
        ensures
            r.destination@ == destination@,
            r.options@.len() == 0,
    {
        SshTarget { destination: destination.to_owned(), options: Vec::new() }
    }

    pub fn destination(&self) -> (r: &str)
        ensures
            r@ == self.destination@,
    {
        self.destination.as_str()
    }

    /// The arguments of the ssh command that runs `remote_command`. The connect phase is bounded
    /// and no terminal is asked for, unless the options already speak of that; destination and
    /// command come last.
    pub fn command(&self, remote_command: &str) -> (r: Vec<String>)
        ensures
            r.deep_view() == ssh_argv(
                self.destination@,
                self.options.deep_view(),
                remote_command@,
            ),
    {
        let ghost options = self.options.deep_view();
        let mut timeout_set: bool = false;
        let mut no_tty_set: bool = false;
        let mut i: usize = 0;
        while i < self.options.len()
            invariant
                i <= self.options@.len(),
                options == self.options.deep_view(),
                timeout_set == exists|k: int|
                    0 <= k < i && occurs_in("ConnectTimeout"@, #[trigger] options[k]),
                no_tty_set == exists|k: int| 0 <= k < i && #[trigger] options[k] == "-T"@,
            decreases self.options@.len() - i,
        {
            assert(options[i as int] == self.options@[i as int]@);
            if text::contains_str(self.options[i].as_str(), "ConnectTimeout") {
                timeout_set = true;
            }
            if text::same(self.options[i].as_str(), "-T") {
                no_tty_set = true;
            }
            i = i + 1;
        }
        assert(timeout_set == sets_connect_timeout(options));
        assert(no_tty_set == options.contains("-T"@));
        let mut argv: Vec<String> = Vec::new();
        if !timeout_set {
            argv.push("-o".to_owned());
            argv.push("ConnectTimeout=10".to_owned());
        }
        let ghost head = argv.deep_view();
        let mut copy: Vec<String> = clone_strings(&self.options);
        argv.append(&mut copy);
        assert(argv.deep_view() =~= head + options);
        if !no_tty_set {
            argv.push("-T".to_owned());
        }
        argv.push(self.destination.clone());
        argv.push(remote_command.to_owned());
        assert(argv.deep_view() =~= ssh_argv(self.destination@, options, remote_command@));
        argv
    }
}

impl Clone for SshTarget {
    fn clone(&self) -> (r: Self)
        ensures
            r.destination@ == self.destination@,
            r.options@ == self.options@,
    {
        SshTarget { destination: self.destination.clone(), options: clone_strings(&self.options) }
    }
}

/// The command that runs on the remote, and before it the destination, are the last arguments.
pub proof fn law_ssh_command_comes_last(
    destination: Seq<char>,
    options: Seq<Seq<char>>,
    command: Seq<char>,
)
    ensures
        ({
            let argv = ssh_argv(destination, options, command);
            &&& argv.len() >= options.len() + 2
            &&& argv[argv.len() - 1] == command
            &&& argv[argv.len() - 2] == destination
            &&& argv.contains("-T"@)
        }),
{
    let argv = ssh_argv(destination, options, command);
    let timeout = if sets_connect_timeout(options) {
        Seq::empty()
    } else {
        seq!["-o"@, "ConnectTimeout=10"@]
    };
    if options.contains("-T"@) {
        let k = choose|k: int| 0 <= k < options.len() && options[k] == "-T"@;
        assert(argv[timeout.len() + k] == "-T"@);
    } else {
        assert(argv[(timeout.len() + options.len()) as int] == "-T"@);
    }
}

/// Characters that a shell word may hold without quotes.
pub open spec fn is_shell_safe(c: char) -> bool {
    text::is_alnum_spec(c) || c == '@' || c == '%' || c == '_' || c == '+' || c == '=' || c == ':'
        || c == ',' || c == '.' || c == '/' || c == '-'
}

/// `value` as one shell word: itself where that is safe, else in single quotes.
pub open spec fn shell_quote_spec(value: Seq<char>) -> Seq<char> {
    if value.len() > 0 && (forall|i: int|
        0 <= i < value.len() ==> is_shell_safe(#[trigger] value[i])) {
        value
    } else {
        "'"@ + text::replace_spec(value, '\'', "'\\''"@) + "'"@
    }
}

fn shell_safe(c: char) -> (r: bool)
    ensures
        r == is_shell_safe(c),
{
    text::is_alnum(c) || c == '@' || c == '%' || c == '_' || c == '+' || c == '=' || c == ':' || c
        == ',' || c == '.' || c == '/' || c == '-'
}

/// `value` as one shell word.
pub fn shell_quote(value: &str) -> (r: String)
    ensures
        r@ == shell_quote_spec(value@),
{
    let x: Vec<char> = text::chars_of(value);
    let mut safe: bool = x.len() > 0;
    let mut i: usize = 0;
    while i < x.len()
        invariant
            i <= x@.len(),
            x@ == value@,
            safe == (x@.len() > 0 && forall|k: int|
                0 <= k < i ==> is_shell_safe(#[trigger] value@[k])),
        decreases x@.len() - i,
    {
        if !shell_safe(x[i]) {
            assert(!is_shell_safe(value@[i as int]));
            safe = false;
        }
        i = i + 1;
    }
    if safe {
        return value.to_owned();
    }
    let mut r: String = "'".to_owned();
    r.append(text::replace_char(value, '\'', "'\\''").as_str());
    r.append("'");
    r
}

/// The word that a POSIX shell reads in `s`, if it reads exactly one there, made of safe
/// characters, characters behind a backslash and parts in single quotes. `quoted` says whether
/// `s` begins inside single quotes.
pub open spec fn shell_reads(s: Seq<char>, quoted: bool) -> Option<Seq<char>>
    decreases s.len(),
{
    if s.len() == 0 {
        if quoted {
            None
        } else {
            Some(Seq::empty())
        }
    } else if s[0] == '\'' {
        shell_reads(s.skip(1), !quoted)
    } else if quoted {
        prepended(s[0], shell_reads(s.skip(1), true))
    } else if s[0] == '\\' {
        if s.len() > 1 && s[1] != '\n' {
            prepended(s[1], shell_reads(s.skip(2), false))
        } else {
            None
        }
    } else if is_shell_safe(s[0]) {
        prepended(s[0], shell_reads(s.skip(1), false))
    } else {
        None
    }
}

/// `c` before a text, where there is one.
pub open spec fn prepended(c: char, rest: Option<Seq<char>>) -> Option<Seq<char>> {
    match rest {
        Some(r) => Some(seq![c] + r),
        None => None,
    }
}

pub(crate) proof fn lemma_replace_front(c: char, rest: Seq<char>, from: char, to: Seq<char>)
    ensures
        text::replace_spec(seq![c] + rest, from, to) == (if c == from {
            to
        } else {
            seq![c]
        }) + text::replace_spec(rest, from, to),
    decreases rest.len(),
{
    let s = seq![c] + rest;
    if rest.len() == 0 {
        assert(s.drop_last() =~= Seq::<char>::empty());
        assert(s.last() == c);
        assert(text::replace_spec(s.drop_last(), from, to) =~= Seq::<char>::empty());
        assert(text::replace_spec(rest, from, to) =~= Seq::<char>::empty());
    } else {
        lemma_replace_front(c, rest.drop_last(), from, to);
        assert(s.drop_last() =~= seq![c] + rest.drop_last());
        assert(s.last() == rest.last());
    }
    assert(text::replace_spec(s, from, to) =~= (if c == from {
        to
    } else {
        seq![c]
    }) + text::replace_spec(rest, from, to));
}

proof fn lemma_quoted_reads(value: Seq<char>)
    ensures
        shell_reads(text::replace_spec(value, '\'', "'\\''"@) + "'"@, true) == Some(value),
    decreases value.len(),
{
    reveal_strlit("'\\''");
    reveal_strlit("'");
    let esc = "'\\''"@;
    let end = "'"@;
    let body = text::replace_spec(value, '\'', esc);
    let s = body + end;
    if value.len() == 0 {
        assert(s =~= end);
        assert(s.skip(1) =~= Seq::<char>::empty());
        assert(shell_reads(s.skip(1), false) == Some(Seq::<char>::empty()));
        assert(value =~= Seq::<char>::empty());
    } else {
        let c = value[0];
        let rest = value.drop_first();
        assert(value =~= seq![c] + rest);
        lemma_replace_front(c, rest, '\'', esc);
        lemma_quoted_reads(rest);
        let tail = text::replace_spec(rest, '\'', esc) + end;
        if c == '\'' {
            assert(s =~= esc + tail);
            let one = s.skip(1);
            let three = one.skip(2);
            assert(s[0] == '\'' && s[1] == '\\' && s[2] == '\'' && s[3] == '\'');
            assert(one[0] == '\\' && one[1] == '\'');
            assert(three[0] == '\'');
            assert(three.skip(1) =~= tail);
            assert(shell_reads(three, false) == shell_reads(tail, true));
            assert(shell_reads(one, false) == prepended('\'', shell_reads(three, false)));
            assert(shell_reads(s, true) == shell_reads(one, false));
        } else {
            assert(s =~= seq![c] + tail);
            assert(s[0] == c);
            assert(s.skip(1) =~= tail);
            assert(shell_reads(s, true) == prepended(c, shell_reads(tail, true)));
        }
    }
}

proof fn lemma_safe_reads(value: Seq<char>)
    requires
        forall|i: int| 0 <= i < value.len() ==> is_shell_safe(#[trigger] value[i]),
    ensures
        shell_reads(value, false) == Some(value),
    decreases value.len(),
{
    if value.len() > 0 {
        let rest = value.skip(1);
        assert forall|i: int| 0 <= i < rest.len() implies is_shell_safe(#[trigger] rest[i]) by {
            assert(rest[i] == value[i + 1]);
        }
        lemma_safe_reads(rest);
        assert(is_shell_safe(value[0]));
        assert(value =~= seq![value[0]] + rest);
    } else {
        assert(value =~= Seq::<char>::empty());
    }
}

/// A shell reads a quoted text as one word, the text itself.
pub proof fn law_shell_reads_what_was_quoted(value: Seq<char>)
    ensures
        shell_reads(shell_quote_spec(value), false) == Some(value),
        shell_quote_spec(value).len() > 0,
{
    reveal_strlit("'");
    if value.len() > 0 && (forall|i: int|
        0 <= i < value.len() ==> is_shell_safe(#[trigger] value[i])) {
        lemma_safe_reads(value);
    } else {
        let inner = text::replace_spec(value, '\'', "'\\''"@) + "'"@;
        let s = shell_quote_spec(value);
        assert(s =~= "'"@ + inner);
        assert(s[0] == '\'');
        assert(s.skip(1) =~= inner);
        lemma_quoted_reads(value);
    }
}

/// A character of a path component: letters, digits, `.`, `_` and `-` stay, others become `-`.
pub open spec fn path_char(c: char) -> char {
    if text::is_alnum_spec(c) || c == '.' || c == '_' || c == '-' {
        c
    } else {
        '-'
    }
}

/// A text as a path component: clean characters, no dash at either end, at most 32 long.
pub open spec fn sanitized(input: Seq<char>) -> Seq<char> {
    text::take_spec(
        text::trim_end_matches_spec(
            text::trim_start_matches_spec(input.map_values(|c: char| path_char(c)), '-'),
            '-',
        ),
        32,
    )
}

/// A text as a path component.
pub fn sanitize_path_component(input: &str) -> (r: String)
    ensures
        r@ == sanitized(input@),
{
    let x: Vec<char> = text::chars_of(input);
    let mut clean: String = String::new();
    let mut i: usize = 0;
    while i < x.len()
        invariant
            i <= x@.len(),
            x@ == input@,
            clean@ == input@.take(i as int).map_values(|c: char| path_char(c)),
        decreases x@.len() - i,
    {
        let c: char = x[i];
        if text::is_alnum(c) || c == '.' || c == '_' || c == '-' {
            clean.push(c);
        } else {
            clean.push('-');
        }
        i = i + 1;
        assert(clean@ =~= input@.take(i as int).map_values(|c: char| path_char(c)));
    }
    assert(input@.take(i as int) =~= input@);
    let trimmed: &str = text::trim_end_matches(
        text::trim_start_matches(clean.as_str(), '-'),
        '-',
    );
    text::take_chars(trimmed, 32).to_owned()
}

/// A name below a directory.
pub open spec fn path_below(dir: Seq<char>, name: Seq<char>) -> Seq<char> {
    if dir.len() == 0 {
        name
    } else if dir.last() == '/' {
        dir + name
    } else {
        dir + "/"@ + name
    }
}

fn join_path(dir: &str, name: &str) -> (r: String)
    ensures
        r@ == path_below(dir@, name@),
{
    let mut path: String = dir.to_owned();
    let n: usize = dir.unicode_len();
    if n > 0 && dir.get_char(n - 1) != '/' {
        path.append("/");
    }
    path.append(name);
    assert(path@ =~= path_below(dir@, name@));
    path
}

/// Whether a path is short enough for a unix socket.
pub open spec fn fits_socket(path: Seq<char>) -> bool {
    encode_utf8(path).len() <= MAX_SOCKET_PATH
}

fn fits_unix_socket_path(path: &str) -> (r: bool)
    ensures
        r == fits_socket(path@),
{
    path.as_bytes().len() <= MAX_SOCKET_PATH
}

/// The writes by which target, session and kind are hashed.
pub open spec fn hash_writes(
    target: Seq<char>,
    session: Seq<char>,
    kind: Seq<char>,
) -> Seq<Seq<u8>> {
    seq![
        encode_utf8(target),
        seq![0xffu8],
        seq![0u8],
        encode_utf8(session),
        seq![0xffu8],
        seq![0u8],
        encode_utf8(kind),
        seq![0xffu8],
    ]
}

/// The hash of target, session and kind, in 16 hexadecimal digits.
pub open spec fn socket_hash(
    target: Seq<char>,
    session: Seq<char>,
    kind: Seq<char>,
) -> Seq<char> {
    text::hex_spec(
        DefaultHasher::spec_finish(hash_writes(target, session, kind)) as nat,
        16,
    )
}

/// The hash of target, session and kind, in 16 hexadecimal digits.
fn short_socket_hash(target: &str, session: &str, kind: &str) -> (r: String)
    ensures
        r@ == socket_hash(target@, session@, kind@),
{
    let end: Vec<u8> = vec![0xff];
    let gap: Vec<u8> = vec![0];
    assert(end@ =~= seq![0xffu8]);
    assert(gap@ =~= seq![0u8]);
    let mut hasher: DefaultHasher = DefaultHasher::new();
    hasher.write(target.as_bytes());
    hasher.write(end.as_slice());
    hasher.write(gap.as_slice());
    hasher.write(session.as_bytes());
    hasher.write(end.as_slice());
    hasher.write(gap.as_slice());
    hasher.write(kind.as_bytes());
    hasher.write(end.as_slice());
    assert(hasher@ =~= hash_writes(target@, session@, kind@));
    text::hex_of(hasher.finish(), 16)
}

/// The file name of a bridge socket that shows target and session.
pub open spec fn readable_name(
    pid: u32,
    target: Seq<char>,
    session: Seq<char>,
    kind: Seq<char>,
) -> Seq<char> {
    "herdr-remote-"@ + decimal(pid as nat) + "-"@ + sanitized(target) + "-"@ + sanitized(session)
        + "-"@ + kind + ".sock"@
}

/// The file name of a bridge socket that is short.
pub open spec fn short_name(
    pid: u32,
    target: Seq<char>,
    session: Seq<char>,
    kind: Seq<char>,
) -> Seq<char> {
    "herdr-r-"@ + decimal(pid as nat) + "-"@ + text::take_spec(sanitized(target), 8) + "-"@ + kind
        + "."@ + socket_hash(target, session, kind) + ".sock"@
}

/// The path of a bridge socket: the readable name in the temporary directory where that fits,
/// else the short name there, else the short name in `/tmp`.
pub open spec fn socket_path_of(
    tmpdir: Seq<char>,
    pid: u32,
    target: Seq<char>,
    session: Seq<char>,
    kind: Seq<char>,
) -> Seq<char> {
    let readable = path_below(tmpdir, readable_name(pid, target, session, kind));
    let short = short_name(pid, target, session, kind);
    if fits_socket(readable) {
        readable
    } else if fits_socket(path_below(tmpdir, short)) {
        path_below(tmpdir, short)
    } else {
        path_below("/tmp"@, short)
    }
}

/// The path of the local socket of a bridge.
pub fn local_forward_socket_path(
    tmpdir: &str,
    pid: u32,
    target: &str,
    session_name: &str,
    kind: RemoteBridgeKind,
) -> (r: String)
    ensures
        r@ == socket_path_of(tmpdir@, pid, target@, session_name@, kind.path_label_spec()),
{
    let target_clean: String = sanitize_path_component(target);
    let session_clean: String = sanitize_path_component(session_name);
    let kind_label: &str = kind.path_label();
    let pid_text: String = text::decimal_of(pid as u128);
    let mut name: String = "herdr-remote-".to_owned();
    name.append(pid_text.as_str());
    name.append("-");
    name.append(target_clean.as_str());
    name.append("-");
    name.append(session_clean.as_str());
    name.append("-");
    name.append(kind_label);
    name.append(".sock");
    let readable: String = join_path(tmpdir, name.as_str());
    if fits_unix_socket_path(readable.as_str()) {
        return readable;
    }
    let hash: String = short_socket_hash(target, session_name, kind_label);
    let mut short: String = "herdr-r-".to_owned();
    short.append(pid_text.as_str());
    short.append("-");
    short.append(text::take_chars(target_clean.as_str(), 8));
    short.append("-");
    short.append(kind_label);
    short.append(".");
    short.append(hash.as_str());
    short.append(".sock");
    let in_tmpdir: String = join_path(tmpdir, short.as_str());
    if fits_unix_socket_path(in_tmpdir.as_str()) {
        return in_tmpdir;
    }
    join_path("/tmp", short.as_str())
}

/// The local sockets of the two bridges to a remote.
#[derive(Debug, PartialEq, Eq)]
pub struct RemoteBridgePaths {
    pub client_socket: String,
    pub api_socket: String,
}

pub fn remote_bridge_socket_paths(
    tmpdir: &str,
    pid: u32,
    target: &str,
    session_name: &str,
) -> (r: RemoteBridgePaths)
    ensures
        r.client_socket@ == socket_path_of(tmpdir@, pid, target@, session_name@, "client"@),
        r.api_socket@ == socket_path_of(tmpdir@, pid, target@, session_name@, "api"@),
{
    RemoteBridgePaths {
        client_socket: local_forward_socket_path(
            tmpdir,
            pid,
            target,
            session_name,
            RemoteBridgeKind::Client,
        ),
        api_socket: local_forward_socket_path(
            tmpdir,
            pid,
            target,
            session_name,
            RemoteBridgeKind::Api,
        ),
    }
}

proof fn lemma_sanitized(input: Seq<char>)
    ensures
        sanitized(input).len() <= 32,
        is_ascii_chars(sanitized(input)),
{
    let mapped = input.map_values(|c: char| path_char(c));
    assert(is_ascii_chars(mapped)) by {
        assert forall|i: int| 0 <= i < mapped.len() implies '\0' <= #[trigger] mapped[i]
            <= '\u{7f}' by {
            lemma_path_char_ascii(input[i]);
        }
    }
    lemma_trim_start_keeps_ascii(mapped, '-');
    lemma_trim_end_keeps_ascii(text::trim_start_matches_spec(mapped, '-'), '-');
}

proof fn lemma_path_char_ascii(c: char)
    ensures
        '\0' <= path_char(c) <= '\u{7f}',
{
}

proof fn lemma_trim_start_keeps_ascii(s: Seq<char>, c: char)
    requires
        is_ascii_chars(s),
    ensures
        is_ascii_chars(text::trim_start_matches_spec(s, c)),
    decreases s.len(),
{
    if s.len() > 0 && s[0] == c {
        lemma_trim_start_keeps_ascii(s.drop_first(), c);
    }
}

proof fn lemma_trim_end_keeps_ascii(s: Seq<char>, c: char)
    requires
        is_ascii_chars(s),
    ensures
        is_ascii_chars(text::trim_end_matches_spec(s, c)),
    decreases s.len(),
{
    if s.len() > 0 && s.last() == c {
        lemma_trim_end_keeps_ascii(s.drop_last(), c);
    }
}

proof fn lemma_digits_ascii(s: Seq<char>)
    requires
        forall|i: int|
            0 <= i < s.len() ==> {
                let c = #[trigger] s[i] as u32;
                0x30 <= c <= 0x39 || 0x61 <= c <= 0x66
            },
    ensures
        is_ascii_chars(s),
{
    assert forall|i: int| 0 <= i < s.len() implies '\0' <= #[trigger] s[i] <= '\u{7f}' by {
        lemma_code_ascii(s[i]);
    }
}

proof fn lemma_code_ascii(c: char)
    ensures
        c as u32 <= 0x7f ==> '\0' <= c <= '\u{7f}',
{
}

proof fn lemma_short_name(
    pid: u32,
    target: Seq<char>,
    session: Seq<char>,
    kind: RemoteBridgeKind,
)
    ensures
        ({
            let name = short_name(pid, target, session, kind.path_label_spec());
            &&& is_ascii_chars(name)
            &&& name.len() <= 64
            &&& name.len() >= 24
            &&& name[name.len() - 6] != 't' && name[name.len() - 6] != 'i'
            &&& name[name.len() - 23] == kind.path_label_spec().last()
        }),
{
    reveal_strlit("herdr-r-");
    reveal_strlit("-");
    reveal_strlit(".");
    reveal_strlit(".sock");
    reveal_strlit("client");
    reveal_strlit("api");
    let label = kind.path_label_spec();
    let number = decimal(pid as nat);
    let prefix = text::take_spec(sanitized(target), 8);
    let hash = socket_hash(target, session, label);
    let n = DefaultHasher::spec_finish(hash_writes(target, session, label)) as nat;
    text::lemma_hex(n, 16);
    lemma_digits_ascii(hash);
    text::lemma_decimal_value(pid as nat);
    assert(vstd::arithmetic::power::pow(10, 10) == 10_000_000_000) by {
        reveal_with_fuel(vstd::arithmetic::power::pow, 11);
    }
    text::lemma_decimal_len(pid as nat, 10_000_000_000, 10);
    assert forall|i: int| 0 <= i < number.len() implies {
        let c = #[trigger] number[i] as u32;
        0x30 <= c <= 0x39 || 0x61 <= c <= 0x66
    } by {
        assert(text::is_digit(number[i]));
    }
    lemma_digits_ascii(number);
    lemma_sanitized(target);
    let name = short_name(pid, target, session, label);
    assert(is_ascii_chars(name));
    let before = "herdr-r-"@ + number + "-"@ + prefix + "-"@;
    let body = before + label + "."@;
    assert(name =~= body + hash + ".sock"@);
    assert(name[name.len() - 6] == hash[15]);
    assert(name[name.len() - 23] == body[body.len() - 2]);
    assert(body[body.len() - 2] == label.last());
    lemma_hex_is_no_label(hash[15]);
}

proof fn lemma_hex_is_no_label(c: char)
    ensures
        (0x30 <= c as u32 <= 0x39 || 0x61 <= c as u32 <= 0x66) ==> c != 't' && c != 'i',
{
}

/// The path of a bridge socket always fits.
pub proof fn law_socket_path_fits(
    tmpdir: Seq<char>,
    pid: u32,
    target: Seq<char>,
    session: Seq<char>,
    kind: RemoteBridgeKind,
)
    ensures
        fits_socket(socket_path_of(tmpdir, pid, target, session, kind.path_label_spec())),
{
    reveal_strlit("/tmp");
    reveal_strlit("/");
    lemma_short_name(pid, target, session, kind);
    let short = short_name(pid, target, session, kind.path_label_spec());
    let last = path_below("/tmp"@, short);
    assert(last =~= "/tmp"@ + "/"@ + short);
    assert(is_ascii_chars(last));
    vstd::utf8::is_ascii_chars_encode_utf8(last);
}

proof fn lemma_readable_end(
    pid: u32,
    target: Seq<char>,
    session: Seq<char>,
    kind: RemoteBridgeKind,
)
    ensures
        ({
            let name = readable_name(pid, target, session, kind.path_label_spec());
            name.len() >= 6 && name[name.len() - 6] == kind.path_label_spec().last()
        }),
{
    reveal_strlit(".sock");
    reveal_strlit("client");
    reveal_strlit("api");
    let label = kind.path_label_spec();
    let name = readable_name(pid, target, session, label);
    let before = "herdr-remote-"@ + decimal(pid as nat) + "-"@ + sanitized(target) + "-"@
        + sanitized(session) + "-"@;
    assert(name =~= before + label + ".sock"@);
}

/// The two bridges to a remote never share a socket path.
pub proof fn law_bridge_sockets_differ(
    tmpdir: Seq<char>,
    pid: u32,
    target: Seq<char>,
    session: Seq<char>,
)
    ensures
        socket_path_of(tmpdir, pid, target, session, "client"@) != socket_path_of(
            tmpdir,
            pid,
            target,
            session,
            "api"@,
        ),
{
    reveal_strlit("client");
    reveal_strlit("api");
    let client = RemoteBridgeKind::Client;
    let api = RemoteBridgeKind::Api;
    lemma_short_name(pid, target, session, client);
    lemma_short_name(pid, target, session, api);
    lemma_readable_end(pid, target, session, client);
    lemma_readable_end(pid, target, session, api);
    let c = socket_path_of(tmpdir, pid, target, session, "client"@);
    let a = socket_path_of(tmpdir, pid, target, session, "api"@);
    let cr = readable_name(pid, target, session, "client"@);
    let ar = readable_name(pid, target, session, "api"@);
    let cs = short_name(pid, target, session, "client"@);
    let api_short = short_name(pid, target, session, "api"@);
    lemma_below_end(tmpdir, cr, 6);
    lemma_below_end(tmpdir, ar, 6);
    lemma_below_end(tmpdir, cs, 6);
    lemma_below_end(tmpdir, api_short, 6);
    lemma_below_end(tmpdir, cs, 23);
    lemma_below_end(tmpdir, api_short, 23);
    lemma_below_end("/tmp"@, cs, 6);
    lemma_below_end("/tmp"@, api_short, 6);
    lemma_below_end("/tmp"@, cs, 23);
    lemma_below_end("/tmp"@, api_short, 23);
    if c == a {
        assert(c[c.len() - 6] == a[a.len() - 6]);
        assert(c.len() >= 23 && a.len() >= 23 ==> c[c.len() - 23] == a[a.len() - 23]);
    }
}

proof fn lemma_below_end(dir: Seq<char>, name: Seq<char>, k: int)
    requires
        1 <= k <= name.len(),
    ensures
        path_below(dir, name).len() >= name.len(),
        path_below(dir, name)[path_below(dir, name).len() - k] == name[name.len() - k],
{
}

/// A platform for which herdr is built.
#[derive(Debug, Clone, Copy, PartialEq, Eq)]
pub struct RemotePlatform {
    pub os: &'static str,
    pub arch: &'static str,
}

/// The operating system that `uname -s` names.
pub open spec fn uname_os(os: Seq<char>) -> Option<Seq<char>> {
    if trim_spec(os) == "Linux"@ {
        Some("linux"@)
    } else if trim_spec(os) == "Darwin"@ {
        Some("macos"@)
    } else {
        None
    }
}

/// The architecture that `uname -m` names.
pub open spec fn uname_arch(arch: Seq<char>) -> Option<Seq<char>> {
    let a = trim_spec(arch);
    if a == "x86_64"@ || a == "amd64"@ {
        Some("x86_64"@)
    } else if a == "aarch64"@ || a == "arm64"@ {
        Some("aarch64"@)
    } else {
        None
    }
}

/// A platform as one word.
pub open spec fn platform_key(os: Seq<char>, arch: Seq<char>) -> Seq<char> {
    os + "-"@ + arch
}

impl RemotePlatform {
    /// The platform that the two words of `uname` name.
    pub fn from_uname(os: &str, arch: &str) -> (r: Option<Self>)
        ensures
            match r {
                Some(p) => uname_os(os@) == Some(p.os@) && uname_arch(arch@) == Some(p.arch@),
                None => uname_os(os@) is None || uname_arch(arch@) is None,
            },
    {
        let o: &str = text::trim(os);
        let a: &str = text::trim(arch);
        let os: &'static str = if text::same(o, "Linux") {
            "linux"
        } else if text::same(o, "Darwin") {
            "macos"
        } else {
            return None;
        };
        let arch: &'static str = if text::same(a, "x86_64") || text::same(a, "amd64") {
            "x86_64"
        } else if text::same(a, "aarch64") || text::same(a, "arm64") {
            "aarch64"
        } else {
            return None;
        };
        Some(RemotePlatform { os, arch })
    }

    /// The platform of this build, from the names that the compiler has for it.
    pub fn local(os: &str, arch: &str) -> (r: Self)
        ensures
            r.os@ == (if os@ == "linux"@ || os@ == "macos"@ {
                os@
            } else {
                "unknown"@
            }),
            r.arch@ == (if arch@ == "x86_64"@ || arch@ == "aarch64"@ {
                arch@
            } else {
                "unknown"@
            }),
    {
        let o: &'static str = if text::same(os, "linux") {
            "linux"
        } else if text::same(os, "macos") {
            "macos"
        } else {
            "unknown"
        };
        let a: &'static str = if text::same(arch, "x86_64") {
            "x86_64"
        } else if text::same(arch, "aarch64") {
            "aarch64"
        } else {
            "unknown"
        };
        RemotePlatform { os: o, arch: a }
    }

    pub fn asset_key(&self) -> (r: String)
        ensures
            r@ == platform_key(self.os@, self.arch@),
    {
        let mut key: String = self.os.to_owned();
        key.append("-");
        key.append(self.arch);
        key
    }

    /// Whether two platforms are the same.
    pub fn same_as(&self, other: &RemotePlatform) -> (r: bool)
        ensures
            r == (self.os@ == other.os@ && self.arch@ == other.arch@),
    {
        text::same(self.os, other.os) && text::same(self.arch, other.arch)
    }
}

/// The platform that the output of `uname -s; uname -m` names, or an error.
pub fn platform_from_uname_output(stdout: &str) -> (r: Result<RemotePlatform, String>)
    ensures
        ({
            let lines = lines_of(stdout@);
            let os = if lines.len() > 0 {
                lines[0]
            } else {
                Seq::empty()
            };
            let arch = if lines.len() > 1 {
                lines[1]
            } else {
                Seq::empty()
            };
            match r {
                Ok(p) => uname_os(os) == Some(p.os@) && uname_arch(arch) == Some(p.arch@),
                Err(e) => (uname_os(os) is None || uname_arch(arch) is None) && e@
                    == "unsupported remote platform: "@ + trim_spec(os) + " "@ + trim_spec(arch),
            }
        }),
{
    let lines: Vec<String> = text::lines(stdout);
    assert(lines.deep_view().len() == lines@.len());
    let os: &str = if lines.len() > 0 {
        lines[0].as_str()
    } else {
        ""
    };
    let arch: &str = if lines.len() > 1 {
        lines[1].as_str()
    } else {
        ""
    };
    proof {
        reveal_strlit("");
        assert(""@ =~= Seq::<char>::empty());
    }
    match RemotePlatform::from_uname(os, arch) {
        Some(p) => Ok(p),
        None => {
            let mut e: String = "unsupported remote platform: ".to_owned();
            e.append(text::trim(os));
            e.append(" ");
            e.append(text::trim(arch));
            Err(e)
        },
    }
}

/// A herdr binary on a remote host.
#[derive(Debug)]
pub struct RemoteHerdr {
    /// Where an installation goes, below the home directory.
    pub install_suffix: String,
    /// The binary as a shell word.
    pub shell_path: String,
    pub platform: RemotePlatform,
}

impl RemoteHerdr {
    /// The binary at the default place.
    pub fn for_platform(platform: RemotePlatform) -> (r: Self)
        ensures
            r.install_suffix@ == ".local/bin/herdr"@,
            r.shell_path@ == "\"$HOME/"@ + ".local/bin/herdr"@ + "\""@,
            r.platform == platform,
    {
        RemoteHerdr::for_install_suffix(platform, ".local/bin/herdr".to_owned())
    }

    /// The binary at a place below the home directory.
    pub fn for_install_suffix(platform: RemotePlatform, install_suffix: String) -> (r: Self)
        ensures
            r.install_suffix@ == install_suffix@,
            r.shell_path@ == "\"$HOME/"@ + install_suffix@ + "\""@,
            r.platform == platform,
    {
        let mut shell_path: String = "\"$HOME/".to_owned();
        shell_path.append(install_suffix.as_str());
        shell_path.append("\"");
        RemoteHerdr { install_suffix, shell_path, platform }
    }

    /// The same binary under another shell word.
    pub fn with_shell_path(&self, shell_path: String) -> (r: Self)
        ensures
            r.install_suffix@ == self.install_suffix@,
            r.shell_path@ == shell_path@,
            r.platform == self.platform,
    {
        RemoteHerdr {
            install_suffix: self.install_suffix.clone(),
            shell_path,
            platform: self.platform,
        }
    }
}

impl Clone for RemoteHerdr {
    fn clone(&self) -> (r: Self)
        ensures
            r == *self,
    {
        RemoteHerdr {
            install_suffix: self.install_suffix.clone(),
            shell_path: self.shell_path.clone(),
            platform: self.platform,
        }
    }
}

/// The command that prints where the remote shell finds herdr.
pub fn remote_path_probe_any_command() -> (r: &'static str)
    ensures
        r@ == "path=$(command -v herdr) || exit 1\ntest -n \"$path\" || exit 1\nprintf '%s\\n' \"$path\"\n"@,
{
    "path=$(command -v herdr) || exit 1\ntest -n \"$path\" || exit 1\nprintf '%s\\n' \"$path\"\n"
}

/// Whether the lines of a probe name an absolute path.
pub open spec fn probed_path(lines: Seq<Seq<char>>) -> bool {
    lines.len() > 0 && lines[0].len() > 0 && lines[0][0] == '/'
}

/// The third line of a probe, in which the remote client tells its status.
pub fn probe_status_line(stdout: &str) -> (r: Option<String>)
    ensures
        match r {
            Some(line) => lines_of(stdout@).len() > 2 && line@ == lines_of(stdout@)[2],
            None => lines_of(stdout@).len() <= 2,
        },
{
    let lines: Vec<String> = text::lines(stdout);
    assert(lines.deep_view().len() == lines@.len());
    if lines.len() > 2 {
        Some(lines[2].clone())
    } else {
        None
    }
}

/// The binary that a full probe found: an absolute path, the version of this build, and in the
/// third line a status with this protocol. `protocol` is what that line says.
pub fn remote_herdr_from_path_probe(
    remote_herdr: &RemoteHerdr,
    stdout: &str,
    protocol: Option<u32>,
) -> (r: Option<RemoteHerdr>)
    ensures
        ({
            let lines = lines_of(stdout@);
            let found = lines.len() > 2 && probed_path(lines) && version::names_version(
                trim_spec(lines[1]),
                FULL_VERSION@,
            ) && protocol == Some(PROTOCOL_VERSION);
            match r {
                Some(herdr) => found && herdr.shell_path@ == shell_quote_spec(lines[0])
                    && herdr.install_suffix@ == remote_herdr.install_suffix@ && herdr.platform
                    == remote_herdr.platform,
                None => !found,
            }
        }),
{
    let lines: Vec<String> = text::lines(stdout);
    assert(lines.deep_view().len() == lines@.len());
    if lines.len() < 3 {
        return None;
    }
    let line_version: &str = text::trim(lines[1].as_str());
    let protocol_matches: bool = match protocol {
        Some(p) => p == PROTOCOL_VERSION,
        None => false,
    };
    let absolute: bool = !lines[0].as_str().is_empty() && lines[0].as_str().get_char(0) == '/';
    if !absolute || !version::version_line_matches_current(line_version) || !protocol_matches {
        return None;
    }
    Some(remote_herdr.with_shell_path(shell_quote(lines[0].as_str())))
}

/// The binary that a path probe found: its first line is an absolute path.
pub fn remote_herdr_from_path_probe_any(remote_herdr: &RemoteHerdr, stdout: &str) -> (r: Option<
    RemoteHerdr,
>)
    ensures
        match r {
            Some(herdr) => probed_path(lines_of(stdout@)) && herdr.shell_path@ == shell_quote_spec(
                lines_of(stdout@)[0],
            ) && herdr.install_suffix@ == remote_herdr.install_suffix@ && herdr.platform
                == remote_herdr.platform,
            None => !probed_path(lines_of(stdout@)),
        },
{
    let lines: Vec<String> = text::lines(stdout);
    assert(lines.deep_view().len() == lines@.len());
    if lines.len() == 0 || lines[0].as_str().is_empty() || lines[0].as_str().get_char(0) != '/' {
        return None;
    }
    Some(remote_herdr.with_shell_path(shell_quote(lines[0].as_str())))
}

/// Whether a program name can stand for a herdr build of its own.
pub open spec fn is_build_name(name: Seq<char>) -> bool {
    &&& name != "herdr"@
    &&& name.len() > 0
    &&& forall|i: int|
        0 <= i < name.len() ==> (text::is_alnum_spec(#[trigger] name[i]) || name[i] == '.'
            || name[i] == '_' || name[i] == '-')
}

/// The binary of the same name on the remote, for a program that is not just called `herdr`.
pub fn remote_herdr_from_exe_name(platform: RemotePlatform, name: &str) -> (r: Option<RemoteHerdr>)
    ensures
        match r {
            Some(herdr) => is_build_name(name@) && herdr.install_suffix@ == ".local/bin/"@ + name@
                && herdr.shell_path@ == "\"$HOME/"@ + (".local/bin/"@ + name@) + "\""@
                && herdr.platform == platform,
            None => !is_build_name(name@),
        },
{
    if text::same(name, "herdr") || name.is_empty() {
        return None;
    }
    let x: Vec<char> = text::chars_of(name);
    let mut i: usize = 0;
    while i < x.len()
        invariant
            i <= x@.len(),
            x@ == name@,
            forall|k: int|
                0 <= k < i ==> (text::is_alnum_spec(#[trigger] name@[k]) || name@[k] == '.'
                    || name@[k] == '_' || name@[k] == '-'),
        decreases x@.len() - i,
    {
        let c: char = x[i];
        if !(text::is_alnum(c) || c == '.' || c == '_' || c == '-') {
            assert(name@[i as int] == c);
            return None;
        }
        i = i + 1;
    }
    let mut suffix: String = ".local/bin/".to_owned();
    suffix.append(name);
    Some(RemoteHerdr::for_install_suffix(platform, suffix))
}

/// The command by which a remote binary shows its version, its client status, and that it has
/// both bridges.
pub open spec fn match_command_of(shell_path: Seq<char>) -> Seq<char> {
    "test -x "@ + shell_path + " && "@ + shell_path + " --version && "@ + shell_path
        + " status client --json && "@ + REMOTE_BRIDGE_PROBE_ENV_VAR@ + "=1 "@ + shell_path
        + " remote-client-bridge && "@ + REMOTE_BRIDGE_PROBE_ENV_VAR@ + "=1 "@ + shell_path
        + " remote-api-bridge"@
}

pub fn remote_binary_match_command(remote_herdr: &RemoteHerdr) -> (r: String)
    ensures
        r@ == match_command_of(remote_herdr.shell_path@),
{
    let path: &str = remote_herdr.shell_path.as_str();
    let mut command: String = "test -x ".to_owned();
    command.append(path);
    command.append(" && ");
    command.append(path);
    command.append(" --version && ");
    command.append(path);
    command.append(" status client --json && ");
    command.append(REMOTE_BRIDGE_PROBE_ENV_VAR);
    command.append("=1 ");
    command.append(path);
    command.append(" remote-client-bridge && ");
    command.append(REMOTE_BRIDGE_PROBE_ENV_VAR);
    command.append("=1 ");
    command.append(path);
    command.append(" remote-api-bridge");
    command
}

/// The second line of the answer to the match command, in which the client tells its status.
pub fn match_status_line(stdout: &str) -> (r: String)
    ensures
        r@ == (if lines_of(stdout@).len() > 1 {
            lines_of(stdout@)[1]
        } else {
            Seq::empty()
        }),
{
    let lines: Vec<String> = text::lines(stdout);
    assert(lines.deep_view().len() == lines@.len());
    if lines.len() > 1 {
        lines[1].clone()
    } else {
        String::new()
    }
}

/// Whether the answer to the match command shows this build's version and protocol. `protocol`
/// is what its second line says.
pub fn remote_binary_output_matches(stdout: &str, protocol: Option<u32>) -> (r: bool)
    ensures
        r == (lines_of(stdout@).len() > 0 && version::names_version(
            trim_spec(lines_of(stdout@)[0]),
            FULL_VERSION@,
        ) && protocol == Some(PROTOCOL_VERSION)),
{
    let lines: Vec<String> = text::lines(stdout);
    assert(lines.deep_view().len() == lines@.len());
    let protocol_matches: bool = match protocol {
        Some(p) => p == PROTOCOL_VERSION,
        None => false,
    };
    lines.len() > 0 && version::version_line_matches_current(text::trim(lines[0].as_str()))
        && protocol_matches
}

/// The command that serves a bridge on the remote.
pub open spec fn bridge_command_of(
    shell_path: Seq<char>,
    session: Seq<char>,
    kind: RemoteBridgeKind,
) -> Seq<char> {
    "exec "@ + shell_path + (if session != DEFAULT_SESSION_NAME@ {
        " --session "@ + shell_quote_spec(session)
    } else {
        Seq::empty()
    }) + " "@ + kind.subcommand_spec()
}

pub fn remote_bridge_command(
    remote_herdr: &RemoteHerdr,
    session_name: &str,
    kind: RemoteBridgeKind,
) -> (r: String)
    ensures
        r@ == bridge_command_of(remote_herdr.shell_path@, session_name@, kind),
{
    let mut command: String = "exec ".to_owned();
    command.append(remote_herdr.shell_path.as_str());
    if !text::same(session_name, DEFAULT_SESSION_NAME) {
        command.append(" --session ");
        command.append(shell_quote(session_name).as_str());
    }
    command.append(" ");
    command.append(kind.subcommand());
    assert(command@ =~= bridge_command_of(remote_herdr.shell_path@, session_name@, kind));
    command
}

/// The command by which a user attaches to a remote session again.
pub open spec fn reattach_command_of(
    program: Seq<char>,
    target: Seq<char>,
    session: Seq<char>,
    keybindings: RemoteKeybindings,
    live_handoff: bool,
) -> Seq<char> {
    shell_quote_spec(if program.len() == 0 {
        "herdr"@
    } else {
        program
    }) + " --remote "@ + shell_quote_spec(target) + (if keybindings != RemoteKeybindings::Local {
        " --remote-keybindings "@ + keybindings.name()
    } else {
        Seq::empty()
    }) + (if live_handoff {
        " --handoff"@
    } else {
        Seq::empty()
    }) + (if session != DEFAULT_SESSION_NAME@ {
        " --session "@ + shell_quote_spec(session)
    } else {
        Seq::empty()
    })
}

pub fn reattach_command(
    program: &str,
    target: &str,
    session_name: &str,
    keybindings: RemoteKeybindings,
    live_handoff: bool,
) -> (r: String)
    ensures
        r@ == reattach_command_of(program@, target@, session_name@, keybindings, live_handoff),
{
    let program_word: &str = if program.is_empty() {
        "herdr"
    } else {
        program
    };
    let mut command: String = shell_quote(program_word);
    command.append(" --remote ");
    command.append(shell_quote(target).as_str());
    if keybindings != RemoteKeybindings::Local {
        command.append(" --remote-keybindings ");
        command.append(keybindings.as_str());
    }
    if live_handoff {
        command.append(" --handoff");
    }
    if !text::same(session_name, DEFAULT_SESSION_NAME) {
        command.append(" --session ");
        command.append(shell_quote(session_name).as_str());
    }
    assert(command@ =~= reattach_command_of(
        program@,
        target@,
        session_name@,
        keybindings,
        live_handoff,
    ));
    command
}

/// The client process that attaches to a bridged session: its arguments and its environment.
#[derive(Debug, PartialEq, Eq)]
pub struct ClientCommand {
    pub args: Vec<String>,
    pub env: Vec<(String, String)>,
}

/// The environment of the client process.
pub open spec fn client_env(
    client_socket: Seq<char>,
    api_socket: Seq<char>,
    reattach: Seq<char>,
    keybindings: RemoteKeybindings,
    main_target: Seq<char>,
) -> Seq<(Seq<char>, Seq<char>)> {
    seq![
        (CLIENT_SOCKET_PATH_ENV_VAR@, client_socket),
        (SOCKET_PATH_ENV_VAR@, api_socket),
        ("HERDR_RENDER_ENCODING"@, "terminal-ansi"@),
        (REATTACH_COMMAND_ENV_VAR@, reattach),
        (MAIN_DISPLAY_NAME_ENV_VAR@, main_target),
        (MAIN_REMOTE_TARGET_ENV_VAR@, main_target),
        (REMOTE_KEYBINDINGS_ENV_VAR@, keybindings.name()),
    ]
}

fn env_entry(name: &str, value: &str) -> (r: (String, String))
    ensures
        r.deep_view() == (name@, value@),
{
    (name.to_owned(), value.to_owned())
}

/// The client process that attaches to a bridged session.
pub fn remote_client_command(
    local_client_socket: &str,
    local_api_socket: &str,
    reattach_command: &str,
    keybindings: RemoteKeybindings,
    main_remote_target: &str,
) -> (r: ClientCommand)
    ensures
        r.args.deep_view() == seq!["client"@],
        r.env.deep_view() == client_env(
            local_client_socket@,
            local_api_socket@,
            reattach_command@,
            keybindings,
            main_remote_target@,
        ),
{
    let mut args: Vec<String> = Vec::new();
    args.push("client".to_owned());
    assert(args.deep_view() =~= seq!["client"@]);
    let mut env: Vec<(String, String)> = Vec::new();
    env.push(env_entry(CLIENT_SOCKET_PATH_ENV_VAR, local_client_socket));
    env.push(env_entry(SOCKET_PATH_ENV_VAR, local_api_socket));
    env.push(env_entry("HERDR_RENDER_ENCODING", "terminal-ansi"));
    env.push(env_entry(REATTACH_COMMAND_ENV_VAR, reattach_command));
    env.push(env_entry(MAIN_DISPLAY_NAME_ENV_VAR, main_remote_target));
    env.push(env_entry(MAIN_REMOTE_TARGET_ENV_VAR, main_remote_target));
    env.push(env_entry(REMOTE_KEYBINDINGS_ENV_VAR, keybindings.as_str()));
    assert(env.deep_view() =~= client_env(
        local_client_socket@,
        local_api_socket@,
        reattach_command@,
        keybindings,
        main_remote_target@,
    ));
    ClientCommand { args, env }
}

/// A download of a release: the platform it is for and where it lies.
#[derive(Debug, PartialEq, Eq)]
pub struct ManifestAsset {
    pub key: String,
    pub url: String,
}

/// An earlier release in the update manifest.
#[derive(Debug, PartialEq, Eq)]
pub struct RemoteReleaseMetadata {
    pub version: String,
    pub protocol: Option<u32>,
    pub assets: Vec<ManifestAsset>,
}

/// The update manifest: the latest release and the earlier ones.
#[derive(Debug, PartialEq, Eq)]
pub struct RemoteUpdateManifest {
    pub version: String,
    pub protocol: Option<u32>,
    pub assets: Vec<ManifestAsset>,
    pub releases: Vec<RemoteReleaseMetadata>,
}

#[verifier::ext_equal]
pub struct AssetView {
    pub key: Seq<char>,
    pub url: Seq<char>,
}

/// A release: its protocol and its assets.
#[verifier::ext_equal]
pub struct ReleaseView {
    pub protocol: Option<u32>,
    pub assets: Seq<AssetView>,
}

/// A manifest as a mathematical value.
#[verifier::ext_equal]
pub struct ManifestView {
    pub version: Seq<char>,
    pub latest: ReleaseView,
    pub releases: Seq<(Seq<char>, ReleaseView)>,
}

impl DeepView for ManifestAsset {
    type V = AssetView;

    open spec fn deep_view(&self) -> AssetView {
        AssetView { key: self.key@, url: self.url@ }
    }
}

impl DeepView for RemoteReleaseMetadata {
    type V = (Seq<char>, ReleaseView);

    open spec fn deep_view(&self) -> (Seq<char>, ReleaseView) {
        (
            self.version@,
            ReleaseView { protocol: self.protocol, assets: self.assets.deep_view() },
        )
    }
}

impl DeepView for RemoteUpdateManifest {
    type V = ManifestView;

    open spec fn deep_view(&self) -> ManifestView {
        ManifestView {
            version: self.version@,
            latest: ReleaseView { protocol: self.protocol, assets: self.assets.deep_view() },
            releases: self.releases.deep_view(),
        }
    }
}

/// A release that was looked up in a manifest.
pub struct RemoteManifestReleaseRef<'a> {
    pub protocol: Option<u32>,
    pub assets: &'a Vec<ManifestAsset>,
}

/// The release listed first under a version.
pub open spec fn listed_release(
    releases: Seq<(Seq<char>, ReleaseView)>,
    version: Seq<char>,
) -> Option<ReleaseView>
    decreases releases.len(),
{
    if releases.len() == 0 {
        None
    } else if releases[0].0 == version {
        Some(releases[0].1)
    } else {
        listed_release(releases.drop_first(), version)
    }
}

/// The release of a version: the latest one where it has that version, with or without a leading
/// `v`; else the listed one, if it has assets.
pub open spec fn release_of(manifest: ManifestView, version: Seq<char>) -> Option<ReleaseView> {
    if text::trim_start_matches_spec(manifest.version, 'v') == version {
        Some(manifest.latest)
    } else {
        match listed_release(manifest.releases, version) {
            Some(release) => if release.assets.len() > 0 {
                Some(release)
            } else {
                None
            },
            None => None,
        }
    }
}

impl RemoteUpdateManifest {
    /// The release of a version.
    pub fn release_for_version(&self, version: &str) -> (r: Option<RemoteManifestReleaseRef<'_>>)
        ensures
            match r {
                Some(found) => release_of(self.deep_view(), version@) == Some(
                    ReleaseView { protocol: found.protocol, assets: found.assets.deep_view() },
                ),
                None => release_of(self.deep_view(), version@) is None,
            },
    {
        if text::same(text::trim_start_matches(self.version.as_str(), 'v'), version) {
            return Some(
                RemoteManifestReleaseRef { protocol: self.protocol, assets: &self.assets },
            );
        }
        let ghost listed = self.releases.deep_view();
        let mut i: usize = 0;
        assert(listed.skip(0) =~= listed);
        while i < self.releases.len()
            invariant
                i <= self.releases@.len(),
                listed == self.releases.deep_view(),
                text::trim_start_matches_spec(self.version@, 'v') != version@,
                listed_release(listed, version@) == listed_release(
                    listed.skip(i as int),
                    version@,
                ),
            decreases self.releases@.len() - i,
        {
            let release: &RemoteReleaseMetadata = &self.releases[i];
            assert(listed.skip(i as int)[0] == release.deep_view());
            if text::same(release.version.as_str(), version) {
                assert(release.assets.deep_view().len() == release.assets@.len());
                if release.assets.len() == 0 {
                    return None;
                }
                return Some(
                    RemoteManifestReleaseRef {
                        protocol: release.protocol,
                        assets: &release.assets,
                    },
                );
            }
            assert(listed.skip(i as int).drop_first() =~= listed.skip(i + 1));
            i = i + 1;
        }
        None
    }
}

/// Where the asset of a platform lies: the first listed under its key.
pub open spec fn asset_url(assets: Seq<AssetView>, key: Seq<char>) -> Option<Seq<char>>
    decreases assets.len(),
{
    if assets.len() == 0 {
        None
    } else if assets[0].key == key {
        Some(assets[0].url)
    } else {
        asset_url(assets.drop_first(), key)
    }
}

/// Where this build's release for a platform lies, or why it cannot be had.
pub open spec fn release_asset_of(manifest: ManifestView, key: Seq<char>) -> Result<
    Seq<char>,
    Seq<char>,
> {
    match release_of(manifest, FULL_VERSION@) {
        None => Err(
            "release manifest does not include herdr "@ + FULL_VERSION@ + "; build herdr for "@
                + key + " or install it there manually"@,
        ),
        Some(release) => if release.protocol is Some && release.protocol->0 != PROTOCOL_VERSION {
            Err(
                "release manifest has herdr "@ + FULL_VERSION@ + " protocol "@ + decimal(
                    release.protocol->0 as nat,
                ) + ", but this client needs protocol "@ + decimal(PROTOCOL_VERSION as nat)
                    + "; set "@ + REMOTE_BINARY_ENV_VAR@
                    + "=target/release/herdr or install a matching herdr on the remote host manually"@,
            )
        } else {
            match asset_url(release.assets, key) {
                Some(url) => Ok(url),
                None => Err(
                    "no "@ + key + " binary in the release manifest for herdr "@ + FULL_VERSION@,
                ),
            }
        },
    }
}

fn find_asset(assets: &Vec<ManifestAsset>, key: &str) -> (r: Option<String>)
    ensures
        r.deep_view() == asset_url(assets.deep_view(), key@),
{
    let ghost all = assets.deep_view();
    let mut i: usize = 0;
    assert(all.skip(0) =~= all);
    while i < assets.len()
        invariant
            i <= assets@.len(),
            all == assets.deep_view(),
            asset_url(all, key@) == asset_url(all.skip(i as int), key@),
        decreases assets@.len() - i,
    {
        assert(all.skip(i as int)[0] == assets@[i as int].deep_view());
        if text::same(assets[i].key.as_str(), key) {
            return Some(assets[i].url.clone());
        }
        assert(all.skip(i as int).drop_first() =~= all.skip(i + 1));
        i = i + 1;
    }
    None
}

/// Where this build's release for a platform lies, or why it cannot be had.
pub fn release_asset_url(manifest: &RemoteUpdateManifest, platform: &RemotePlatform) -> (r: Result<
    String,
    String,
>)
    ensures
        ({
            let outcome = release_asset_of(
                manifest.deep_view(),
                platform_key(platform.os@, platform.arch@),
            );
            match r {
                Ok(url) => outcome is Ok && url@ == outcome->Ok_0,
                Err(e) => outcome is Err && e@ == outcome->Err_0,
            }
        }),
{
    let key: String = platform.asset_key();
    let release: RemoteManifestReleaseRef<'_> = match manifest.release_for_version(FULL_VERSION) {
        Some(release) => release,
        None => {
            let mut e: String = "release manifest does not include herdr ".to_owned();
            e.append(FULL_VERSION);
            e.append("; build herdr for ");
            e.append(key.as_str());
            e.append(" or install it there manually");
            return Err(e);
        },
    };
    if let Some(protocol) = release.protocol {
        if protocol != PROTOCOL_VERSION {
            let mut e: String = "release manifest has herdr ".to_owned();
            e.append(FULL_VERSION);
            e.append(" protocol ");
            e.append(text::decimal_of(protocol as u128).as_str());
            e.append(", but this client needs protocol ");
            e.append(text::decimal_of(PROTOCOL_VERSION as u128).as_str());
            e.append("; set ");
            e.append(REMOTE_BINARY_ENV_VAR);
            e.append(
                "=target/release/herdr or install a matching herdr on the remote host manually",
            );
            return Err(e);
        }
    }
    match find_asset(release.assets, key.as_str()) {
        Some(url) => Ok(url),
        None => {
            let mut e: String = "no ".to_owned();
            e.append(key.as_str());
            e.append(" binary in the release manifest for herdr ");
            e.append(FULL_VERSION);
            Err(e)
        },
    }
}

/// An asset is only taken from a release of this build's version that speaks its protocol or
/// names none.
pub proof fn law_asset_matches_this_build(manifest: ManifestView, key: Seq<char>)
    ensures
        release_asset_of(manifest, key) is Ok ==> {
            let release = release_of(manifest, FULL_VERSION@);
            &&& release is Some
            &&& release->0.protocol is Some ==> release->0.protocol == Some(PROTOCOL_VERSION)
            &&& asset_url(release->0.assets, key) == Some(release_asset_of(manifest, key)->Ok_0)
        },
{
}

} // verus!
