//! What the client makes of a remote host: its platform, the commands it runs there and the
//! release it fetches for it.

use vstd::prelude::*;

use crate::remote::{
    asset_url, bridge_command_of, client_env, is_build_name, listed_release, match_command_of,
    platform_key, release_asset_of, release_of, sanitized, shell_quote_spec, socket_path_of,
    ssh_argv, uname_arch, uname_os, AssetView, ManifestView, ReleaseView, RemoteBridgeKind,
    RemotePlatform,
};
use crate::remote_args::RemoteKeybindings;
use crate::text::{
    decimal, is_white, join_spec, occurs_in, trim_end_matches_spec, trim_spec,
    trim_start_matches_spec,
};

verus! {

/// A text that begins and ends with no space is trimmed to itself.
pub proof fn law_trim_leaves_a_word(s: Seq<char>)
    requires
        s.len() > 0,
        !is_white(s[0]),
        !is_white(s.last()),
    ensures
        trim_spec(s) == s,
{
}

/// What `uname` prints names a platform: `Linux` and `Darwin` are the two systems, each of the two
/// architectures goes by its own name and by one other, space around a word does not matter, and
/// any other word names none.
pub proof fn law_uname_words(os: Seq<char>, arch: Seq<char>)
    ensures
        trim_spec(os) == "Linux"@ ==> uname_os(os) == Some("linux"@),
        trim_spec(os) == "Darwin"@ ==> uname_os(os) == Some("macos"@),
        trim_spec(os) != "Linux"@ && trim_spec(os) != "Darwin"@ ==> uname_os(os) is None,
        trim_spec(arch) == "x86_64"@ || trim_spec(arch) == "amd64"@ ==> uname_arch(arch) == Some(
            "x86_64"@,
        ),
        trim_spec(arch) == "aarch64"@ || trim_spec(arch) == "arm64"@ ==> uname_arch(arch) == Some(
            "aarch64"@,
        ),
        trim_spec(arch) != "x86_64"@ && trim_spec(arch) != "amd64"@ && trim_spec(arch)
            != "aarch64"@ && trim_spec(arch) != "arm64"@ ==> uname_arch(arch) is None,
{
    reveal_strlit("Linux");
    reveal_strlit("Darwin");
    reveal_strlit("x86_64");
    reveal_strlit("amd64");
    reveal_strlit("aarch64");
    reveal_strlit("arm64");
    assert("Linux"@.len() != "Darwin"@.len());
    assert("x86_64"@[0] == 'x' && "aarch64"@[1] == 'a' && "arm64"@[1] == 'r' && "amd64"@[1] == 'm');
}

/// A machine word that already is the name of a supported architecture names that architecture,
/// and the other words for the two agree with it.
pub proof fn law_architecture_names_name_themselves()
    ensures
        uname_arch("x86_64"@) == Some("x86_64"@),
        uname_arch("aarch64"@) == Some("aarch64"@),
        uname_arch("amd64"@) == uname_arch("x86_64"@),
        uname_arch("arm64"@) == uname_arch("aarch64"@),
        uname_arch("x86_64"@) != uname_arch("aarch64"@),
        uname_os("Linux"@) == Some("linux"@),
        uname_os("Darwin"@) == Some("macos"@),
{
    reveal_strlit("Linux");
    reveal_strlit("Darwin");
    reveal_strlit("x86_64");
    reveal_strlit("amd64");
    reveal_strlit("aarch64");
    reveal_strlit("arm64");
    law_trim_leaves_a_word("Linux"@);
    law_trim_leaves_a_word("Darwin"@);
    law_trim_leaves_a_word("x86_64"@);
    law_trim_leaves_a_word("amd64"@);
    law_trim_leaves_a_word("aarch64"@);
    law_trim_leaves_a_word("arm64"@);
    law_uname_words("Linux"@, "x86_64"@);
    law_uname_words("Darwin"@, "aarch64"@);
    law_uname_words("Linux"@, "amd64"@);
    law_uname_words("Linux"@, "arm64"@);
    assert("x86_64"@.len() != "aarch64"@.len());
}

/// Whatever `from_uname` gives, it gives for the two words that it read: the same word for a
/// system or an architecture always names the same one, and a platform comes of every known pair.
pub proof fn law_platform_of_uname(os: &str, arch: &str, r: Option<RemotePlatform>)
    requires
        call_ensures(RemotePlatform::from_uname, (os, arch), r),
    ensures
        trim_spec(os@) == "Linux"@ && trim_spec(arch@) == "x86_64"@ ==> r is Some && r->0.os@
            == "linux"@ && r->0.arch@ == "x86_64"@,
        trim_spec(os@) == "Linux"@ && trim_spec(arch@) == "amd64"@ ==> r is Some && r->0.os@
            == "linux"@ && r->0.arch@ == "x86_64"@,
        trim_spec(os@) == "Linux"@ && trim_spec(arch@) == "aarch64"@ ==> r is Some && r->0.os@
            == "linux"@ && r->0.arch@ == "aarch64"@,
        trim_spec(os@) == "Linux"@ && trim_spec(arch@) == "arm64"@ ==> r is Some && r->0.os@
            == "linux"@ && r->0.arch@ == "aarch64"@,
        trim_spec(os@) == "Darwin"@ && trim_spec(arch@) == "x86_64"@ ==> r is Some && r->0.os@
            == "macos"@ && r->0.arch@ == "x86_64"@,
        trim_spec(os@) == "Darwin"@ && trim_spec(arch@) == "amd64"@ ==> r is Some && r->0.os@
            == "macos"@ && r->0.arch@ == "x86_64"@,
        trim_spec(os@) == "Darwin"@ && trim_spec(arch@) == "aarch64"@ ==> r is Some && r->0.os@
            == "macos"@ && r->0.arch@ == "aarch64"@,
        trim_spec(os@) == "Darwin"@ && trim_spec(arch@) == "arm64"@ ==> r is Some && r->0.os@
            == "macos"@ && r->0.arch@ == "aarch64"@,
        r is Some ==> (r->0.os@ == "linux"@ || r->0.os@ == "macos"@) && (r->0.arch@ == "x86_64"@
            || r->0.arch@ == "aarch64"@),
{
    law_uname_words(os@, arch@);
}

/// The key of a platform is its system, a dash and its architecture; the platforms that a release
/// can be for have different keys.
pub proof fn law_platform_keys(os: Seq<char>, arch: Seq<char>, other_os: Seq<char>, other: Seq<char>)
    ensures
        platform_key(os, arch) == os + seq!['-'] + arch,
        !os.contains('-') && !other_os.contains('-') && platform_key(os, arch) == platform_key(
            other_os,
            other,
        ) ==> os == other_os && arch == other,
{
    reveal_strlit("-");
    assert("-"@ =~= seq!['-']);
    if !os.contains('-') && !other_os.contains('-') && platform_key(os, arch) == platform_key(
        other_os,
        other,
    ) {
        crate::text::lemma_first_split_unique(os, arch, other_os, other, '-');
    }
}

/// An ssh command line holds the options as they were given, then the host, then the command. A
/// limit of ten seconds is put before them where they set none of their own, and the request for
/// no terminal behind them where they do not hold it.
pub proof fn law_ssh_options_stay(
    destination: Seq<char>,
    options: Seq<Seq<char>>,
    command: Seq<char>,
)
    ensures
        ({
            let argv = ssh_argv(destination, options, command);
            let limited = exists|i: int|
                0 <= i < options.len() && occurs_in("ConnectTimeout"@, #[trigger] options[i]);
            let plain = options.contains("-T"@);
            &&& limited && plain ==> argv == options + seq![destination, command]
            &&& limited && !plain ==> argv == options + seq!["-T"@, destination, command]
            &&& !limited && plain ==> argv == seq!["-o"@, "ConnectTimeout=10"@] + options + seq![
                destination,
                command,
            ]
            &&& !limited && !plain ==> argv == seq!["-o"@, "ConnectTimeout=10"@] + options + seq![
                "-T"@,
                destination,
                command,
            ]
        }),
{
    let argv = ssh_argv(destination, options, command);
    let limited = exists|i: int|
        0 <= i < options.len() && occurs_in("ConnectTimeout"@, #[trigger] options[i]);
    assert(limited == crate::remote::sets_connect_timeout(options));
    if limited && options.contains("-T"@) {
        assert(argv =~= options + seq![destination, command]);
    } else if limited {
        assert(argv =~= options + seq!["-T"@, destination, command]);
    } else if options.contains("-T"@) {
        assert(argv =~= seq!["-o"@, "ConnectTimeout=10"@] + options + seq![destination, command]);
    } else {
        assert(argv =~= seq!["-o"@, "ConnectTimeout=10"@] + options + seq![
            "-T"@,
            destination,
            command,
        ]);
    }
}

/// Whether a character means nothing to a shell.
pub open spec fn means_nothing_to_a_shell(c: char) -> bool {
    ||| 'a' <= c <= 'z'
    ||| 'A' <= c <= 'Z'
    ||| '0' <= c <= '9'
    ||| c == '@' || c == '%' || c == '_' || c == '+' || c == '=' || c == ':'
    ||| c == ',' || c == '.' || c == '/' || c == '-'
}

proof fn lemma_shell_safe(c: char)
    ensures
        crate::remote::is_shell_safe(c) ==> means_nothing_to_a_shell(c),
{
}

/// A word of characters that mean nothing to a shell is left bare; the empty word, and one with
/// any other character in it, stands between quotes.
pub proof fn law_what_a_shell_would_read_is_quoted(value: Seq<char>, i: int)
    ensures
        value.len() > 0 && (forall|k: int|
            0 <= k < value.len() ==> means_nothing_to_a_shell(#[trigger] value[k]))
            ==> shell_quote_spec(value) == value,
        value.len() == 0 ==> shell_quote_spec(value) == seq!['\'', '\''],
        0 <= i < value.len() && !means_nothing_to_a_shell(value[i]) ==> {
            let quoted = shell_quote_spec(value);
            quoted.len() >= 2 && quoted[0] == '\'' && quoted.last() == '\''
        },
{
    reveal_strlit("'");
    if value.len() == 0 {
        assert(shell_quote_spec(value) =~= seq!['\'', '\'']);
    } else if forall|k: int|
        0 <= k < value.len() ==> means_nothing_to_a_shell(#[trigger] value[k]) {
        assert forall|k: int| 0 <= k < value.len() implies crate::remote::is_shell_safe(
            #[trigger] value[k],
        ) by {
            assert(means_nothing_to_a_shell(value[k]));
        }
    }
    if 0 <= i < value.len() && !means_nothing_to_a_shell(value[i]) {
        lemma_shell_safe(value[i]);
        assert(!crate::remote::is_shell_safe(value[i]));
    }
}

/// Whether a character may stand in a file's name that the client makes up.
pub open spec fn is_name_char(c: char) -> bool {
    ||| 'a' <= c <= 'z'
    ||| 'A' <= c <= 'Z'
    ||| '0' <= c <= '9'
    ||| c == '.' || c == '_' || c == '-'
}

proof fn lemma_name_char(c: char)
    ensures
        crate::text::is_alnum_spec(c) || c == '.' || c == '_' || c == '-' ==> is_name_char(c),
{
}

proof fn lemma_trimmed_part(s: Seq<char>, c: char)
    ensures
        trim_start_matches_spec(s, c).len() <= s.len(),
        forall|i: int|
            0 <= i < trim_start_matches_spec(s, c).len() ==> s.contains(
                #[trigger] trim_start_matches_spec(s, c)[i],
            ),
    decreases s.len(),
{
    if s.len() > 0 && s[0] == c {
        lemma_trimmed_part(s.drop_first(), c);
        assert forall|i: int| 0 <= i < trim_start_matches_spec(s, c).len() implies s.contains(
            #[trigger] trim_start_matches_spec(s, c)[i],
        ) by {
            let x = trim_start_matches_spec(s, c)[i];
            assert(s.drop_first().contains(x));
            let k = choose|k: int| 0 <= k < s.drop_first().len() && s.drop_first()[k] == x;
            assert(s[k + 1] == x);
        }
    }
}

proof fn lemma_trimmed_front(s: Seq<char>, c: char)
    ensures
        trim_end_matches_spec(s, c).len() <= s.len(),
        forall|i: int|
            0 <= i < trim_end_matches_spec(s, c).len() ==> s.contains(
                #[trigger] trim_end_matches_spec(s, c)[i],
            ),
    decreases s.len(),
{
    if s.len() > 0 && s.last() == c {
        lemma_trimmed_front(s.drop_last(), c);
        assert forall|i: int| 0 <= i < trim_end_matches_spec(s, c).len() implies s.contains(
            #[trigger] trim_end_matches_spec(s, c)[i],
        ) by {
            let x = trim_end_matches_spec(s, c)[i];
            assert(s.drop_last().contains(x));
            let k = choose|k: int| 0 <= k < s.drop_last().len() && s.drop_last()[k] == x;
            assert(s[k] == x);
        }
    }
}

/// The part of a file's name that is made from a host or a session has at most thirty-two
/// characters, each a letter, a digit, a dot, an underscore or a dash; a short name made of those
/// alone, with no dash at its ends, is kept as it is.
pub proof fn law_name_parts_are_plain(input: Seq<char>)
    ensures
        sanitized(input).len() <= 32,
        forall|i: int| 0 <= i < sanitized(input).len() ==> is_name_char(#[trigger] sanitized(input)[i]),
        0 < input.len() <= 32 && input[0] != '-' && input.last() != '-' && (forall|i: int|
            0 <= i < input.len() ==> is_name_char(#[trigger] input[i])) ==> sanitized(input)
            == input,
{
    let mapped = input.map_values(|c: char| crate::remote::path_char(c));
    let front = trim_start_matches_spec(mapped, '-');
    let both = trim_end_matches_spec(front, '-');
    lemma_trimmed_part(mapped, '-');
    lemma_trimmed_front(front, '-');
    assert forall|i: int| 0 <= i < mapped.len() implies is_name_char(#[trigger] mapped[i]) by {
        assert(mapped[i] == crate::remote::path_char(input[i]));
    }
    assert forall|i: int| 0 <= i < sanitized(input).len() implies is_name_char(
        #[trigger] sanitized(input)[i],
    ) by {
        assert(sanitized(input)[i] == both[i]);
        assert(front.contains(both[i]));
        let k = choose|k: int| 0 <= k < front.len() && front[k] == both[i];
        assert(mapped.contains(front[k]));
    }
    if 0 < input.len() <= 32 && input[0] != '-' && input.last() != '-' && (forall|i: int|
        0 <= i < input.len() ==> is_name_char(#[trigger] input[i])) {
        assert forall|i: int| 0 <= i < input.len() implies mapped[i] == input[i] by {
            assert(is_name_char(input[i]));
            assert(mapped[i] == crate::remote::path_char(input[i]));
        }
        assert(mapped =~= input);
    }
}

/// The socket of a bridge lies in the directory for temporary files, under a name that tells the
/// process, the host, the session and the kind of bridge, wherever the path is short enough for a
/// socket.
pub proof fn law_socket_path_tells_what_it_is_for(
    tmpdir: Seq<char>,
    pid: u32,
    target: Seq<char>,
    session: Seq<char>,
    kind: Seq<char>,
)
    ensures
        ({
            let name = "herdr-remote-"@ + decimal(pid as nat) + "-"@ + sanitized(target) + "-"@
                + sanitized(session) + "-"@ + kind + ".sock"@;
            let path = tmpdir + "/"@ + name;
            tmpdir.len() > 0 && tmpdir.last() != '/' && vstd::utf8::encode_utf8(path).len() <= 103
                ==> socket_path_of(tmpdir, pid, target, session, kind) == path
        }),
        ({
            let name = "herdr-remote-"@ + decimal(pid as nat) + "-"@ + sanitized(target) + "-"@
                + sanitized(session) + "-"@ + kind + ".sock"@;
            tmpdir.len() > 0 && tmpdir.last() == '/' && vstd::utf8::encode_utf8(tmpdir + name).len()
                <= 103 ==> socket_path_of(tmpdir, pid, target, session, kind) == tmpdir + name
        }),
{
}

/// The two bridges have different names on the command line and in a path.
pub proof fn law_bridges_differ()
    ensures
        RemoteBridgeKind::Client.subcommand_spec() == "remote-client-bridge"@,
        RemoteBridgeKind::Api.subcommand_spec() == "remote-api-bridge"@,
        RemoteBridgeKind::Client.subcommand_spec() != RemoteBridgeKind::Api.subcommand_spec(),
        RemoteBridgeKind::Client.path_label_spec() == "client"@,
        RemoteBridgeKind::Api.path_label_spec() == "api"@,
        RemoteBridgeKind::Client.path_label_spec() != RemoteBridgeKind::Api.path_label_spec(),
{
    reveal_strlit("remote-client-bridge");
    reveal_strlit("remote-api-bridge");
    reveal_strlit("client");
    reveal_strlit("api");
}

/// A bridge is started as `exec`, the binary, the session where it is not the default one, and the
/// bridge's name, in that order.
pub proof fn law_bridge_command(shell_path: Seq<char>, session: Seq<char>, kind: RemoteBridgeKind)
    ensures
        session == "default"@ ==> bridge_command_of(shell_path, session, kind) == "exec "@
            + shell_path + " "@ + kind.subcommand_spec(),
        session != "default"@ ==> bridge_command_of(shell_path, session, kind) == "exec "@
            + shell_path + " --session "@ + shell_quote_spec(session) + " "@
            + kind.subcommand_spec(),
{
    if session == "default"@ {
        assert(bridge_command_of(shell_path, session, kind) =~= "exec "@ + shell_path + " "@
            + kind.subcommand_spec());
    } else {
        assert(bridge_command_of(shell_path, session, kind) =~= "exec "@ + shell_path
            + " --session "@ + shell_quote_spec(session) + " "@ + kind.subcommand_spec());
    }
}

/// A binary on a host matches only if all of these succeed, in this order: it can be run, it
/// prints its version, it prints what its client is, and it answers the probe of each bridge.
pub proof fn law_match_command_asks_for_everything(shell_path: Seq<char>)
    ensures
        match_command_of(shell_path) == join_spec(
            seq![
                "test -x "@ + shell_path,
                shell_path + " --version"@,
                shell_path + " status client --json"@,
                "HERDR_REMOTE_BRIDGE_PROBE"@ + "=1 "@ + shell_path + " "@
                    + RemoteBridgeKind::Client.subcommand_spec(),
                "HERDR_REMOTE_BRIDGE_PROBE"@ + "=1 "@ + shell_path + " "@
                    + RemoteBridgeKind::Api.subcommand_spec(),
            ],
            " && "@,
        ),
{
    reveal_strlit(" && ");
    reveal_strlit("test -x ");
    reveal_strlit(" --version");
    reveal_strlit(" --version && ");
    reveal_strlit(" status client --json");
    reveal_strlit(" status client --json && ");
    reveal_strlit("=1 ");
    reveal_strlit(" ");
    reveal_strlit("remote-client-bridge");
    reveal_strlit(" remote-client-bridge && ");
    reveal_strlit("remote-api-bridge");
    reveal_strlit(" remote-api-bridge");
    let probe = "HERDR_REMOTE_BRIDGE_PROBE"@;
    let a = "test -x "@ + shell_path;
    let b = shell_path + " --version"@;
    let c = shell_path + " status client --json"@;
    let d = probe + "=1 "@ + shell_path + " "@ + "remote-client-bridge"@;
    let e = probe + "=1 "@ + shell_path + " "@ + "remote-api-bridge"@;
    let parts = seq![a, b, c, d, e];
    let sep = " && "@;
    assert(parts.drop_last() =~= seq![a, b, c, d]);
    assert(seq![a, b, c, d].drop_last() =~= seq![a, b, c]);
    assert(seq![a, b, c].drop_last() =~= seq![a, b]);
    assert(seq![a, b].drop_last() =~= seq![a]);
    reveal_with_fuel(join_spec, 6);
    assert(join_spec(seq![a, b], sep) == a + sep + b);
    assert(join_spec(seq![a, b, c], sep) == a + sep + b + sep + c);
    assert(join_spec(seq![a, b, c, d], sep) == a + sep + b + sep + c + sep + d);
    assert(join_spec(parts, sep) == a + sep + b + sep + c + sep + d + sep + e);
    assert(" --version && "@ =~= " --version"@ + sep);
    assert(" status client --json && "@ =~= " status client --json"@ + sep);
    assert(" remote-client-bridge && "@ =~= " "@ + "remote-client-bridge"@ + sep);
    assert(" remote-api-bridge"@ =~= " "@ + "remote-api-bridge"@);
    assert(match_command_of(shell_path) =~= a + sep + b + sep + c + sep + d + sep + e);
}

/// The client that is started for a remote session learns from its environment where its two
/// sockets are, how to come back, what the session is called, whose keys hold, and that it draws
/// in full.
pub proof fn law_client_learns_its_session(
    client_socket: Seq<char>,
    api_socket: Seq<char>,
    reattach: Seq<char>,
    keybindings: RemoteKeybindings,
    main_target: Seq<char>,
)
    ensures
        client_env(client_socket, api_socket, reattach, keybindings, main_target) == seq![
            ("HERDR_CLIENT_SOCKET_PATH"@, client_socket),
            ("HERDR_SOCKET_PATH"@, api_socket),
            ("HERDR_RENDER_ENCODING"@, "terminal-ansi"@),
            ("HERDR_REATTACH_COMMAND"@, reattach),
            ("HERDR_MAIN_DISPLAY_NAME"@, main_target),
            ("HERDR_MAIN_REMOTE_TARGET"@, main_target),
            (
                "HERDR_REMOTE_KEYBINDINGS"@,
                if keybindings is Local {
                    "local"@
                } else {
                    "server"@
                },
            ),
        ],
{
}

/// A binary that is not the usual one is looked for under its own name, which is made of letters,
/// digits, dots, underscores and dashes alone.
pub proof fn law_build_names(name: Seq<char>, i: int)
    ensures
        is_build_name(name) ==> name != "herdr"@ && name.len() > 0,
        is_build_name(name) && 0 <= i < name.len() ==> is_name_char(name[i]),
        name != "herdr"@ && name.len() > 0 && (forall|k: int|
            0 <= k < name.len() ==> is_name_char(#[trigger] name[k])) ==> is_build_name(name),
{
    if is_build_name(name) && 0 <= i < name.len() {
        lemma_name_char(name[i]);
    }
    if name != "herdr"@ && name.len() > 0 && (forall|k: int|
        0 <= k < name.len() ==> is_name_char(#[trigger] name[k])) {
        assert forall|k: int| 0 <= k < name.len() implies (crate::text::is_alnum_spec(
            #[trigger] name[k],
        ) || name[k] == '.' || name[k] == '_' || name[k] == '-') by {
            assert(is_name_char(name[k]));
        }
    }
}

/// The address of an asset is that of the first asset listed under the key, and there is none
/// exactly where no asset is listed under it.
pub proof fn law_asset_is_listed(assets: Seq<AssetView>, key: Seq<char>)
    ensures
        match asset_url(assets, key) {
            Some(url) => exists|i: int|
                0 <= i < assets.len() && (#[trigger] assets[i]).key == key && assets[i].url == url
                    && forall|j: int| 0 <= j < i ==> (#[trigger] assets[j]).key != key,
            None => forall|i: int| 0 <= i < assets.len() ==> (#[trigger] assets[i]).key != key,
        },
    decreases assets.len(),
{
    if assets.len() > 0 && assets[0].key != key {
        let rest = assets.drop_first();
        law_asset_is_listed(rest, key);
        match asset_url(rest, key) {
            Some(url) => {
                let i = choose|i: int|
                    0 <= i < rest.len() && (#[trigger] rest[i]).key == key && rest[i].url == url
                        && forall|j: int| 0 <= j < i ==> (#[trigger] rest[j]).key != key;
                assert(assets[i + 1] == rest[i]);
                assert forall|j: int| 0 <= j < i + 1 implies (#[trigger] assets[j]).key != key by {
                    if j > 0 {
                        assert(rest[j - 1] == assets[j]);
                    }
                }
            },
            None => {
                assert forall|i: int| 0 <= i < assets.len() implies (#[trigger] assets[i]).key
                    != key by {
                    if i > 0 {
                        assert(rest[i - 1] == assets[i]);
                    }
                }
            },
        }
    }
}

proof fn lemma_listed(releases: Seq<(Seq<char>, ReleaseView)>, version: Seq<char>)
    ensures
        match listed_release(releases, version) {
            Some(release) => exists|i: int|
                0 <= i < releases.len() && (#[trigger] releases[i]).0 == version && releases[i].1
                    == release,
            None => forall|i: int|
                0 <= i < releases.len() ==> (#[trigger] releases[i]).0 != version,
        },
    decreases releases.len(),
{
    if releases.len() > 0 && releases[0].0 != version {
        let rest = releases.drop_first();
        lemma_listed(rest, version);
        match listed_release(rest, version) {
            Some(release) => {
                let i = choose|i: int|
                    0 <= i < rest.len() && (#[trigger] rest[i]).0 == version && rest[i].1
                        == release;
                assert(releases[i + 1] == rest[i]);
            },
            None => {
                assert forall|i: int| 0 <= i < releases.len() implies (#[trigger] releases[i]).0
                    != version by {
                    if i > 0 {
                        assert(rest[i - 1] == releases[i]);
                    }
                }
            },
        }
    }
}

/// A release is found under its own version: the latest where the manifest's version, written
/// with or without a `v`, is the one asked for, and otherwise one that is listed under that
/// version and has assets.
pub proof fn law_release_is_of_the_version(manifest: ManifestView, version: Seq<char>)
    requires
        version.len() > 0,
        version[0] != 'v',
    ensures
        manifest.version == version || manifest.version == seq!['v'] + version ==> release_of(
            manifest,
            version,
        ) == Some(manifest.latest),
        release_of(manifest, version) is Some ==> {
            ||| trim_start_matches_spec(manifest.version, 'v') == version && release_of(
                manifest,
                version,
            ) == Some(manifest.latest)
            ||| release_of(manifest, version)->0.assets.len() > 0 && exists|i: int|
                0 <= i < manifest.releases.len() && (#[trigger] manifest.releases[i]).0 == version
                    && manifest.releases[i].1 == release_of(manifest, version)->0
        },
        release_of(manifest, version) is None ==> manifest.version != version && forall|i: int|
            0 <= i < manifest.releases.len() && (#[trigger] manifest.releases[i]).0 == version ==> (
            exists|j: int|
                0 <= j < manifest.releases.len() && (#[trigger] manifest.releases[j]).0 == version
                    && manifest.releases[j].1.assets.len() == 0),
{
    lemma_listed(manifest.releases, version);
    reveal_with_fuel(trim_start_matches_spec, 3);
    if manifest.version == seq!['v'] + version {
        assert(manifest.version.drop_first() =~= version);
    }
}

/// The asset that is fetched is of this version of the program and of the protocol that it
/// speaks, and is the one listed for the platform; a release that tells another protocol gives
/// none.
pub proof fn law_fetched_asset(manifest: ManifestView, key: Seq<char>)
    ensures
        manifest.version == "0.6.10-mx.1"@ && (manifest.latest.protocol is None
            || manifest.latest.protocol == Some(11u32)) && asset_url(manifest.latest.assets, key)
            is Some ==> release_asset_of(manifest, key) == Ok::<Seq<char>, Seq<char>>(
            asset_url(manifest.latest.assets, key)->0,
        ),
        manifest.version == "0.6.10-mx.1"@ && manifest.latest.protocol is Some
            && manifest.latest.protocol != Some(11u32) ==> release_asset_of(manifest, key) is Err,
        manifest.version == "0.6.10-mx.1"@ && asset_url(manifest.latest.assets, key) is None
            ==> release_asset_of(manifest, key) is Err,
        release_of(manifest, "0.6.10-mx.1"@) is None ==> release_asset_of(manifest, key) == Err::<
            Seq<char>,
            Seq<char>,
        >(
            "release manifest does not include herdr "@ + "0.6.10-mx.1"@ + "; build herdr for "@
                + key + " or install it there manually"@,
        ),
        manifest.version == "0.6.10-mx.1"@ && manifest.latest.protocol is None && asset_url(
            manifest.latest.assets,
            key,
        ) is None ==> release_asset_of(manifest, key) == Err::<Seq<char>, Seq<char>>(
            "no "@ + key + " binary in the release manifest for herdr "@ + "0.6.10-mx.1"@,
        ),
        manifest.version == "0.6.10-mx.1"@ && manifest.latest.protocol is Some
            && manifest.latest.protocol != Some(11u32) ==> release_asset_of(manifest, key) == Err::<
            Seq<char>,
            Seq<char>,
        >(
            "release manifest has herdr "@ + "0.6.10-mx.1"@ + " protocol "@ + decimal(
                manifest.latest.protocol->0 as nat,
            ) + ", but this client needs protocol "@ + decimal(11) + "; set "@
                + "HERDR_REMOTE_BINARY"@
                + "=target/release/herdr or install a matching herdr on the remote host manually"@,
        ),
{
    reveal_strlit("0.6.10-mx.1");
    if manifest.version == "0.6.10-mx.1"@ {
        law_release_is_of_the_version(manifest, "0.6.10-mx.1"@);
    }
}

} // verus!
