//! The `herdr server` commands.

use vstd::prelude::*;

use crate::api::ServerLiveHandoffParams;
use crate::build_info::FULL_VERSION;
use crate::protocol::PROTOCOL_VERSION;
use crate::text;
use crate::text::{first_index, number_value};

verus! {

/// What a `herdr server` command line asks for.
#[derive(Debug, PartialEq, Eq)]
pub enum ServerCommand {
    /// No command: run as the server.
    Serve,
    /// Ask the running server to stop.
    Stop,
    /// Ask the running server to read its configuration again.
    ReloadConfig,
    /// Ask the running server to hand its panes over.
    LiveHandoff(ServerLiveHandoffParams),
    /// Print how a command is used, and fail.
    Usage(&'static str),
    /// Print the help text and exit with this code.
    Help(i32),
}

/// Handoff parameters as a mathematical value.
#[verifier::ext_equal]
pub struct HandoffView {
    pub import_exe: Option<Seq<char>>,
    pub expected_protocol: Option<u32>,
    pub expected_version: Option<Seq<char>>,
}

impl DeepView for ServerLiveHandoffParams {
    type V = HandoffView;

    open spec fn deep_view(&self) -> HandoffView {
        HandoffView {
            import_exe: self.import_exe.deep_view(),
            expected_protocol: self.expected_protocol,
            expected_version: self.expected_version.deep_view(),
        }
    }
}

/// The parameters with one more of them set, `None` where the flag is unknown or its value wrong.
pub open spec fn with_flag(
    params: HandoffView,
    flag: Seq<char>,
    value: Seq<char>,
) -> Option<HandoffView> {
    if flag == "--import-exe"@ {
        Some(HandoffView { import_exe: Some(value), ..params })
    } else if flag == "--expected-protocol"@ {
        match number_value(value) {
            Some(n) => if n <= u32::MAX {
                Some(HandoffView { expected_protocol: Some(n as u32), ..params })
            } else {
                None
            },
            None => None,
        }
    } else if flag == "--expected-version"@ {
        Some(HandoffView { expected_version: Some(value), ..params })
    } else {
        None
    }
}

/// What the arguments add to the parameters. A flag has its value behind `=` or in the next
/// argument; a later flag replaces an earlier one.
pub open spec fn handoff_params_of(params: HandoffView, args: Seq<Seq<char>>) -> Option<HandoffView>
    decreases args.len(),
{
    if args.len() == 0 {
        Some(params)
    } else {
        let arg = args[0];
        let i = first_index(arg, '=');
        if arg.contains('=') {
            match with_flag(params, arg.take(i), arg.skip(i + 1)) {
                Some(next) => handoff_params_of(next, args.skip(1)),
                None => None,
            }
        } else if args.len() > 1 {
            match with_flag(params, arg, args[1]) {
                Some(next) => handoff_params_of(next, args.skip(2)),
                None => None,
            }
        } else {
            None
        }
    }
}

/// No parameter set.
pub open spec fn no_params() -> HandoffView {
    HandoffView { import_exe: None, expected_protocol: None, expected_version: None }
}

fn set_flag(params: ServerLiveHandoffParams, flag: &str, value: String) -> (r: Option<
    ServerLiveHandoffParams,
>)
    ensures
        r.deep_view() == with_flag(params.deep_view(), flag@, value@),
{
    let mut next: ServerLiveHandoffParams = params;
    if text::same(flag, "--import-exe") {
        next.import_exe = Some(value);
    } else if text::same(flag, "--expected-protocol") {
        match text::parse_u32(value.as_str()) {
            Some(n) => {
                next.expected_protocol = Some(n);
            },
            None => {
                return None;
            },
        }
    } else if text::same(flag, "--expected-version") {
        next.expected_version = Some(value);
    } else {
        return None;
    }
    Some(next)
}

/// Reads the flags of a live handoff, `None` where they are wrong.
pub fn parse_live_handoff_params(args: &Vec<String>) -> (r: Option<ServerLiveHandoffParams>)
    ensures
        r.deep_view() == handoff_params_of(no_params(), args.deep_view()),
{
    assert(args.deep_view().skip(0) =~= args.deep_view());
    parse_flags(args, 0)
}

/// Reads the flags of a live handoff from an argument on.
fn parse_flags(args: &Vec<String>, from: usize) -> (r: Option<ServerLiveHandoffParams>)
    requires
        from <= args@.len(),
    ensures
        r.deep_view() == handoff_params_of(no_params(), args.deep_view().skip(from as int)),
{
    let ghost all = args.deep_view();
    let ghost outcome = handoff_params_of(no_params(), all.skip(from as int));
    let mut params: ServerLiveHandoffParams = ServerLiveHandoffParams::default();
    let mut idx: usize = from;
    while idx < args.len()
        invariant
            from <= idx <= args@.len(),
            all == args.deep_view(),
            outcome == handoff_params_of(params.deep_view(), all.skip(idx as int)),
            outcome == handoff_params_of(no_params(), all.skip(from as int)),
        decreases args@.len() - idx,
    {
        let ghost rest = all.skip(idx as int);
        let arg: &str = args[idx].as_str();
        assert(rest[0] == arg@);
        match text::split_once(arg, '=') {
            Some((flag, value)) => {
                proof {
                    let n = flag@.len() as int;
                    assert(arg@[n] == '=');
                    assert(arg@.contains('='));
                    assert forall|k: int| 0 <= k < n implies arg@[k] != '=' by {
                        assert(arg@[k] == flag@[k]);
                    }
                    text::lemma_first_index(arg@, '=', n);
                    assert(arg@.take(n) =~= flag@);
                    assert(arg@.skip(n + 1) =~= value@);
                    assert(rest.skip(1) =~= all.skip(idx + 1));
                }
                match set_flag(params, flag, value.to_owned()) {
                    Some(next) => {
                        params = next;
                    },
                    None => {
                        return None;
                    },
                }
                idx = idx + 1;
            },
            None => {
                if args.len() - idx < 2 {
                    return None;
                }
                assert(rest[1] == args@[idx + 1]@);
                assert(rest.skip(2) =~= all.skip(idx + 2));
                match set_flag(params, arg, args[idx + 1].clone()) {
                    Some(next) => {
                        params = next;
                    },
                    None => {
                        return None;
                    },
                }
                idx = idx + 2;
            },
        }
    }
    assert(all.skip(idx as int) =~= Seq::<Seq<char>>::empty());
    Some(params)
}

/// The parameters with what the command line leaves open: the running program, its protocol and
/// its version.
pub open spec fn with_defaults(params: HandoffView, current_exe: Seq<char>) -> HandoffView {
    HandoffView {
        import_exe: Some(
            match params.import_exe {
                Some(exe) => exe,
                None => current_exe,
            },
        ),
        expected_protocol: Some(
            match params.expected_protocol {
                Some(p) => p,
                None => PROTOCOL_VERSION,
            },
        ),
        expected_version: Some(
            match params.expected_version {
                Some(v) => v,
                None => FULL_VERSION@,
            },
        ),
    }
}

/// Fills in what the command line leaves open.
pub fn live_handoff_params_with_cli_defaults(
    params: ServerLiveHandoffParams,
    current_exe: &str,
) -> (r: ServerLiveHandoffParams)
    ensures
        r.deep_view() == with_defaults(params.deep_view(), current_exe@),
{
    let import_exe: String = match params.import_exe {
        Some(exe) => exe,
        None => current_exe.to_owned(),
    };
    let expected_protocol: u32 = match params.expected_protocol {
        Some(p) => p,
        None => PROTOCOL_VERSION,
    };
    let expected_version: String = match params.expected_version {
        Some(v) => v,
        None => FULL_VERSION.to_owned(),
    };
    ServerLiveHandoffParams {
        import_exe: Some(import_exe),
        expected_protocol: Some(expected_protocol),
        expected_version: Some(expected_version),
    }
}

/// The usage lines of the commands.
pub open spec fn stop_usage() -> Seq<char> {
    "usage: herdr server stop"@
}

pub open spec fn reload_usage() -> Seq<char> {
    "usage: herdr server reload-config"@
}

pub open spec fn handoff_usage() -> Seq<char> {
    "usage: herdr server live-handoff [--import-exe <path>] [--expected-protocol <n>] [--expected-version <version>]"@
}

/// Whether a command is what the arguments ask for.
pub open spec fn asks_for(args: Seq<Seq<char>>, command: ServerCommand) -> bool {
    if args.len() == 0 || args[0] == "--handoff-import"@ {
        command is Serve
    } else if args[0] == "stop"@ {
        if args.len() == 1 {
            command is Stop
        } else {
            command is Usage && command->Usage_0@ == stop_usage()
        }
    } else if args[0] == "live-handoff"@ {
        match handoff_params_of(no_params(), args.skip(1)) {
            Some(params) => command is LiveHandoff && command->LiveHandoff_0.deep_view() == params,
            None => command is Usage && command->Usage_0@ == handoff_usage(),
        }
    } else if args[0] == "reload-config"@ {
        if args.len() == 1 {
            command is ReloadConfig
        } else {
            command is Usage && command->Usage_0@ == reload_usage()
        }
    } else if args[0] == "help"@ || args[0] == "--help"@ || args[0] == "-h"@ {
        command == ServerCommand::Help(0)
    } else {
        command == ServerCommand::Help(2)
    }
}

proof fn lemma_command_names_differ()
    ensures
        "--handoff-import"@ != "stop"@,
        "--handoff-import"@ != "live-handoff"@,
        "--handoff-import"@ != "reload-config"@,
        "--handoff-import"@ != "help"@,
        "--handoff-import"@ != "--help"@,
        "--handoff-import"@ != "-h"@,
{
    reveal_strlit("--handoff-import");
    reveal_strlit("stop");
    reveal_strlit("live-handoff");
    reveal_strlit("reload-config");
    reveal_strlit("help");
    reveal_strlit("--help");
    reveal_strlit("-h");
    assert("--handoff-import"@.len() == 16);
    assert("stop"@.len() == 4);
    assert("live-handoff"@.len() == 12);
    assert("reload-config"@.len() == 13);
    assert("help"@.len() == 4);
    assert("--help"@.len() == 6);
    assert("-h"@.len() == 2);
}

/// Reads a `herdr server` command line.
pub fn run_server_command(args: &Vec<String>) -> (r: ServerCommand)
    ensures
        asks_for(args.deep_view(), r),
{
    assert(args.deep_view().len() == args@.len());
    if args.len() == 0 {
        return ServerCommand::Serve;
    }
    let name: &str = args[0].as_str();
    assert(args.deep_view()[0] == name@);
    proof {
        lemma_command_names_differ();
    }
    if text::same(name, "stop") {
        if args.len() > 1 {
            return ServerCommand::Usage("usage: herdr server stop");
        }
        ServerCommand::Stop
    } else if text::same(name, "live-handoff") {
        match parse_flags(args, 1) {
            Some(params) => ServerCommand::LiveHandoff(params),
            None => ServerCommand::Usage(
                "usage: herdr server live-handoff [--import-exe <path>] [--expected-protocol <n>] [--expected-version <version>]",
            ),
        }
    } else if text::same(name, "--handoff-import") {
        ServerCommand::Serve
    } else if text::same(name, "reload-config") {
        if args.len() > 1 {
            return ServerCommand::Usage("usage: herdr server reload-config");
        }
        ServerCommand::ReloadConfig
    } else if text::same(name, "help") || text::same(name, "--help") || text::same(name, "-h") {
        ServerCommand::Help(0)
    } else {
        ServerCommand::Help(2)
    }
}

} // verus!
