//! The `--remote` options of the command line.

use vstd::prelude::*;

use crate::text;

verus! {

/// Which side's key bindings are in force on a remote session.
#[derive(Debug, Clone, Copy, PartialEq, Eq, Structural)]
pub enum RemoteKeybindings {
    Local,
    Server,
}

/// A remote session that the command line asks for.
#[derive(Debug, PartialEq, Eq)]
pub struct RemoteLaunch {
    pub target: String,
    pub keybindings: RemoteKeybindings,
    pub live_handoff: bool,
}

/// A remote launch as a mathematical value.
#[verifier::ext_equal]
pub struct LaunchView {
    pub target: Seq<char>,
    pub keybindings: RemoteKeybindings,
    pub live_handoff: bool,
}

impl DeepView for RemoteLaunch {
    type V = LaunchView;

    open spec fn deep_view(&self) -> LaunchView {
        LaunchView {
            target: self.target@,
            keybindings: self.keybindings,
            live_handoff: self.live_handoff,
        }
    }
}

impl RemoteKeybindings {
    /// The key bindings that an option value names.
    pub open spec fn parse_spec(value: Seq<char>) -> Option<RemoteKeybindings> {
        if value == "local"@ {
            Some(RemoteKeybindings::Local)
        } else if value == "server"@ {
            Some(RemoteKeybindings::Server)
        } else {
            None
        }
    }

    pub fn parse(value: &str) -> (r: Result<Self, String>)
        ensures
            match r {
                Ok(k) => RemoteKeybindings::parse_spec(value@) == Some(k),
                Err(e) => RemoteKeybindings::parse_spec(value@) is None && e@
                    == "--remote-keybindings must be 'local' or 'server'"@,
            },
    {
        if text::same(value, "local") {
            Ok(RemoteKeybindings::Local)
        } else if text::same(value, "server") {
            Ok(RemoteKeybindings::Server)
        } else {
            Err("--remote-keybindings must be 'local' or 'server'".to_owned())
        }
    }

    /// The option value that names these key bindings.
    pub open spec fn name(self) -> Seq<char> {
        match self {
            RemoteKeybindings::Local => "local"@,
            RemoteKeybindings::Server => "server"@,
        }
    }

    pub fn as_str(self) -> (r: &'static str)
        ensures
            r@ == self.name(),
    {
        match self {
            RemoteKeybindings::Local => "local",
            RemoteKeybindings::Server => "server",
        }
    }
}

/// The name of key bindings reads back as those key bindings.
pub proof fn law_keybindings_name_parses(k: RemoteKeybindings)
    ensures
        RemoteKeybindings::parse_spec(k.name()) == Some(k),
{
    reveal_strlit("local");
    reveal_strlit("server");
    assert("local"@.len() != "server"@.len());
}

/// What one option of the command line says.
pub enum ArgItem {
    Handoff,
    /// `--remote`, with its value if one follows.
    Remote(Option<Seq<char>>),
    /// `--remote-keybindings`, with its value if one follows.
    Keybindings(Option<Seq<char>>),
    /// Anything else.
    Other(Seq<char>),
}

/// The value behind an option that stands as its own argument.
pub open spec fn next_value(args: Seq<Seq<char>>) -> Option<Seq<char>> {
    if args.len() > 1 {
        Some(args[1])
    } else {
        None
    }
}

/// The first option in a nonempty argument list.
pub open spec fn first_item(args: Seq<Seq<char>>) -> ArgItem {
    let arg = args[0];
    if arg == "--handoff"@ {
        ArgItem::Handoff
    } else if arg == "--remote"@ {
        ArgItem::Remote(next_value(args))
    } else if "--remote="@.is_prefix_of(arg) {
        ArgItem::Remote(Some(arg.skip("--remote="@.len() as int)))
    } else if arg == "--remote-keybindings"@ {
        ArgItem::Keybindings(next_value(args))
    } else if "--remote-keybindings="@.is_prefix_of(arg) {
        ArgItem::Keybindings(Some(arg.skip("--remote-keybindings="@.len() as int)))
    } else {
        ArgItem::Other(arg)
    }
}

/// How many arguments the first option covers.
pub open spec fn first_span(args: Seq<Seq<char>>) -> int {
    if args.len() > 1 && (args[0] == "--remote"@ || args[0] == "--remote-keybindings"@) {
        2
    } else {
        1
    }
}

/// The options of an argument list.
pub open spec fn items_of(args: Seq<Seq<char>>) -> Seq<ArgItem>
    decreases args.len(),
{
    if args.len() == 0 {
        Seq::empty()
    } else {
        seq![first_item(args)] + items_of(args.skip(first_span(args)))
    }
}

/// What the options read so far say.
#[verifier::ext_equal]
pub struct ArgState {
    pub target: Option<Seq<char>>,
    pub keybindings: Option<RemoteKeybindings>,
    pub handoff: bool,
    pub rest: Seq<Seq<char>>,
}

/// The value of `--remote`, or why it is refused.
pub open spec fn checked_target(value: Option<Seq<char>>) -> Result<Seq<char>, Seq<char>> {
    match value {
        None => Err("missing value for --remote"@),
        Some(target) => if target.len() == 0 {
            Err("missing value for --remote"@)
        } else if target[0] == '-' {
            Err("--remote target must not start with '-'"@)
        } else {
            Ok(target)
        },
    }
}

/// One more option.
pub open spec fn read_item(state: ArgState, item: ArgItem) -> Result<ArgState, Seq<char>> {
    match item {
        ArgItem::Handoff => Ok(ArgState { handoff: true, ..state }),
        ArgItem::Remote(value) => if state.target is Some {
            Err("--remote can only be specified once"@)
        } else {
            match checked_target(value) {
                Ok(target) => Ok(ArgState { target: Some(target), ..state }),
                Err(e) => Err(e),
            }
        },
        ArgItem::Keybindings(value) => if state.keybindings is Some {
            Err("--remote-keybindings can only be specified once"@)
        } else {
            match value {
                None => Err("missing value for --remote-keybindings"@),
                Some(v) => match RemoteKeybindings::parse_spec(v) {
                    Some(k) => Ok(ArgState { keybindings: Some(k), ..state }),
                    None => Err("--remote-keybindings must be 'local' or 'server'"@),
                },
            }
        },
        ArgItem::Other(arg) => Ok(ArgState { rest: state.rest.push(arg), ..state }),
    }
}

/// All options, in order; the first one that is refused decides.
pub open spec fn read_items(state: ArgState, items: Seq<ArgItem>) -> Result<ArgState, Seq<char>>
    decreases items.len(),
{
    if items.len() == 0 {
        Ok(state)
    } else {
        match read_item(state, items[0]) {
            Ok(next) => read_items(next, items.drop_first()),
            Err(e) => Err(e),
        }
    }
}

/// What the options come to: the arguments that are left, and the remote launch.
pub open spec fn finish(state: ArgState) -> Result<
    (Seq<Seq<char>>, Option<LaunchView>),
    Seq<char>,
> {
    match state.target {
        Some(target) => Ok(
            (
                state.rest,
                Some(
                    LaunchView {
                        target,
                        keybindings: match state.keybindings {
                            Some(k) => k,
                            None => RemoteKeybindings::Local,
                        },
                        live_handoff: state.handoff,
                    },
                ),
            ),
        ),
        None => if state.keybindings is Some {
            Err("--remote-keybindings requires --remote"@)
        } else if state.handoff {
            Ok((state.rest.push("--handoff"@), None))
        } else {
            Ok((state.rest, None))
        },
    }
}

/// What reading the options from a state on comes to.
pub open spec fn finish_items(state: ArgState, items: Seq<ArgItem>) -> Result<
    (Seq<Seq<char>>, Option<LaunchView>),
    Seq<char>,
> {
    match read_items(state, items) {
        Ok(last) => finish(last),
        Err(e) => Err(e),
    }
}

/// The state before any option has been read: the program name stays.
pub open spec fn initial(args: Seq<Seq<char>>) -> ArgState {
    ArgState {
        target: None,
        keybindings: None,
        handoff: false,
        rest: args.take(if args.len() > 0 {
            1
        } else {
            0
        }),
    }
}

/// The options behind the program name.
pub open spec fn option_args(args: Seq<Seq<char>>) -> Seq<Seq<char>> {
    args.skip(if args.len() > 0 {
        1
    } else {
        0
    })
}

/// What a command line asks for: its other arguments and the remote launch, or an error.
pub open spec fn remote_args_of(args: Seq<Seq<char>>) -> Result<
    (Seq<Seq<char>>, Option<LaunchView>),
    Seq<char>,
> {
    finish_items(initial(args), items_of(option_args(args)))
}

/// A target that the command line may name.
fn validate_remote_target(target: &str) -> (r: Result<String, String>)
    ensures
        match r {
            Ok(t) => checked_target(Some(target@)) is Ok && t@ == target@,
            Err(e) => checked_target(Some(target@)) is Err && e@ == checked_target(
                Some(target@),
            )->Err_0,
        },
{
    if target.is_empty() {
        return Err("missing value for --remote".to_owned());
    }
    if target.get_char(0) == '-' {
        return Err("--remote target must not start with '-'".to_owned());
    }
    Ok(target.to_owned())
}

/// What follows the prefix of an option with its value attached.
fn attached_value(arg: &str, prefix: &str) -> (r: Option<String>)
    ensures
        match r {
            Some(v) => prefix@.is_prefix_of(arg@) && v@ == arg@.skip(prefix@.len() as int),
            None => !prefix@.is_prefix_of(arg@),
        },
{
    match text::strip_prefix(arg, prefix) {
        Some(v) => {
            assert(v@ =~= arg@.skip(prefix@.len() as int));
            assert(arg@.subrange(0, prefix@.len() as int) =~= prefix@);
            Some(v.to_owned())
        },
        None => None,
    }
}

/// What one option says, as an executable value.
enum Item {
    Handoff,
    Remote(Option<String>),
    Keybindings(Option<String>),
    Other(String),
}

spec fn item_view(item: Item) -> ArgItem {
    match item {
        Item::Handoff => ArgItem::Handoff,
        Item::Remote(v) => ArgItem::Remote(v.deep_view()),
        Item::Keybindings(v) => ArgItem::Keybindings(v.deep_view()),
        Item::Other(arg) => ArgItem::Other(arg@),
    }
}

/// The option at `index`, and how many arguments it covers.
fn item_at(args: &Vec<String>, index: usize) -> (r: (Item, usize))
    requires
        index < args@.len(),
    ensures
        item_view(r.0) == first_item(args.deep_view().skip(index as int)),
        r.1 == first_span(args.deep_view().skip(index as int)),
        index + r.1 <= args@.len(),
{
    let ghost rest = args.deep_view().skip(index as int);
    let arg: &str = args[index].as_str();
    assert(rest[0] == arg@);
    assert(rest.len() == args@.len() - index);
    let handoff: bool = text::same(arg, "--handoff");
    let remote: bool = text::same(arg, "--remote");
    let bindings: bool = text::same(arg, "--remote-keybindings");
    proof {
        reveal_strlit("--handoff");
        reveal_strlit("--remote");
        reveal_strlit("--remote-keybindings");
        reveal_strlit("--remote=");
        reveal_strlit("--remote-keybindings=");
    }
    if handoff {
        return (Item::Handoff, 1);
    }
    if remote || bindings {
        let value: Option<String> = if args.len() - index > 1 {
            assert(rest[1] == args@[index + 1]@);
            Some(args[index + 1].clone())
        } else {
            None
        };
        let span: usize = if args.len() - index > 1 {
            2
        } else {
            1
        };
        assert(value.deep_view() == next_value(rest));
        if remote {
            return (Item::Remote(value), span);
        }
        assert(!"--remote="@.is_prefix_of(arg@)) by {
            assert(arg@[8] == '-');
            assert("--remote="@[8] == '=');
            if "--remote="@.is_prefix_of(arg@) {
                assert(arg@.subrange(0, 9)[8] == arg@[8]);
            }
        }
        return (Item::Keybindings(value), span);
    }
    if let Some(value) = attached_value(arg, "--remote=") {
        return (Item::Remote(Some(value)), 1);
    }
    if let Some(value) = attached_value(arg, "--remote-keybindings=") {
        return (Item::Keybindings(Some(value)), 1);
    }
    (Item::Other(args[index].clone()), 1)
}

/// Takes the remote options out of a command line: the arguments that are left, and the remote
/// launch where one is asked for.
pub fn extract_remote_args(args: &Vec<String>) -> (r: Result<
    (Vec<String>, Option<RemoteLaunch>),
    String,
>)
    ensures
        match r {
            Ok((cleaned, launch)) => remote_args_of(args.deep_view()) is Ok && (
            cleaned.deep_view(), launch.deep_view()) == remote_args_of(args.deep_view())->Ok_0,
            Err(e) => remote_args_of(args.deep_view()) is Err && e@ == remote_args_of(
                args.deep_view(),
            )->Err_0,
        },
{
    let ghost all = args.deep_view();
    let ghost outcome = remote_args_of(all);
    let mut cleaned: Vec<String> = Vec::new();
    let mut target: Option<String> = None;
    let mut keybindings: Option<RemoteKeybindings> = None;
    let mut live_handoff: bool = false;
    let mut index: usize = 0;
    if args.len() > 0 {
        cleaned.push(args[0].clone());
        index = 1;
    }
    assert(cleaned.deep_view() =~= initial(all).rest);
    while index < args.len()
        invariant
            index <= args@.len(),
            all == args.deep_view(),
            outcome == remote_args_of(all),
            outcome == finish_items(
                (ArgState {
                    target: target.deep_view(),
                    keybindings,
                    handoff: live_handoff,
                    rest: cleaned.deep_view(),
                }),
                items_of(all.skip(index as int)),
            ),
        decreases args@.len() - index,
    {
        let ghost rest = all.skip(index as int);
        let ghost state = ArgState {
            target: target.deep_view(),
            keybindings,
            handoff: live_handoff,
            rest: cleaned.deep_view(),
        };
        let (item, span) = item_at(args, index);
        proof {
            let items = items_of(rest);
            assert(items[0] == item_view(item));
            assert(items.drop_first() =~= items_of(rest.skip(span as int)));
            assert(rest.skip(span as int) =~= all.skip(index + span));
        }
        match item {
            Item::Handoff => {
                live_handoff = true;
            },
            Item::Remote(value) => {
                if target.is_some() {
                    return Err("--remote can only be specified once".to_owned());
                }
                match value {
                    None => {
                        return Err("missing value for --remote".to_owned());
                    },
                    Some(v) => match validate_remote_target(v.as_str()) {
                        Ok(t) => {
                            target = Some(t);
                        },
                        Err(e) => {
                            return Err(e);
                        },
                    },
                }
            },
            Item::Keybindings(value) => {
                if keybindings.is_some() {
                    return Err("--remote-keybindings can only be specified once".to_owned());
                }
                match value {
                    None => {
                        return Err("missing value for --remote-keybindings".to_owned());
                    },
                    Some(v) => match RemoteKeybindings::parse(v.as_str()) {
                        Ok(k) => {
                            keybindings = Some(k);
                        },
                        Err(e) => {
                            return Err(e);
                        },
                    },
                }
            },
            Item::Other(arg) => {
                let ghost before = cleaned.deep_view();
                cleaned.push(arg);
                assert(cleaned.deep_view() =~= before.push(arg@));
            },
        }
        index = index + span;
    }
    assert(all.skip(index as int) =~= Seq::<Seq<char>>::empty());
    match target {
        Some(t) => {
            let bindings: RemoteKeybindings = match keybindings {
                Some(k) => k,
                None => RemoteKeybindings::Local,
            };
            Ok((cleaned, Some(RemoteLaunch { target: t, keybindings: bindings, live_handoff })))
        },
        None => {
            if keybindings.is_some() {
                return Err("--remote-keybindings requires --remote".to_owned());
            }
            if live_handoff {
                let ghost before = cleaned.deep_view();
                cleaned.push("--handoff".to_owned());
                assert(cleaned.deep_view() =~= before.push("--handoff"@));
            }
            Ok((cleaned, None))
        },
    }
}

/// The arguments among the options that are none of the remote options.
pub open spec fn other_args(items: Seq<ArgItem>) -> Seq<Seq<char>>
    decreases items.len(),
{
    if items.len() == 0 {
        Seq::empty()
    } else {
        match items[0] {
            ArgItem::Other(arg) => seq![arg] + other_args(items.drop_first()),
            _ => other_args(items.drop_first()),
        }
    }
}

/// Whether `--handoff` stands among the options.
pub open spec fn asks_handoff(items: Seq<ArgItem>) -> bool {
    exists|i: int| 0 <= i < items.len() && #[trigger] items[i] is Handoff
}

proof fn lemma_rest_is_kept(state: ArgState, items: Seq<ArgItem>)
    ensures
        match read_items(state, items) {
            Ok(last) => last.rest == state.rest + other_args(items) && last.handoff == (
            state.handoff || asks_handoff(items)),
            Err(_) => true,
        },
    decreases items.len(),
{
    if items.len() > 0 {
        let rest = items.drop_first();
        if asks_handoff(items) && !(items[0] is Handoff) {
            let i = choose|i: int| 0 <= i < items.len() && #[trigger] items[i] is Handoff;
            assert(rest[i - 1] is Handoff);
        }
        if asks_handoff(rest) {
            let i = choose|i: int| 0 <= i < rest.len() && #[trigger] rest[i] is Handoff;
            assert(items[i + 1] is Handoff);
        }
        match read_item(state, items[0]) {
            Ok(next) => {
                lemma_rest_is_kept(next, rest);
                match items[0] {
                    ArgItem::Other(arg) => {
                        assert(state.rest.push(arg) + other_args(rest) =~= state.rest + other_args(
                            items,
                        ));
                    },
                    _ => {},
                }
            },
            Err(_) => {},
        }
    } else {
        assert(state.rest + other_args(items) =~= state.rest);
    }
}

/// The program name and every other argument are left, in order, and nothing else. `--handoff`
/// goes into the remote launch where there is one; without one it is put back behind them. Either
/// way that is so exactly when it stands among the options.
pub proof fn law_other_arguments_stay(args: Seq<Seq<char>>)
    ensures
        match remote_args_of(args) {
            Ok((cleaned, launch)) => {
                let items = items_of(option_args(args));
                let kept = initial(args).rest + other_args(items);
                match launch {
                    Some(launch) => cleaned == kept && launch.live_handoff == asks_handoff(items),
                    None => cleaned == (if asks_handoff(items) {
                        kept.push("--handoff"@)
                    } else {
                        kept
                    }),
                }
            },
            Err(_) => true,
        },
{
    lemma_rest_is_kept(initial(args), items_of(option_args(args)));
}

proof fn lemma_target_checked(state: ArgState, items: Seq<ArgItem>)
    requires
        state.target is Some ==> state.target->0.len() > 0 && state.target->0[0] != '-',
    ensures
        match read_items(state, items) {
            Ok(last) => last.target is Some ==> last.target->0.len() > 0 && last.target->0[0]
                != '-',
            Err(_) => true,
        },
    decreases items.len(),
{
    if items.len() > 0 {
        match read_item(state, items[0]) {
            Ok(next) => lemma_target_checked(next, items.drop_first()),
            Err(_) => {},
        }
    }
}

/// A remote launch names a target that ssh does not take for an option.
pub proof fn law_launch_target_is_no_option(args: Seq<Seq<char>>)
    ensures
        match remote_args_of(args) {
            Ok((cleaned, Some(launch))) => launch.target.len() > 0 && launch.target[0] != '-',
            _ => true,
        },
{
    lemma_target_checked(initial(args), items_of(option_args(args)));
}

} // verus!
