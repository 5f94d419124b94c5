//! What the client makes of what it is told: arguments, keys while attached, and notices.

use vstd::prelude::*;

use crate::attach::{attach_action_is, filtered, AttachInputAction};
use crate::build_info::{channel_spec, non_empty_spec};
use crate::input::{MouseEvent, RawInputEvent, TerminalKey};
use crate::messages::NotifyKind;
use crate::notify::{is_notify_action, summary_events, NotifyAction, Sound};
use crate::api::Subscription;
use crate::remote_args::{
    first_item, first_span, items_of, read_items, remote_args_of, ArgItem, LaunchView,
    RemoteKeybindings,
};
use crate::server_cli::{
    asks_for, handoff_params_of, no_params, with_defaults, HandoffView, ServerCommand,
};
use crate::text::{
    decimal, first_index, is_digit, lemma_decimal_value, lemma_first_index, number_value, occurs_at,
    trim_spec,
};
use crate::version::names_version;

verus! {

/// While attached, control-b and `q` detach; control-b twice sends it once, control-b and another
/// key sends both, and every other key goes through. A control-b that came last waits for what
/// follows.
pub proof fn law_prefix_key(key: u8, rest: Seq<u8>)
    ensures
        filtered(seq![0x02u8, 0x71u8] + rest, false).detach,
        filtered(seq![0x02u8, 0x71u8] + rest, false).output.len() == 0,
        filtered(seq![0x71u8] + rest, true).detach,
        filtered(seq![0x02u8, 0x02u8] + rest, false).output == seq![0x02u8] + filtered(
            rest,
            false,
        ).output,
        filtered(seq![0x02u8, 0x02u8] + rest, false).detach == filtered(rest, false).detach,
        key != 0x02 && key != 0x71 ==> filtered(seq![0x02u8, key] + rest, false).output == seq![
            0x02u8,
            key,
        ] + filtered(rest, false).output,
        key != 0x02 && key != 0x71 ==> filtered(seq![0x02u8, key] + rest, false).detach
            == filtered(rest, false).detach,
        key != 0x02 ==> filtered(seq![key] + rest, false).output == seq![key] + filtered(
            rest,
            false,
        ).output,
        key != 0x02 ==> filtered(seq![key] + rest, false).detach == filtered(rest, false).detach,
        filtered(seq![0x02u8], false).pending,
        filtered(seq![0x02u8], false).output.len() == 0,
        !filtered(seq![0x02u8], false).detach,
{
    reveal_with_fuel(filtered, 3);
    let quit = seq![0x02u8, 0x71u8] + rest;
    assert(quit.skip(1) =~= seq![0x71u8] + rest);
    let twice = seq![0x02u8, 0x02u8] + rest;
    assert(twice.skip(1) =~= seq![0x02u8] + rest);
    assert((seq![0x02u8] + rest).skip(1) =~= rest);
    let other = seq![0x02u8, key] + rest;
    assert(other.skip(1) =~= seq![key] + rest);
    assert((seq![key] + rest).skip(1) =~= rest);
    assert(seq![0x02u8].skip(1) =~= Seq::<u8>::empty());
}

/// The wheel scrolls the way that it is turned, at the place of the mouse, by the lines that the
/// settings give and by one at least; any other mouse event is swallowed.
pub proof fn law_wheel_scrolls_the_way_it_turns(
    action: AttachInputAction,
    data: Seq<u8>,
    mouse: MouseEvent,
    rows: u16,
    lines: usize,
)
    requires
        data.len() > 0,
        attach_action_is(action, data, seq![RawInputEvent::Mouse(mouse)], rows, lines),
    ensures
        mouse.kind is ScrollUp ==> action is Scroll && action->Scroll_0.direction is Up,
        mouse.kind is ScrollDown ==> action is Scroll && action->Scroll_0.direction is Down,
        mouse.kind is ScrollUp || mouse.kind is ScrollDown ==> {
            let scroll = action->Scroll_0;
            &&& scroll.source is Wheel
            &&& scroll.column == Some(mouse.column)
            &&& scroll.row == Some(mouse.row)
            &&& 1 <= lines <= u16::MAX ==> scroll.lines == lines
            &&& lines == 0 ==> scroll.lines == 1
            &&& scroll.lines >= 1
            &&& mouse.modifiers == crate::input::no_modifiers() ==> scroll.modifiers == 0
        },
        !(mouse.kind is ScrollUp) && !(mouse.kind is ScrollDown) ==> action is Swallow,
{
}

/// A page key that is pressed alone scrolls a page, which is one line less than the screen has;
/// let go it does nothing, and with another key held it goes through.
pub proof fn law_page_keys_scroll_a_page(
    action: AttachInputAction,
    data: Seq<u8>,
    key: TerminalKey,
    rows: u16,
    lines: usize,
)
    requires
        data.len() > 0,
        attach_action_is(action, data, seq![RawInputEvent::Key(key)], rows, lines),
    ensures
        ({
            let alone = key.modifiers == crate::input::no_modifiers();
            let page = key.code is PageUp || key.code is PageDown;
            &&& alone && key.code is PageUp && !(key.kind is Release) ==> action is Scroll
                && action->Scroll_0.direction is Up
            &&& alone && key.code is PageDown && !(key.kind is Release) ==> action is Scroll
                && action->Scroll_0.direction is Down
            &&& alone && page && !(key.kind is Release) ==> {
                let scroll = action->Scroll_0;
                &&& rows > 1 ==> scroll.lines == rows - 1
                &&& rows <= 1 ==> scroll.lines == 1
                &&& scroll.source is PageKey
                &&& scroll.source->input@ == data
                &&& scroll.column is None
                &&& scroll.row is None
                &&& scroll.modifiers == 0
            }
            &&& alone && page && key.kind is Release ==> action is Swallow
            &&& !alone || !page ==> action is Forward && action->Forward_0@ == data
        }),
{
}

/// What is no lone page key and no mouse event goes through as it came.
pub proof fn law_other_input_goes_through(
    action: AttachInputAction,
    data: Seq<u8>,
    events: Seq<RawInputEvent>,
    rows: u16,
    lines: usize,
)
    requires
        attach_action_is(action, data, events, rows, lines),
    ensures
        data.len() == 0 ==> action is Swallow,
        data.len() > 0 && events.len() != 1 ==> action is Forward && action->Forward_0@ == data,
        data.len() > 0 && events.len() == 1 && (events[0] is Paste || events[0] is Unknown)
            ==> action is Forward && action->Forward_0@ == data,
        !(action is Detach),
{
}

/// A notice with a sound plays it where sounds are on: one for an agent that is done, another for
/// one that asks; no other text has a sound.
pub proof fn law_sounds(action: NotifyAction, message: Seq<char>, enabled: bool)
    requires
        is_notify_action(action, NotifyKind::Sound, message, enabled),
    ensures
        message == "agent done"@ && enabled ==> action == NotifyAction::Play(Sound::Done),
        message == "agent attention"@ && enabled ==> action == NotifyAction::Play(Sound::Request),
        !enabled ==> action is Ignore,
        message != "agent done"@ && message != "agent attention"@ ==> action is Ignore,
{
    reveal_strlit("agent done");
    reveal_strlit("agent attention");
    assert("agent done"@.len() != "agent attention"@.len());
}

/// A notice with a title and a text shows both, in the terminal or by the system as its kind says,
/// whether or not sounds are on; where it has no colon all of it is the title.
pub proof fn law_toasts(
    action: NotifyAction,
    kind: NotifyKind,
    message: Seq<char>,
    enabled: bool,
)
    requires
        is_notify_action(action, kind, message, enabled),
        !(kind is Sound),
    ensures
        kind is Toast ==> action is Terminal,
        kind is SystemToast ==> action is System,
        ({
            let title = if kind is Toast {
                action->Terminal_title@
            } else {
                action->System_title@
            };
            let body = if kind is Toast {
                action->Terminal_body
            } else {
                action->System_body
            };
            &&& body is Some ==> message == title + seq![':', ' '] + body->0@
            &&& body is None ==> message == title
            &&& !message.contains(':') ==> body is None
            &&& forall|i: int|
                0 <= i < title.len() && i + 1 < message.len() ==> !(#[trigger] message[i] == ':'
                    && message[i + 1] == ' ')
        }),
{
    reveal_strlit(": ");
    assert(": "@ =~= seq![':', ' ']);
    assert forall|i: int| 0 <= i && i + 1 < message.len() && #[trigger] message[i] == ':'
        && message[i + 1] == ' ' implies occurs_at(": "@, message, i) by {
        assert(message.subrange(i, i + 2) =~= ": "@);
    }
    let title = if kind is Toast {
        action->Terminal_title@
    } else {
        action->System_title@
    };
    let body = if kind is Toast {
        action->Terminal_body
    } else {
        action->System_body
    };
    if body is Some {
        assert(message[title.len() as int] == ':');
    }
}

/// The client follows everything that a summary can change by: each event of a workspace, a tab
/// or a pane, and an agent's status whosever it is.
pub proof fn law_every_change_is_followed(event: Subscription)
    ensures
        summary_events().contains(event) <==> {
            ||| !(event is PaneAgentStatusChanged)
            ||| event->pane_id is None && event->agent_status is None
        },
        summary_events().len() == 15,
{
    let all = summary_events();
    match event {
        Subscription::WorkspaceCreated {  } => assert(all[0] == event),
        Subscription::WorkspaceUpdated {  } => assert(all[1] == event),
        Subscription::WorkspaceRenamed {  } => assert(all[2] == event),
        Subscription::WorkspaceClosed {  } => assert(all[3] == event),
        Subscription::WorkspaceFocused {  } => assert(all[4] == event),
        Subscription::TabCreated {  } => assert(all[5] == event),
        Subscription::TabClosed {  } => assert(all[6] == event),
        Subscription::TabFocused {  } => assert(all[7] == event),
        Subscription::TabRenamed {  } => assert(all[8] == event),
        Subscription::PaneCreated {  } => assert(all[9] == event),
        Subscription::PaneClosed {  } => assert(all[10] == event),
        Subscription::PaneFocused {  } => assert(all[11] == event),
        Subscription::PaneExited {  } => assert(all[12] == event),
        Subscription::PaneAgentDetected {  } => assert(all[13] == event),
        Subscription::PaneAgentStatusChanged { pane_id, agent_status } => {
            if pane_id is None && agent_status is None {
                assert(all[14] == event);
            }
        },
    }
}

/// Each command of the server is asked for by its own word, alone on its line; with more behind it
/// its usage is shown; help is shown for each of its words, and, with a failure, for any other.
pub proof fn law_server_words(args: Seq<Seq<char>>, command: ServerCommand)
    requires
        asks_for(args, command),
    ensures
        args.len() == 0 ==> command is Serve,
        args.len() > 0 && args[0] == "--handoff-import"@ ==> command is Serve,
        args.len() == 1 && args[0] == "stop"@ ==> command is Stop,
        args.len() > 1 && args[0] == "stop"@ ==> command is Usage && command->Usage_0@
            == "usage: herdr server stop"@,
        args.len() == 1 && args[0] == "reload-config"@ ==> command is ReloadConfig,
        args.len() > 1 && args[0] == "reload-config"@ ==> command is Usage && command->Usage_0@
            == "usage: herdr server reload-config"@,
        args.len() > 0 && (args[0] == "help"@ || args[0] == "--help"@ || args[0] == "-h"@)
            ==> command == ServerCommand::Help(0),
        command is Stop ==> args.len() == 1 && args[0] == "stop"@,
        command is ReloadConfig ==> args.len() == 1 && args[0] == "reload-config"@,
        command is LiveHandoff ==> args.len() > 0 && args[0] == "live-handoff"@,
        command is Serve ==> args.len() == 0 || args[0] == "--handoff-import"@,
        command is Help ==> command->Help_0 == 0 || command->Help_0 == 2,
        args.len() == 1 && args[0] == "live-handoff"@ ==> command is LiveHandoff
            && command->LiveHandoff_0.deep_view() == (HandoffView {
            import_exe: None,
            expected_protocol: None,
            expected_version: None,
        }),
{
    reveal_strlit("--handoff-import");
    reveal_strlit("stop");
    reveal_strlit("reload-config");
    reveal_strlit("live-handoff");
    reveal_strlit("help");
    reveal_strlit("--help");
    reveal_strlit("-h");
    assert("stop"@[0] == 's' && "help"@[0] == 'h' && "reload-config"@[0] == 'r'
        && "live-handoff"@[0] == 'l' && "-h"@[1] == 'h' && "--help"@[1] == '-'
        && "--handoff-import"@[3] == 'a' && "--help"@[3] == 'e');
    if args.len() == 1 {
        assert(args.skip(1) =~= Seq::<Seq<char>>::empty());
    }
}

proof fn lemma_no_equals(word: Seq<char>, value: Seq<char>)
    requires
        !word.contains('='),
    ensures
        first_index(word + seq!['='] + value, '=') == word.len(),
        (word + seq!['='] + value).contains('='),
        (word + seq!['='] + value).take(word.len() as int) == word,
        (word + seq!['='] + value).skip((word.len() + 1) as int) == value,
{
    let whole = word + seq!['='] + value;
    assert forall|k: int| 0 <= k < word.len() implies whole[k] != '=' by {
        assert(word.contains(word[k]));
    }
    assert(whole[word.len() as int] == '=');
    lemma_first_index(whole, '=', word.len() as int);
    assert(whole.take(word.len() as int) =~= word);
    assert(whole.skip((word.len() + 1) as int) =~= value);
}

/// Each option of a live handoff sets its own part and no other, written with its value behind it
/// or joined to it by an equals sign; the options may come in any order, and the last of each
/// holds.
pub proof fn law_handoff_options(
    params: HandoffView,
    value: Seq<char>,
    protocol: u32,
    rest: Seq<Seq<char>>,
)
    ensures
        handoff_params_of(params, seq!["--import-exe"@, value] + rest) == handoff_params_of(
            HandoffView { import_exe: Some(value), ..params },
            rest,
        ),
        handoff_params_of(params, seq!["--expected-version"@, value] + rest) == handoff_params_of(
            HandoffView { expected_version: Some(value), ..params },
            rest,
        ),
        handoff_params_of(
            params,
            seq!["--expected-protocol"@, decimal(protocol as nat)] + rest,
        ) == handoff_params_of(HandoffView { expected_protocol: Some(protocol), ..params }, rest),
        handoff_params_of(params, seq!["--import-exe"@ + seq!['='] + value] + rest)
            == handoff_params_of(params, seq!["--import-exe"@, value] + rest),
        handoff_params_of(params, seq!["--expected-version"@ + seq!['='] + value] + rest)
            == handoff_params_of(params, seq!["--expected-version"@, value] + rest),
        handoff_params_of(params, seq!["--expected-protocol"@ + seq!['='] + value] + rest)
            == handoff_params_of(params, seq!["--expected-protocol"@, value] + rest),
        handoff_params_of(params, Seq::empty()) == Some(params),
{
    reveal_strlit("--import-exe");
    reveal_strlit("--expected-version");
    reveal_strlit("--expected-protocol");
    let exe = "--import-exe"@;
    let version = "--expected-version"@;
    let proto = "--expected-protocol"@;
    assert(exe.len() != version.len() && exe.len() != proto.len() && version.len() != proto.len());
    assert(!exe.contains('='));
    assert(!version.contains('='));
    assert(!proto.contains('='));
    lemma_no_equals(exe, value);
    lemma_no_equals(version, value);
    lemma_no_equals(proto, value);
    let number = decimal(protocol as nat);
    lemma_decimal_value(protocol as nat);
    assert(is_digit(number[0]));
    assert(number[0] != '+');
    assert(number_value(number) == Some(protocol as nat));
    assert((seq![exe, value] + rest).skip(2) =~= rest);
    assert((seq![version, value] + rest).skip(2) =~= rest);
    assert((seq![proto, value] + rest).skip(2) =~= rest);
    assert((seq![proto, number] + rest).skip(2) =~= rest);
    assert((seq![exe + seq!['='] + value] + rest).skip(1) =~= rest);
    assert((seq![version + seq!['='] + value] + rest).skip(1) =~= rest);
    assert((seq![proto + seq!['='] + value] + rest).skip(1) =~= rest);
}

/// An option that is not known, or that lacks its value, or a protocol that is no number, is
/// refused.
pub proof fn law_handoff_refuses_the_rest(params: HandoffView, option: Seq<char>, value: Seq<char>)
    ensures
        !option.contains('=') && option != "--import-exe"@ && option != "--expected-version"@
            && option != "--expected-protocol"@ ==> handoff_params_of(
            params,
            seq![option, value],
        ) is None,
        !option.contains('=') ==> handoff_params_of(params, seq![option]) is None,
        number_value(value) is None ==> handoff_params_of(
            params,
            seq!["--expected-protocol"@, value],
        ) is None,
        number_value(value) is Some && number_value(value)->0 > u32::MAX ==> handoff_params_of(
            params,
            seq!["--expected-protocol"@, value],
        ) is None,
{
    reveal_strlit("--import-exe");
    reveal_strlit("--expected-version");
    reveal_strlit("--expected-protocol");
    assert(!"--expected-protocol"@.contains('='));
    assert("--expected-protocol"@.len() != "--import-exe"@.len());
    assert("--expected-protocol"@.len() != "--expected-version"@.len());
    reveal_with_fuel(handoff_params_of, 2);
}

/// What a handoff is not told it takes from this program: its own binary, its protocol and its
/// version; what it is told it keeps.
pub proof fn law_handoff_defaults(params: HandoffView, exe: Seq<char>)
    ensures
        ({
            let full = with_defaults(params, exe);
            &&& params.import_exe is Some ==> full.import_exe == params.import_exe
            &&& params.import_exe is None ==> full.import_exe == Some(exe)
            &&& params.expected_protocol is Some ==> full.expected_protocol
                == params.expected_protocol
            &&& params.expected_protocol is None ==> full.expected_protocol == Some(11u32)
            &&& params.expected_version is Some ==> full.expected_version
                == params.expected_version
            &&& params.expected_version is None ==> full.expected_version == Some("0.6.10-mx.1"@)
        }),
        no_params() == (HandoffView {
            import_exe: None,
            expected_protocol: None,
            expected_version: None,
        }),
{
}

/// A line names a version exactly where it is the program's name and that version, with or without
/// a note in brackets behind it; a longer version is another one.
pub proof fn law_version_lines(line: Seq<char>, version: Seq<char>, note: Seq<char>, more: Seq<char>)
    ensures
        trim_spec(line) == "herdr "@ + version ==> names_version(line, version),
        trim_spec(line) == "herdr "@ + version + " ("@ + note + ")"@ ==> names_version(
            line,
            version,
        ),
        names_version(line, version) ==> ("herdr "@ + version).is_prefix_of(trim_spec(line)),
        more.len() > 0 && more[0] != ' ' && trim_spec(line) == "herdr "@ + version + more
            ==> !names_version(line, version),
        names_version(line, version) && trim_spec(line) != "herdr "@ + version
            ==> trim_spec(line).last() == ')',
{
    reveal_strlit("herdr ");
    reveal_strlit(" (");
    reveal_strlit(")");
    let exact = "herdr "@ + version;
    let opened = exact + " ("@;
    let trimmed = trim_spec(line);
    if trimmed == "herdr "@ + version + " ("@ + note + ")"@ {
        assert(opened.is_prefix_of(trimmed)) by {
            assert(trimmed.take(opened.len() as int) =~= opened);
        }
        assert(trimmed.skip(opened.len() as int) =~= note + ")"@);
        assert((note + ")"@).skip(note.len() as int) =~= ")"@);
    }
    if opened.is_prefix_of(trimmed) {
        assert(trimmed.take(opened.len() as int) =~= opened);
        assert(trimmed.take(exact.len() as int) =~= exact) by {
            assert forall|i: int| 0 <= i < exact.len() implies trimmed[i] == exact[i] by {
                assert(trimmed.take(opened.len() as int)[i] == opened[i]);
            }
        }
        assert(trimmed[exact.len() as int] == ' ') by {
            assert(trimmed.take(opened.len() as int)[exact.len() as int]
                == opened[exact.len() as int]);
        }
    }
    if more.len() > 0 && trimmed == exact + more {
        assert(trimmed[exact.len() as int] == more[0]);
        assert(trimmed.len() != exact.len());
    }
    if opened.is_prefix_of(trimmed) && ")"@.is_suffix_of(trimmed.skip(opened.len() as int)) {
        let tail = trimmed.skip(opened.len() as int);
        assert(tail.skip(tail.len() - 1) =~= ")"@);
        assert(tail.last() == tail.skip(tail.len() - 1)[0]);
        assert(trimmed.last() == tail.last());
    }
}

/// A setting that is blank is none, and any other is taken without the space around it; a build
/// without a channel is a stable one.
pub proof fn law_build_settings(value: Seq<char>)
    ensures
        non_empty_spec(None) is None,
        trim_spec(value).len() == 0 ==> non_empty_spec(Some(value)) is None,
        trim_spec(value).len() > 0 ==> non_empty_spec(Some(value)) == Some(trim_spec(value)),
        channel_spec(None) == "stable"@,
        trim_spec(value).len() == 0 ==> channel_spec(Some(value)) == "stable"@,
        trim_spec(value).len() > 0 ==> channel_spec(Some(value)) == trim_spec(value),
{
}

proof fn lemma_option_words()
    ensures
        "--remote"@ != "--handoff"@,
        "--remote-keybindings"@ != "--handoff"@,
        "--remote-keybindings"@ != "--remote"@,
        !"--remote="@.is_prefix_of("--remote"@),
        !"--remote="@.is_prefix_of("--remote-keybindings"@),
        !"--remote="@.is_prefix_of("--handoff"@),
{
    reveal_strlit("--remote");
    reveal_strlit("--remote=");
    reveal_strlit("--remote-keybindings");
    reveal_strlit("--handoff");
    assert("--remote"@[2] == 'r' && "--handoff"@[2] == 'h' && "--remote-keybindings"@[2] == 'r');
    assert("--remote"@.len() == 8 && "--remote-keybindings"@.len() == 20);
    assert("--remote="@[8] == '=' && "--remote-keybindings"@[8] == '-');
    if "--remote="@.is_prefix_of("--remote-keybindings"@) {
        assert("--remote-keybindings"@.take(9)[8] == '=');
    }
}

/// An option for a remote means the same written with its value behind it or joined to it by an
/// equals sign.
pub proof fn law_spellings_agree(value: Seq<char>, rest: Seq<Seq<char>>)
    ensures
        items_of(seq!["--remote"@, value] + rest) == seq![ArgItem::Remote(Some(value))] + items_of(
            rest,
        ),
        items_of(seq!["--remote="@ + value] + rest) == items_of(seq!["--remote"@, value] + rest),
        items_of(seq!["--remote-keybindings"@, value] + rest) == seq![
            ArgItem::Keybindings(Some(value)),
        ] + items_of(rest),
        items_of(seq!["--remote-keybindings="@ + value] + rest) == items_of(
            seq!["--remote-keybindings"@, value] + rest,
        ),
        items_of(seq!["--handoff"@] + rest) == seq![ArgItem::Handoff] + items_of(rest),
{
    lemma_option_words();
    reveal_strlit("--remote");
    reveal_strlit("--remote=");
    reveal_strlit("--remote-keybindings");
    reveal_strlit("--remote-keybindings=");
    reveal_strlit("--handoff");
    let a = "--remote="@ + value;
    let b = "--remote-keybindings="@ + value;
    assert(a[2] == 'r' && a[8] == '=');
    assert(b[2] == 'r' && b[8] == '-' && b[20] == '=');
    assert("--handoff"@[2] == 'h' && "--remote"@.len() == 8 && "--remote-keybindings"@.len() == 20);
    assert("--remote-keybindings"@[8] == '-');
    assert("--remote="@.is_prefix_of(a)) by {
        assert(a.take(9) =~= "--remote="@);
    }
    assert(a.skip(9) =~= value);
    assert("--remote-keybindings="@.is_prefix_of(b)) by {
        assert(b.take(21) =~= "--remote-keybindings="@);
    }
    assert(b.skip(21) =~= value);
    assert(!"--remote="@.is_prefix_of(b)) by {
        if "--remote="@.is_prefix_of(b) {
            assert(b.take(9)[8] == '=');
        }
    }
    let spaced = seq!["--remote"@, value] + rest;
    let joined = seq![a] + rest;
    assert(spaced.skip(2) =~= rest);
    assert(joined.skip(1) =~= rest);
    assert(first_item(joined) == ArgItem::Remote(Some(value)));
    assert(first_span(joined) == 1);
    let spaced_keys = seq!["--remote-keybindings"@, value] + rest;
    let joined_keys = seq![b] + rest;
    assert(spaced_keys.skip(2) =~= rest);
    assert(joined_keys.skip(1) =~= rest);
    assert(first_item(spaced_keys) == ArgItem::Keybindings(Some(value)));
    assert(first_item(joined_keys) == ArgItem::Keybindings(Some(value)));
    assert(first_span(joined_keys) == 1);
    let handoff = seq!["--handoff"@] + rest;
    assert(handoff.skip(1) =~= rest);
    assert("--handoff"@ != "--remote"@);
    assert("--handoff"@ != "--remote-keybindings"@);
}

/// A launch is what was asked for: the host given, the keys given or else this client's, and a
/// handoff exactly where it was asked for; the program's own name stays.
pub proof fn law_launch_is_what_was_asked_for(
    program: Seq<char>,
    host: Seq<char>,
    keys: RemoteKeybindings,
)
    requires
        host.len() > 0,
        host[0] != '-',
    ensures
        remote_args_of(seq![program, "--remote"@, host]) == Ok::<
            (Seq<Seq<char>>, Option<LaunchView>),
            Seq<char>,
        >(
            (
                seq![program],
                Some(
                    LaunchView {
                        target: host,
                        keybindings: RemoteKeybindings::Local,
                        live_handoff: false,
                    },
                ),
            ),
        ),
        remote_args_of(
            seq![
                program,
                "--remote"@,
                host,
                "--remote-keybindings"@,
                if keys is Local {
                    "local"@
                } else {
                    "server"@
                },
                "--handoff"@,
            ],
        ) == Ok::<(Seq<Seq<char>>, Option<LaunchView>), Seq<char>>(
            (
                seq![program],
                Some(LaunchView { target: host, keybindings: keys, live_handoff: true }),
            ),
        ),
        remote_args_of(seq![program, "--handoff"@]) == Ok::<
            (Seq<Seq<char>>, Option<LaunchView>),
            Seq<char>,
        >((seq![program, "--handoff"@], None)),
        remote_args_of(seq![program]) == Ok::<(Seq<Seq<char>>, Option<LaunchView>), Seq<char>>(
            (seq![program], None),
        ),
{
    let name = if keys is Local {
        "local"@
    } else {
        "server"@
    };
    reveal_strlit("local");
    reveal_strlit("server");
    assert("local"@.len() != "server"@.len());
    reveal_with_fuel(read_items, 5);
    let none = Seq::<Seq<char>>::empty();
    assert(items_of(none) =~= Seq::<ArgItem>::empty());
    // With a host alone.
    let one = seq![program, "--remote"@, host];
    assert(one.skip(1) =~= seq!["--remote"@, host] + none);
    law_spellings_agree(host, none);
    let items = seq![ArgItem::Remote(Some(host))];
    assert(items_of(one.skip(1)) =~= items);
    assert(items.drop_first() =~= Seq::<ArgItem>::empty());
    assert(one.take(1) =~= seq![program]);
    // With everything.
    let tail = seq!["--remote-keybindings"@, name, "--handoff"@];
    let all = seq![program, "--remote"@, host, "--remote-keybindings"@, name, "--handoff"@];
    assert(all.skip(1) =~= seq!["--remote"@, host] + tail);
    law_spellings_agree(host, tail);
    assert(tail =~= seq!["--remote-keybindings"@, name] + seq!["--handoff"@]);
    law_spellings_agree(name, seq!["--handoff"@]);
    assert(seq!["--handoff"@] =~= seq!["--handoff"@] + none);
    let every = seq![
        ArgItem::Remote(Some(host)),
        ArgItem::Keybindings(Some(name)),
        ArgItem::Handoff,
    ];
    assert(items_of(all.skip(1)) =~= every);
    assert(every.drop_first() =~= seq![ArgItem::Keybindings(Some(name)), ArgItem::Handoff]);
    assert(every.drop_first().drop_first() =~= seq![ArgItem::Handoff]);
    assert(every.drop_first().drop_first().drop_first() =~= Seq::<ArgItem>::empty());
    assert(all.take(1) =~= seq![program]);
    // With a handoff and no host.
    let alone = seq![program, "--handoff"@];
    assert(alone.skip(1) =~= seq!["--handoff"@] + none);
    let only = seq![ArgItem::Handoff];
    assert(items_of(alone.skip(1)) =~= only);
    assert(only.drop_first() =~= Seq::<ArgItem>::empty());
    assert(alone.take(1) =~= seq![program]);
    assert(seq![program].push("--handoff"@) =~= seq![program, "--handoff"@]);
    // With nothing.
    let bare = seq![program];
    assert(bare.skip(1) =~= none);
    assert(bare.take(1) =~= seq![program]);
}

/// A host may be named once, must not be empty or look like an option, and is needed where keys
/// are given.
pub proof fn law_bad_launches_are_refused(program: Seq<char>, host: Seq<char>, other: Seq<char>)
    requires
        host.len() > 0,
        host[0] != '-',
    ensures
        remote_args_of(seq![program, "--remote"@]) is Err,
        remote_args_of(seq![program, "--remote"@, Seq::empty()]) is Err,
        other.len() > 0 && other[0] == '-' ==> remote_args_of(
            seq![program, "--remote"@, other],
        ) is Err,
        remote_args_of(seq![program, "--remote"@, host, "--remote"@, other]) is Err,
        remote_args_of(seq![program, "--remote-keybindings"@, other]) is Err,
{
    reveal_with_fuel(read_items, 4);
    lemma_option_words();
    let none = Seq::<Seq<char>>::empty();
    let bare = seq![program, "--remote"@];
    assert(bare.skip(1) =~= seq!["--remote"@]);
    assert(seq!["--remote"@].skip(1) =~= none);
    assert(items_of(none) =~= Seq::<ArgItem>::empty());
    assert(items_of(seq!["--remote"@]) =~= seq![ArgItem::Remote(None)]);
    let empty = seq![program, "--remote"@, Seq::<char>::empty()];
    assert(empty.skip(1) =~= seq!["--remote"@, Seq::<char>::empty()] + none);
    law_spellings_agree(Seq::empty(), none);
    assert(items_of(empty.skip(1)) =~= seq![ArgItem::Remote(Some(Seq::<char>::empty()))]);
    let dashed = seq![program, "--remote"@, other];
    assert(dashed.skip(1) =~= seq!["--remote"@, other] + none);
    law_spellings_agree(other, none);
    assert(items_of(dashed.skip(1)) =~= seq![ArgItem::Remote(Some(other))]);
    let twice = seq![program, "--remote"@, host, "--remote"@, other];
    assert(twice.skip(1) =~= seq!["--remote"@, host] + (seq!["--remote"@, other] + none));
    law_spellings_agree(host, seq!["--remote"@, other] + none);
    let both = seq![ArgItem::Remote(Some(host)), ArgItem::Remote(Some(other))];
    assert(items_of(twice.skip(1)) =~= both);
    assert(both.drop_first() =~= seq![ArgItem::Remote(Some(other))]);
    let keys = seq![program, "--remote-keybindings"@, other];
    assert(keys.skip(1) =~= seq!["--remote-keybindings"@, other] + none);
    let key_items = seq![ArgItem::Keybindings(Some(other))];
    assert(items_of(keys.skip(1)) =~= key_items);
    assert(key_items.drop_first() =~= Seq::<ArgItem>::empty());
}

} // verus!
