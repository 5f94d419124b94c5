//! The words that a shell reads in a line, and what the command by which a user attaches again
//! comes to when it is typed.

use vstd::prelude::*;

use crate::protocol::DEFAULT_SESSION_NAME;
use crate::remote::{
    is_shell_safe, lemma_replace_front, reattach_command_of, shell_quote_spec,
};
use crate::remote_args::{
    checked_target, first_item, first_span, initial, items_of, law_keybindings_name_parses,
    option_args, read_item, read_items, remote_args_of, ArgItem, ArgState, LaunchView,
    RemoteKeybindings,
};
use crate::text;

verus! {

/// A word before the other words of a line, where they can be read.
pub open spec fn word_before(word: Seq<char>, rest: Option<Seq<Seq<char>>>) -> Option<
    Seq<Seq<char>>,
> {
    match rest {
        Some(words) => Some(seq![word] + words),
        None => None,
    }
}

/// The words that a POSIX shell reads in `line`, made of safe characters, characters behind a
/// backslash and parts in single quotes, with blanks between them. `word` is what has been read
/// of a word that has begun, `quoted` says whether `line` begins inside single quotes.
pub open spec fn line_reads(line: Seq<char>, word: Option<Seq<char>>, quoted: bool) -> Option<
    Seq<Seq<char>>,
>
    decreases line.len(),
{
    let so_far = match word {
        Some(w) => w,
        None => Seq::empty(),
    };
    if line.len() == 0 {
        if quoted {
            None
        } else {
            match word {
                Some(w) => Some(seq![w]),
                None => Some(Seq::empty()),
            }
        }
    } else if line[0] == '\'' {
        line_reads(line.skip(1), Some(so_far), !quoted)
    } else if quoted {
        line_reads(line.skip(1), Some(so_far.push(line[0])), true)
    } else if line[0] == '\\' {
        if line.len() > 1 && line[1] != '\n' {
            line_reads(line.skip(2), Some(so_far.push(line[1])), false)
        } else {
            None
        }
    } else if line[0] == ' ' || line[0] == '\t' {
        match word {
            Some(w) => word_before(w, line_reads(line.skip(1), None, false)),
            None => line_reads(line.skip(1), None, false),
        }
    } else if is_shell_safe(line[0]) {
        line_reads(line.skip(1), Some(so_far.push(line[0])), false)
    } else {
        None
    }
}

/// The words that a POSIX shell reads in a line.
pub open spec fn shell_words_of(line: Seq<char>) -> Option<Seq<Seq<char>>> {
    line_reads(line, None, false)
}

/// A line of quoted words with a blank between them.
pub open spec fn quoted_line(words: Seq<Seq<char>>) -> Seq<char>
    decreases words.len(),
{
    if words.len() == 0 {
        Seq::empty()
    } else if words.len() == 1 {
        shell_quote_spec(words[0])
    } else {
        shell_quote_spec(words[0]) + " "@ + quoted_line(words.drop_first())
    }
}

proof fn lemma_quoted_part(value: Seq<char>, tail: Seq<char>, word: Seq<char>)
    ensures
        line_reads(
            text::replace_spec(value, '\'', "'\\''"@) + "'"@ + tail,
            Some(word),
            true,
        ) == line_reads(tail, Some(word + value), false),
    decreases value.len(),
{
    reveal_strlit("'\\''");
    reveal_strlit("'");
    let esc = "'\\''"@;
    let end = "'"@;
    let s = text::replace_spec(value, '\'', esc) + end + tail;
    if value.len() == 0 {
        assert(s =~= end + tail);
        assert(s.skip(1) =~= tail);
        assert(word + value =~= word);
    } else {
        let c = value[0];
        let rest = value.drop_first();
        assert(value =~= seq![c] + rest);
        lemma_replace_front(c, rest, '\'', esc);
        lemma_quoted_part(rest, tail, word.push(c));
        assert(word.push(c) + rest =~= word + value);
        let behind = text::replace_spec(rest, '\'', esc) + end + tail;
        if c == '\'' {
            assert(s =~= esc + behind);
            let one = s.skip(1);
            let three = one.skip(2);
            assert(s[0] == '\'' && s[1] == '\\' && s[2] == '\'' && s[3] == '\'');
            assert(one[0] == '\\' && one[1] == '\'');
            assert(three[0] == '\'');
            assert(three.skip(1) =~= behind);
            assert(line_reads(three, Some(word.push(c)), false) == line_reads(
                behind,
                Some(word.push(c)),
                true,
            ));
            assert(line_reads(one, Some(word), false) == line_reads(
                three,
                Some(word.push(c)),
                false,
            ));
            assert(line_reads(s, Some(word), true) == line_reads(one, Some(word), false));
        } else {
            assert(s =~= seq![c] + behind);
            assert(s[0] == c);
            assert(s.skip(1) =~= behind);
        }
    }
}

proof fn lemma_safe_part(value: Seq<char>, tail: Seq<char>, word: Option<Seq<char>>)
    requires
        value.len() > 0,
        forall|i: int| 0 <= i < value.len() ==> is_shell_safe(#[trigger] value[i]),
    ensures
        line_reads(value + tail, word, false) == line_reads(
            tail,
            Some(
                (match word {
                    Some(w) => w,
                    None => Seq::empty(),
                }) + value,
            ),
            false,
        ),
    decreases value.len(),
{
    let so_far = match word {
        Some(w) => w,
        None => Seq::empty(),
    };
    let c = value[0];
    let rest = value.skip(1);
    let s = value + tail;
    assert(is_shell_safe(value[0]));
    assert(s[0] == c);
    assert(s.skip(1) =~= rest + tail);
    assert(line_reads(s, word, false) == line_reads(rest + tail, Some(so_far.push(c)), false));
    if rest.len() > 0 {
        assert forall|i: int| 0 <= i < rest.len() implies is_shell_safe(#[trigger] rest[i]) by {
            assert(rest[i] == value[i + 1]);
        }
        lemma_safe_part(rest, tail, Some(so_far.push(c)));
        assert(so_far.push(c) + rest =~= so_far + value);
    } else {
        assert(rest + tail =~= tail);
        assert(so_far + value =~= so_far.push(c));
    }
}

proof fn lemma_quoted_word(value: Seq<char>, tail: Seq<char>)
    ensures
        line_reads(shell_quote_spec(value) + tail, None, false) == line_reads(
            tail,
            Some(value),
            false,
        ),
{
    reveal_strlit("'");
    let s = shell_quote_spec(value) + tail;
    assert(Seq::<char>::empty() + value =~= value);
    if value.len() > 0 && (forall|i: int|
        0 <= i < value.len() ==> is_shell_safe(#[trigger] value[i])) {
        lemma_safe_part(value, tail, None);
    } else {
        let inner = text::replace_spec(value, '\'', "'\\''"@) + "'"@ + tail;
        assert(s =~= "'"@ + inner);
        assert(s[0] == '\'');
        assert(s.skip(1) =~= inner);
        lemma_quoted_part(value, tail, Seq::empty());
    }
}

/// A shell reads a line of quoted words as these words, whatever they hold.
pub proof fn law_shell_reads_a_quoted_line(words: Seq<Seq<char>>)
    ensures
        shell_words_of(quoted_line(words)) == Some(words),
    decreases words.len(),
{
    reveal_strlit(" ");
    if words.len() == 0 {
        assert(words =~= Seq::<Seq<char>>::empty());
    } else if words.len() == 1 {
        let end = Seq::<char>::empty();
        lemma_quoted_word(words[0], end);
        assert(shell_quote_spec(words[0]) + end =~= shell_quote_spec(words[0]));
        assert(words =~= seq![words[0]]);
    } else {
        let rest = words.drop_first();
        law_shell_reads_a_quoted_line(rest);
        let tail = " "@ + quoted_line(rest);
        lemma_quoted_word(words[0], tail);
        assert(shell_quote_spec(words[0]) + tail =~= quoted_line(words));
        assert(tail.skip(1) =~= quoted_line(rest));
        assert(tail[0] == ' ');
        assert(!is_shell_safe(' '));
        assert(seq![words[0]] + rest =~= words);
    }
}

proof fn lemma_quoted_lines_join(a: Seq<Seq<char>>, b: Seq<Seq<char>>)
    requires
        a.len() > 0,
        b.len() > 0,
    ensures
        quoted_line(a + b) == quoted_line(a) + " "@ + quoted_line(b),
    decreases a.len(),
{
    let all = a + b;
    if a.len() == 1 {
        assert(all.drop_first() =~= b);
    } else {
        lemma_quoted_lines_join(a.drop_first(), b);
        assert(all.drop_first() =~= a.drop_first() + b);
        assert(quoted_line(all) =~= quoted_line(a) + " "@ + quoted_line(b));
    }
}

proof fn lemma_safe_word(word: Seq<char>)
    requires
        is_safe_word(word),
    ensures
        shell_quote_spec(word) == word,
        quoted_line(seq![word]) == word,
{
    assert(seq![word][0] == word);
}

/// The words of the command by which a user attaches to a remote session again.
pub open spec fn reattach_words(
    program: Seq<char>,
    target: Seq<char>,
    session: Seq<char>,
    keybindings: RemoteKeybindings,
    live_handoff: bool,
) -> Seq<Seq<char>> {
    seq![
        if program.len() == 0 {
            "herdr"@
        } else {
            program
        },
        "--remote"@,
        target,
    ] + (if keybindings != RemoteKeybindings::Local {
        seq!["--remote-keybindings"@, keybindings.name()]
    } else {
        Seq::empty()
    }) + (if live_handoff {
        seq!["--handoff"@]
    } else {
        Seq::empty()
    }) + (if session != DEFAULT_SESSION_NAME@ {
        seq!["--session"@, session]
    } else {
        Seq::empty()
    })
}

/// The words of an option with its value.
proof fn lemma_option_line(option: Seq<char>, value: Seq<char>)
    requires
        is_safe_word(option),
    ensures
        quoted_line(seq![option, value]) == option + " "@ + shell_quote_spec(value),
{
    lemma_safe_word(option);
    lemma_quoted_lines_join(seq![option], seq![value]);
    assert(seq![option] + seq![value] =~= seq![option, value]);
    assert(seq![value][0] == value);
}

proof fn lemma_option_words()
    ensures
        " --remote "@ == " "@ + "--remote"@ + " "@,
        " --remote-keybindings "@ == " "@ + "--remote-keybindings"@ + " "@,
        " --handoff"@ == " "@ + "--handoff"@,
        " --session "@ == " "@ + "--session"@ + " "@,
{
    reveal_strlit(" ");
    reveal_strlit(" --remote ");
    reveal_strlit("--remote");
    reveal_strlit(" --remote-keybindings ");
    reveal_strlit("--remote-keybindings");
    reveal_strlit(" --handoff");
    reveal_strlit("--handoff");
    reveal_strlit(" --session ");
    reveal_strlit("--session");
    assert(" --remote "@ =~= " "@ + "--remote"@ + " "@);
    assert(" --remote-keybindings "@ =~= " "@ + "--remote-keybindings"@ + " "@);
    assert(" --handoff"@ =~= " "@ + "--handoff"@);
    assert(" --session "@ =~= " "@ + "--session"@ + " "@);
}

/// Whether a word holds safe characters only.
spec fn is_safe_word(word: Seq<char>) -> bool {
    word.len() > 0 && forall|i: int| 0 <= i < word.len() ==> is_shell_safe(#[trigger] word[i])
}

proof fn lemma_options_are_safe()
    ensures
        is_safe_word("--remote"@),
        is_safe_word("--remote-keybindings"@),
        is_safe_word("--handoff"@),
        is_safe_word("--session"@),
{
    reveal_strlit("--remote");
    reveal_strlit("--remote-keybindings");
    reveal_strlit("--handoff");
    reveal_strlit("--session");
}

proof fn lemma_keybindings_are_safe(keybindings: RemoteKeybindings)
    ensures
        is_safe_word(keybindings.name()),
{
    reveal_strlit("local");
    reveal_strlit("server");
}

proof fn lemma_option_and_value(
    line: Seq<char>,
    words: Seq<Seq<char>>,
    option: Seq<char>,
    value: Seq<char>,
)
    requires
        words.len() > 0,
        line == quoted_line(words),
        is_safe_word(option),
    ensures
        line + (" "@ + option + " "@ + shell_quote_spec(value)) == quoted_line(
            words + seq![option, value],
        ),
        line + (" "@ + option + " "@) + shell_quote_spec(value) == quoted_line(
            words + seq![option, value],
        ),
{
    lemma_option_line(option, value);
    lemma_quoted_lines_join(words, seq![option, value]);
    assert(line + (" "@ + option + " "@ + shell_quote_spec(value)) =~= line + " "@ + (option + " "@
        + shell_quote_spec(value)));
    assert(line + (" "@ + option + " "@) + shell_quote_spec(value) =~= line + " "@ + (option + " "@
        + shell_quote_spec(value)));
}

/// The command by which a user attaches again is a line of its quoted words.
pub proof fn law_reattach_command_is_a_quoted_line(
    program: Seq<char>,
    target: Seq<char>,
    session: Seq<char>,
    keybindings: RemoteKeybindings,
    live_handoff: bool,
)
    ensures
        reattach_command_of(program, target, session, keybindings, live_handoff) == quoted_line(
            reattach_words(program, target, session, keybindings, live_handoff),
        ),
{
    lemma_option_words();
    lemma_options_are_safe();
    lemma_keybindings_are_safe(keybindings);
    let word = if program.len() == 0 {
        "herdr"@
    } else {
        program
    };
    let none = Seq::<Seq<char>>::empty();
    let nothing = Seq::<char>::empty();
    let first = seq![word, "--remote"@, target];
    let start = shell_quote_spec(word) + " --remote "@ + shell_quote_spec(target);
    assert(seq![word][0] == word);
    lemma_option_and_value(shell_quote_spec(word), seq![word], "--remote"@, target);
    assert(seq![word] + seq!["--remote"@, target] =~= first);
    assert(start == quoted_line(first));
    let keys = if keybindings != RemoteKeybindings::Local {
        seq!["--remote-keybindings"@, keybindings.name()]
    } else {
        none
    };
    let one = start + (if keybindings != RemoteKeybindings::Local {
        " --remote-keybindings "@ + keybindings.name()
    } else {
        nothing
    });
    lemma_safe_word(keybindings.name());
    lemma_option_and_value(start, first, "--remote-keybindings"@, keybindings.name());
    assert(first + none =~= first);
    assert(start + nothing =~= start);
    assert(one == quoted_line(first + keys));
    let handoff = if live_handoff {
        seq!["--handoff"@]
    } else {
        none
    };
    let two = one + (if live_handoff {
        " --handoff"@
    } else {
        nothing
    });
    lemma_safe_word("--handoff"@);
    lemma_quoted_lines_join(first + keys, seq!["--handoff"@]);
    assert(one + (" "@ + "--handoff"@) =~= one + " "@ + "--handoff"@);
    assert(first + keys + none =~= first + keys);
    assert(one + nothing =~= one);
    assert(two == quoted_line(first + keys + handoff));
    lemma_option_and_value(two, first + keys + handoff, "--session"@, session);
    assert(first + keys + handoff + none =~= first + keys + handoff);
    assert(two + nothing =~= two);
}

proof fn lemma_option_read(state: ArgState, args: Seq<Seq<char>>)
    requires
        args.len() > 0,
    ensures
        read_items(state, items_of(args)) == match read_item(state, first_item(args)) {
            Ok(next) => read_items(next, items_of(args.skip(first_span(args)))),
            Err(e) => Err(e),
        },
{
    let items = items_of(args);
    assert(items[0] == first_item(args));
    assert(items.drop_first() =~= items_of(args.skip(first_span(args))));
}

/// The command by which a user attaches to a remote session again, typed into a shell, asks for
/// what it was made of: its words are those of the command line, and they are taken apart into
/// the target, the key bindings and the handoff, with the program and the session left over. That
/// holds whatever quotes and blanks program, target and session hold; the target must be one that
/// can be asked for, and the session must not read like one of the remote options.
pub proof fn law_reattach_command_asks_for_the_session(
    program: Seq<char>,
    target: Seq<char>,
    session: Seq<char>,
    keybindings: RemoteKeybindings,
    live_handoff: bool,
)
    requires
        checked_target(Some(target)) is Ok,
        first_item(seq![session]) is Other,
    ensures
        ({
            let command = reattach_command_of(
                program,
                target,
                session,
                keybindings,
                live_handoff,
            );
            let word = if program.len() == 0 {
                "herdr"@
            } else {
                program
            };
            &&& shell_words_of(command) is Some
            &&& remote_args_of(shell_words_of(command)->0) == Ok::<
                (Seq<Seq<char>>, Option<LaunchView>),
                Seq<char>,
            >(
                (
                    if session == DEFAULT_SESSION_NAME@ {
                        seq![word]
                    } else {
                        seq![word, "--session"@, session]
                    },
                    Some(LaunchView { target, keybindings, live_handoff }),
                ),
            )
        }),
{
    let words = reattach_words(program, target, session, keybindings, live_handoff);
    law_reattach_command_is_a_quoted_line(program, target, session, keybindings, live_handoff);
    law_shell_reads_a_quoted_line(words);
    law_keybindings_name_parses(keybindings);
    reveal_strlit("--remote");
    reveal_strlit("--remote-keybindings");
    reveal_strlit("--handoff");
    reveal_strlit("--session");
    reveal_strlit("--remote=");
    reveal_strlit("--remote-keybindings=");
    let word = words[0];
    let start = initial(words);
    assert(start.rest =~= seq![word]);
    let keys = if keybindings != RemoteKeybindings::Local {
        seq!["--remote-keybindings"@, keybindings.name()]
    } else {
        Seq::empty()
    };
    let handoff = if live_handoff {
        seq!["--handoff"@]
    } else {
        Seq::empty()
    };
    let named = if session != DEFAULT_SESSION_NAME@ {
        seq!["--session"@, session]
    } else {
        Seq::empty()
    };
    let args = option_args(words);
    assert(args =~= seq!["--remote"@, target] + keys + handoff + named);
    lemma_option_read(start, args);
    assert(args[0] == "--remote"@ && args[1] == target);
    assert("--remote"@.len() != "--handoff"@.len());
    let after_target = ArgState { target: Some(target), ..start };
    let tail = args.skip(2);
    assert(tail =~= keys + handoff + named);
    assert(read_items(start, items_of(args)) == read_items(after_target, items_of(tail)));
    let bound = if keybindings != RemoteKeybindings::Local {
        Some(keybindings)
    } else {
        None
    };
    let after_keys = ArgState { keybindings: bound, ..after_target };
    let third = handoff + named;
    if keybindings != RemoteKeybindings::Local {
        lemma_option_read(after_target, tail);
        assert(tail[0] == "--remote-keybindings"@ && tail[1] == keybindings.name());
        lemma_no_attached_value(tail[0], 8);
        assert(tail.skip(2) =~= third);
    } else {
        assert(tail =~= third);
    }
    assert(read_items(after_target, items_of(tail)) == read_items(after_keys, items_of(third)));
    let after_handoff = ArgState { handoff: live_handoff, ..after_keys };
    if live_handoff {
        lemma_option_read(after_keys, third);
        assert(third[0] == "--handoff"@);
        assert(third.skip(1) =~= named);
    } else {
        assert(third =~= named);
    }
    assert(read_items(after_keys, items_of(third)) == read_items(after_handoff, items_of(named)));
    if session != DEFAULT_SESSION_NAME@ {
        lemma_option_read(after_handoff, named);
        assert(named[0] == "--session"@);
        lemma_no_attached_value("--session"@, 2);
        let last = named.skip(1);
        assert(last =~= seq![session]);
        let after_option = ArgState {
            rest: after_handoff.rest.push("--session"@),
            ..after_handoff
        };
        lemma_option_read(after_option, last);
        assert(last[0] == session);
        let end = ArgState { rest: after_option.rest.push(session), ..after_option };
        assert(last.skip(1) =~= Seq::<Seq<char>>::empty());
        assert(items_of(last.skip(1)) =~= Seq::<ArgItem>::empty());
        assert(read_items(start, items_of(args)) == Ok::<ArgState, Seq<char>>(end));
        assert(end.rest =~= seq![word, "--session"@, session]);
    } else {
        assert(items_of(named) =~= Seq::<ArgItem>::empty());
        assert(read_items(start, items_of(args)) == Ok::<ArgState, Seq<char>>(after_handoff));
    }
}

/// An argument that differs from the beginning of the remote options with a value attached is none
/// of them.
proof fn lemma_no_attached_value(arg: Seq<char>, i: int)
    requires
        0 <= i < arg.len(),
        i < "--remote="@.len(),
        arg[i] != "--remote="@[i],
        i < 8 ==> arg[i] != "--remote-keybindings="@[i],
    ensures
        !"--remote="@.is_prefix_of(arg),
        i < 8 ==> !"--remote-keybindings="@.is_prefix_of(arg),
{
    reveal_strlit("--remote=");
    reveal_strlit("--remote-keybindings=");
    if "--remote="@.is_prefix_of(arg) {
        assert(arg.subrange(0, "--remote="@.len() as int)[i] == arg[i]);
    }
    if i < 8 && "--remote-keybindings="@.is_prefix_of(arg) {
        assert(arg.subrange(0, "--remote-keybindings="@.len() as int)[i] == arg[i]);
    }
}

} // verus!
