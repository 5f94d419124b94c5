//! What a user may write for a remote, and what the registry keeps of it.

use vstd::prelude::*;

use crate::add_remote::add_error_text;
use crate::remote_registry::{
    add_outcome, bullet_spec, canonical_key_of, default_display_name_of, is_option, key_listed,
    key_taken, name_taken, next_id_of, numbered_id, ssh_bare, ssh_options, ssh_target_of,
    takes_value, target_of, RemoteKeybindingsSnapshot, RemoteRegistryError, RemoteView, TargetView,
};
use crate::text::{after_last_spec, before_either_spec, decimal, trim_spec};

verus! {

/// Whether a letter is one of ssh's options that take a value.
pub open spec fn ssh_letter_with_value(c: char) -> bool {
    ||| c == 'B' || c == 'b' || c == 'c' || c == 'D' || c == 'E' || c == 'e' || c == 'F'
    ||| c == 'I' || c == 'i' || c == 'J' || c == 'L' || c == 'l' || c == 'm' || c == 'O'
    ||| c == 'o' || c == 'p' || c == 'Q' || c == 'R' || c == 'S' || c == 'W' || c == 'w'
}

/// The letters of ssh's options with a value are just these.
proof fn lemma_letters(c: char)
    ensures
        takes_value(seq!['-', c]) <==> ssh_letter_with_value(c),
{
    reveal_strlit("BbcDEeFIiJLlmOopQRSWw");
    let letters = "BbcDEeFIiJLlmOopQRSWw"@;
    assert(letters[0] == 'B' && letters[1] == 'b' && letters[2] == 'c' && letters[3] == 'D'
        && letters[4] == 'E' && letters[5] == 'e' && letters[6] == 'F' && letters[7] == 'I'
        && letters[8] == 'i' && letters[9] == 'J' && letters[10] == 'L' && letters[11] == 'l'
        && letters[12] == 'm' && letters[13] == 'O' && letters[14] == 'o' && letters[15] == 'p'
        && letters[16] == 'Q' && letters[17] == 'R' && letters[18] == 'S' && letters[19] == 'W'
        && letters[20] == 'w');
    if letters.contains(c) {
        let i = choose|i: int| 0 <= i < letters.len() && letters[i] == c;
        assert(0 <= i <= 20);
    }
}

/// Whether a word can be a host: it is not empty and no option.
pub open spec fn is_host(word: Seq<char>) -> bool {
    word.len() > 0 && word[0] != '-'
}

proof fn lemma_one_option(option: Seq<Seq<char>>, host: Seq<char>)
    requires
        option.len() == 1 || option.len() == 2,
        is_option(option[0]),
        option.len() == 2 <==> takes_value(option[0]),
        is_host(host),
    ensures
        ssh_bare(option + seq![host]) == seq![host],
        ssh_options(option + seq![host]) == option,
        ssh_bare(seq![host] + option) == seq![host],
        ssh_options(seq![host] + option) == option,
{
    let before = option + seq![host];
    let after = seq![host] + option;
    let n = option.len() as int;
    reveal_with_fuel(ssh_bare, 4);
    reveal_with_fuel(ssh_options, 4);
    assert(before[0] == option[0]);
    assert(before.skip(n) =~= seq![host]);
    assert(before.take(n) =~= option);
    assert(seq![host].skip(1) =~= Seq::<Seq<char>>::empty());
    assert(ssh_bare(seq![host]) =~= seq![host]);
    assert(ssh_options(seq![host]) =~= Seq::<Seq<char>>::empty());
    assert(ssh_options(before) =~= option);
    assert(after.skip(1) =~= option);
    assert(option.skip(n) =~= Seq::<Seq<char>>::empty());
    assert(option.take(n) =~= option);
    assert(ssh_bare(option) =~= Seq::<Seq<char>>::empty());
    assert(ssh_options(option) =~= option);
    assert(ssh_bare(after) =~= seq![host]);
}

/// An option of ssh that takes a value keeps it: for each such letter, the word behind it is its
/// value and not the host, wherever the option stands.
pub proof fn law_option_letters_take_their_value(c: char, value: Seq<char>, host: Seq<char>)
    requires
        ssh_letter_with_value(c),
        is_host(host),
    ensures
        ssh_target_of(seq!["ssh"@, seq!['-', c], value, host]) == Some(
            TargetView::Ssh { target: host, args: seq![seq!['-', c], value] },
        ),
        ssh_target_of(seq!["ssh"@, host, seq!['-', c], value]) == Some(
            TargetView::Ssh { target: host, args: seq![seq!['-', c], value] },
        ),
        ssh_target_of(seq![seq!['-', c], value, host]) == Some(
            TargetView::Ssh { target: host, args: seq![seq!['-', c], value] },
        ),
{
    lemma_letters(c);
    let option = seq![seq!['-', c], value];
    lemma_one_option(option, host);
    reveal_strlit("ssh");
    assert("ssh"@[0] == 's');
    let words = seq!["ssh"@, seq!['-', c], value, host];
    assert(words.skip(1) =~= option + seq![host]);
    let later = seq!["ssh"@, host, seq!['-', c], value];
    assert(later.skip(1) =~= seq![host] + option);
    let bare = seq![seq!['-', c], value, host];
    assert(bare =~= option + seq![host]);
    assert(seq!['-', c][0] != "ssh"@[0]);
    assert(bare[0] != "ssh"@);
}

/// An option of ssh that takes no value leaves the word behind it alone: a flag, or a letter with
/// its value written on to it, and then the host; a second host is refused.
pub proof fn law_flags_take_no_value(flag: Seq<char>, host: Seq<char>, other: Seq<char>)
    requires
        flag.len() >= 1,
        flag[0] == '-',
        flag.len() == 2 ==> !ssh_letter_with_value(flag[1]),
        is_host(host),
        is_host(other),
    ensures
        ssh_target_of(seq!["ssh"@, flag, host]) == Some(
            TargetView::Ssh { target: host, args: seq![flag] },
        ),
        ssh_target_of(seq!["ssh"@, host, flag]) == Some(
            TargetView::Ssh { target: host, args: seq![flag] },
        ),
        ssh_target_of(seq!["ssh"@, flag, host, other]) is None,
{
    if flag.len() == 2 {
        lemma_letters(flag[1]);
        assert(flag =~= seq!['-', flag[1]]);
    }
    assert(!takes_value(flag));
    lemma_one_option(seq![flag], host);
    let words = seq!["ssh"@, flag, host];
    assert(words.skip(1) =~= seq![flag] + seq![host]);
    let later = seq!["ssh"@, host, flag];
    assert(later.skip(1) =~= seq![host] + seq![flag]);
    let two = seq!["ssh"@, flag, host, other];
    assert(two.skip(1) =~= seq![flag, host, other]);
    assert(seq![flag, host, other].skip(1) =~= seq![host, other]);
    assert(seq![host, other].skip(1) =~= seq![other]);
    assert(seq![other].skip(1) =~= Seq::<Seq<char>>::empty());
    reveal_with_fuel(ssh_bare, 4);
    assert(ssh_bare(seq![host, other]).len() == 2);
}

/// With no host, or with two, the words name no remote; the program alone is no host.
pub proof fn law_one_host_is_needed(host: Seq<char>, other: Seq<char>)
    requires
        is_host(host),
        is_host(other),
    ensures
        ssh_target_of(Seq::empty()) is None,
        ssh_target_of(seq!["ssh"@]) is None,
        ssh_target_of(seq!["ssh"@, host, other]) is None,
        host != "ssh"@ ==> ssh_target_of(seq![host, other]) is None,
        host != "ssh"@ ==> ssh_target_of(seq![host]) == Some(
            TargetView::Ssh { target: host, args: Seq::empty() },
        ),
        ssh_target_of(seq!["ssh"@, host]) == Some(
            TargetView::Ssh { target: host, args: Seq::empty() },
        ),
{
    reveal_with_fuel(ssh_bare, 3);
    reveal_with_fuel(ssh_options, 3);
    assert(seq!["ssh"@].skip(1) =~= Seq::<Seq<char>>::empty());
    assert(seq!["ssh"@, host, other].skip(1) =~= seq![host, other]);
    assert(seq![host, other].skip(1) =~= seq![other]);
    assert(seq![other].skip(1) =~= Seq::<Seq<char>>::empty());
    assert(seq!["ssh"@, host].skip(1) =~= seq![host]);
    assert(seq![host].skip(1) =~= Seq::<Seq<char>>::empty());
    assert(ssh_bare(seq![host, other]).len() == 2);
    assert(ssh_bare(seq![host]) =~= seq![host]);
    assert(ssh_options(seq![host]) =~= Seq::<Seq<char>>::empty());
}

/// `localhost` and `local:default` are this machine's default session; `local:` with any other
/// name is the session of that name, and with none it is refused, as is an empty target.
pub proof fn law_local_targets(input: Seq<char>, name: Seq<char>)
    ensures
        trim_spec(input).len() == 0 ==> target_of(input) is None,
        trim_spec(input) == "localhost"@ ==> target_of(input) == Some(
            TargetView::Local { session: None },
        ),
        trim_spec(input) == "local:"@ + name && trim_spec(name).len() == 0 ==> target_of(
            input,
        ) is None,
        trim_spec(input) == "local:"@ + name && trim_spec(name) == "default"@ ==> target_of(input)
            == Some(TargetView::Local { session: None }),
        trim_spec(input) == "local:"@ + name && trim_spec(name).len() > 0 && trim_spec(name)
            != "default"@ ==> target_of(input) == Some(
            TargetView::Local { session: Some(trim_spec(name)) },
        ),
{
    reveal_strlit("localhost");
    reveal_strlit("local:");
    reveal_strlit("default");
    if trim_spec(input) == "local:"@ + name {
        assert(("local:"@ + name)[5] == ':');
        assert("localhost"@[5] == 'h');
        assert(("local:"@ + name).skip("local:"@.len() as int) =~= name);
        assert("local:"@.is_prefix_of("local:"@ + name));
    }
}

/// Two remotes are the same exactly by their key: this machine's default session has one key
/// however it was written, and a host's key tells its options.
pub proof fn law_keys(host: Seq<char>, name: Seq<char>, option: Seq<char>, value: Seq<char>)
    ensures
        canonical_key_of(TargetView::Ssh { target: host, args: Seq::empty() }) == "ssh:"@ + host,
        canonical_key_of(TargetView::Ssh { target: host, args: seq![option, value] })
            != canonical_key_of(TargetView::Ssh { target: host, args: Seq::empty() }),
        canonical_key_of(TargetView::Local { session: None }) == canonical_key_of(
            TargetView::Local { session: Some("default"@) },
        ),
        canonical_key_of(TargetView::Local { session: Some(name) }) == "local:"@ + name,
{
    reveal_strlit("\u{1f}");
    let with = canonical_key_of(TargetView::Ssh { target: host, args: seq![option, value] });
    assert(with.len() > ("ssh:"@ + host).len());
}

proof fn lemma_after_last(front: Seq<char>, host: Seq<char>, c: char)
    requires
        !host.contains(c),
    ensures
        after_last_spec(front + seq![c] + host, c) == host,
        after_last_spec(host, c) == host,
    decreases host.len(),
{
    let whole = front + seq![c] + host;
    if host.len() == 0 {
        assert(whole.last() == c);
        assert(after_last_spec(whole, c) =~= host);
    } else {
        let shorter = host.drop_last();
        assert(host.contains(host.last()));
        assert forall|i: int| 0 <= i < shorter.len() implies shorter[i] != c by {
            assert(host.contains(host[i]));
        }
        lemma_after_last(front, shorter, c);
        assert(whole.drop_last() =~= front + seq![c] + shorter);
        assert(after_last_spec(whole, c) =~= host);
        assert(after_last_spec(host, c) =~= host);
    }
}

proof fn lemma_before_either(host: Seq<char>, rest: Seq<char>, a: char, b: char)
    requires
        !host.contains(a),
        !host.contains(b),
        rest.len() > 0 ==> rest[0] == a || rest[0] == b,
    ensures
        before_either_spec(host + rest, a, b) == host,
    decreases host.len(),
{
    let whole = host + rest;
    if host.len() == 0 {
        assert(whole =~= rest);
        assert(before_either_spec(whole, a, b) =~= host);
    } else {
        let shorter = host.drop_first();
        assert(host.contains(host[0]));
        assert forall|i: int| 0 <= i < shorter.len() implies shorter[i] != a && shorter[i]
            != b by {
            assert(host.contains(host[i + 1]));
        }
        lemma_before_either(shorter, rest, a, b);
        assert(whole.drop_first() =~= shorter + rest);
        assert(before_either_spec(whole, a, b) =~= host);
    }
}

/// A remote that is given no name is called by its host, without the user before it or the port
/// behind it; a session by its own name, and the default one `local`.
pub proof fn law_default_names(user: Seq<char>, host: Seq<char>, port: Seq<char>, args: Seq<Seq<char>>)
    requires
        host.len() > 0,
        !host.contains('@'),
        !host.contains(':'),
        !host.contains('/'),
        !port.contains('@'),
        !"ssh://"@.is_prefix_of(user + seq!['@'] + host),
        !"ssh://"@.is_prefix_of(user + seq!['@'] + host + (seq![':'] + port)),
    ensures
        default_display_name_of(TargetView::Ssh { target: user + seq!['@'] + host, args }) == host,
        default_display_name_of(
            TargetView::Ssh { target: user + seq!['@'] + host + (seq![':'] + port), args },
        ) == host,
        default_display_name_of(TargetView::Local { session: Some(host) }) == host,
        default_display_name_of(TargetView::Local { session: None }) == "local"@,
{
    let plain = user + seq!['@'] + host;
    lemma_after_last(user, host, '@');
    lemma_before_either(host, Seq::empty(), ':', '/');
    assert(host + Seq::<char>::empty() =~= host);
    let tail = host + (seq![':'] + port);
    let with_port = user + seq!['@'] + host + (seq![':'] + port);
    assert(with_port =~= user + seq!['@'] + tail);
    assert forall|i: int| 0 <= i < tail.len() implies tail[i] != '@' by {
        if i < host.len() {
            assert(host.contains(host[i]));
        } else if i > host.len() {
            assert(port.contains(port[i - host.len() - 1]));
        }
    }
    lemma_after_last(user, tail, '@');
    lemma_before_either(host, seq![':'] + port, ':', '/');
}

/// A remote that is added is the one that was asked for: its target and keys are those given, its
/// name is the one given, without space around it, or that of its host, and it is enabled, is not
/// updated by itself and has no style of its own.
pub proof fn law_added_remote_is_the_one_asked_for(
    remotes: Seq<RemoteView>,
    name: Option<Seq<char>>,
    target: TargetView,
    keybindings: RemoteKeybindingsSnapshot,
    excluded: Seq<TargetView>,
)
    ensures
        match add_outcome(remotes, name, target, keybindings, excluded) {
            Ok(added) => {
                &&& added.target == target
                &&& added.keybindings == keybindings
                &&& name is Some ==> added.name == trim_spec(name->0)
                &&& name is None ==> added.name == trim_spec(default_display_name_of(target))
                &&& added.name.len() > 0
                &&& !added.disabled
                &&& !added.auto_update
                &&& added.session is None
                &&& added.style_bg is None
                &&& added.style_fg is None
                &&& added.style_bullet is None
                &&& forall|i: int|
                    0 <= i < remotes.len() ==> (#[trigger] remotes[i]).id != added.id
                        && remotes[i].name != added.name && canonical_key_of(remotes[i].target)
                        != canonical_key_of(target)
                &&& forall|i: int|
                    0 <= i < excluded.len() ==> canonical_key_of(#[trigger] excluded[i])
                        != canonical_key_of(target)
            },
            Err(e) => e is InvalidName || e is DuplicateName || e is DuplicateTarget,
        },
        name is Some && trim_spec(name->0).len() == 0 ==> add_outcome(
            remotes,
            name,
            target,
            keybindings,
            excluded,
        ) == Err::<RemoteView, RemoteRegistryError>(RemoteRegistryError::InvalidName),
{
    crate::remote_registry::law_next_id_is_fresh(remotes);
    match add_outcome(remotes, name, target, keybindings, excluded) {
        Ok(added) => {
            assert forall|i: int| 0 <= i < remotes.len() implies (#[trigger] remotes[i]).id
                != added.id && remotes[i].name != added.name && canonical_key_of(remotes[i].target)
                != canonical_key_of(target) by {
                assert(!name_taken(remotes, added.name));
                assert(!key_taken(remotes, canonical_key_of(target)));
            }
            assert forall|i: int| 0 <= i < excluded.len() implies canonical_key_of(
                #[trigger] excluded[i],
            ) != canonical_key_of(target) by {
                assert(!key_listed(excluded, canonical_key_of(target)));
            }
        },
        Err(e) => {},
    }
}

/// A remote is not added twice: what was added before stands in the way of another of the same
/// name, and of another of the same target under any name.
pub proof fn law_remote_is_not_added_twice(
    remotes: Seq<RemoteView>,
    i: int,
    name: Seq<char>,
    target: TargetView,
    keybindings: RemoteKeybindingsSnapshot,
    excluded: Seq<TargetView>,
)
    requires
        0 <= i < remotes.len(),
        trim_spec(name).len() > 0,
    ensures
        remotes[i].name == trim_spec(name) ==> add_outcome(
            remotes,
            Some(name),
            target,
            keybindings,
            excluded,
        ) == Err::<RemoteView, RemoteRegistryError>(RemoteRegistryError::DuplicateName),
        remotes[i].target == target && !name_taken(remotes, trim_spec(name)) ==> add_outcome(
            remotes,
            Some(name),
            target,
            keybindings,
            excluded,
        ) == Err::<RemoteView, RemoteRegistryError>(RemoteRegistryError::DuplicateTarget),
{
    if remotes[i].name == trim_spec(name) {
        assert(name_taken(remotes, trim_spec(name)));
    }
    if remotes[i].target == target {
        assert(key_taken(remotes, canonical_key_of(target)));
    }
}

/// Whether some remote has this number in its id.
pub open spec fn number_used(remotes: Seq<RemoteView>, n: nat) -> bool {
    exists|i: int| 0 <= i < remotes.len() && (#[trigger] remotes[i]).id == "remote-"@ + decimal(n)
}

/// The id of a new remote is `remote-` and the least number from one on that no remote has.
pub proof fn law_ids_are_numbered(remotes: Seq<RemoteView>) -> (n: nat)
    ensures
        n >= 1,
        next_id_of(remotes) == "remote-"@ + decimal(n),
        !number_used(remotes, n),
        forall|m: nat| 1 <= m < n ==> #[trigger] number_used(remotes, m),
{
    crate::remote_registry::lemma_next_number_exists(remotes);
    let n = choose|n: nat| crate::remote_registry::is_next_number(remotes, n);
    assert(next_id_of(remotes) == "remote-"@ + decimal(n));
    assert(!crate::remote_registry::id_taken(remotes, numbered_id(n)));
    assert forall|m: nat| 1 <= m < n implies #[trigger] number_used(remotes, m) by {
        assert(crate::remote_registry::id_taken(remotes, numbered_id(m)));
    }
    n
}

/// Each fault of a request has a code of its own, and the form for a new remote says in short
/// words what the registry says of a remote or a name that it has already.
pub proof fn law_faults_are_told_apart()
    ensures
        RemoteRegistryError::InvalidTarget.code_spec() == "invalid_remote_target"@,
        RemoteRegistryError::InvalidName.code_spec() == "invalid_remote_name"@,
        RemoteRegistryError::DuplicateName.code_spec() == "duplicate_remote_name"@,
        RemoteRegistryError::DuplicateTarget.code_spec() == "duplicate_remote_target"@,
        RemoteRegistryError::NotFound.code_spec() == "remote_not_found"@,
        RemoteRegistryError::InvalidStyle.code_spec() == "invalid_remote_style"@,
        RemoteRegistryError::InvalidTarget.message_spec() == "remote target is invalid"@,
        RemoteRegistryError::InvalidName.message_spec() == "remote name is invalid"@,
        RemoteRegistryError::NotFound.message_spec() == "remote not found"@,
        add_error_text(RemoteRegistryError::DuplicateTarget.message_spec())
            == "remote already added"@,
        add_error_text(RemoteRegistryError::DuplicateName.message_spec()) == "name already used"@,
        add_error_text(RemoteRegistryError::InvalidName.message_spec())
            == RemoteRegistryError::InvalidName.message_spec(),
{
    reveal_strlit("remote target already exists");
    reveal_strlit("remote name already exists");
    reveal_strlit("remote name is invalid");
    assert("remote target already exists"@.len() != "remote name already exists"@.len());
    assert("remote name is invalid"@.len() != "remote name already exists"@.len());
    assert("remote name is invalid"@.len() != "remote target already exists"@.len());
}

/// A bullet is one character that shows and is one column wide.
pub proof fn law_bullets(raw: Seq<char>, columns: Option<usize>)
    ensures
        bullet_spec(raw, columns) is Some ==> raw.len() == 1 && columns == Some(1usize)
            && bullet_spec(raw, columns)->0 == raw[0] && (raw[0] as u32) > 0x1f,
        raw.len() != 1 ==> bullet_spec(raw, columns) is None,
        columns != Some(1usize) ==> bullet_spec(raw, columns) is None,
        raw.len() == 1 && columns == Some(1usize) && (raw[0] as u32) >= 0xa0 ==> bullet_spec(
            raw,
            columns,
        ) == Some(raw[0]),
        raw.len() == 1 && columns == Some(1usize) && 0x20 <= (raw[0] as u32) < 0x7f
            ==> bullet_spec(raw, columns) == Some(raw[0]),
        crate::remote_registry::bullet_allowed(None),
        crate::remote_registry::bullet_allowed(Some(raw)) ==> raw.len() == 1,
{
}

} // verus!
