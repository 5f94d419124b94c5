//! The registry of remotes: what a remote target means, and the operations on the stored list.

use vstd::prelude::*;

use crate::text;
use crate::text::{clone_option, clone_strings, decimal, is_white, join_spec, trim_spec};

verus! {

/// The stored list of remotes.
#[derive(Debug, PartialEq, Eq)]
pub struct RemoteRegistrySnapshot {
    pub remotes: Vec<RemoteDefinitionSnapshot>,
}

/// One stored remote.
#[derive(Debug, PartialEq, Eq)]
pub struct RemoteDefinitionSnapshot {
    pub id: String,
    pub name: String,
    pub target: RemoteTargetSnapshot,
    pub session: Option<String>,
    pub keybindings: RemoteKeybindingsSnapshot,
    /// A disabled remote stays stored, and is inert in the client.
    pub disabled: bool,
    /// Whether the client brings this remote to its own build on a protocol mismatch.
    pub auto_update: bool,
    /// Row styling, as the user wrote it.
    pub style_bg: Option<String>,
    pub style_fg: Option<String>,
    /// A single character of one column.
    pub style_bullet: Option<String>,
}

/// Where a remote is reached.
#[derive(Debug, PartialEq, Eq)]
pub enum RemoteTargetSnapshot {
    Ssh {
        /// The ssh destination: `user@host`, a host alias or an `ssh://` address.
        target: String,
        /// The ssh options that precede the destination.
        args: Vec<String>,
    },
    Local { session: Option<String> },
}

/// Which side's key bindings are in force on a remote.
#[derive(Debug, Clone, Copy, PartialEq, Eq, Structural)]
pub enum RemoteKeybindingsSnapshot {
    Local,
    Server,
}

/// Why a registry operation was refused.
#[derive(Debug, Clone, Copy, PartialEq, Eq, Structural)]
pub enum RemoteRegistryError {
    InvalidTarget,
    InvalidName,
    DuplicateName,
    DuplicateTarget,
    NotFound,
    InvalidStyle,
}

/// A target as a mathematical value.
#[verifier::ext_equal]
pub enum TargetView {
    Ssh { target: Seq<char>, args: Seq<Seq<char>> },
    Local { session: Option<Seq<char>> },
}

/// A stored remote as a mathematical value.
#[verifier::ext_equal]
pub struct RemoteView {
    pub id: Seq<char>,
    pub name: Seq<char>,
    pub target: TargetView,
    pub session: Option<Seq<char>>,
    pub keybindings: RemoteKeybindingsSnapshot,
    pub disabled: bool,
    pub auto_update: bool,
    pub style_bg: Option<Seq<char>>,
    pub style_fg: Option<Seq<char>>,
    pub style_bullet: Option<Seq<char>>,
}

impl DeepView for RemoteTargetSnapshot {
    type V = TargetView;

    open spec fn deep_view(&self) -> TargetView {
        match self {
            RemoteTargetSnapshot::Ssh { target, args } => TargetView::Ssh {
                target: target@,
                args: args.deep_view(),
            },
            RemoteTargetSnapshot::Local { session } => TargetView::Local {
                session: session.deep_view(),
            },
        }
    }
}

impl DeepView for RemoteDefinitionSnapshot {
    type V = RemoteView;

    open spec fn deep_view(&self) -> RemoteView {
        RemoteView {
            id: self.id@,
            name: self.name@,
            target: self.target.deep_view(),
            session: self.session.deep_view(),
            keybindings: self.keybindings,
            disabled: self.disabled,
            auto_update: self.auto_update,
            style_bg: self.style_bg.deep_view(),
            style_fg: self.style_fg.deep_view(),
            style_bullet: self.style_bullet.deep_view(),
        }
    }
}

impl View for RemoteRegistrySnapshot {
    type V = Seq<RemoteView>;

    open spec fn view(&self) -> Seq<RemoteView> {
        self.remotes.deep_view()
    }
}

impl Clone for RemoteTargetSnapshot {
    fn clone(&self) -> (r: Self)
        ensures
            r.deep_view() == self.deep_view(),
    {
        match self {
            RemoteTargetSnapshot::Ssh { target, args } => {
                let copy: Vec<String> = clone_strings(args);
                assert(copy.deep_view() =~= args.deep_view());
                RemoteTargetSnapshot::Ssh { target: target.clone(), args: copy }
            },
            RemoteTargetSnapshot::Local { session } => RemoteTargetSnapshot::Local {
                session: clone_option(session),
            },
        }
    }
}

impl Clone for RemoteDefinitionSnapshot {
    fn clone(&self) -> (r: Self)
        ensures
            r.deep_view() == self.deep_view(),
    {
        RemoteDefinitionSnapshot {
            id: self.id.clone(),
            name: self.name.clone(),
            target: self.target.clone(),
            session: clone_option(&self.session),
            keybindings: self.keybindings,
            disabled: self.disabled,
            auto_update: self.auto_update,
            style_bg: clone_option(&self.style_bg),
            style_fg: clone_option(&self.style_fg),
            style_bullet: clone_option(&self.style_bullet),
        }
    }
}

impl Clone for RemoteRegistrySnapshot {
    fn clone(&self) -> (r: Self)
        ensures
            r@ == self@,
    {
        let mut remotes: Vec<RemoteDefinitionSnapshot> = Vec::new();
        let mut i: usize = 0;
        while i < self.remotes.len()
            invariant
                i <= self.remotes@.len(),
                remotes.deep_view() =~= self.remotes.deep_view().take(i as int),
            decreases self.remotes@.len() - i,
        {
            let ghost before = remotes.deep_view();
            let copy: RemoteDefinitionSnapshot = self.remotes[i].clone();
            remotes.push(copy);
            assert(remotes.deep_view() =~= before.push(copy.deep_view()));
            i = i + 1;
        }
        assert(remotes.deep_view() =~= self.remotes.deep_view());
        RemoteRegistrySnapshot { remotes }
    }
}

impl Default for RemoteRegistrySnapshot {
    /// The registry without remotes.
    fn default() -> (r: Self)
        ensures
            r@ == Seq::<RemoteView>::empty(),
    {
        let r: RemoteRegistrySnapshot = RemoteRegistrySnapshot { remotes: Vec::new() };
        assert(r@ =~= Seq::<RemoteView>::empty());
        r
    }
}

impl Default for RemoteKeybindingsSnapshot {
    fn default() -> (r: Self)
        ensures
            r == RemoteKeybindingsSnapshot::Local,
    {
        RemoteKeybindingsSnapshot::Local
    }
}

impl RemoteRegistryError {
    /// The code of an error in a reply.
    pub open spec fn code_spec(self) -> Seq<char> {
        match self {
            RemoteRegistryError::InvalidTarget => "invalid_remote_target"@,
            RemoteRegistryError::InvalidName => "invalid_remote_name"@,
            RemoteRegistryError::DuplicateName => "duplicate_remote_name"@,
            RemoteRegistryError::DuplicateTarget => "duplicate_remote_target"@,
            RemoteRegistryError::NotFound => "remote_not_found"@,
            RemoteRegistryError::InvalidStyle => "invalid_remote_style"@,
        }
    }

    pub fn code(&self) -> (r: &'static str)
        ensures
            r@ == self.code_spec(),
    {
        match self {
            RemoteRegistryError::InvalidTarget => "invalid_remote_target",
            RemoteRegistryError::InvalidName => "invalid_remote_name",
            RemoteRegistryError::DuplicateName => "duplicate_remote_name",
            RemoteRegistryError::DuplicateTarget => "duplicate_remote_target",
            RemoteRegistryError::NotFound => "remote_not_found",
            RemoteRegistryError::InvalidStyle => "invalid_remote_style",
        }
    }

    /// The text of an error in a reply.
    pub open spec fn message_spec(self) -> Seq<char> {
        match self {
            RemoteRegistryError::InvalidTarget => "remote target is invalid"@,
            RemoteRegistryError::InvalidName => "remote name is invalid"@,
            RemoteRegistryError::DuplicateName => "remote name already exists"@,
            RemoteRegistryError::DuplicateTarget => "remote target already exists"@,
            RemoteRegistryError::NotFound => "remote not found"@,
            RemoteRegistryError::InvalidStyle =>
                "remote style must be a known colour and a single-width bullet character"@,
        }
    }

    pub fn message(&self) -> (r: &'static str)
        ensures
            r@ == self.message_spec(),
    {
        match self {
            RemoteRegistryError::InvalidTarget => "remote target is invalid",
            RemoteRegistryError::InvalidName => "remote name is invalid",
            RemoteRegistryError::DuplicateName => "remote name already exists",
            RemoteRegistryError::DuplicateTarget => "remote target already exists",
            RemoteRegistryError::NotFound => "remote not found",
            RemoteRegistryError::InvalidStyle =>
                "remote style must be a known colour and a single-width bullet character",
        }
    }
}

/// The words that a POSIX shell reads in a line, `None` where a quote is left open.
pub uninterp spec fn shell_words(line: Seq<char>) -> Option<Seq<Seq<char>>>;

/// Characters that a shell reads as themselves in the middle of a word.
pub open spec fn is_plain_word(s: Seq<char>) -> bool {
    &&& s.len() > 0
    &&& forall|i: int|
        0 <= i < s.len() ==> !(#[trigger] s[i] == ' ' || s[i] == '\t' || s[i] == '\n' || s[i] == '"'
            || s[i] == '\'' || s[i] == '\\' || s[i] == '#')
}

/// Words that hold no blanks, quotes, backslashes or `#`.
pub open spec fn are_plain_words(words: Seq<Seq<char>>) -> bool {
    forall|i: int| 0 <= i < words.len() ==> is_plain_word(#[trigger] words[i])
}

/// `shlex::split`, which splits a line into words as a POSIX shell does. Its result is named
/// `shell_words`; of that name it is said only that a line of words without blanks, quotes,
/// backslashes and `#`, with one blank between each two, is read as these words.
#[verifier::external_body]
fn split_words(line: &str) -> (r: Option<Vec<String>>)
    ensures
        r.deep_view() == shell_words(line@),
        forall|words: Seq<Seq<char>>|
            are_plain_words(words) && line@ == #[trigger] join_spec(words, " "@) ==> r.deep_view()
                == Some(words),
{
    shlex::split(line)
}

/// The ssh options whose value is the next token: `-p 2222`, `-J jump`.
pub open spec fn ssh_option_letters() -> Seq<char> {
    "BbcDEeFIiJLlmOopQRSWw"@
}

/// Whether `token` is an option, that is, begins with `-`.
pub open spec fn is_option(token: Seq<char>) -> bool {
    token.len() > 0 && token[0] == '-'
}

/// Whether `token` is an option whose value is the next token.
pub open spec fn takes_value(token: Seq<char>) -> bool {
    token.len() == 2 && token[0] == '-' && ssh_option_letters().contains(token[1])
}

/// How many tokens the option at the head of `argv` covers.
pub open spec fn option_span(argv: Seq<Seq<char>>) -> int {
    if takes_value(argv[0]) && argv.len() > 1 {
        2
    } else {
        1
    }
}

/// The tokens of `argv` that are neither an option nor the value of one.
pub open spec fn ssh_bare(argv: Seq<Seq<char>>) -> Seq<Seq<char>>
    decreases argv.len(),
{
    if argv.len() == 0 {
        Seq::empty()
    } else if is_option(argv[0]) {
        ssh_bare(argv.skip(option_span(argv)))
    } else {
        seq![argv[0]] + ssh_bare(argv.skip(1))
    }
}

/// The options of `argv` with their values, in order.
pub open spec fn ssh_options(argv: Seq<Seq<char>>) -> Seq<Seq<char>>
    decreases argv.len(),
{
    if argv.len() == 0 {
        Seq::empty()
    } else if is_option(argv[0]) {
        argv.take(option_span(argv)) + ssh_options(argv.skip(option_span(argv)))
    } else {
        ssh_options(argv.skip(1))
    }
}

/// The tokens without a leading `ssh`.
pub open spec fn without_program(tokens: Seq<Seq<char>>) -> Seq<Seq<char>> {
    if tokens.len() > 0 && tokens[0] == "ssh"@ {
        tokens.skip(1)
    } else {
        tokens
    }
}

/// What a row of shell words means as an ssh target: one bare token is a destination; anything
/// else is an ssh command line with exactly one bare token, whose options are kept.
pub open spec fn ssh_target_of(tokens: Seq<Seq<char>>) -> Option<TargetView> {
    if tokens.len() == 1 && tokens[0] != "ssh"@ && !is_option(tokens[0]) {
        Some(TargetView::Ssh { target: tokens[0], args: Seq::empty() })
    } else {
        let argv = without_program(tokens);
        if ssh_bare(argv).len() == 1 {
            Some(TargetView::Ssh { target: ssh_bare(argv)[0], args: ssh_options(argv) })
        } else {
            None
        }
    }
}

/// What a target text means.
pub open spec fn target_of(input: Seq<char>) -> Option<TargetView> {
    let target = trim_spec(input);
    if target.len() == 0 {
        None
    } else if target == "localhost"@ {
        Some(TargetView::Local { session: None })
    } else if "local:"@.is_prefix_of(target) {
        let session = trim_spec(target.skip("local:"@.len() as int));
        if session.len() == 0 {
            None
        } else if session == "default"@ {
            Some(TargetView::Local { session: None })
        } else {
            Some(TargetView::Local { session: Some(session) })
        }
    } else {
        match shell_words(target) {
            Some(tokens) => ssh_target_of(tokens),
            None => None,
        }
    }
}

/// Whether a trimmed text is read as words of an ssh command line.
pub open spec fn is_ssh_text(target: Seq<char>) -> bool {
    target.len() > 0 && target != "localhost"@ && !"local:"@.is_prefix_of(target)
}

/// Whether a text is an ssh destination as it stands.
pub open spec fn is_destination(host: Seq<char>) -> bool {
    is_plain_word(host) && is_ssh_text(host) && host != "ssh"@ && !is_option(host)
}

/// Whether reading a target came to this.
pub open spec fn reads_as(
    r: Result<RemoteTargetSnapshot, RemoteRegistryError>,
    target: Option<TargetView>,
) -> bool {
    match target {
        Some(t) => r is Ok && r->Ok_0.deep_view() == t,
        None => r == Err::<RemoteTargetSnapshot, RemoteRegistryError>(
            RemoteRegistryError::InvalidTarget,
        ),
    }
}

/// The text by which two targets are told apart.
pub open spec fn canonical_key_of(target: TargetView) -> Seq<char> {
    match target {
        TargetView::Ssh { target, args } => if args.len() == 0 {
            "ssh:"@ + target
        } else {
            "ssh:"@ + target + "\u{1f}"@ + join_spec(args, "\u{1f}"@)
        },
        TargetView::Local { session } => match session {
            Some(name) => "local:"@ + name,
            None => "local:"@ + "default"@,
        },
    }
}

/// Whether the letter names an ssh option whose value is the next token.
fn is_value_letter(c: char) -> (r: bool)
    ensures
        r == ssh_option_letters().contains(c),
{
    text::find_char("BbcDEeFIiJLlmOopQRSWw", c).is_some()
}

/// Whether the token begins with `-`.
fn option_like(token: &str) -> (r: bool)
    ensures
        r == is_option(token@),
{
    token.unicode_len() > 0 && token.get_char(0) == '-'
}

/// Whether the token is an option whose value is the next token.
fn wants_value(token: &str) -> (r: bool)
    ensures
        r == takes_value(token@),
{
    token.unicode_len() == 2 && token.get_char(0) == '-' && is_value_letter(token.get_char(1))
}

impl RemoteTargetSnapshot {
    /// Reads a target: `localhost`, `local:<session>`, an ssh destination or an ssh command line.
    pub fn parse(input: &str) -> (r: Result<Self, RemoteRegistryError>)
        ensures
            reads_as(r, target_of(input@)),
            forall|words: Seq<Seq<char>>|
                are_plain_words(words) && is_ssh_text(trim_spec(input@)) && trim_spec(input@)
                    == #[trigger] join_spec(words, " "@) ==> reads_as(r, ssh_target_of(words)),
            is_destination(trim_spec(input@)) ==> reads_as(
                r,
                Some(TargetView::Ssh { target: trim_spec(input@), args: Seq::empty() }),
            ),
            forall|host: Seq<char>| #[trigger]
                is_destination(host) && trim_spec(input@) == "ssh "@ + host ==> reads_as(
                    r,
                    Some(TargetView::Ssh { target: host, args: Seq::empty() }),
                ),
    {
        let target: &str = text::trim(input);
        proof {
            lemma_destination_words(target@);
            assert forall|host: Seq<char>| #[trigger]
                is_destination(host) && target@ == "ssh "@ + host implies is_ssh_text(target@)
                && ssh_target_of(seq!["ssh"@, host]) == Some(
                TargetView::Ssh { target: host, args: Seq::empty() },
            ) && target@ == join_spec(seq!["ssh"@, host], " "@) && are_plain_words(
                seq!["ssh"@, host],
            ) by {
                lemma_ssh_destination_words(host);
            }
        }
        if target.is_empty() {
            return Err(RemoteRegistryError::InvalidTarget);
        }
        if text::same(target, "localhost") {
            return Ok(RemoteTargetSnapshot::Local { session: None });
        }
        if let Some(rest) = text::strip_prefix(target, "local:") {
            let session: &str = text::trim(rest);
            assert(rest@ =~= target@.skip("local:"@.len() as int));
            assert("local:"@.is_prefix_of(target@)) by {
                assert(target@.subrange(0, "local:"@.len() as int) =~= "local:"@);
            }
            if session.is_empty() {
                return Err(RemoteRegistryError::InvalidTarget);
            }
            if text::same(session, "default") {
                return Ok(RemoteTargetSnapshot::Local { session: None });
            }
            return Ok(RemoteTargetSnapshot::Local { session: Some(session.to_owned()) });
        }
        RemoteTargetSnapshot::parse_ssh(target)
    }

    /// Reads an ssh destination or an ssh command line.
    fn parse_ssh(input: &str) -> (r: Result<Self, RemoteRegistryError>)
        ensures
            reads_as(
                r,
                match shell_words(input@) {
                    Some(words) => ssh_target_of(words),
                    None => None,
                },
            ),
            forall|words: Seq<Seq<char>>|
                are_plain_words(words) && input@ == #[trigger] join_spec(words, " "@) ==> reads_as(
                    r,
                    ssh_target_of(words),
                ),
    {
        match split_words(input) {
            Some(tokens) => RemoteTargetSnapshot::from_ssh_words(tokens),
            None => Err(RemoteRegistryError::InvalidTarget),
        }
    }

    /// The ssh target that a row of shell words names. The destination is the one token that is
    /// neither an option nor an option's value; a second such token is an error, for it would be a
    /// command to run on the remote.
    pub fn from_ssh_words(tokens: Vec<String>) -> (r: Result<Self, RemoteRegistryError>)
        ensures
            reads_as(r, ssh_target_of(tokens.deep_view())),
    {
        let ghost words = tokens.deep_view();
        assert(words.len() == tokens@.len());
        if tokens.len() == 1 && !text::same(tokens[0].as_str(), "ssh") && !option_like(
            tokens[0].as_str(),
        ) {
            let args: Vec<String> = Vec::new();
            assert(args.deep_view() =~= Seq::<Seq<char>>::empty());
            assert(words[0] == tokens@[0]@);
            return Ok(RemoteTargetSnapshot::Ssh { target: tokens[0].clone(), args });
        }
        let from: usize = if tokens.len() > 0 && text::same(tokens[0].as_str(), "ssh") {
            1
        } else {
            0
        };
        let ghost argv = without_program(words);
        assert(words.len() > 0 ==> words[0] == tokens@[0]@);
        assert(argv =~= words.skip(from as int));
        let mut options: Vec<String> = Vec::new();
        let mut target: Option<String> = None;
        let mut i: usize = from;
        proof {
            assert(options.deep_view() =~= Seq::<Seq<char>>::empty());
            assert(words.skip(from as int) =~= argv);
        }
        while i < tokens.len()
            invariant
                from <= i <= tokens@.len(),
                words == tokens.deep_view(),
                argv == without_program(words),
                !(words.len() == 1 && words[0] != "ssh"@ && !is_option(words[0])),
                ssh_options(argv) =~= options.deep_view() + ssh_options(words.skip(i as int)),
                target is None ==> ssh_bare(argv) =~= ssh_bare(words.skip(i as int)),
                target is Some ==> ssh_bare(argv) =~= seq![target->0@] + ssh_bare(
                    words.skip(i as int),
                ),
            decreases tokens@.len() - i,
        {
            let ghost rest = words.skip(i as int);
            let token: &str = tokens[i].as_str();
            assert(rest[0] == token@);
            let ghost before = options.deep_view();
            if option_like(token) {
                options.push(tokens[i].clone());
                assert(options.deep_view() =~= before.push(token@));
                if wants_value(token) && i + 1 < tokens.len() {
                    options.push(tokens[i + 1].clone());
                    assert(options.deep_view() =~= before.push(token@).push(rest[1]));
                    assert(rest.skip(2) =~= words.skip(i + 2));
                    assert(rest.take(2) =~= seq![token@, rest[1]]);
                    i = i + 2;
                } else {
                    assert(rest.skip(1) =~= words.skip(i + 1));
                    assert(rest.take(1) =~= seq![token@]);
                    i = i + 1;
                }
            } else {
                assert(rest.skip(1) =~= words.skip(i + 1));
                if target.is_some() {
                    assert(ssh_bare(argv).len() >= 2);
                    return Err(RemoteRegistryError::InvalidTarget);
                }
                target = Some(tokens[i].clone());
                i = i + 1;
            }
        }
        assert(words.skip(i as int) =~= Seq::<Seq<char>>::empty());
        match target {
            Some(target) => Ok(RemoteTargetSnapshot::Ssh { target, args: options }),
            None => Err(RemoteRegistryError::InvalidTarget),
        }
    }

    /// The text by which two targets are told apart.
    pub fn canonical_key(&self) -> (r: String)
        ensures
            r@ == canonical_key_of(self.deep_view()),
    {
        match self {
            RemoteTargetSnapshot::Ssh { target, args } => {
                let mut key: String = "ssh:".to_owned();
                key.append(target.as_str());
                assert(args.deep_view().len() == args@.len());
                if args.len() > 0 {
                    key.append("\u{1f}");
                    let options: String = text::join(args, "\u{1f}");
                    key.append(options.as_str());
                }
                key
            },
            RemoteTargetSnapshot::Local { session } => {
                let mut key: String = "local:".to_owned();
                match session {
                    Some(name) => key.append(name.as_str()),
                    None => key.append("default"),
                }
                key
            },
        }
    }
}

/// The host part of an ssh destination; the destination itself where that is empty.
pub open spec fn ssh_display_name_of(target: Seq<char>) -> Seq<char> {
    let address = if "ssh://"@.is_prefix_of(target) {
        target.skip("ssh://"@.len() as int)
    } else {
        target
    };
    let host = text::before_either_spec(text::after_last_spec(address, '@'), ':', '/');
    if host.len() == 0 {
        target
    } else {
        host
    }
}

/// The name of a remote to which none was given.
pub open spec fn default_display_name_of(target: TargetView) -> Seq<char> {
    match target {
        TargetView::Local { session } => match session {
            Some(name) => name,
            None => "local"@,
        },
        TargetView::Ssh { target, args } => ssh_display_name_of(target),
    }
}

/// Whether a remote with this id is stored.
pub open spec fn id_taken(remotes: Seq<RemoteView>, id: Seq<char>) -> bool {
    exists|i: int| 0 <= i < remotes.len() && (#[trigger] remotes[i]).id == id
}

/// Whether a remote with this name is stored.
pub open spec fn name_taken(remotes: Seq<RemoteView>, name: Seq<char>) -> bool {
    exists|i: int| 0 <= i < remotes.len() && (#[trigger] remotes[i]).name == name
}

/// Whether a remote with another id holds this name.
pub open spec fn name_taken_by_other(
    remotes: Seq<RemoteView>,
    id: Seq<char>,
    name: Seq<char>,
) -> bool {
    exists|i: int|
        0 <= i < remotes.len() && (#[trigger] remotes[i]).id != id && remotes[i].name == name
}

/// Whether one of the targets has this key.
pub open spec fn key_listed(targets: Seq<TargetView>, key: Seq<char>) -> bool {
    exists|i: int| 0 <= i < targets.len() && canonical_key_of(#[trigger] targets[i]) == key
}

/// Whether a remote with this target key is stored.
pub open spec fn key_taken(remotes: Seq<RemoteView>, key: Seq<char>) -> bool {
    exists|i: int|
        0 <= i < remotes.len() && canonical_key_of((#[trigger] remotes[i]).target) == key
}

/// The id with the number `n`.
pub open spec fn numbered_id(n: nat) -> Seq<char> {
    "remote-"@ + decimal(n)
}

/// Whether `n` is the smallest positive number whose id is not taken.
pub open spec fn is_next_number(remotes: Seq<RemoteView>, n: nat) -> bool {
    &&& n >= 1
    &&& !id_taken(remotes, numbered_id(n))
    &&& forall|m: nat| 1 <= m < n ==> id_taken(remotes, #[trigger] numbered_id(m))
}

/// The id of the next remote.
pub open spec fn next_id_of(remotes: Seq<RemoteView>) -> Seq<char> {
    numbered_id(choose|n: nat| is_next_number(remotes, n))
}

/// A remote as it is first stored.
pub open spec fn new_remote(
    id: Seq<char>,
    name: Seq<char>,
    target: TargetView,
    keybindings: RemoteKeybindingsSnapshot,
) -> RemoteView {
    RemoteView {
        id,
        name,
        target,
        session: None,
        keybindings,
        disabled: false,
        auto_update: false,
        style_bg: None,
        style_fg: None,
        style_bullet: None,
    }
}

/// What adding a remote with this target comes to.
pub open spec fn add_outcome(
    remotes: Seq<RemoteView>,
    name: Option<Seq<char>>,
    target: TargetView,
    keybindings: RemoteKeybindingsSnapshot,
    excluded: Seq<TargetView>,
) -> Result<RemoteView, RemoteRegistryError> {
    let given = match name {
        Some(given) => given,
        None => default_display_name_of(target),
    };
    let key = canonical_key_of(target);
    if trim_spec(given).len() == 0 {
        Err(RemoteRegistryError::InvalidName)
    } else if name_taken(remotes, trim_spec(given)) {
        Err(RemoteRegistryError::DuplicateName)
    } else if key_listed(excluded, key) || key_taken(remotes, key) {
        Err(RemoteRegistryError::DuplicateTarget)
    } else {
        Ok(new_remote(next_id_of(remotes), trim_spec(given), target, keybindings))
    }
}

/// Whether `i` is the first place in the list with this id.
pub open spec fn is_first(remotes: Seq<RemoteView>, i: int, id: Seq<char>) -> bool {
    &&& 0 <= i < remotes.len()
    &&& remotes[i].id == id
    &&& forall|j: int| 0 <= j < i ==> (#[trigger] remotes[j]).id != id
}

/// The trimmed name; a blank one is an error.
fn normalize_name(name: String) -> (r: Result<String, RemoteRegistryError>)
    ensures
        match r {
            Ok(n) => n@ == trim_spec(name@) && n@.len() > 0,
            Err(e) => e == RemoteRegistryError::InvalidName && trim_spec(name@).len() == 0,
        },
{
    let trimmed: &str = text::trim(name.as_str());
    if trimmed.is_empty() {
        Err(RemoteRegistryError::InvalidName)
    } else {
        Ok(trimmed.to_owned())
    }
}

/// The host part of an ssh destination; the destination itself where that is empty.
fn ssh_display_name(target: &str) -> (r: String)
    ensures
        r@ == ssh_display_name_of(target@),
{
    let address: &str = match text::strip_prefix(target, "ssh://") {
        Some(rest) => {
            assert(rest@ =~= target@.skip("ssh://"@.len() as int));
            assert(target@.subrange(0, "ssh://"@.len() as int) =~= "ssh://"@);
            rest
        },
        None => target,
    };
    let host: &str = text::before_either(text::after_last(address, '@'), ':', '/');
    if host.is_empty() {
        target.to_owned()
    } else {
        host.to_owned()
    }
}

/// Whether one of the targets has this key.
fn lists_key(targets: &Vec<RemoteTargetSnapshot>, key: &String) -> (r: bool)
    ensures
        r == key_listed(targets.deep_view(), key@),
{
    let mut i: usize = 0;
    while i < targets.len()
        invariant
            i <= targets@.len(),
            forall|j: int|
                0 <= j < i ==> canonical_key_of(#[trigger] targets.deep_view()[j]) != key@,
        decreases targets@.len() - i,
    {
        let other: String = targets[i].canonical_key();
        assert(targets.deep_view()[i as int] == targets@[i as int].deep_view());
        if other == *key {
            return true;
        }
        i = i + 1;
    }
    false
}

/// If the numbers up to `k` are all taken, there are at least `k` remotes.
proof fn lemma_taken_numbers(remotes: Seq<RemoteView>, k: nat)
    requires
        forall|m: nat| 1 <= m <= k ==> id_taken(remotes, #[trigger] numbered_id(m)),
    ensures
        k <= remotes.len(),
{
    let place = |m: int|
        choose|i: int| 0 <= i < remotes.len() && (#[trigger] remotes[i]).id == numbered_id(m as nat);
    let numbers = vstd::set_lib::set_int_range(1, (k + 1) as int);
    let places = vstd::set_lib::set_int_range(0, remotes.len() as int);
    vstd::set_lib::lemma_int_range(1, (k + 1) as int);
    vstd::set_lib::lemma_int_range(0, remotes.len() as int);
    assert forall|m: int| numbers.contains(m) implies places.contains(#[trigger] place(m)) by {
        assert(id_taken(remotes, numbered_id(m as nat)));
    }
    assert forall|a: int, b: int|
        numbers.contains(a) && numbers.contains(b) && #[trigger] place(a) == #[trigger] place(
            b,
        ) implies a == b by {
        assert(id_taken(remotes, numbered_id(a as nat)));
        assert(id_taken(remotes, numbered_id(b as nat)));
        let p = "remote-"@;
        assert(numbered_id(a as nat) == numbered_id(b as nat));
        assert(decimal(a as nat) =~= numbered_id(a as nat).skip(p.len() as int));
        assert(decimal(b as nat) =~= numbered_id(b as nat).skip(p.len() as int));
        text::lemma_decimal_injective(a as nat, b as nat);
    }
    let image = numbers.map(place);
    vstd::set_lib::lemma_map_size(numbers, image, place);
    assert(image.subset_of(places));
    vstd::set_lib::lemma_len_subset(image, places);
}

impl RemoteTargetSnapshot {
    /// The name of a remote to which none was given.
    fn default_display_name(&self) -> (r: String)
        ensures
            r@ == default_display_name_of(self.deep_view()),
    {
        match self {
            RemoteTargetSnapshot::Local { session } => match session {
                Some(name) => name.clone(),
                None => "local".to_owned(),
            },
            RemoteTargetSnapshot::Ssh { target, args } => ssh_display_name(target.as_str()),
        }
    }
}

impl RemoteRegistrySnapshot {
    /// The first place in the list with this id.
    fn position(&self, remote_id: &str) -> (r: Option<usize>)
        ensures
            match r {
                Some(i) => is_first(self@, i as int, remote_id@),
                None => !id_taken(self@, remote_id@),
            },
    {
        let mut i: usize = 0;
        while i < self.remotes.len()
            invariant
                i <= self.remotes@.len(),
                forall|j: int| 0 <= j < i ==> (#[trigger] self@[j]).id != remote_id@,
            decreases self.remotes@.len() - i,
        {
            assert(self@[i as int] == self.remotes@[i as int].deep_view());
            if text::same(self.remotes[i].id.as_str(), remote_id) {
                return Some(i);
            }
            i = i + 1;
        }
        None
    }

    /// Whether a remote with this name is stored, other than one with the id `except`.
    fn holds_name(&self, name: &str, except: Option<&str>) -> (r: bool)
        ensures
            r == match except {
                Some(id) => name_taken_by_other(self@, id@, name@),
                None => name_taken(self@, name@),
            },
    {
        let mut i: usize = 0;
        while i < self.remotes.len()
            invariant
                i <= self.remotes@.len(),
                forall|j: int|
                    0 <= j < i ==> ((#[trigger] self@[j]).name != name@ || (except is Some
                        && self@[j].id == except->0@)),
            decreases self.remotes@.len() - i,
        {
            assert(self@[i as int] == self.remotes@[i as int].deep_view());
            let skipped: bool = match except {
                Some(id) => text::same(self.remotes[i].id.as_str(), id),
                None => false,
            };
            if !skipped && text::same(self.remotes[i].name.as_str(), name) {
                return true;
            }
            i = i + 1;
        }
        false
    }

    /// Whether a remote with this target key is stored.
    fn holds_key(&self, key: &String) -> (r: bool)
        ensures
            r == key_taken(self@, key@),
    {
        let mut i: usize = 0;
        while i < self.remotes.len()
            invariant
                i <= self.remotes@.len(),
                forall|j: int|
                    0 <= j < i ==> canonical_key_of((#[trigger] self@[j]).target) != key@,
            decreases self.remotes@.len() - i,
        {
            assert(self@[i as int] == self.remotes@[i as int].deep_view());
            let other: String = self.remotes[i].target.canonical_key();
            if other == *key {
                return true;
            }
            i = i + 1;
        }
        false
    }

    /// The id with the smallest positive number that is not taken.
    fn next_id(&self) -> (r: String)
        ensures
            r@ == next_id_of(self@),
            !id_taken(self@, r@),
    {
        let mut index: u128 = 1;
        loop
            invariant
                index >= 1,
                forall|m: nat| 1 <= m < index ==> id_taken(self@, #[trigger] numbered_id(m)),
            decreases self@.len() + 1 - index,
        {
            let mut id: String = "remote-".to_owned();
            let number: String = text::decimal_of(index);
            id.append(number.as_str());
            if self.position(id.as_str()).is_none() {
                proof {
                    let n = index as nat;
                    assert(is_next_number(self@, n));
                    let c = choose|n: nat| is_next_number(self@, n);
                    assert(is_next_number(self@, c));
                    if c < n {
                        assert(id_taken(self@, numbered_id(c)));
                    } else if n < c {
                        assert(id_taken(self@, numbered_id(n)));
                    }
                }
                return id;
            }
            proof {
                assert forall|m: nat| 1 <= m <= index implies id_taken(
                    self@,
                    #[trigger] numbered_id(m),
                ) by {}
                lemma_taken_numbers(self@, index as nat);
                assert(self@.len() == self.remotes.len());
            }
            index = index + 1;
        }
    }

    /// Stores a remote with a name and a target.
    pub fn add(
        &mut self,
        name: Option<String>,
        target: String,
        keybindings: RemoteKeybindingsSnapshot,
    ) -> (r: Result<RemoteDefinitionSnapshot, RemoteRegistryError>)
        ensures
            match (target_of(target@), r) {
                (Some(t), Ok(remote)) => add_outcome(
                    old(self)@,
                    name.deep_view(),
                    t,
                    keybindings,
                    Seq::empty(),
                ) == Ok::<RemoteView, RemoteRegistryError>(remote.deep_view()) && final(self)@
                    == old(self)@.push(remote.deep_view()),
                (Some(t), Err(e)) => add_outcome(
                    old(self)@,
                    name.deep_view(),
                    t,
                    keybindings,
                    Seq::empty(),
                ) == Err::<RemoteView, RemoteRegistryError>(e) && final(self)@ == old(self)@,
                (None, Ok(remote)) => false,
                (None, Err(e)) => e == RemoteRegistryError::InvalidTarget && final(self)@ == old(
                    self,
                )@,
            },
    {
        let none: Vec<RemoteTargetSnapshot> = Vec::new();
        assert(none.deep_view() =~= Seq::<TargetView>::empty());
        self.add_excluding_targets(name, target, keybindings, &none)
    }

    /// Stores a remote, unless its target is one of `excluded_targets`.
    pub fn add_excluding_targets(
        &mut self,
        name: Option<String>,
        target: String,
        keybindings: RemoteKeybindingsSnapshot,
        excluded_targets: &Vec<RemoteTargetSnapshot>,
    ) -> (r: Result<RemoteDefinitionSnapshot, RemoteRegistryError>)
        ensures
            match (target_of(target@), r) {
                (Some(t), Ok(remote)) => add_outcome(
                    old(self)@,
                    name.deep_view(),
                    t,
                    keybindings,
                    excluded_targets.deep_view(),
                ) == Ok::<RemoteView, RemoteRegistryError>(remote.deep_view()) && final(self)@
                    == old(self)@.push(remote.deep_view()),
                (Some(t), Err(e)) => add_outcome(
                    old(self)@,
                    name.deep_view(),
                    t,
                    keybindings,
                    excluded_targets.deep_view(),
                ) == Err::<RemoteView, RemoteRegistryError>(e) && final(self)@ == old(self)@,
                (None, Ok(remote)) => false,
                (None, Err(e)) => e == RemoteRegistryError::InvalidTarget && final(self)@ == old(
                    self,
                )@,
            },
    {
        match RemoteTargetSnapshot::parse(target.as_str()) {
            Ok(parsed) => self.add_target(name, parsed, keybindings, excluded_targets),
            Err(e) => Err(e),
        }
    }

    /// Stores a remote with a target that has been read, unless it is one of `excluded_targets`.
    pub fn add_target(
        &mut self,
        name: Option<String>,
        target: RemoteTargetSnapshot,
        keybindings: RemoteKeybindingsSnapshot,
        excluded_targets: &Vec<RemoteTargetSnapshot>,
    ) -> (r: Result<RemoteDefinitionSnapshot, RemoteRegistryError>)
        ensures
            match r {
                Ok(remote) => add_outcome(
                    old(self)@,
                    name.deep_view(),
                    target.deep_view(),
                    keybindings,
                    excluded_targets.deep_view(),
                ) == Ok::<RemoteView, RemoteRegistryError>(remote.deep_view()) && final(self)@
                    == old(self)@.push(remote.deep_view()),
                Err(e) => add_outcome(
                    old(self)@,
                    name.deep_view(),
                    target.deep_view(),
                    keybindings,
                    excluded_targets.deep_view(),
                ) == Err::<RemoteView, RemoteRegistryError>(e) && final(self)@ == old(self)@,
            },
    {
        let given: String = match name {
            Some(given) => given,
            None => target.default_display_name(),
        };
        let name: String = match normalize_name(given) {
            Ok(name) => name,
            Err(e) => {
                return Err(e);
            },
        };
        if self.holds_name(name.as_str(), None) {
            return Err(RemoteRegistryError::DuplicateName);
        }
        let key: String = target.canonical_key();
        if lists_key(excluded_targets, &key) {
            return Err(RemoteRegistryError::DuplicateTarget);
        }
        if self.holds_key(&key) {
            return Err(RemoteRegistryError::DuplicateTarget);
        }
        let remote: RemoteDefinitionSnapshot = RemoteDefinitionSnapshot {
            id: self.next_id(),
            name,
            target,
            session: None,
            keybindings,
            disabled: false,
            auto_update: false,
            style_bg: None,
            style_fg: None,
            style_bullet: None,
        };
        let ghost before = self@;
        let copy: RemoteDefinitionSnapshot = remote.clone();
        self.remotes.push(copy);
        assert(self@ =~= before.push(remote.deep_view()));
        Ok(remote)
    }

    /// Takes the remote with this id out of the list.
    pub fn remove(&mut self, remote_id: &str) -> (r: Result<String, RemoteRegistryError>)
        ensures
            match r {
                Ok(id) => id@ == remote_id@ && exists|i: int| #[trigger]
                    is_first(old(self)@, i, remote_id@) && final(self)@ == old(self)@.remove(i),
                Err(e) => e == RemoteRegistryError::NotFound && !id_taken(old(self)@, remote_id@)
                    && final(self)@ == old(self)@,
            },
    {
        match self.position(remote_id) {
            Some(i) => {
                let ghost before = self@;
                let removed: RemoteDefinitionSnapshot = self.remotes.remove(i);
                assert(self@ =~= before.remove(i as int));
                assert(before[i as int] == removed.deep_view());
                Ok(removed.id)
            },
            None => Err(RemoteRegistryError::NotFound),
        }
    }

    /// Gives the remote with this id another name.
    pub fn rename(&mut self, remote_id: &str, name: String) -> (r: Result<
        RemoteDefinitionSnapshot,
        RemoteRegistryError,
    >)
        ensures
            match r {
                Ok(remote) => trim_spec(name@).len() > 0 && !name_taken_by_other(
                    old(self)@,
                    remote_id@,
                    trim_spec(name@),
                ) && exists|i: int| #[trigger]
                    is_first(old(self)@, i, remote_id@) && remote.deep_view() == (RemoteView {
                        name: trim_spec(name@),
                        ..old(self)@[i]
                    }) && final(self)@ == old(self)@.update(i, remote.deep_view()),
                Err(e) => final(self)@ == old(self)@ && e == (if trim_spec(name@).len() == 0 {
                    RemoteRegistryError::InvalidName
                } else if name_taken_by_other(old(self)@, remote_id@, trim_spec(name@)) {
                    RemoteRegistryError::DuplicateName
                } else {
                    RemoteRegistryError::NotFound
                }) && (e == RemoteRegistryError::NotFound ==> !id_taken(old(self)@, remote_id@)),
            },
    {
        let name: String = match normalize_name(name) {
            Ok(name) => name,
            Err(e) => {
                return Err(e);
            },
        };
        if self.holds_name(name.as_str(), Some(remote_id)) {
            return Err(RemoteRegistryError::DuplicateName);
        }
        match self.position(remote_id) {
            Some(i) => {
                let ghost before = self@;
                self.remotes[i].name = name;
                assert(self@ =~= before.update(
                    i as int,
                    RemoteView { name: name@, ..before[i as int] },
                ));
                Ok(self.remotes[i].clone())
            },
            None => Err(RemoteRegistryError::NotFound),
        }
    }

    /// Switches the remote with this id on or off.
    pub fn set_enabled(&mut self, remote_id: &str, enabled: bool) -> (r: Result<
        RemoteDefinitionSnapshot,
        RemoteRegistryError,
    >)
        ensures
            match r {
                Ok(remote) => exists|i: int| #[trigger]
                    is_first(old(self)@, i, remote_id@) && remote.deep_view() == (RemoteView {
                        disabled: !enabled,
                        ..old(self)@[i]
                    }) && final(self)@ == old(self)@.update(i, remote.deep_view()),
                Err(e) => e == RemoteRegistryError::NotFound && !id_taken(old(self)@, remote_id@)
                    && final(self)@ == old(self)@,
            },
    {
        match self.position(remote_id) {
            Some(i) => {
                let ghost before = self@;
                self.remotes[i].disabled = !enabled;
                assert(self@ =~= before.update(
                    i as int,
                    RemoteView { disabled: !enabled, ..before[i as int] },
                ));
                Ok(self.remotes[i].clone())
            },
            None => Err(RemoteRegistryError::NotFound),
        }
    }

    /// Switches the automatic update of the remote with this id on or off.
    pub fn set_auto_update(&mut self, remote_id: &str, auto_update: bool) -> (r: Result<
        RemoteDefinitionSnapshot,
        RemoteRegistryError,
    >)
        ensures
            match r {
                Ok(remote) => exists|i: int| #[trigger]
                    is_first(old(self)@, i, remote_id@) && remote.deep_view() == (RemoteView {
                        auto_update,
                        ..old(self)@[i]
                    }) && final(self)@ == old(self)@.update(i, remote.deep_view()),
                Err(e) => e == RemoteRegistryError::NotFound && !id_taken(old(self)@, remote_id@)
                    && final(self)@ == old(self)@,
            },
    {
        match self.position(remote_id) {
            Some(i) => {
                let ghost before = self@;
                self.remotes[i].auto_update = auto_update;
                assert(self@ =~= before.update(
                    i as int,
                    RemoteView { auto_update, ..before[i as int] },
                ));
                Ok(self.remotes[i].clone())
            },
            None => Err(RemoteRegistryError::NotFound),
        }
    }
}

/// The number of terminal columns a character takes, `None` for a control character.
pub uninterp spec fn char_columns(c: char) -> Option<usize>;

/// `unicode_width::UnicodeWidthChar::width`, the number of columns in which a terminal shows the
/// character. Its result is named `char_columns`.
#[verifier::external_body]
fn char_width(c: char) -> (r: Option<usize>)
    ensures
        r == char_columns(c),
{
    unicode_width::UnicodeWidthChar::width(c)
}

/// The bullet that `raw` writes, if its first character takes `columns` columns: exactly one
/// character, no control character, one column wide.
pub open spec fn bullet_spec(raw: Seq<char>, columns: Option<usize>) -> Option<char> {
    if raw.len() == 1 && !text::is_control_spec(raw[0]) && columns == Some(1usize) {
        Some(raw[0])
    } else {
        None
    }
}

/// The bullet that `raw` writes, where its first character takes `columns` columns.
pub fn bullet_of_width(raw: &str, columns: Option<usize>) -> (r: Option<char>)
    ensures
        r == bullet_spec(raw@, columns),
{
    if raw.unicode_len() != 1 {
        return None;
    }
    let first: char = raw.get_char(0);
    let single: bool = match columns {
        Some(n) => n == 1,
        None => false,
    };
    if single && !text::is_control(first) {
        Some(first)
    } else {
        None
    }
}

/// The bullet that `raw` writes: exactly one character that takes one terminal column.
pub fn single_width_bullet(raw: &str) -> (r: Option<char>)
    ensures
        raw@.len() == 0 ==> r is None,
        raw@.len() > 0 ==> r == bullet_spec(raw@, char_columns(raw@[0])),
{
    if raw.is_empty() {
        return None;
    }
    bullet_of_width(raw, char_width(raw.get_char(0)))
}

/// Whether a bullet text may be stored.
pub open spec fn bullet_allowed(bullet: Option<Seq<char>>) -> bool {
    match bullet {
        Some(raw) => raw.len() > 0 && bullet_spec(raw, char_columns(raw[0])) is Some,
        None => true,
    }
}

impl RemoteRegistrySnapshot {
    /// Replaces the whole style of the remote with this id. `bg_known` and `fg_known` say whether
    /// the colour given as `bg` or `fg` is one that the palette knows.
    pub fn set_style(
        &mut self,
        remote_id: &str,
        bg: Option<String>,
        fg: Option<String>,
        bullet: Option<String>,
        bg_known: bool,
        fg_known: bool,
    ) -> (r: Result<RemoteDefinitionSnapshot, RemoteRegistryError>)
        ensures
            ({
                let valid = (bg is Some ==> bg_known) && (fg is Some ==> fg_known)
                    && bullet_allowed(bullet.deep_view());
                match r {
                    Ok(remote) => valid && exists|i: int| #[trigger]
                        is_first(old(self)@, i, remote_id@) && remote.deep_view() == (RemoteView {
                            style_bg: bg.deep_view(),
                            style_fg: fg.deep_view(),
                            style_bullet: bullet.deep_view(),
                            ..old(self)@[i]
                        }) && final(self)@ == old(self)@.update(i, remote.deep_view()),
                    Err(e) => final(self)@ == old(self)@ && e == (if !valid {
                        RemoteRegistryError::InvalidStyle
                    } else {
                        RemoteRegistryError::NotFound
                    }) && (valid ==> !id_taken(old(self)@, remote_id@)),
                }
            }),
    {
        if (bg.is_some() && !bg_known) || (fg.is_some() && !fg_known) {
            return Err(RemoteRegistryError::InvalidStyle);
        }
        if let Some(raw) = &bullet {
            if single_width_bullet(raw.as_str()).is_none() {
                return Err(RemoteRegistryError::InvalidStyle);
            }
        }
        match self.position(remote_id) {
            Some(i) => {
                let ghost before = self@;
                let ghost styled = RemoteView {
                    style_bg: bg.deep_view(),
                    style_fg: fg.deep_view(),
                    style_bullet: bullet.deep_view(),
                    ..before[i as int]
                };
                self.remotes[i].style_bg = bg;
                self.remotes[i].style_fg = fg;
                self.remotes[i].style_bullet = bullet;
                assert(self@ =~= before.update(i as int, styled));
                Ok(self.remotes[i].clone())
            },
            None => Err(RemoteRegistryError::NotFound),
        }
    }
}

/// Whether ids, names and target keys each occur once in the list.
pub open spec fn well_formed(remotes: Seq<RemoteView>) -> bool {
    forall|i: int, j: int|
        0 <= i < j < remotes.len() ==> {
            &&& (#[trigger] remotes[i]).id != (#[trigger] remotes[j]).id
            &&& remotes[i].name != remotes[j].name
            &&& canonical_key_of(remotes[i].target) != canonical_key_of(remotes[j].target)
        }
}

/// There is always a next number.
pub(crate) proof fn lemma_next_number_exists(remotes: Seq<RemoteView>)
    ensures
        exists|n: nat| is_next_number(remotes, n),
{
    let k = (remotes.len() + 1) as nat;
    if forall|m: nat| 1 <= m <= k ==> id_taken(remotes, #[trigger] numbered_id(m)) {
        lemma_taken_numbers(remotes, k);
    } else {
        let n = choose|m: nat| 1 <= m <= k && !id_taken(remotes, #[trigger] numbered_id(m));
        lemma_smallest_number(remotes, n);
    }
}

proof fn lemma_smallest_number(remotes: Seq<RemoteView>, n: nat)
    requires
        n >= 1,
        !id_taken(remotes, numbered_id(n)),
    ensures
        exists|m: nat| is_next_number(remotes, m),
    decreases n,
{
    if forall|m: nat| 1 <= m < n ==> id_taken(remotes, #[trigger] numbered_id(m)) {
        assert(is_next_number(remotes, n));
    } else {
        let m = choose|m: nat| 1 <= m < n && !id_taken(remotes, #[trigger] numbered_id(m));
        lemma_smallest_number(remotes, m);
    }
}

/// The id of the next remote is not taken.
pub proof fn law_next_id_is_fresh(remotes: Seq<RemoteView>)
    ensures
        !id_taken(remotes, next_id_of(remotes)),
{
    lemma_next_number_exists(remotes);
}

/// Adding a remote keeps ids, names and target keys unique.
pub proof fn law_add_keeps_well_formed(
    remotes: Seq<RemoteView>,
    name: Option<Seq<char>>,
    target: TargetView,
    keybindings: RemoteKeybindingsSnapshot,
    excluded: Seq<TargetView>,
)
    requires
        well_formed(remotes),
    ensures
        match add_outcome(remotes, name, target, keybindings, excluded) {
            Ok(added) => well_formed(remotes.push(added)),
            Err(_) => true,
        },
{
    law_next_id_is_fresh(remotes);
}

/// Removing the remote that was just added gives the list back.
pub proof fn law_remove_undoes_add(
    remotes: Seq<RemoteView>,
    name: Option<Seq<char>>,
    target: TargetView,
    keybindings: RemoteKeybindingsSnapshot,
    excluded: Seq<TargetView>,
    i: int,
)
    ensures
        match add_outcome(remotes, name, target, keybindings, excluded) {
            Ok(added) => is_first(remotes.push(added), i, added.id) ==> remotes.push(added).remove(
                i,
            ) == remotes,
            Err(_) => true,
        },
        match add_outcome(remotes, name, target, keybindings, excluded) {
            Ok(added) => is_first(remotes.push(added), remotes.len() as int, added.id),
            Err(_) => true,
        },
{
    law_next_id_is_fresh(remotes);
    match add_outcome(remotes, name, target, keybindings, excluded) {
        Ok(added) => {
            let grown = remotes.push(added);
            assert forall|j: int| 0 <= j < remotes.len() implies (#[trigger] grown[j]).id
                != added.id by {
                assert(grown[j] == remotes[j]);
            }
            assert(grown.remove(remotes.len() as int) =~= remotes);
        },
        Err(_) => {},
    }
}

/// Removing a remote keeps ids, names and target keys unique, and its id is then free.
pub proof fn law_remove_keeps_well_formed(remotes: Seq<RemoteView>, i: int, id: Seq<char>)
    requires
        well_formed(remotes),
        is_first(remotes, i, id),
    ensures
        well_formed(remotes.remove(i)),
        !id_taken(remotes.remove(i), id),
{
    let left = remotes.remove(i);
    assert forall|a: int, b: int| 0 <= a < b < left.len() implies {
        &&& (#[trigger] left[a]).id != (#[trigger] left[b]).id
        &&& left[a].name != left[b].name
        &&& canonical_key_of(left[a].target) != canonical_key_of(left[b].target)
    } by {
        let x = if a < i {
            a
        } else {
            a + 1
        };
        let y = if b < i {
            b
        } else {
            b + 1
        };
        assert(left[a] == remotes[x] && left[b] == remotes[y]);
    }
    assert forall|a: int| 0 <= a < left.len() implies (#[trigger] left[a]).id != id by {
        let x = if a < i {
            a
        } else {
            a + 1
        };
        assert(left[a] == remotes[x]);
    }
}

/// Giving a remote a name that no other remote has keeps ids, names and target keys unique. So
/// does every change that leaves id, name and target alone.
pub proof fn law_update_keeps_well_formed(
    remotes: Seq<RemoteView>,
    i: int,
    id: Seq<char>,
    changed: RemoteView,
)
    requires
        well_formed(remotes),
        is_first(remotes, i, id),
        changed.id == id,
        changed.target == remotes[i].target,
        changed.name == remotes[i].name || !name_taken_by_other(remotes, id, changed.name),
    ensures
        well_formed(remotes.update(i, changed)),
{
    let new = remotes.update(i, changed);
    assert forall|a: int, b: int| 0 <= a < b < new.len() implies {
        &&& (#[trigger] new[a]).id != (#[trigger] new[b]).id
        &&& new[a].name != new[b].name
        &&& canonical_key_of(new[a].target) != canonical_key_of(new[b].target)
    } by {
        let o = remotes[a];
        let p = remotes[b];
        assert(o.id != p.id);
    }
}

/// White space around a target text does not count.
pub proof fn law_target_ignores_outer_space(before: Seq<char>, input: Seq<char>, after: Seq<char>)
    requires
        forall|i: int| 0 <= i < before.len() ==> is_white(#[trigger] before[i]),
        forall|i: int| 0 <= i < after.len() ==> is_white(#[trigger] after[i]),
    ensures
        target_of(before + input + after) == target_of(input),
        target_of(trim_spec(input)) == target_of(input),
{
    text::lemma_trim_idempotent(input);
    text::lemma_trim_around(before, input, after);
}

proof fn lemma_destination_words(host: Seq<char>)
    ensures
        join_spec(seq![host], " "@) == host,
        is_destination(host) ==> are_plain_words(seq![host]) && ssh_target_of(seq![host]) == Some(
            TargetView::Ssh { target: host, args: Seq::empty() },
        ),
{
    let words = seq![host];
    reveal_with_fuel(join_spec, 2);
    assert(words[0] == host);
    assert(join_spec(words, " "@) =~= host);
}

proof fn lemma_ssh_destination_words(host: Seq<char>)
    requires
        is_destination(host),
    ensures
        join_spec(seq!["ssh"@, host], " "@) == "ssh "@ + host,
        is_ssh_text("ssh "@ + host),
        are_plain_words(seq!["ssh"@, host]),
        ssh_target_of(seq!["ssh"@, host]) == Some(
            TargetView::Ssh { target: host, args: Seq::empty() },
        ),
{
    reveal_strlit("ssh");
    reveal_strlit("ssh ");
    reveal_strlit(" ");
    let words = seq!["ssh"@, host];
    reveal_with_fuel(join_spec, 3);
    law_ssh_program_is_optional(host);
    assert(words.drop_last() =~= seq!["ssh"@]);
    assert(words.drop_first() =~= seq![host]);
    assert(join_spec(words, " "@) =~= "ssh "@ + host);
    reveal_strlit("localhost");
    reveal_strlit("local:");
    let text = "ssh "@ + host;
    assert(text[0] == 's');
    assert("localhost"@[0] == 'l');
    if "local:"@.is_prefix_of(text) {
        assert(text.subrange(0, "local:"@.len() as int)[0] == text[0]);
    }
}

/// A destination means the same with and without the program name before it.
pub proof fn law_ssh_program_is_optional(host: Seq<char>)
    requires
        !is_option(host),
        host != "ssh"@,
    ensures
        ssh_target_of(seq!["ssh"@, host]) == ssh_target_of(seq![host]),
        ssh_target_of(seq![host]) == Some(TargetView::Ssh { target: host, args: Seq::empty() }),
{
    let tokens = seq!["ssh"@, host];
    let argv = without_program(tokens);
    assert(argv =~= seq![host]);
    assert(argv.skip(1) =~= Seq::<Seq<char>>::empty());
    assert(ssh_bare(argv.skip(1)) =~= Seq::<Seq<char>>::empty());
    assert(ssh_options(argv.skip(1)) =~= Seq::<Seq<char>>::empty());
    assert(ssh_bare(argv) =~= seq![host]);
}

/// Reading an ssh command line loses no token: each is the destination or stands among the
/// options.
pub proof fn law_ssh_keeps_every_token(argv: Seq<Seq<char>>)
    ensures
        argv.to_multiset() =~= ssh_bare(argv).to_multiset().add(ssh_options(argv).to_multiset()),
    decreases argv.len(),
{
    broadcast use vstd::seq_lib::group_to_multiset_ensures;

    if argv.len() > 0 {
        let n = if is_option(argv[0]) {
            option_span(argv)
        } else {
            1
        };
        let rest = argv.skip(n);
        law_ssh_keeps_every_token(rest);
        assert(argv =~= argv.take(n) + rest);
        vstd::seq_lib::lemma_multiset_commutative(argv.take(n), rest);
        if is_option(argv[0]) {
            vstd::seq_lib::lemma_multiset_commutative(argv.take(n), ssh_options(rest));
        } else {
            assert(argv.take(1) =~= seq![argv[0]]);
            vstd::seq_lib::lemma_multiset_commutative(seq![argv[0]], ssh_bare(rest));
        }
    }
}

/// Whether no part of the target holds the separator of the canonical key.
pub open spec fn separator_free(target: TargetView) -> bool {
    match target {
        TargetView::Ssh { target, args } => !target.contains('\u{1f}') && text::free_of(
            args,
            '\u{1f}',
        ),
        TargetView::Local { session } => true,
    }
}

/// Ssh targets with different destinations or different options have different keys.
pub proof fn law_key_tells_ssh_targets_apart(a: TargetView, b: TargetView)
    requires
        a is Ssh,
        b is Ssh,
        separator_free(a),
        separator_free(b),
        canonical_key_of(a) == canonical_key_of(b),
    ensures
        a == b,
{
    reveal_strlit("\u{1f}");
    let sep = "\u{1f}"@;
    let c = '\u{1f}';
    assert(sep =~= seq![c]);
    let head = "ssh:"@;
    let ka = canonical_key_of(a).skip(head.len() as int);
    let kb = canonical_key_of(b).skip(head.len() as int);
    match (a, b) {
        (
            TargetView::Ssh { target: ta, args: aa },
            TargetView::Ssh { target: tb, args: ab },
        ) => {
            if aa.len() == 0 && ab.len() == 0 {
                assert(ka =~= ta);
                assert(kb =~= tb);
                assert(aa =~= ab);
            } else if aa.len() == 0 {
                assert(ka =~= ta);
                assert(kb =~= tb + seq![c] + join_spec(ab, seq![c]));
                assert(kb[tb.len() as int] == c);
            } else if ab.len() == 0 {
                assert(kb =~= tb);
                assert(ka =~= ta + seq![c] + join_spec(aa, seq![c]));
                assert(ka[ta.len() as int] == c);
            } else {
                assert(ka =~= ta + seq![c] + join_spec(aa, seq![c]));
                assert(kb =~= tb + seq![c] + join_spec(ab, seq![c]));
                text::lemma_first_split_unique(
                    ta,
                    join_spec(aa, seq![c]),
                    tb,
                    join_spec(ab, seq![c]),
                    c,
                );
                text::lemma_join_injective(aa, ab, c);
            }
        },
        _ => {},
    }
}

/// An ssh target and a local one never have the same key.
pub proof fn law_key_tells_ssh_from_local(a: TargetView, b: TargetView)
    requires
        a is Ssh,
        b is Local,
    ensures
        canonical_key_of(a) != canonical_key_of(b),
{
    reveal_strlit("ssh:");
    reveal_strlit("local:");
    assert(canonical_key_of(a)[0] == 's');
    assert(canonical_key_of(b)[0] == 'l');
}

/// Two local targets that a target text can write have the same key only where they are the same.
pub proof fn law_key_tells_sessions_apart(x: Seq<char>, y: Seq<char>)
    requires
        target_of(x) is Some && target_of(x)->0 is Local,
        target_of(y) is Some && target_of(y)->0 is Local,
        canonical_key_of(target_of(x)->0) == canonical_key_of(target_of(y)->0),
    ensures
        target_of(x) == target_of(y),
{
    lemma_local_sessions(x);
    lemma_local_sessions(y);
    let head = "local:"@;
    let kx = canonical_key_of(target_of(x)->0).skip(head.len() as int);
    let ky = canonical_key_of(target_of(y)->0).skip(head.len() as int);
    match (target_of(x)->0, target_of(y)->0) {
        (TargetView::Local { session: sx }, TargetView::Local { session: sy }) => {
            match sx {
                Some(n) => assert(kx =~= n),
                None => assert(kx =~= "default"@),
            }
            match sy {
                Some(n) => assert(ky =~= n),
                None => assert(ky =~= "default"@),
            }
        },
        _ => {},
    }
}

proof fn lemma_local_sessions(x: Seq<char>)
    ensures
        match target_of(x) {
            Some(TargetView::Local { session: Some(name) }) => name != "default"@,
            _ => true,
        },
{
}

} // verus!
