//! Notifications that a server sends, and what the client asks to be told of.

use vstd::prelude::*;

use crate::api::{EventsSubscribeParams, Method, Request, Subscription};
use crate::messages::NotifyKind;
use crate::text;
use crate::text::occurs_at;

verus! {

#[derive(Debug, Clone, Copy, PartialEq, Eq, Structural)]
pub enum Sound {
    Done,
    Request,
}

/// The sound that a message names.
pub open spec fn sound_of(message: Seq<char>) -> Option<Sound> {
    if message == "agent done"@ {
        Some(Sound::Done)
    } else if message == "agent attention"@ {
        Some(Sound::Request)
    } else {
        None
    }
}

/// The sound that a message names.
pub fn sound_from_notify_message(message: &str) -> (r: Option<Sound>)
    ensures
        r == sound_of(message@),
{
    if text::same(message, "agent done") {
        Some(Sound::Done)
    } else if text::same(message, "agent attention") {
        Some(Sound::Request)
    } else {
        None
    }
}

/// Whether title and body are those of a message: they stand around its first `: `; without one
/// all of it is title.
pub open spec fn is_split(message: Seq<char>, title: Seq<char>, body: Option<Seq<char>>) -> bool {
    match body {
        Some(b) => message == title + ": "@ + b && forall|i: int|
            0 <= i < title.len() ==> !#[trigger] occurs_at(": "@, message, i),
        None => message == title && forall|i: int| !#[trigger] occurs_at(": "@, message, i),
    }
}

/// Title and body of a message.
pub fn split_message(message: &str) -> (r: (String, Option<String>))
    ensures
        is_split(message@, r.0@, r.1.deep_view()),
{
    let n: usize = message.unicode_len();
    let mut i: usize = 0;
    proof {
        reveal_strlit(": ");
    }
    while i < n && n - i >= 2
        invariant
            i <= n == message@.len(),
            ": "@.len() == 2,
            forall|k: int| 0 <= k < i ==> !#[trigger] occurs_at(": "@, message@, k),
        decreases n - i,
    {
        if text::same(message.substring_char(i, i + 2), ": ") {
            let title: &str = message.substring_char(0, i);
            let body: &str = message.substring_char(i + 2, n);
            assert(message@ =~= title@ + ": "@ + body@) by {
                assert(message@.subrange(i as int, i + 2) == ": "@);
                assert(message@[i as int] == ": "@[0]);
                assert(message@[i + 1] == ": "@[1]);
            }
            return (title.to_owned(), Some(body.to_owned()));
        }
        i = i + 1;
    }
    assert forall|k: int| !#[trigger] occurs_at(": "@, message@, k) by {}
    (message.to_owned(), None)
}

/// What a notification asks for.
#[derive(Debug, PartialEq, Eq)]
pub enum NotifyAction {
    /// Play a sound.
    Play(Sound),
    /// Show a notification through the terminal.
    Terminal { title: String, body: Option<String> },
    /// Show a notification of the system.
    System { title: String, body: Option<String> },
    /// Nothing.
    Ignore,
}

/// Whether an action is what a notification asks for. Sounds are played where they are switched
/// on; toasts are always shown.
pub open spec fn is_notify_action(
    action: NotifyAction,
    kind: NotifyKind,
    message: Seq<char>,
    sounds_enabled: bool,
) -> bool {
    match kind {
        NotifyKind::Sound => action == (match sound_of(message) {
            Some(sound) => if sounds_enabled {
                NotifyAction::Play(sound)
            } else {
                NotifyAction::Ignore
            },
            None => NotifyAction::Ignore,
        }),
        NotifyKind::Toast => action is Terminal && is_split(
            message,
            action->Terminal_title@,
            action->Terminal_body.deep_view(),
        ),
        NotifyKind::SystemToast => action is System && is_split(
            message,
            action->System_title@,
            action->System_body.deep_view(),
        ),
    }
}

/// What a notification asks for.
pub fn handle_notify(kind: NotifyKind, message: &str, sounds_enabled: bool) -> (r: NotifyAction)
    ensures
        is_notify_action(r, kind, message@, sounds_enabled),
{
    match kind {
        NotifyKind::Sound => match sound_from_notify_message(message) {
            Some(sound) => {
                if sounds_enabled {
                    NotifyAction::Play(sound)
                } else {
                    NotifyAction::Ignore
                }
            },
            None => NotifyAction::Ignore,
        },
        NotifyKind::Toast => {
            let (title, body) = split_message(message);
            NotifyAction::Terminal { title, body }
        },
        NotifyKind::SystemToast => {
            let (title, body) = split_message(message);
            NotifyAction::System { title, body }
        },
    }
}

/// The events that may change what the sidebar shows.
pub open spec fn summary_events() -> Seq<Subscription> {
    seq![
        Subscription::WorkspaceCreated {  },
        Subscription::WorkspaceUpdated {  },
        Subscription::WorkspaceRenamed {  },
        Subscription::WorkspaceClosed {  },
        Subscription::WorkspaceFocused {  },
        Subscription::TabCreated {  },
        Subscription::TabClosed {  },
        Subscription::TabFocused {  },
        Subscription::TabRenamed {  },
        Subscription::PaneCreated {  },
        Subscription::PaneClosed {  },
        Subscription::PaneFocused {  },
        Subscription::PaneExited {  },
        Subscription::PaneAgentDetected {  },
        Subscription::PaneAgentStatusChanged { pane_id: None, agent_status: None },
    ]
}

/// The request to be told of every event that may change what the sidebar shows.
pub fn summary_refresh_subscription_request(id: &str) -> (r: Request)
    ensures
        r.id@ == id@,
        r.method is EventsSubscribe,
        r.method->EventsSubscribe_0.subscriptions@ == summary_events(),
{
    let mut subscriptions: Vec<Subscription> = Vec::new();
    subscriptions.push(Subscription::WorkspaceCreated {  });
    subscriptions.push(Subscription::WorkspaceUpdated {  });
    subscriptions.push(Subscription::WorkspaceRenamed {  });
    subscriptions.push(Subscription::WorkspaceClosed {  });
    subscriptions.push(Subscription::WorkspaceFocused {  });
    subscriptions.push(Subscription::TabCreated {  });
    subscriptions.push(Subscription::TabClosed {  });
    subscriptions.push(Subscription::TabFocused {  });
    subscriptions.push(Subscription::TabRenamed {  });
    subscriptions.push(Subscription::PaneCreated {  });
    subscriptions.push(Subscription::PaneClosed {  });
    subscriptions.push(Subscription::PaneFocused {  });
    subscriptions.push(Subscription::PaneExited {  });
    subscriptions.push(Subscription::PaneAgentDetected {  });
    subscriptions.push(
        Subscription::PaneAgentStatusChanged { pane_id: None, agent_status: None },
    );
    assert(subscriptions@ =~= summary_events());
    Request {
        id: id.to_owned(),
        method: Method::EventsSubscribe(EventsSubscribeParams { subscriptions }),
    }
}

} // verus!
