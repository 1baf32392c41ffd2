//! What a chat panel shows: the histories it walks, the messages of the
//! mentions panel, and how each message row is drawn.

use vstd::prelude::*;
use crate::model::{ChatMessage, ComboCounter, MessageType, ProviderMap};
use crate::messages::{mentioned_in_message, mentions_user};
use crate::state::ChatState;
use crate::text::{lowercase, str_eq, to_lowercase, views};

verus! {

/// A history is walked by a panel showing its channel; the mentions panel
/// (no channel selected) walks the histories of the channels shown in it.
pub open spec fn history_in_panel(s: ChatState, selected: Option<Seq<char>>, k: Seq<char>) -> bool {
    match selected {
        Some(c) => c == k,
        None => s.channels@.contains_key(k) && s.channels@[k].spec_shared().show_in_mentions_tab,
    }
}

/// The test of `history_in_panel`, as a function of the history's channel.
pub open spec fn panel_pred(s: ChatState, selected: Option<Seq<char>>) -> spec_fn(Seq<char>) -> bool {
    |k: Seq<char>| history_in_panel(s, selected, k)
}

impl ChatState {
    /// The channels whose histories a panel walks, in the order of the
    /// histories.
    pub fn panel_histories(&self, selected_channel: Option<&String>) -> (r: Vec<String>)
        requires
            self.wf(),
        ensures
            views(r@) == self.chat_histories.key_list().filter(panel_pred(*self, match selected_channel {
                Some(c) => Some(c@),
                None => None,
            })),
    {
        let ghost sel: Option<Seq<char>> = match selected_channel {
            Some(c) => Some(c@),
            None => None,
        };
        let ghost pred = panel_pred(*self, sel);
        let ghost keys = self.chat_histories.key_list();
        proof {
            self.chat_histories.lemma_wf();
        }
        let n = self.chat_histories.len();
        let mut r: Vec<String> = Vec::new();
        let mut i: usize = 0;
        proof {
            reveal(Seq::filter);
            assert(keys.take(0) =~= Seq::<Seq<char>>::empty());
        }
        while i < n
            invariant
                self.wf(),
                i <= n,
                n == keys.len(),
                keys == self.chat_histories.key_list(),
                pred == panel_pred(*self, sel),
                sel == match selected_channel {
                    Some(c) => Some(c@),
                    None => None,
                },
                views(r@) == keys.take(i as int).filter(pred),
            decreases n - i,
        {
            let k = self.chat_histories.key_at(i);
            let shown = match selected_channel {
                Some(c) => str_eq(c.as_str(), k.as_str()),
                None => match self.channels.get(k.as_str()) {
                    Some(ch) => ch.shared().show_in_mentions_tab,
                    None => false,
                },
            };
            assert(shown == pred(keys[i as int]));
            proof {
                assert(keys.take(i + 1).drop_last() == keys.take(i as int));
                assert(keys.take(i + 1).last() == keys[i as int]);
            }
            if shown {
                r.push(k.clone());
            }
            proof {
                reveal(Seq::filter);
                assert(views(r@) =~= keys.take(i + 1).filter(pred));
            }
            i += 1;
        }
        assert(keys.take(n as int) == keys);
        r
    }
}

/// The mentions panel shows only messages that mention the user; a channel's
/// panel shows every message.
pub open spec fn message_in_panel(mentions_panel: bool, usernames: ProviderMap<String>, m: ChatMessage) -> bool {
    !mentions_panel || match usernames.spec_get(m.provider) {
        Some(u) => mentions_user(m.message@, u@),
        None => false,
    }
}

/// Whether a message is shown in a panel; `usernames` holds the user's
/// lower-cased name on each provider.
pub fn shown_in_panel(mentions_panel: bool, usernames: &ProviderMap<String>, m: &ChatMessage) -> (r: bool)
    ensures
        r == message_in_panel(mentions_panel, *usernames, *m),
{
    !mentions_panel || mentioned_in_message(usernames, &m.provider, m.message.as_str())
}

/// How a message row is drawn.
#[derive(Clone, Copy, Debug, PartialEq, Eq, Structural)]
pub enum RowDisplay {
    /// As a chat message.
    Message,
    /// As the line that counts a finished combo.
    ComboLine,
    /// Not at all: a combo still running is drawn when it ends.
    Hidden,
}

/// With combos on, a message of a combo is drawn as a message only when it
/// is the whole combo; the last message of a longer combo is drawn as the
/// combo's line, and the others are not drawn.
pub open spec fn row_display_spec(enable_combos: bool, combo: Option<ComboCounter>) -> RowDisplay {
    match combo {
        Some(c) if enable_combos => if c.count == 1 && c.is_end {
            RowDisplay::Message
        } else if c.is_end {
            RowDisplay::ComboLine
        } else {
            RowDisplay::Hidden
        },
        _ => RowDisplay::Message,
    }
}

/// How a message row is drawn.
pub fn row_display(enable_combos: bool, combo: &Option<ComboCounter>) -> (r: RowDisplay)
    ensures
        r == row_display_spec(enable_combos, *combo),
{
    match combo {
        Some(c) if enable_combos => {
            if c.count == 1 && c.is_end {
                RowDisplay::Message
            } else if c.is_end {
                RowDisplay::ComboLine
            } else {
                RowDisplay::Hidden
            }
        },
        _ => RowDisplay::Message,
    }
}

/// The background a message row is drawn on.
#[derive(Clone, Copy, Debug, PartialEq, Eq, Structural)]
pub enum RowHighlight {
    /// The provider's color, faded.
    Provider,
    /// Dark red, for errors.
    Error,
    /// Transparent, for information.
    Clear,
    /// Grey, for a message of the selected user.
    SelectedUser,
    /// None.
    Plain,
}

/// The background of a row: by the kind of message, and for a chat message
/// whether it is by the selected user, matched by the lower-cased display
/// name, or user name when there is none.
pub open spec fn row_highlight_spec(m: ChatMessage, selected_user: Option<Seq<char>>) -> RowHighlight {
    match m.msg_type {
        MessageType::Announcement => RowHighlight::Provider,
        MessageType::Error => RowHighlight::Error,
        MessageType::Information => RowHighlight::Clear,
        MessageType::Chat => if selected_user == Some(lowercase(match m.profile.display_name {
            Some(d) => d@,
            None => m.username@,
        })) {
            RowHighlight::SelectedUser
        } else {
            RowHighlight::Plain
        },
    }
}

/// The background a message row is drawn on.
pub fn row_highlight(m: &ChatMessage, selected_user: &Option<String>) -> (r: RowHighlight)
    ensures
        r == row_highlight_spec(*m, match selected_user {
            Some(u) => Some(u@),
            None => None,
        }),
{
    match m.msg_type {
        MessageType::Announcement => RowHighlight::Provider,
        MessageType::Error => RowHighlight::Error,
        MessageType::Information => RowHighlight::Clear,
        MessageType::Chat => {
            match selected_user {
                None => RowHighlight::Plain,
                Some(u) => {
                    let name = match &m.profile.display_name {
                        Some(d) => d,
                        None => &m.username,
                    };
                    let lower = to_lowercase(name.as_str());
                    if str_eq(u.as_str(), lower.as_str()) {
                        RowHighlight::SelectedUser
                    } else {
                        RowHighlight::Plain
                    }
                },
            }
        },
    }
}

} // verus!
