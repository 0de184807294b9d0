//! The rules behind the chat commands: who may give them, and how an
//! assignment such as `link_only=true` changes a subscriber's settings.

use vstd::prelude::*;
use vstd::string::StringSliceAdditionalSpecFns;

use crate::data::FeedSettings;
use crate::text::same_text;

verus! {

/// Whether a command from `from` is accepted by a bot owned by `owner`: a
/// bot with an owner takes commands from the owner alone, one without
/// takes them from anyone.
pub fn is_authorized(owner: Option<i64>, from: i64) -> (accepted: bool)
    ensures
        accepted == match owner {
            Some(owner) => owner == from,
            None => true,
        },
{
    match owner {
        Some(owner) => owner == from,
        None => true,
    }
}

/// Why a user may not give commands for a chat.
#[derive(Debug, Clone, Copy, PartialEq, Eq, Structural)]
pub enum Denial {
    /// The chat is the private chat of someone else.
    TargetIsOther,
    /// The user is not an administrator of the chat.
    AdminOnly,
    /// The chat is a channel in which the bot is not an administrator.
    BotNotAdmin,
}

/// Whether `user` may give commands for the private chat `chat`: only for
/// their own.
pub fn private_target(chat: i64, user: i64) -> (denial: Option<Denial>)
    ensures
        denial == (if chat == user {
            None
        } else {
            Some(Denial::TargetIsOther)
        }),
{
    if chat == user {
        None
    } else {
        Some(Denial::TargetIsOther)
    }
}

/// Whether a user may give commands for a group or channel: the user is
/// an administrator of it, or of the bot as a whole; and in a channel the
/// bot is an administrator too. A user without rights is told so before
/// anything is said about the bot.
pub fn shared_target(
    user_is_admin: bool,
    user_is_global_admin: bool,
    chat_is_channel: bool,
    bot_is_admin: bool,
) -> (denial: Option<Denial>)
    ensures
        denial == (if !user_is_admin && !user_is_global_admin {
            Some(Denial::AdminOnly)
        } else if chat_is_channel && !bot_is_admin {
            Some(Denial::BotNotAdmin)
        } else {
            None
        }),
{
    if !user_is_admin && !user_is_global_admin {
        Some(Denial::AdminOnly)
    } else if chat_is_channel && !bot_is_admin {
        Some(Denial::BotNotAdmin)
    } else {
        None
    }
}

/// The byte that parts a setting's name from its value.
pub const ASSIGN: u8 = 0x3d;

/// The byte at `at` is an `=`, and the only one.
pub open spec fn is_split_point(bytes: Seq<u8>, at: int) -> bool {
    &&& 0 <= at < bytes.len()
    &&& bytes[at] == ASSIGN
    &&& forall|other: int| 0 <= other < bytes.len() && other != at ==> bytes[other] != ASSIGN
}

/// Where the one `=` of `assignment` stands, counted in bytes: the name is
/// what stands before it, the value what stands after. Returns `None`
/// where the text holds no `=` or more than one.
pub fn assignment_split_point(assignment: &str) -> (at: Option<usize>)
    ensures
        match at {
            Some(at) => is_split_point(assignment.spec_bytes(), at as int),
            None => forall|at: int| !is_split_point(assignment.spec_bytes(), at),
        },
{
    let bytes = assignment.as_bytes();
    let mut found: Option<usize> = None;
    let mut i: usize = 0;
    while i < bytes.len()
        invariant
            i <= bytes@.len(),
            bytes@ == assignment.spec_bytes(),
            match found {
                Some(at) => at < i && bytes@[at as int] == ASSIGN && forall|other: int|
                    0 <= other < i && other != at ==> bytes@[other] != ASSIGN,
                None => forall|other: int| 0 <= other < i ==> bytes@[other] != ASSIGN,
            },
        decreases bytes@.len() - i,
    {
        if bytes[i] == ASSIGN {
            match found {
                Some(at) => {
                    assert forall|place: int| !is_split_point(bytes@, place) by {
                        if place == at as int {
                            assert(bytes@[i as int] == ASSIGN);
                        } else {
                            assert(bytes@[at as int] == ASSIGN);
                        }
                    }
                    return None;
                },
                None => {
                    found = Some(i);
                },
            }
        }
        i += 1;
    }
    found
}

/// The toggles that a subscriber can set.
#[derive(Debug, Clone, Copy, PartialEq, Eq, Structural)]
pub enum SettingKey {
    DisablePreview,
    LinkOnly,
    HideRssTitle,
    CombineMsg,
}

/// Why an assignment was not taken.
#[derive(Debug, Clone, Copy, PartialEq, Eq, Structural)]
pub enum SettingError {
    /// There is no setting of that name.
    UnknownKey,
    /// The value is neither `true` nor `false`.
    BadValue,
}

/// The toggle that a name stands for.
pub open spec fn spec_setting_key(name: Seq<char>) -> Option<SettingKey> {
    if name == "disable_preview"@ {
        Some(SettingKey::DisablePreview)
    } else if name == "link_only"@ {
        Some(SettingKey::LinkOnly)
    } else if name == "hide_rss_title"@ {
        Some(SettingKey::HideRssTitle)
    } else if name == "combine_msg"@ {
        Some(SettingKey::CombineMsg)
    } else {
        None
    }
}

/// The toggle that `name` stands for, if it is the name of one.
pub fn setting_key(name: &str) -> (key: Option<SettingKey>)
    ensures
        key == spec_setting_key(name@),
{
    if same_text(name, "disable_preview") {
        Some(SettingKey::DisablePreview)
    } else if same_text(name, "link_only") {
        Some(SettingKey::LinkOnly)
    } else if same_text(name, "hide_rss_title") {
        Some(SettingKey::HideRssTitle)
    } else if same_text(name, "combine_msg") {
        Some(SettingKey::CombineMsg)
    } else {
        None
    }
}

/// The truth value that a text spells out.
pub open spec fn spec_parse_bool(value: Seq<char>) -> Option<bool> {
    if value == "true"@ {
        Some(true)
    } else if value == "false"@ {
        Some(false)
    } else {
        None
    }
}

/// The truth value that `value` spells out: `true` or `false`, in exactly
/// these letters.
pub fn parse_bool(value: &str) -> (choice: Option<bool>)
    ensures
        choice == spec_parse_bool(value@),
{
    if same_text(value, "true") {
        Some(true)
    } else if same_text(value, "false") {
        Some(false)
    } else {
        None
    }
}

impl FeedSettings {
    /// The settings with the toggle `key` set to `choice`.
    pub open spec fn spec_with(self, key: SettingKey, choice: bool) -> FeedSettings {
        match key {
            SettingKey::DisablePreview => FeedSettings { disable_preview: Some(choice), ..self },
            SettingKey::LinkOnly => FeedSettings { link_only: Some(choice), ..self },
            SettingKey::HideRssTitle => FeedSettings { hide_rss_title: Some(choice), ..self },
            SettingKey::CombineMsg => FeedSettings { combine_msg: Some(choice), ..self },
        }
    }

    /// The settings with the toggle `key` set to `choice`, the others kept.
    #[verifier::when_used_as_spec(spec_with)]
    pub fn with(self, key: SettingKey, choice: bool) -> (changed: FeedSettings)
        ensures
            changed == self.spec_with(key, choice),
    {
        match key {
            SettingKey::DisablePreview => FeedSettings { disable_preview: Some(choice), ..self },
            SettingKey::LinkOnly => FeedSettings { link_only: Some(choice), ..self },
            SettingKey::HideRssTitle => FeedSettings { hide_rss_title: Some(choice), ..self },
            SettingKey::CombineMsg => FeedSettings { combine_msg: Some(choice), ..self },
        }
    }
}

/// What assigning `value` to the setting named `name` makes of `settings`.
/// An unknown name is reported before a bad value.
pub open spec fn spec_apply_setting(settings: FeedSettings, name: Seq<char>, value: Seq<char>)
    -> Result<FeedSettings, SettingError> {
    match spec_setting_key(name) {
        None => Err(SettingError::UnknownKey),
        Some(key) => match spec_parse_bool(value) {
            None => Err(SettingError::BadValue),
            Some(choice) => Ok(settings.spec_with(key, choice)),
        },
    }
}

/// Assigns `value` to the setting named `name` in `settings`.
pub fn apply_setting(settings: FeedSettings, name: &str, value: &str) -> (changed: Result<
    FeedSettings,
    SettingError,
>)
    ensures
        changed == spec_apply_setting(settings, name@, value@),
{
    match setting_key(name) {
        None => Err(SettingError::UnknownKey),
        Some(key) => match parse_bool(value) {
            None => Err(SettingError::BadValue),
            Some(choice) => Ok(settings.with(key, choice)),
        },
    }
}

} // verus!
