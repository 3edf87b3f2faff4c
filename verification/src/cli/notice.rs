//! What a process says at startup about the settings it runs with.

use vstd::prelude::*;

use crate::text::optional_text;

verus! {

/// One line of a startup log.
#[derive(Debug)]
pub struct Notice {
    /// Whether it warns.
    pub warns: bool,
    /// The setting it is about, where it is about one.
    pub setting: Option<&'static str>,
    /// The agent it is about, where it is about one.
    pub agent: Option<String>,
    /// What the setting serves, where it serves one of several things.
    pub serves: Option<&'static str>,
    /// What the setting is set to.
    pub value: Option<String>,
    /// What the line says.
    pub message: &'static str,
}

/// A line of a startup log as a contract speaks of it.
pub struct NoticeModel {
    /// Whether it warns.
    pub warns: bool,
    /// The setting it is about.
    pub setting: Option<Seq<char>>,
    /// The agent it is about.
    pub agent: Option<Seq<char>>,
    /// What the setting serves.
    pub serves: Option<Seq<char>>,
    /// What the setting is set to.
    pub value: Option<Seq<char>>,
    /// What the line says.
    pub message: Seq<char>,
}

/// The text an optional constant holds.
pub open spec fn optional_constant(text: Option<&'static str>) -> Option<Seq<char>> {
    match text {
        Some(text) => Some(text@),
        None => None,
    }
}

impl View for Notice {
    type V = NoticeModel;

    open spec fn view(&self) -> NoticeModel {
        NoticeModel {
            warns: self.warns,
            setting: optional_constant(self.setting),
            agent: optional_text(self.agent),
            serves: optional_constant(self.serves),
            value: optional_text(self.value),
            message: self.message@,
        }
    }
}

/// The lines of a list.
pub open spec fn notice_models(list: Seq<Notice>) -> Seq<NoticeModel> {
    list.map_values(|notice: Notice| notice@)
}

/// What a line that states a setting says.
pub const CONFIGURATION: &'static str = "configuration";

/// A line that states a setting.
pub open spec fn stated(setting: Seq<char>, value: Seq<char>, message: Seq<char>) -> NoticeModel {
    NoticeModel {
        warns: false,
        setting: Some(setting),
        agent: None,
        serves: None,
        value: Some(value),
        message,
    }
}

/// A line that warns.
pub open spec fn warned(message: Seq<char>) -> NoticeModel {
    NoticeModel {
        warns: true,
        setting: None,
        agent: None,
        serves: None,
        value: None,
        message,
    }
}

/// Adds a line that states a setting.
pub fn state(
    notices: &mut Vec<Notice>,
    setting: &'static str,
    value: String,
    message: &'static str,
)
    ensures
        notice_models(final(notices)@) == notice_models(old(notices)@).push(
            stated(setting@, value@, message@),
        ),
{
    notices.push(
        Notice {
            warns: false,
            setting: Some(setting),
            agent: None,
            serves: None,
            value: Some(value),
            message,
        },
    );
    assert(notice_models(notices@) =~= notice_models(old(notices)@).push(
        stated(setting@, value@, message@),
    ));
}

/// Adds a line that warns.
pub fn warn(notices: &mut Vec<Notice>, message: &'static str)
    ensures
        notice_models(final(notices)@) == notice_models(old(notices)@).push(warned(message@)),
{
    notices.push(
        Notice { warns: true, setting: None, agent: None, serves: None, value: None, message },
    );
    assert(notice_models(notices@) =~= notice_models(old(notices)@).push(warned(message@)));
}

} // verus!
