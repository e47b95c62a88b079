//! Rider profiles. A profile carries the rider's name and functional
//! threshold power (FTP), against which the fractions of a workout are read.
//! The profile screen edits one profile through two text inputs.

use crate::text::{chars_of, decimal_string, decimal_text, read_unsigned, unsigned_value};
use vstd::prelude::*;

verus! {

/// One rider. Of the profiles of an application at most one is current.
#[derive(Debug, Eq)]
pub struct UserProfile {
    name: String,
    ftp: u16,
    active: bool,
}

/// A `UserProfile` as a mathematical value.
pub struct UserProfileView {
    pub name: Seq<char>,
    pub ftp: u16,
    pub active: bool,
}

impl View for UserProfile {
    type V = UserProfileView;

    closed spec fn view(&self) -> UserProfileView {
        UserProfileView { name: self.name@, ftp: self.ftp, active: self.active }
    }
}

impl Default for UserProfile {
    fn default() -> (profile: UserProfile)
        ensures
            profile@ == (UserProfileView { name: Seq::empty(), ftp: 0, active: false }),
    {
        UserProfile { name: String::new(), ftp: 0, active: false }
    }
}

impl Clone for UserProfile {
    fn clone(&self) -> (copy: UserProfile)
        ensures
            copy@ == self@,
    {
        UserProfile { name: self.name.clone(), ftp: self.ftp, active: self.active }
    }
}

impl PartialEq for UserProfile {
    fn eq(&self, other: &UserProfile) -> (equal: bool) {
        self.name == other.name && self.ftp == other.ftp && self.active == other.active
    }
}

impl vstd::std_specs::cmp::PartialEqSpecImpl for UserProfile {
    open spec fn obeys_eq_spec() -> bool {
        true
    }

    open spec fn eq_spec(&self, other: &UserProfile) -> bool {
        self@ == other@
    }
}

impl UserProfile {
    /// A profile without a name and with no FTP set.
    pub fn new(active: bool) -> (profile: UserProfile)
        ensures
            profile@ == (UserProfileView { name: Seq::empty(), ftp: 0, active }),
    {
        UserProfile { name: String::new(), ftp: 0, active }
    }

    pub fn set_active(&mut self, active: bool)
        ensures
            final(self)@ == (UserProfileView { active, ..old(self)@ }),
    {
        self.active = active;
    }

    pub fn active(&self) -> (active: bool)
        ensures
            active == self@.active,
    {
        self.active
    }

    pub fn set_name(&mut self, name: &str)
        ensures
            final(self)@ == (UserProfileView { name: name@, ..old(self)@ }),
    {
        self.name = name.to_owned();
    }

    pub fn set_ftp(&mut self, ftp: u16)
        ensures
            final(self)@ == (UserProfileView { ftp, ..old(self)@ }),
    {
        self.ftp = ftp;
    }

    pub fn name(&self) -> (name: &str)
        ensures
            name@ == self@.name,
    {
        self.name.as_str()
    }

    pub fn ftp(&self) -> (ftp: u16)
        ensures
            ftp == self@.ftp,
    {
        self.ftp
    }

    /// How the profile is listed: by its name, or as `New...` while it has
    /// none.
    pub fn label(&self) -> (label: String)
        ensures
            label@ == if self@.name.len() == 0 {
                "New..."@
            } else {
                self@.name
            },
    {
        if self.name.as_str().is_empty() {
            "New...".to_owned()
        } else {
            self.name.clone()
        }
    }
}

/// What the profile screen and the application tell each other.
#[derive(Debug)]
pub enum UserProfileMessage {
    NameInputChanged(String),
    FtpInputChanged(String),
    SaveProfile(String, u16),
    DeleteProfile,
    Editing(bool),
    Clear,
}

/// A `UserProfileMessage` as a mathematical value.
pub enum UserProfileMessageView {
    NameInputChanged(Seq<char>),
    FtpInputChanged(Seq<char>),
    SaveProfile(Seq<char>, u16),
    DeleteProfile,
    Editing(bool),
    Clear,
}

impl View for UserProfileMessage {
    type V = UserProfileMessageView;

    open spec fn view(&self) -> UserProfileMessageView {
        match *self {
            UserProfileMessage::NameInputChanged(value) => {
                UserProfileMessageView::NameInputChanged(value@)
            },
            UserProfileMessage::FtpInputChanged(value) => UserProfileMessageView::FtpInputChanged(
                value@,
            ),
            UserProfileMessage::SaveProfile(name, ftp) => UserProfileMessageView::SaveProfile(
                name@,
                ftp,
            ),
            UserProfileMessage::DeleteProfile => UserProfileMessageView::DeleteProfile,
            UserProfileMessage::Editing(editing) => UserProfileMessageView::Editing(editing),
            UserProfileMessage::Clear => UserProfileMessageView::Clear,
        }
    }
}

impl Clone for UserProfileMessage {
    fn clone(&self) -> (copy: UserProfileMessage)
        ensures
            copy@ == self@,
    {
        match self {
            UserProfileMessage::NameInputChanged(value) => UserProfileMessage::NameInputChanged(
                value.clone(),
            ),
            UserProfileMessage::FtpInputChanged(value) => UserProfileMessage::FtpInputChanged(
                value.clone(),
            ),
            UserProfileMessage::SaveProfile(name, ftp) => UserProfileMessage::SaveProfile(
                name.clone(),
                *ftp,
            ),
            UserProfileMessage::DeleteProfile => UserProfileMessage::DeleteProfile,
            UserProfileMessage::Editing(editing) => UserProfileMessage::Editing(*editing),
            UserProfileMessage::Clear => UserProfileMessage::Clear,
        }
    }
}

/// The FTP that `text` writes, where it writes one: an unsigned number that
/// fits 16 bits.
pub open spec fn ftp_value(text: Seq<char>) -> Option<u16> {
    match unsigned_value(text) {
        Some(n) if n <= u16::MAX => Some(n as u16),
        _ => None,
    }
}

/// Reads an FTP input.
pub fn parse_ftp(text: &str) -> (ftp: Option<u16>)
    ensures
        ftp == ftp_value(text@),
{
    let chars = chars_of(text);
    match read_unsigned(chars.as_slice()) {
        Some(n) => {
            if n <= u16::MAX as u64 {
                Some(n as u16)
            } else {
                None
            }
        },
        None => None,
    }
}

/// What the user has typed into the profile screen.
#[derive(Debug)]
pub struct UserProfileState {
    name_input: String,
    ftp_input: String,
    editing: bool,
}

/// A `UserProfileState` as a mathematical value.
pub struct UserProfileStateView {
    pub name_input: Seq<char>,
    pub ftp_input: Seq<char>,
    pub editing: bool,
}

impl View for UserProfileState {
    type V = UserProfileStateView;

    closed spec fn view(&self) -> UserProfileStateView {
        UserProfileStateView {
            name_input: self.name_input@,
            ftp_input: self.ftp_input@,
            editing: self.editing,
        }
    }
}

impl UserProfileStateView {
    /// The inputs after a message: a name is taken as typed, an FTP only
    /// where it is empty or writes an FTP, and `Clear` empties both.
    pub open spec fn after(self, message: UserProfileMessageView) -> UserProfileStateView {
        match message {
            UserProfileMessageView::NameInputChanged(value) => UserProfileStateView {
                name_input: value,
                editing: true,
                ..self
            },
            UserProfileMessageView::FtpInputChanged(value) => UserProfileStateView {
                ftp_input: if ftp_value(value) is Some || value.len() == 0 {
                    value
                } else {
                    self.ftp_input
                },
                editing: true,
                ..self
            },
            UserProfileMessageView::Clear => UserProfileStateView {
                name_input: Seq::empty(),
                ftp_input: Seq::empty(),
                editing: false,
            },
            UserProfileMessageView::Editing(editing) => UserProfileStateView { editing, ..self },
            _ => self,
        }
    }

    /// The inputs as shown for `profile`: while the user is not editing,
    /// an empty input shows what the profile holds (an FTP of zero shows as
    /// nothing).
    pub open spec fn shown_for(self, profile: UserProfileView) -> UserProfileStateView {
        if self.editing {
            self
        } else {
            UserProfileStateView {
                name_input: if self.name_input.len() == 0 {
                    profile.name
                } else {
                    self.name_input
                },
                ftp_input: if self.ftp_input.len() == 0 && profile.ftp != 0 {
                    decimal_text(profile.ftp as nat)
                } else {
                    self.ftp_input
                },
                editing: false,
            }
        }
    }

    /// The inputs can be saved to `profile`: at least one of them differs
    /// from what the profile holds, and none that differs is empty.
    pub open spec fn can_save(self, profile: UserProfileView) -> bool {
        let same_name = self.name_input == profile.name;
        let same_ftp = self.ftp_input == decimal_text(profile.ftp as nat);
        ||| (self.name_input.len() != 0 && self.ftp_input.len() != 0 && !same_name && !same_ftp)
        ||| (!same_name && self.name_input.len() != 0 && same_ftp)
        ||| (same_name && !same_ftp && self.ftp_input.len() != 0)
    }

    /// What saving the inputs asks for: the name as typed, and the FTP that
    /// the input writes, or zero.
    pub open spec fn save_request(self) -> UserProfileMessageView {
        UserProfileMessageView::SaveProfile(
            self.name_input,
            match ftp_value(self.ftp_input) {
                Some(ftp) => ftp,
                None => 0,
            },
        )
    }
}

impl Default for UserProfileState {
    fn default() -> (state: UserProfileState)
        ensures
            state@ == (UserProfileStateView {
                name_input: Seq::empty(),
                ftp_input: Seq::empty(),
                editing: false,
            }),
    {
        UserProfileState { name_input: String::new(), ftp_input: String::new(), editing: false }
    }
}

impl Clone for UserProfileState {
    fn clone(&self) -> (copy: UserProfileState)
        ensures
            copy@ == self@,
    {
        UserProfileState {
            name_input: self.name_input.clone(),
            ftp_input: self.ftp_input.clone(),
            editing: self.editing,
        }
    }
}

impl UserProfileState {
    pub fn name_input(&self) -> (text: &str)
        ensures
            text@ == self@.name_input,
    {
        self.name_input.as_str()
    }

    pub fn ftp_input(&self) -> (text: &str)
        ensures
            text@ == self@.ftp_input,
    {
        self.ftp_input.as_str()
    }

    pub fn editing(&self) -> (editing: bool)
        ensures
            editing == self@.editing,
    {
        self.editing
    }

    /// Takes a message of the profile screen.
    pub fn update(&mut self, message: UserProfileMessage)
        ensures
            final(self)@ == old(self)@.after(message@),
    {
        match message {
            UserProfileMessage::NameInputChanged(value) => {
                self.editing = true;
                self.name_input = value;
            },
            UserProfileMessage::FtpInputChanged(value) => {
                self.editing = true;
                if parse_ftp(value.as_str()).is_some() || value.as_str().is_empty() {
                    self.ftp_input = value;
                }
            },
            UserProfileMessage::Clear => {
                self.editing = false;
                self.name_input = String::new();
                self.ftp_input = String::new();
            },
            UserProfileMessage::Editing(editing) => {
                self.editing = editing;
            },
            _ => {},
        }
    }

    /// Fills the empty inputs from `profile`, unless the user is editing.
    pub fn show(&mut self, profile: &UserProfile)
        ensures
            final(self)@ == old(self)@.shown_for(profile@),
    {
        if !self.editing {
            if self.name_input.as_str().is_empty() {
                self.name_input = profile.name.clone();
            }
            if self.ftp_input.as_str().is_empty() && profile.ftp != 0 {
                self.ftp_input = decimal_string(profile.ftp);
            }
        }
    }

    /// Whether the save button is enabled for `profile`.
    pub fn can_save(&self, profile: &UserProfile) -> (enabled: bool)
        ensures
            enabled == self@.can_save(profile@),
    {
        let written = decimal_string(profile.ftp);
        let same_name = self.name_input == profile.name;
        let same_ftp = self.ftp_input == written;
        let has_name = !self.name_input.as_str().is_empty();
        let has_ftp = !self.ftp_input.as_str().is_empty();
        (has_name && has_ftp && !same_name && !same_ftp) || (!same_name && has_name && same_ftp)
            || (same_name && !same_ftp && has_ftp)
    }

    /// The message that the save button sends.
    pub fn save_message(&self) -> (message: UserProfileMessage)
        ensures
            message@ == self@.save_request(),
    {
        let ftp = match parse_ftp(self.ftp_input.as_str()) {
            Some(ftp) => ftp,
            None => 0,
        };
        UserProfileMessage::SaveProfile(self.name_input.clone(), ftp)
    }

    /// Whether the delete button is enabled for `profile`: only a profile
    /// with a name can be deleted.
    pub fn can_delete(profile: &UserProfile) -> (enabled: bool)
        ensures
            enabled == (profile@.name.len() != 0),
    {
        !profile.name.as_str().is_empty()
    }
}

} // verus!
