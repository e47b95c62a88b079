//! What the application decides. The window, the devices and the disk are
//! not here: whoever owns them hands each thing that happens to `update` as
//! a message, and carries out the action that comes back.

use crate::library::{
    diagnostic_views, load_document, Diagnostic, DiagnosticView, Library, LibraryView, LoadState,
    ShadowLibrary,
};
use crate::roster::{last_position, profile_views, Roster, RosterView};
use crate::user_profile::{
    UserProfile, UserProfileMessage, UserProfileMessageView, UserProfileState,
    UserProfileStateView,
};
use vstd::prelude::*;

verus! {

/// Why saved state could not be loaded.
#[derive(Copy, Clone, Debug, PartialEq, Eq, Structural)]
pub enum LoadError {
    DirectoryError,
    FileError,
}

/// Whether the saved state has arrived.
#[derive(Copy, Clone, Debug, PartialEq, Eq, Structural)]
pub enum AppState {
    Starting,
    Ready,
}

/// Which screen is shown.
#[derive(Copy, Clone, Debug, PartialEq, Eq, Structural)]
pub enum ScreenState {
    UserProfile,
    Workouts,
    Devices,
}

/// A workout that was ridden. Nothing is recorded of it yet.
#[derive(Copy, Clone, Debug, PartialEq, Eq, Structural)]
pub struct Workout {}

/// What was found on disk when the application started.
#[derive(Debug)]
pub struct SavedState {
    pub user_profiles: Option<Vec<UserProfile>>,
    pub workouts: Option<Vec<Workout>>,
    pub shadow_library: ShadowLibrary,
}

/// What the window reports, as far as the application cares.
#[derive(Copy, Clone, Debug, PartialEq, Eq, Structural)]
pub enum WindowEvent {
    CloseRequested,
    Other,
}

/// What can happen to the application.
#[derive(Debug)]
pub enum Message {
    Loaded(Result<SavedState, LoadError>),
    Tick,
    EventOccurred(WindowEvent),
    ShowWorkouts,
    ShowDevices,
    ShowUserProfile,
    /// A message of the profile screen, with the position of the profile
    /// that the screen showed.
    UserProfileMessage(usize, UserProfileMessage),
    UserProfileSelected(UserProfile),
}

/// What is left to do once a message was taken.
#[derive(Debug)]
pub enum Action {
    Nothing,
    /// Tell the devices to stop; the application exits.
    Quit,
    /// Report the entries of the saved library that were skipped.
    Report(Vec<Diagnostic>),
}

/// An `Action` as a mathematical value.
pub enum ActionView {
    Nothing,
    Quit,
    Report(Seq<DiagnosticView>),
}

impl View for Action {
    type V = ActionView;

    open spec fn view(&self) -> ActionView {
        match *self {
            Action::Nothing => ActionView::Nothing,
            Action::Quit => ActionView::Quit,
            Action::Report(diagnostics) => ActionView::Report(diagnostic_views(diagnostics@)),
        }
    }
}

/// The state of the application.
pub struct Application {
    state: AppState,
    screen_state: ScreenState,
    should_exit: bool,
    roster: Roster,
    library: Library,
    workouts: Vec<Workout>,
    user_profile_screen: UserProfileState,
}

/// An `Application` as a mathematical value.
pub struct ApplicationView {
    pub state: AppState,
    pub screen_state: ScreenState,
    pub should_exit: bool,
    pub roster: RosterView,
    pub library: LibraryView,
    pub workouts: Seq<Workout>,
    pub user_profile_screen: UserProfileStateView,
}

impl View for Application {
    type V = ApplicationView;

    closed spec fn view(&self) -> ApplicationView {
        ApplicationView {
            state: self.state,
            screen_state: self.screen_state,
            should_exit: self.should_exit,
            roster: self.roster@,
            library: self.library@,
            workouts: self.workouts@,
            user_profile_screen: self.user_profile_screen@,
        }
    }
}

/// The profiles that were saved; none where there is no such list.
pub open spec fn saved_profiles(saved: SavedState) -> Option<Seq<UserProfile>> {
    match saved.user_profiles {
        Some(list) => Some(list@),
        None => None,
    }
}

/// The workouts that were saved; none where there is no such list.
pub open spec fn saved_workouts(saved: SavedState) -> Seq<Workout> {
    match saved.workouts {
        Some(list) => list@,
        None => Seq::empty(),
    }
}

impl ApplicationView {
    /// The application before anything has happened.
    pub open spec fn fresh() -> ApplicationView {
        ApplicationView {
            state: AppState::Starting,
            screen_state: ScreenState::Workouts,
            should_exit: false,
            roster: RosterView::fresh(),
            library: LibraryView::empty(),
            workouts: Seq::empty(),
            user_profile_screen: UserProfileStateView {
                name_input: Seq::empty(),
                ftp_input: Seq::empty(),
                editing: false,
            },
        }
    }

    /// What loading the saved library does to the library, and reports.
    pub open spec fn library_load(self, saved: SavedState) -> LoadState {
        load_document(
            LoadState { library: self.library, diagnostics: Seq::empty() },
            saved.shadow_library,
        )
    }

    /// The application after the saved state arrived: the library, the
    /// workouts and the profiles are loaded, and the application is ready.
    /// While no profile but the stand-in is current, the profile screen is
    /// shown, so that one can be created.
    pub open spec fn after_load(self, saved: SavedState) -> ApplicationView {
        let roster = match saved_profiles(saved) {
            Some(list) => self.roster.loaded(profile_views(list)),
            None => self.roster,
        };
        ApplicationView {
            state: AppState::Ready,
            screen_state: if roster.active == 0 {
                ScreenState::UserProfile
            } else {
                self.screen_state
            },
            roster,
            library: self.library_load(saved).library,
            workouts: self.workouts + saved_workouts(saved),
            ..self
        }
    }

    /// The application after a message of the profile screen.
    pub open spec fn after_profile_message(
        self,
        index: usize,
        message: UserProfileMessageView,
    ) -> ApplicationView {
        match message {
            UserProfileMessageView::SaveProfile(name, ftp) => ApplicationView {
                roster: self.roster.saved(index, name, ftp),
                user_profile_screen: self.user_profile_screen.after(
                    UserProfileMessageView::Editing(false),
                ),
                ..self
            },
            UserProfileMessageView::DeleteProfile => ApplicationView {
                roster: self.roster.deleted(index),
                user_profile_screen: self.user_profile_screen.after(UserProfileMessageView::Clear),
                ..self
            },
            other => ApplicationView {
                user_profile_screen: self.user_profile_screen.after(other),
                ..self
            },
        }
    }

    /// The application after a profile was picked from the list: where it
    /// is listed it becomes current and the inputs are cleared, and where
    /// it is the stand-in the profile screen is shown.
    pub open spec fn after_selection(self, profile: UserProfile) -> ApplicationView {
        if last_position(self.roster.profiles, profile@) is Some {
            ApplicationView {
                roster: self.roster.selected(profile@),
                user_profile_screen: self.user_profile_screen.after(UserProfileMessageView::Clear),
                screen_state: if self.roster.profiles[0] == profile@ {
                    ScreenState::UserProfile
                } else {
                    self.screen_state
                },
                ..self
            }
        } else {
            self
        }
    }

    /// The application after `message`. While it is starting, it waits for
    /// the saved state and ignores all else; a failed load leaves it waiting.
    pub open spec fn next(self, message: Message) -> ApplicationView {
        match self.state {
            AppState::Starting => match message {
                Message::Loaded(Ok(saved)) => self.after_load(saved),
                _ => self,
            },
            AppState::Ready => match message {
                Message::EventOccurred(WindowEvent::CloseRequested) => ApplicationView {
                    should_exit: true,
                    ..self
                },
                Message::ShowUserProfile => ApplicationView {
                    screen_state: ScreenState::UserProfile,
                    ..self
                },
                Message::ShowWorkouts => ApplicationView {
                    screen_state: ScreenState::Workouts,
                    ..self
                },
                Message::ShowDevices => ApplicationView {
                    screen_state: ScreenState::Devices,
                    ..self
                },
                Message::UserProfileMessage(index, message) => self.after_profile_message(
                    index,
                    message@,
                ),
                Message::UserProfileSelected(profile) => self.after_selection(profile),
                _ => self,
            },
        }
    }

    /// What is left to do once `message` was taken.
    pub open spec fn action(self, message: Message) -> ActionView {
        match (self.state, message) {
            (AppState::Starting, Message::Loaded(Ok(saved))) => ActionView::Report(
                self.library_load(saved).diagnostics,
            ),
            (AppState::Ready, Message::EventOccurred(WindowEvent::CloseRequested)) => {
                ActionView::Quit
            },
            _ => ActionView::Nothing,
        }
    }

    /// Whether `message` can be taken: saved profiles must leave a profile
    /// to fall back on, a profile to delete must be listed, and a profile
    /// to create must have room.
    pub open spec fn accepts(self, message: Message) -> bool {
        match (self.state, message) {
            (AppState::Starting, Message::Loaded(Ok(saved))) => match saved_profiles(saved) {
                Some(list) => self.roster.can_load(profile_views(list)),
                None => true,
            },
            (
                AppState::Ready,
                Message::UserProfileMessage(index, UserProfileMessage::SaveProfile(_, _)),
            ) => index == 0 ==> self.roster.profiles.len() < usize::MAX,
            (
                AppState::Ready,
                Message::UserProfileMessage(index, UserProfileMessage::DeleteProfile),
            ) => index < self.roster.profiles.len(),
            _ => true,
        }
    }
}

impl Application {
    /// The application before anything has happened: it is starting, with
    /// the stand-in as its only profile and an empty library.
    pub fn new() -> (application: Application)
        ensures
            application@ == ApplicationView::fresh(),
    {
        Application {
            state: AppState::Starting,
            screen_state: ScreenState::Workouts,
            should_exit: false,
            roster: Roster::new(),
            library: Library::new(),
            workouts: Vec::new(),
            user_profile_screen: UserProfileState::default(),
        }
    }

    pub fn state(&self) -> (state: AppState)
        ensures
            state == self@.state,
    {
        self.state
    }

    pub fn screen_state(&self) -> (screen: ScreenState)
        ensures
            screen == self@.screen_state,
    {
        self.screen_state
    }

    pub fn should_exit(&self) -> (exit: bool)
        ensures
            exit == self@.should_exit,
    {
        self.should_exit
    }

    pub fn roster(&self) -> (roster: &Roster)
        ensures
            roster@ == self@.roster,
    {
        &self.roster
    }

    pub fn library(&self) -> (library: &Library)
        ensures
            library@ == self@.library,
    {
        &self.library
    }

    pub fn workouts(&self) -> (workouts: &Vec<Workout>)
        ensures
            workouts@ == self@.workouts,
    {
        &self.workouts
    }

    pub fn user_profile_screen(&self) -> (screen: &UserProfileState)
        ensures
            screen@ == self@.user_profile_screen,
    {
        &self.user_profile_screen
    }

    /// Fills the profile screen's empty inputs from the current profile,
    /// as is done each time the screen is drawn.
    pub fn show_active_profile(&mut self)
        ensures
            final(self)@ == (ApplicationView {
                user_profile_screen: old(self)@.user_profile_screen.shown_for(
                    old(self)@.roster.profiles[old(self)@.roster.active as int],
                ),
                ..old(self)@
            }),
    {
        let profile = self.roster.active_profile();
        self.user_profile_screen.show(profile);
    }

    /// Whether `update` can take `message`.
    pub fn accepts(&self, message: &Message) -> (accepted: bool)
        ensures
            accepted == self@.accepts(*message),
    {
        match self.state {
            AppState::Starting => match message {
                Message::Loaded(Ok(saved)) => match &saved.user_profiles {
                    Some(list) => self.roster.can_load(list),
                    None => true,
                },
                _ => true,
            },
            AppState::Ready => match message {
                Message::UserProfileMessage(index, UserProfileMessage::SaveProfile(_, _)) => {
                    *index != 0 || self.roster.len() < usize::MAX
                },
                Message::UserProfileMessage(index, UserProfileMessage::DeleteProfile) => {
                    *index < self.roster.len()
                },
                _ => true,
            },
        }
    }

    /// Takes one message and says what is left to do.
    pub fn update(&mut self, message: Message) -> (action: Action)
        requires
            old(self)@.accepts(message),
        ensures
            final(self)@ == old(self)@.next(message),
            action@ == old(self)@.action(message),
    {
        match self.state {
            AppState::Starting => match message {
                Message::Loaded(Ok(saved)) => {
                    let diagnostics = self.library.load(&saved.shadow_library);
                    match &saved.workouts {
                        Some(list) => {
                            let mut i: usize = 0;
                            let ghost held = self.workouts@;
                            while i < list.len()
                                invariant
                                    0 <= i <= list@.len(),
                                    self.workouts@ == held + list@.take(i as int),
                                    self.state == old(self).state,
                                    self.screen_state == old(self).screen_state,
                                    self.should_exit == old(self).should_exit,
                                    self.roster == old(self).roster,
                                    self.library@ == old(self)@.library_load(saved).library,
                                    self.user_profile_screen == old(self).user_profile_screen,
                                decreases list@.len() - i,
                            {
                                self.workouts.push(list[i]);
                                i += 1;
                                assert(list@.take(i as int) =~= list@.take(i - 1).push(
                                    list@[i - 1],
                                ));
                            }
                            assert(list@.take(list@.len() as int) =~= list@);
                        },
                        None => {
                            assert(self.workouts@ + Seq::<Workout>::empty() =~= self.workouts@);
                        },
                    }
                    match &saved.user_profiles {
                        Some(list) => {
                            self.roster.load(list);
                        },
                        None => {},
                    }
                    if self.roster.active_index() == 0 {
                        self.screen_state = ScreenState::UserProfile;
                    }
                    self.state = AppState::Ready;
                    Action::Report(diagnostics)
                },
                _ => Action::Nothing,
            },
            AppState::Ready => match message {
                Message::EventOccurred(WindowEvent::CloseRequested) => {
                    self.should_exit = true;
                    Action::Quit
                },
                Message::ShowUserProfile => {
                    self.screen_state = ScreenState::UserProfile;
                    Action::Nothing
                },
                Message::ShowWorkouts => {
                    self.screen_state = ScreenState::Workouts;
                    Action::Nothing
                },
                Message::ShowDevices => {
                    self.screen_state = ScreenState::Devices;
                    Action::Nothing
                },
                Message::UserProfileMessage(index, UserProfileMessage::SaveProfile(name, ftp)) => {
                    self.roster.save(index, name.as_str(), ftp);
                    self.user_profile_screen.update(UserProfileMessage::Editing(false));
                    Action::Nothing
                },
                Message::UserProfileMessage(index, UserProfileMessage::DeleteProfile) => {
                    self.roster.delete(index);
                    self.user_profile_screen.update(UserProfileMessage::Clear);
                    Action::Nothing
                },
                Message::UserProfileMessage(_, message) => {
                    self.user_profile_screen.update(message);
                    Action::Nothing
                },
                Message::UserProfileSelected(profile) => {
                    let listed = self.roster.profiles();
                    assert(listed@.len() == profile_views(listed@).len());
                    let default_picked = profile == listed[0];
                    match self.roster.select(&profile) {
                        Some(_) => {
                            self.user_profile_screen.update(UserProfileMessage::Clear);
                            if default_picked {
                                self.screen_state = ScreenState::UserProfile;
                            }
                        },
                        None => {},
                    }
                    Action::Nothing
                },
                _ => Action::Nothing,
            },
        }
    }
}

} // verus!
