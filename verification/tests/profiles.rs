use twobytwenty::application::{
    Action, AppState, Application, LoadError, Message, SavedState, ScreenState, WindowEvent,
    Workout,
};
use twobytwenty::error::WorkoutError;
use twobytwenty::interval::RawIntervalTemplate;
use twobytwenty::library::{EntryKind, ShadowLibrary};
use twobytwenty::roster::Roster;
use twobytwenty::segment::RawSegment;
use twobytwenty::text::decimal_string;
use twobytwenty::user_profile::{parse_ftp, UserProfile, UserProfileMessage, UserProfileState};

fn profile(name: &str, ftp: u16, active: bool) -> UserProfile {
    let mut profile = UserProfile::new(active);
    profile.set_name(name);
    profile.set_ftp(ftp);
    profile
}

fn names(roster: &Roster) -> Vec<String> {
    roster.profiles().iter().map(|p| p.label()).collect()
}

fn marks(roster: &Roster) -> Vec<bool> {
    roster.profiles().iter().map(|p| p.active()).collect()
}

fn no_library() -> ShadowLibrary {
    ShadowLibrary { intervals: None, workouts: None }
}

fn ready(profiles: Option<Vec<UserProfile>>) -> Application {
    let mut application = Application::new();
    application.update(Message::Loaded(Ok(SavedState {
        user_profiles: profiles,
        workouts: None,
        shadow_library: no_library(),
    })));
    application
}

#[test]
fn profile_starts_without_name_and_ftp() {
    let fresh = UserProfile::new(true);
    assert!(fresh.active());
    assert_eq!(fresh.name(), "");
    assert_eq!(fresh.ftp(), 0);
    assert_eq!(fresh.label(), "New...");
    assert_eq!(UserProfile::default(), UserProfile::new(false));
    assert_ne!(UserProfile::default(), UserProfile::new(true));
}

#[test]
fn profile_setters_change_one_field_each() {
    let mut rider = UserProfile::new(false);
    rider.set_name("Justina");
    assert_eq!(rider, profile("Justina", 0, false));
    rider.set_ftp(285);
    assert_eq!(rider, profile("Justina", 285, false));
    rider.set_active(true);
    assert_eq!(rider, profile("Justina", 285, true));
    assert_eq!(rider.label(), "Justina");
    assert_eq!(rider.clone(), rider);
}

#[test]
fn ftp_input_is_an_unsigned_number_of_sixteen_bits() {
    assert_eq!(parse_ftp("285"), Some(285));
    assert_eq!(parse_ftp("+285"), Some(285));
    assert_eq!(parse_ftp("0285"), Some(285));
    assert_eq!(parse_ftp("65535"), Some(65535));
    assert_eq!(parse_ftp("65536"), None);
    assert_eq!(parse_ftp("99999999999999999999999"), None);
    for text in ["", "+", "-1", "28 5", "285w", "2.5", " 285"] {
        assert_eq!(parse_ftp(text), None, "{:?}", text);
        assert_eq!(parse_ftp(text), text.parse::<u16>().ok(), "{:?}", text);
    }
}

#[test]
fn numbers_are_written_as_std_writes_them() {
    for n in [0u16, 1, 9, 10, 11, 99, 100, 101, 285, 1000, 9999, 10000, 65535] {
        assert_eq!(decimal_string(n), n.to_string());
        assert_eq!(parse_ftp(&decimal_string(n)), Some(n));
    }
}

#[test]
fn profile_screen_takes_names_as_typed_and_ftp_only_if_numeric() {
    let mut screen = UserProfileState::default();
    assert!(!screen.editing());
    screen.update(UserProfileMessage::NameInputChanged(String::from("Jus")));
    assert!(screen.editing());
    assert_eq!(screen.name_input(), "Jus");
    screen.update(UserProfileMessage::FtpInputChanged(String::from("28")));
    assert_eq!(screen.ftp_input(), "28");
    screen.update(UserProfileMessage::FtpInputChanged(String::from("28x")));
    assert_eq!(screen.ftp_input(), "28");
    screen.update(UserProfileMessage::FtpInputChanged(String::from("65536")));
    assert_eq!(screen.ftp_input(), "28");
    screen.update(UserProfileMessage::FtpInputChanged(String::new()));
    assert_eq!(screen.ftp_input(), "");
    screen.update(UserProfileMessage::Editing(false));
    assert!(!screen.editing());
    assert_eq!(screen.name_input(), "Jus");
    screen.update(UserProfileMessage::SaveProfile(String::from("x"), 1));
    screen.update(UserProfileMessage::DeleteProfile);
    assert_eq!(screen.name_input(), "Jus");
    screen.update(UserProfileMessage::FtpInputChanged(String::from("5")));
    screen.update(UserProfileMessage::Clear);
    assert_eq!((screen.name_input(), screen.ftp_input(), screen.editing()), ("", "", false));
}

#[test]
fn profile_screen_shows_the_profile_while_nothing_is_typed() {
    let rider = profile("Justina", 285, true);
    let mut screen = UserProfileState::default();
    screen.show(&rider);
    assert_eq!((screen.name_input(), screen.ftp_input()), ("Justina", "285"));

    let mut screen = UserProfileState::default();
    screen.show(&UserProfile::new(true));
    assert_eq!((screen.name_input(), screen.ftp_input()), ("", ""));

    let mut screen = UserProfileState::default();
    screen.update(UserProfileMessage::NameInputChanged(String::new()));
    screen.show(&rider);
    assert_eq!((screen.name_input(), screen.ftp_input()), ("", ""));
    screen.update(UserProfileMessage::Editing(false));
    screen.update(UserProfileMessage::FtpInputChanged(String::from("300")));
    screen.update(UserProfileMessage::Editing(false));
    screen.show(&rider);
    assert_eq!((screen.name_input(), screen.ftp_input()), ("Justina", "300"));
}

#[test]
fn save_is_enabled_when_an_input_differs_and_none_that_differs_is_empty() {
    let rider = profile("Justina", 285, true);
    let typed = |name: &str, ftp: &str| {
        let mut screen = UserProfileState::default();
        screen.update(UserProfileMessage::NameInputChanged(String::from(name)));
        screen.update(UserProfileMessage::FtpInputChanged(String::from(ftp)));
        screen
    };
    assert!(!typed("Justina", "285").can_save(&rider));
    assert!(typed("Justine", "285").can_save(&rider));
    assert!(typed("Justina", "290").can_save(&rider));
    assert!(typed("Justine", "290").can_save(&rider));
    assert!(typed("Justina", "0285").can_save(&rider));
    assert!(!typed("", "285").can_save(&rider));
    assert!(!typed("Justina", "").can_save(&rider));
    assert!(!typed("", "").can_save(&rider));
    assert!(!typed("", "290").can_save(&rider));
    assert!(!typed("Justine", "").can_save(&rider));
    assert!(!typed("", "").can_save(&UserProfile::new(true)));
    assert!(typed("", "0").can_save(&profile("", 5, true)));
    assert!(!typed("", "0").can_save(&UserProfile::new(true)));

    match typed("Justine", "290").save_message() {
        UserProfileMessage::SaveProfile(name, ftp) => assert_eq!((name.as_str(), ftp), ("Justine", 290)),
        other => panic!("{:?}", other),
    }
    match typed("Justine", "").save_message() {
        UserProfileMessage::SaveProfile(name, ftp) => assert_eq!((name.as_str(), ftp), ("Justine", 0)),
        other => panic!("{:?}", other),
    }
    assert!(UserProfileState::can_delete(&rider));
    assert!(!UserProfileState::can_delete(&UserProfile::new(true)));
}

#[test]
fn roster_starts_with_the_stand_in() {
    let roster = Roster::new();
    assert_eq!(roster.len(), 1);
    assert_eq!(roster.active_index(), 0);
    assert_eq!(names(&roster), vec!["New..."]);
    assert_eq!(*roster.active_profile(), UserProfile::new(true));
}

#[test]
fn roster_load_makes_the_active_profile_current() {
    let mut roster = Roster::new();
    roster.load(&vec![profile("a", 100, false), profile("b", 200, true), profile("c", 300, false)]);
    assert_eq!(roster.active_index(), 2);
    assert_eq!(names(&roster), vec!["New...", "a", "b", "c"]);
    assert_eq!(marks(&roster), vec![true, false, true, false]);
}

#[test]
fn roster_load_falls_back_on_the_first_loaded_profile() {
    let mut roster = Roster::new();
    roster.load(&vec![profile("a", 100, false), profile("b", 200, false)]);
    assert_eq!(roster.active_index(), 1);
    assert_eq!(marks(&roster), vec![true, true, false]);
    assert_eq!(roster.active_profile().name(), "a");
}

#[test]
fn roster_load_unmarks_active_profiles_behind_the_first() {
    let mut roster = Roster::new();
    roster.load(&vec![
        profile("a", 100, true),
        profile("b", 200, false),
        profile("c", 300, true),
        profile("d", 400, true),
    ]);
    assert_eq!(roster.active_index(), 4);
    assert_eq!(marks(&roster), vec![true, true, false, false, false]);
    assert_eq!(names(&roster), vec!["New...", "a", "b", "c", "d"]);
}

#[test]
fn roster_save_creates_or_updates() {
    let mut roster = Roster::new();
    roster.save(0, "a", 100);
    assert_eq!(roster.len(), 2);
    assert_eq!(roster.active_index(), 1);
    assert_eq!(*roster.active_profile(), profile("a", 100, true));
    roster.save(0, "b", 200);
    assert_eq!(roster.active_index(), 2);
    roster.save(1, "A", 150);
    assert_eq!(roster.active_index(), 2);
    assert_eq!(roster.profiles()[1], profile("A", 150, true));
    roster.save(7, "nobody", 1);
    assert_eq!(names(&roster), vec!["New...", "A", "b"]);
}

#[test]
fn roster_delete_keeps_the_stand_in() {
    let mut roster = Roster::new();
    roster.save(0, "a", 100);
    roster.save(0, "b", 200);
    assert!(!roster.delete(0));
    assert_eq!(roster.len(), 3);
    assert_eq!(roster.active_index(), 2);
    assert!(roster.delete(2));
    assert_eq!(names(&roster), vec!["New...", "a"]);
    assert_eq!(roster.active_index(), 1);
    assert!(roster.delete(1));
    assert_eq!(names(&roster), vec!["New..."]);
    assert_eq!(roster.active_index(), 0);
}

#[test]
fn roster_select_finds_the_last_equal_profile() {
    let mut roster = Roster::new();
    roster.save(0, "a", 100);
    roster.save(0, "b", 200);
    roster.save(0, "a", 100);
    assert_eq!(roster.select(&profile("a", 100, true)), Some(3));
    assert_eq!(roster.active_index(), 3);
    assert_eq!(roster.select(&profile("b", 200, true)), Some(2));
    assert_eq!(roster.select(&profile("b", 200, false)), None);
    assert_eq!(roster.select(&profile("b", 201, true)), None);
    assert_eq!(roster.active_index(), 2);
    assert_eq!(roster.select(&UserProfile::new(true)), Some(0));
    assert_eq!(roster.active_index(), 0);
}

#[test]
fn application_waits_for_the_saved_state() {
    let mut application = Application::new();
    assert_eq!(application.state(), AppState::Starting);
    assert_eq!(application.screen_state(), ScreenState::Workouts);
    assert!(matches!(application.update(Message::ShowDevices), Action::Nothing));
    assert!(matches!(
        application.update(Message::EventOccurred(WindowEvent::CloseRequested)),
        Action::Nothing
    ));
    assert!(matches!(
        application.update(Message::Loaded(Err(LoadError::FileError))),
        Action::Nothing
    ));
    assert_eq!(application.state(), AppState::Starting);
    assert_eq!(application.screen_state(), ScreenState::Workouts);
    assert!(!application.should_exit());
}

#[test]
fn application_without_profiles_shows_the_profile_screen() {
    let application = ready(None);
    assert_eq!(application.state(), AppState::Ready);
    assert_eq!(application.screen_state(), ScreenState::UserProfile);
    assert_eq!(application.roster().len(), 1);
}

#[test]
fn application_with_profiles_shows_the_workouts() {
    let application = ready(Some(vec![profile("a", 100, false), profile("b", 200, true)]));
    assert_eq!(application.screen_state(), ScreenState::Workouts);
    assert_eq!(application.roster().active_index(), 2);
}

#[test]
fn application_loads_the_saved_library_and_reports_what_it_skipped() {
    let interval = |name: &str, duration: &str| RawIntervalTemplate {
        name: String::from(name),
        description: None,
        duration: String::from(duration),
        segments: vec![RawSegment::Literal(String::from("5m@.55"))],
        lap_each_segment: false,
        repeat: None,
    };
    let mut application = Application::new();
    let action = application.update(Message::Loaded(Ok(SavedState {
        user_profiles: None,
        workouts: Some(vec![Workout {}, Workout {}]),
        shadow_library: ShadowLibrary {
            intervals: Some(vec![interval("Cooldown", "5m"), interval("Cooldown", "5m")]),
            workouts: None,
        },
    })));
    match action {
        Action::Report(diagnostics) => {
            assert_eq!(diagnostics.len(), 1);
            assert_eq!(diagnostics[0].kind, EntryKind::Interval);
            assert_eq!(diagnostics[0].error, WorkoutError::DuplicateName(String::from("Cooldown")));
        },
        other => panic!("{:?}", other),
    }
    assert_eq!(application.library().intervals().len(), 1);
    assert_eq!(application.workouts().len(), 2);
    assert!(matches!(
        application.update(Message::Loaded(Ok(SavedState {
            user_profiles: None,
            workouts: None,
            shadow_library: no_library(),
        }))),
        Action::Nothing
    ));
}

#[test]
fn application_switches_screens_and_quits_when_ready() {
    let mut application = ready(Some(vec![profile("a", 100, true)]));
    application.update(Message::ShowDevices);
    assert_eq!(application.screen_state(), ScreenState::Devices);
    application.update(Message::ShowUserProfile);
    assert_eq!(application.screen_state(), ScreenState::UserProfile);
    application.update(Message::ShowWorkouts);
    assert_eq!(application.screen_state(), ScreenState::Workouts);
    assert!(matches!(application.update(Message::Tick), Action::Nothing));
    assert!(matches!(
        application.update(Message::EventOccurred(WindowEvent::Other)),
        Action::Nothing
    ));
    assert!(!application.should_exit());
    assert!(matches!(
        application.update(Message::EventOccurred(WindowEvent::CloseRequested)),
        Action::Quit
    ));
    assert!(application.should_exit());
}

#[test]
fn application_saves_deletes_and_selects_profiles() {
    let mut application = ready(None);
    application.update(Message::UserProfileMessage(
        0,
        UserProfileMessage::NameInputChanged(String::from("Justina")),
    ));
    assert!(application.user_profile_screen().editing());
    application.update(Message::UserProfileMessage(
        0,
        UserProfileMessage::SaveProfile(String::from("Justina"), 285),
    ));
    assert!(!application.user_profile_screen().editing());
    assert_eq!(application.user_profile_screen().name_input(), "Justina");
    assert_eq!(application.roster().active_index(), 1);
    assert_eq!(*application.roster().active_profile(), profile("Justina", 285, true));

    application.update(Message::ShowWorkouts);
    application.update(Message::UserProfileSelected(profile("nobody", 1, true)));
    assert_eq!(application.roster().active_index(), 1);
    assert_eq!(application.user_profile_screen().name_input(), "Justina");
    assert_eq!(application.screen_state(), ScreenState::Workouts);

    application.update(Message::UserProfileSelected(UserProfile::new(true)));
    assert_eq!(application.roster().active_index(), 0);
    assert_eq!(application.user_profile_screen().name_input(), "");
    assert_eq!(application.screen_state(), ScreenState::UserProfile);

    application.update(Message::ShowWorkouts);
    application.update(Message::UserProfileSelected(profile("Justina", 285, true)));
    assert_eq!(application.roster().active_index(), 1);
    assert_eq!(application.screen_state(), ScreenState::Workouts);
    application.show_active_profile();
    assert_eq!(application.user_profile_screen().name_input(), "Justina");
    assert_eq!(application.user_profile_screen().ftp_input(), "285");

    application.update(Message::UserProfileMessage(0, UserProfileMessage::DeleteProfile));
    assert_eq!(application.roster().len(), 2);
    assert_eq!(application.user_profile_screen().name_input(), "");
    application.update(Message::UserProfileMessage(1, UserProfileMessage::DeleteProfile));
    assert_eq!(application.roster().len(), 1);
    assert_eq!(application.roster().active_index(), 0);
}
