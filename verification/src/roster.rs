//! The profiles of an application. The first profile is a stand-in without
//! a name, listed as `New...`: saving to it creates a profile, and it is
//! never deleted. One profile is current.

use crate::user_profile::{UserProfile, UserProfileView};
use vstd::prelude::*;

verus! {

/// The profiles in the order in which they are listed, and the position of
/// the current one.
#[derive(Debug)]
pub struct Roster {
    profiles: Vec<UserProfile>,
    active: usize,
}

/// A `Roster` as a mathematical value.
pub struct RosterView {
    pub profiles: Seq<UserProfileView>,
    pub active: usize,
}

/// The profiles as mathematical values, in order.
pub open spec fn profile_views(profiles: Seq<UserProfile>) -> Seq<UserProfileView> {
    profiles.map_values(|profile: UserProfile| profile@)
}

impl View for Roster {
    type V = RosterView;

    closed spec fn view(&self) -> RosterView {
        RosterView { profiles: profile_views(self.profiles@), active: self.active }
    }
}

/// Where an activation pass stands: the profiles passed so far, and the
/// position that is current.
pub struct Activation {
    pub profiles: Seq<UserProfileView>,
    pub active: usize,
}

/// The activation after the profiles were passed in order. Each profile
/// that is marked active becomes current in turn; once a profile other than
/// the stand-in is current, each further one that is marked active loses its
/// mark as it becomes current.
pub open spec fn activate(profiles: Seq<UserProfileView>, active: usize) -> Activation
    decreases profiles.len(),
{
    if profiles.len() == 0 {
        Activation { profiles: Seq::empty(), active }
    } else {
        let before = activate(profiles.drop_last(), active);
        let profile = profiles.last();
        if profile.active {
            Activation {
                profiles: before.profiles.push(
                    UserProfileView { active: before.active == 0, ..profile },
                ),
                active: (profiles.len() - 1) as usize,
            }
        } else {
            Activation { profiles: before.profiles.push(profile), active: before.active }
        }
    }
}

/// The last position at which `profile` is listed.
pub open spec fn last_position(profiles: Seq<UserProfileView>, profile: UserProfileView) -> Option<
    usize,
>
    decreases profiles.len(),
{
    if profiles.len() == 0 {
        None
    } else if profiles.last() == profile {
        Some((profiles.len() - 1) as usize)
    } else {
        last_position(profiles.drop_last(), profile)
    }
}

impl RosterView {
    /// There is a first profile, and the current position is listed.
    pub open spec fn is_well_formed(self) -> bool {
        0 <= self.active < self.profiles.len() <= usize::MAX
    }

    /// The roster of a fresh application: the stand-in alone, current.
    pub open spec fn fresh() -> RosterView {
        RosterView {
            profiles: seq![UserProfileView { name: Seq::empty(), ftp: 0, active: true }],
            active: 0,
        }
    }

    /// The roster after loaded profiles were added behind those listed and
    /// an activation pass was made over all of them. Where the stand-in is
    /// still current after the pass, the profile behind it becomes current
    /// and is marked active.
    pub open spec fn loaded(self, added: Seq<UserProfileView>) -> RosterView {
        let pass = activate(self.profiles + added, self.active);
        if pass.active == 0 {
            RosterView {
                profiles: pass.profiles.update(
                    1,
                    UserProfileView { active: true, ..pass.profiles[1] },
                ),
                active: 1,
            }
        } else {
            RosterView { profiles: pass.profiles, active: pass.active }
        }
    }

    /// Whether loaded profiles can be added: after the pass there must be a
    /// profile behind the stand-in to fall back on.
    pub open spec fn can_load(self, added: Seq<UserProfileView>) -> bool {
        &&& self.profiles.len() + added.len() <= usize::MAX
        &&& activate(self.profiles + added, self.active).active == 0 ==> self.profiles.len()
            + added.len() >= 2
    }

    /// The roster after a save to position `index`. A save to the stand-in
    /// adds a profile at the end, marked active, and makes it current; a
    /// save to a listed profile replaces its name and FTP; a save to any
    /// other position changes nothing.
    pub open spec fn saved(self, index: usize, name: Seq<char>, ftp: u16) -> RosterView {
        if index == 0 {
            RosterView {
                profiles: self.profiles.push(UserProfileView { name, ftp, active: true }),
                active: self.profiles.len() as usize,
            }
        } else if index < self.profiles.len() {
            RosterView {
                profiles: self.profiles.update(
                    index as int,
                    UserProfileView { name, ftp, ..self.profiles[index as int] },
                ),
                active: self.active,
            }
        } else {
            self
        }
    }

    /// The roster after the profile at `index` was deleted: the profile
    /// behind the stand-in becomes current, or the stand-in where no other
    /// is left. The stand-in itself stays.
    pub open spec fn deleted(self, index: usize) -> RosterView {
        if index == 0 {
            self
        } else {
            RosterView {
                profiles: self.profiles.remove(index as int),
                active: if self.profiles.len() == 2 {
                    0
                } else {
                    1
                },
            }
        }
    }

    /// The roster after `profile` was picked: it becomes current at the last
    /// position at which it is listed; a profile that is not listed changes
    /// nothing.
    pub open spec fn selected(self, profile: UserProfileView) -> RosterView {
        match last_position(self.profiles, profile) {
            Some(position) => RosterView { active: position, ..self },
            None => self,
        }
    }
}

/// A pass keeps every profile in its place and changes nothing but marks.
pub proof fn lemma_activate_keeps_profiles(profiles: Seq<UserProfileView>, active: usize)
    ensures
        activate(profiles, active).profiles.len() == profiles.len(),
        forall|i: int|
            0 <= i < profiles.len() ==> {
                let after = #[trigger] activate(profiles, active).profiles[i];
                &&& after.name == profiles[i].name
                &&& after.ftp == profiles[i].ftp
                &&& after.active ==> profiles[i].active
            },
        activate(profiles, active).active == active || activate(profiles, active).active
            < profiles.len(),
    decreases profiles.len(),
{
    if profiles.len() > 0 {
        lemma_activate_keeps_profiles(profiles.drop_last(), active);
    }
}

/// The position that was found is the last at which the profile is listed.
pub proof fn lemma_last_position(profiles: Seq<UserProfileView>, profile: UserProfileView)
    requires
        profiles.len() <= usize::MAX,
    ensures
        match last_position(profiles, profile) {
            Some(position) => {
                &&& position < profiles.len()
                &&& profiles[position as int] == profile
                &&& forall|i: int| position < i < profiles.len() ==> profiles[i] != profile
            },
            None => forall|i: int| 0 <= i < profiles.len() ==> profiles[i] != profile,
        },
    decreases profiles.len(),
{
    if profiles.len() > 0 && profiles.last() != profile {
        let shorter = profiles.drop_last();
        lemma_last_position(shorter, profile);
        assert forall|i: int| 0 <= i < shorter.len() implies shorter[i] == profiles[i] by {}
        match last_position(shorter, profile) {
            Some(position) => {
                assert forall|i: int| position < i < profiles.len() implies profiles[i]
                    != profile by {
                    if i < shorter.len() {
                        assert(shorter[i] != profile);
                    }
                }
            },
            None => {
                assert forall|i: int| 0 <= i < profiles.len() implies profiles[i] != profile by {
                    if i < shorter.len() {
                        assert(shorter[i] != profile);
                    }
                }
            },
        }
    }
}

/// Each operation on a well-formed roster gives a well-formed roster.
pub proof fn lemma_roster_stays_well_formed(
    roster: RosterView,
    added: Seq<UserProfileView>,
    index: usize,
    name: Seq<char>,
    ftp: u16,
    profile: UserProfileView,
)
    requires
        roster.is_well_formed(),
    ensures
        RosterView::fresh().is_well_formed(),
        roster.can_load(added) ==> roster.loaded(added).is_well_formed(),
        roster.profiles.len() < usize::MAX ==> roster.saved(index, name, ftp).is_well_formed(),
        index < roster.profiles.len() ==> roster.deleted(index).is_well_formed(),
        roster.selected(profile).is_well_formed(),
{
    lemma_activate_keeps_profiles(roster.profiles + added, roster.active);
    lemma_last_position(roster.profiles, profile);
}

impl Roster {
    #[verifier::type_invariant]
    spec fn well_formed(&self) -> bool {
        self@.is_well_formed()
    }

    /// The roster of a fresh application.
    pub fn new() -> (roster: Roster)
        ensures
            roster@ == RosterView::fresh(),
    {
        let mut profiles: Vec<UserProfile> = Vec::new();
        profiles.push(UserProfile::new(true));
        let roster = Roster { profiles, active: 0 };
        assert(roster@.profiles =~= RosterView::fresh().profiles);
        roster
    }

    /// How many profiles are listed, the stand-in included.
    pub fn len(&self) -> (n: usize)
        ensures
            n == self@.profiles.len(),
            self@.is_well_formed(),
    {
        proof {
            use_type_invariant(self);
        }
        self.profiles.len()
    }

    /// The position of the current profile.
    pub fn active_index(&self) -> (index: usize)
        ensures
            index == self@.active,
            self@.is_well_formed(),
    {
        proof {
            use_type_invariant(self);
        }
        self.active
    }

    /// The current profile.
    pub fn active_profile(&self) -> (profile: &UserProfile)
        ensures
            self@.is_well_formed(),
            profile@ == self@.profiles[self@.active as int],
    {
        proof {
            use_type_invariant(self);
        }
        &self.profiles[self.active]
    }

    /// The profiles in the order in which they are listed.
    pub fn profiles(&self) -> (profiles: &Vec<UserProfile>)
        ensures
            profile_views(profiles@) == self@.profiles,
            self@.is_well_formed(),
    {
        proof {
            use_type_invariant(self);
        }
        &self.profiles
    }

    /// Whether `load` can take the profiles.
    pub fn can_load(&self, added: &Vec<UserProfile>) -> (possible: bool)
        ensures
            possible == self@.can_load(profile_views(added@)),
    {
        proof {
            use_type_invariant(self);
        }
        let count = self.profiles.len();
        let total = match count.checked_add(added.len()) {
            Some(total) => total,
            None => {
                return false;
            },
        };
        let ghost listed = self@.profiles + profile_views(added@);
        let mut active: usize = self.active;
        let mut i: usize = 0;
        proof {
            assert(listed.take(0) =~= Seq::<UserProfileView>::empty());
        }
        while i < total
            invariant
                0 <= i <= total,
                count == self.profiles@.len(),
                total == count + added@.len(),
                listed == profile_views(self.profiles@) + profile_views(added@),
                active == activate(listed.take(i as int), self.active).active,
            decreases total - i,
        {
            let marked = if i < count {
                self.profiles[i].active()
            } else {
                added[i - count].active()
            };
            proof {
                assert(listed.take(i + 1).drop_last() =~= listed.take(i as int));
                assert(listed.take(i + 1).last().active == marked);
            }
            if marked {
                active = i;
            }
            i += 1;
        }
        proof {
            assert(listed.take(total as int) =~= listed);
        }
        active != 0 || total >= 2
    }

    /// Adds the loaded profiles and settles which profile is current.
    pub fn load(&mut self, added: &Vec<UserProfile>)
        requires
            old(self)@.can_load(profile_views(added@)),
        ensures
            final(self)@ == old(self)@.loaded(profile_views(added@)),
    {
        proof {
            use_type_invariant(&*self);
        }
        let ghost before = self@;
        let ghost listed = before.profiles + profile_views(added@);
        let mut taken = Roster::new();
        std::mem::swap(self, &mut taken);
        let Roster { profiles: held, active: start } = taken;
        let mut profiles: Vec<UserProfile> = Vec::new();
        let mut active: usize = start;
        let mut i: usize = 0;
        let count = held.len();
        let total = count + added.len();
        proof {
            assert(listed.take(0) =~= Seq::<UserProfileView>::empty());
            assert(profile_views(profiles@) =~= Seq::<UserProfileView>::empty());
        }
        while i < total
            invariant
                0 <= i <= total,
                count == held@.len(),
                total == count + added@.len(),
                listed == profile_views(held@) + profile_views(added@),
                listed.len() == total,
                (Activation { profiles: profile_views(profiles@), active }) == activate(
                    listed.take(i as int),
                    start,
                ),
            decreases total - i,
        {
            let mut profile = if i < count {
                held[i].clone()
            } else {
                added[i - count].clone()
            };
            proof {
                assert(listed.take(i + 1).drop_last() =~= listed.take(i as int));
                assert(listed.take(i + 1).last() == profile@);
            }
            if profile.active() {
                if active != 0 {
                    profile.set_active(false);
                }
                active = i;
            }
            let ghost passed = profiles@;
            profiles.push(profile);
            proof {
                assert(profile_views(profiles@) =~= profile_views(passed).push(profile@));
            }
            i += 1;
        }
        proof {
            assert(listed.take(total as int) =~= listed);
            lemma_activate_keeps_profiles(listed, start);
        }
        if active == 0 {
            let mut second = profiles[1].clone();
            second.set_active(true);
            let ghost passed = profiles@;
            profiles.set(1, second);
            proof {
                assert(profile_views(profiles@) =~= profile_views(passed).update(1, second@));
            }
            active = 1;
        }
        *self = Roster { profiles, active };
    }

    /// Saves a name and an FTP to the profile at `index`, or to a new
    /// profile where `index` is that of the stand-in.
    pub fn save(&mut self, index: usize, name: &str, ftp: u16)
        requires
            index == 0 ==> old(self)@.profiles.len() < usize::MAX,
        ensures
            final(self)@ == old(self)@.saved(index, name@, ftp),
    {
        proof {
            use_type_invariant(&*self);
        }
        let mut taken = Roster::new();
        std::mem::swap(self, &mut taken);
        let Roster { mut profiles, mut active } = taken;
        let ghost listed = profiles@;
        if index == 0 {
            let mut profile = UserProfile::new(true);
            profile.set_name(name);
            profile.set_ftp(ftp);
            profiles.push(profile);
            active = profiles.len() - 1;
            proof {
                assert(profile_views(profiles@) =~= profile_views(listed).push(profile@));
            }
        } else if index < profiles.len() {
            let mut profile = profiles[index].clone();
            profile.set_name(name);
            profile.set_ftp(ftp);
            profiles.set(index, profile);
            proof {
                assert(profile_views(profiles@) =~= profile_views(listed).update(
                    index as int,
                    profile@,
                ));
            }
        }
        *self = Roster { profiles, active };
    }

    /// Deletes the profile at `index`, unless it is the stand-in. Says
    /// whether a profile was deleted.
    pub fn delete(&mut self, index: usize) -> (deleted: bool)
        requires
            index < old(self)@.profiles.len(),
        ensures
            deleted == (index != 0),
            final(self)@ == old(self)@.deleted(index),
    {
        proof {
            use_type_invariant(&*self);
        }
        if index == 0 {
            return false;
        }
        let mut taken = Roster::new();
        std::mem::swap(self, &mut taken);
        let Roster { mut profiles, active: _ } = taken;
        let ghost listed = profiles@;
        profiles.remove(index);
        let active: usize = if profiles.len() == 1 {
            0
        } else {
            1
        };
        proof {
            assert(profile_views(profiles@) =~= profile_views(listed).remove(index as int));
        }
        *self = Roster { profiles, active };
        true
    }

    /// Makes `profile` current, where it is listed. Returns the position
    /// at which it became current.
    pub fn select(&mut self, profile: &UserProfile) -> (position: Option<usize>)
        ensures
            position == last_position(old(self)@.profiles, profile@),
            final(self)@ == old(self)@.selected(profile@),
    {
        proof {
            use_type_invariant(&*self);
        }
        let mut found: Option<usize> = None;
        let mut i: usize = 0;
        proof {
            assert(self@.profiles.take(0) =~= Seq::<UserProfileView>::empty());
        }
        while i < self.profiles.len()
            invariant
                0 <= i <= self.profiles@.len(),
                found == last_position(self@.profiles.take(i as int), profile@),
            decreases self.profiles@.len() - i,
        {
            proof {
                assert(self@.profiles.take(i + 1).drop_last() =~= self@.profiles.take(i as int));
                assert(self@.profiles.take(i + 1).last() == self.profiles@[i as int]@);
            }
            if *profile == self.profiles[i] {
                found = Some(i);
            }
            i += 1;
        }
        proof {
            assert(self@.profiles.take(self@.profiles.len() as int) =~= self@.profiles);
            lemma_last_position(self@.profiles, profile@);
        }
        match found {
            Some(position) => {
                let mut taken = Roster::new();
                std::mem::swap(self, &mut taken);
                let Roster { profiles, active: _ } = taken;
                *self = Roster { profiles, active: position };
            },
            None => {},
        }
        found
    }
}

} // verus!
