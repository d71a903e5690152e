//! Roles a user can hold and the unordered role sets carried inside tokens,
//! together with the compact numeric form a role set takes on the wire.
use vstd::prelude::*;

verus! {

/// The privilege levels the application distinguishes. A user holds an
/// unordered set of these; duplicates are meaningless.
#[derive(Debug, Clone, Copy, PartialEq, Eq, Structural)]
pub enum UserRole {
    Unprivileged,
    Moderator,
    Publisher,
    Admin,
}

impl UserRole {
    /// The numeric identifier under which the persistence collaborator
    /// stores this role.
    pub fn id(self) -> (id: i32)
        ensures
            id == spec_role_id(self),
    {
        match self {
            UserRole::Unprivileged => 1,
            UserRole::Moderator => 2,
            UserRole::Publisher => 3,
            UserRole::Admin => 4,
        }
    }

    /// The role stored under a numeric identifier, or `None` for an
    /// identifier no role owns.
    pub fn from_id(id: i32) -> (r: Option<UserRole>)
        ensures
            r matches Some(role) ==> spec_role_id(role) == id,
            r is None <==> !(1 <= id <= 4),
    {
        match id {
            1 => Some(UserRole::Unprivileged),
            2 => Some(UserRole::Moderator),
            3 => Some(UserRole::Publisher),
            4 => Some(UserRole::Admin),
            _ => None,
        }
    }
}

/// The numeric identifier of a role.
pub open spec fn spec_role_id(r: UserRole) -> i32 {
    match r {
        UserRole::Unprivileged => 1,
        UserRole::Moderator => 2,
        UserRole::Publisher => 3,
        UserRole::Admin => 4,
    }
}

/// An unordered, duplicate-free set of roles, stored as one membership flag
/// per role. Its view is the corresponding `Set<UserRole>`.
#[derive(Debug, Clone, Copy, PartialEq, Eq, Structural)]
pub struct RoleSet {
    pub unprivileged: bool,
    pub moderator: bool,
    pub publisher: bool,
    pub admin: bool,
}

impl View for RoleSet {
    type V = Set<UserRole>;

    open spec fn view(&self) -> Set<UserRole> {
        Set::new(
            |r: UserRole| match r {
                UserRole::Unprivileged => self.unprivileged,
                UserRole::Moderator => self.moderator,
                UserRole::Publisher => self.publisher,
                UserRole::Admin => self.admin,
            },
        )
    }
}

/// The value of a role set written as one number: each role contributes a
/// distinct power of two when it is a member.
pub open spec fn spec_role_mask(s: RoleSet) -> u8 {
    ((if s.unprivileged {
        1u8
    } else {
        0u8
    }) + (if s.moderator {
        2u8
    } else {
        0u8
    }) + (if s.publisher {
        4u8
    } else {
        0u8
    }) + (if s.admin {
        8u8
    } else {
        0u8
    })) as u8
}

/// The role set a mask below 16 stands for.
pub open spec fn spec_role_set_of_mask(m: u8) -> RoleSet {
    RoleSet {
        unprivileged: m % 2 == 1,
        moderator: (m / 2) % 2 == 1,
        publisher: (m / 4) % 2 == 1,
        admin: (m / 8) % 2 == 1,
    }
}

/// Every mask below 16 reads back as the set that produced it, and masks
/// determine their sets.
pub proof fn lemma_role_mask_round_trip(s: RoleSet)
    ensures
        spec_role_mask(s) < 16,
        spec_role_set_of_mask(spec_role_mask(s)) == s,
{
}

impl RoleSet {
    /// The set with no members.
    pub fn empty() -> (s: RoleSet)
        ensures
            s@ == Set::<UserRole>::empty(),
            s == spec_role_set_of_mask(0),
    {
        let s = RoleSet { unprivileged: false, moderator: false, publisher: false, admin: false };
        proof {
            assert(s@ =~= Set::<UserRole>::empty());
        }
        s
    }

    /// Whether `r` is a member.
    pub fn contains(&self, r: UserRole) -> (b: bool)
        ensures
            b == self@.contains(r),
    {
        match r {
            UserRole::Unprivileged => self.unprivileged,
            UserRole::Moderator => self.moderator,
            UserRole::Publisher => self.publisher,
            UserRole::Admin => self.admin,
        }
    }

    /// Adds `r` as a member; adding a member twice changes nothing.
    pub fn insert(&mut self, r: UserRole)
        ensures
            final(self)@ == old(self)@.insert(r),
    {
        match r {
            UserRole::Unprivileged => self.unprivileged = true,
            UserRole::Moderator => self.moderator = true,
            UserRole::Publisher => self.publisher = true,
            UserRole::Admin => self.admin = true,
        }
        proof {
            assert(self@ =~= old(self)@.insert(r));
        }
    }

    /// Removes `r` from the members, if present.
    pub fn remove(&mut self, r: UserRole)
        ensures
            final(self)@ == old(self)@.remove(r),
    {
        match r {
            UserRole::Unprivileged => self.unprivileged = false,
            UserRole::Moderator => self.moderator = false,
            UserRole::Publisher => self.publisher = false,
            UserRole::Admin => self.admin = false,
        }
        proof {
            assert(self@ =~= old(self)@.remove(r));
        }
    }

    /// The one-number form of this set, always below 16.
    pub fn mask(&self) -> (m: u8)
        ensures
            m == spec_role_mask(*self),
            m < 16,
    {
        (if self.unprivileged {
            1u8
        } else {
            0u8
        }) + (if self.moderator {
            2u8
        } else {
            0u8
        }) + (if self.publisher {
            4u8
        } else {
            0u8
        }) + (if self.admin {
            8u8
        } else {
            0u8
        })
    }

    /// The set a mask below 16 stands for.
    pub fn from_mask(m: u8) -> (s: RoleSet)
        requires
            m < 16,
        ensures
            s == spec_role_set_of_mask(m),
            spec_role_mask(s) == m,
    {
        RoleSet {
            unprivileged: m % 2 == 1,
            moderator: (m / 2) % 2 == 1,
            publisher: (m / 4) % 2 == 1,
            admin: (m / 8) % 2 == 1,
        }
    }
}

} // verus!
