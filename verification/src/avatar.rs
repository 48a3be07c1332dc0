//! Which of the platform's stock avatars a member without one of its own is
//! shown with.

use vstd::prelude::*;

verus! {

/// The stock avatar of a user: told by its identifier where it has no
/// discriminator any more, else by its discriminator.
pub open spec fn spec_default_avatar_index(user_id: u64, discriminator: u16) -> int {
    if discriminator == 0 {
        (user_id >> 22) as int % 6
    } else {
        discriminator as int % 5
    }
}

/// The stock avatar of a user.
pub fn default_avatar_index(user_id: u64, discriminator: u16) -> (index: u64)
    ensures
        index == spec_default_avatar_index(user_id, discriminator),
        index < 6,
{
    if discriminator == 0 {
        (user_id >> 22) % 6
    } else {
        (discriminator % 5) as u64
    }
}

/// Which avatar a member is shown with.
#[derive(Clone, Copy, Debug, PartialEq, Eq, Structural)]
pub enum AvatarChoice {
    /// The avatar that the member has set for the guild.
    Member,
    /// The avatar that the user has set for itself.
    User,
    /// The stock avatar of this index.
    Stock(u64),
}

/// Which avatar a member is shown with: the one that it has set for the
/// guild where it has one, else the one that the user has set for itself,
/// else a stock avatar.
pub open spec fn spec_choose_avatar(
    has_member_avatar: bool,
    has_user_avatar: bool,
    user_id: u64,
    discriminator: u16,
) -> AvatarChoice {
    if has_member_avatar {
        AvatarChoice::Member
    } else if has_user_avatar {
        AvatarChoice::User
    } else {
        AvatarChoice::Stock(spec_default_avatar_index(user_id, discriminator) as u64)
    }
}

/// Which avatar a member is shown with.
pub fn choose_avatar(has_member_avatar: bool, has_user_avatar: bool, user_id: u64, discriminator: u16) -> (choice:
    AvatarChoice)
    ensures
        choice == spec_choose_avatar(has_member_avatar, has_user_avatar, user_id, discriminator),
{
    if has_member_avatar {
        AvatarChoice::Member
    } else if has_user_avatar {
        AvatarChoice::User
    } else {
        AvatarChoice::Stock(default_avatar_index(user_id, discriminator))
    }
}

} // verus!
