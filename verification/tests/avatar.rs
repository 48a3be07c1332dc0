use guild_xp::avatar::{choose_avatar, default_avatar_index, AvatarChoice};

#[test]
fn stock_avatar_follows_the_discriminator_where_there_is_one() {
    assert_eq!(default_avatar_index(123, 1), 1);
    assert_eq!(default_avatar_index(123, 4), 4);
    assert_eq!(default_avatar_index(123, 5), 0);
    assert_eq!(default_avatar_index(u64::MAX, 9999), 4);
}

#[test]
fn stock_avatar_follows_the_identifier_where_there_is_no_discriminator() {
    assert_eq!(default_avatar_index(0, 0), 0);
    assert_eq!(default_avatar_index(5 << 22, 0), 5);
    assert_eq!(default_avatar_index(6 << 22, 0), 0);
    assert_eq!(default_avatar_index((7 << 22) | 0x3f_ffff, 0), 1);
    assert_eq!(default_avatar_index(175_928_847_299_117_063, 0), ((175_928_847_299_117_063u64 >> 22) % 6));
}

#[test]
fn the_avatar_set_for_the_guild_comes_first() {
    assert_eq!(choose_avatar(true, true, 5 << 22, 0), AvatarChoice::Member);
    assert_eq!(choose_avatar(true, false, 5 << 22, 0), AvatarChoice::Member);
    assert_eq!(choose_avatar(false, true, 5 << 22, 0), AvatarChoice::User);
    assert_eq!(choose_avatar(false, false, 5 << 22, 0), AvatarChoice::Stock(5));
    assert_eq!(choose_avatar(false, false, 5 << 22, 7), AvatarChoice::Stock(2));
}
