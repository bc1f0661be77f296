use protobot_chess::error::ChessError;
use protobot_chess::pterodactyl::{
    PterodactylPerms, PterodactylServerCategory, PterodactylServerCategoryFilter,
};
use protobot_chess::session::ChessState;
use protobot_chess::storage::{default_command_prefix, GuildStorage};

#[test]
fn start_twice_is_rejected() {
    let mut state = ChessState::new();
    assert_eq!(state.start_game(1, 2, true), Ok(()));
    assert_eq!(state.start_game(1, 2, true), Err(ChessError::AlreadyInGame));
    assert_eq!(state.start_game(1, 3, false), Err(ChessError::AlreadyInGame));
    assert_eq!(state.start_game(3, 2, false), Err(ChessError::AlreadyInGame));
    assert_eq!(state.start_game(4, 4, true), Err(ChessError::UnknownOpponent));
    assert_eq!(state.games.len(), 1);
    assert_eq!(state.start_game(3, 4, false), Ok(()));
    assert_eq!(state.games[1].user_white, 4);
    assert_eq!(state.games[1].user_black, 3);
}

#[test]
fn random_start_gives_each_player_a_side() {
    let mut state = ChessState::new();
    assert_eq!(state.start_game_random(5, 6), Ok(()));
    let game = state.get_game(5).unwrap();
    assert!((game.user_white == 5 && game.user_black == 6) || (game.user_white == 6 && game.user_black == 5));
    assert_eq!(state.start_game_random(6, 7), Err(ChessError::AlreadyInGame));
}

#[test]
fn resign_ends_the_game_for_the_opponent() {
    let mut state = ChessState::new();
    assert_eq!(state.start_game(1, 2, true), Ok(()));
    assert_eq!(state.resign(2), Ok(1));
    assert!(state.get_game(1).is_none());
    assert_eq!(state.resign(2), Err(ChessError::NotInGame));
    assert_eq!(state.start_game(1, 3, true), Ok(()));
}

#[test]
fn display_options_default_and_persist() {
    let mut state = ChessState::new();
    assert!(state.get_options(7).flip);
    state.set_flip(7, false);
    assert!(!state.get_options(7).flip);
    assert!(state.get_options(8).flip);
    state.set_flip(8, false);
    state.set_flip(7, true);
    assert!(state.get_options(7).flip);
    assert!(!state.get_options(8).flip);
    assert_eq!(state.options.len(), 2);
}

#[test]
fn discarded_session_leaves_storage_unchanged() {
    let mut storage = GuildStorage::new();
    let mut first = storage.get_mut();
    assert_eq!(first.chess_state.start_game(1, 2, true), Ok(()));
    first.save(&mut storage);
    let before = storage.chess_state.clone();
    let mut second = storage.get_mut();
    assert!(second.chess_state.apply_move(1, "e4").is_ok());
    second.chess_state.set_flip(2, false);
    assert_eq!(second.chess_state.resign(2), Ok(1));
    second.discard();
    assert_eq!(storage.chess_state, before);
    assert_eq!(storage.chess_state.games.len(), 1);
    assert!(storage.chess_state.get_options(2).flip);
}

#[test]
fn saved_session_is_stored() {
    let mut storage = GuildStorage::new();
    let mut session = storage.get_mut();
    assert_eq!(session.chess_state.start_game(1, 2, true), Ok(()));
    assert!(session.chess_state.apply_move(1, "d4").is_ok());
    session.save(&mut storage);
    let game = storage.chess_state.get_game(2).unwrap();
    assert!(game.black_to_move);
}

#[test]
fn server_categories() {
    type C = PterodactylServerCategory;
    assert!(C::Smp.is_proto() && C::Protobot.is_proto() && !C::OtherTechServer.is_proto());
    assert!(C::Patreon.is_proto_minecraft() && !C::Protobot.is_proto_minecraft());
    assert!(C::Cmp.should_be_opped() && C::Copy.should_be_opped() && !C::Smp.should_be_opped());
}

#[test]
fn category_filters() {
    let mut one = PterodactylServerCategory::Cmp;
    assert!(one.test(PterodactylServerCategory::Cmp));
    assert!(!one.test(PterodactylServerCategory::Smp));
    let mut list = [PterodactylServerCategory::Smp, PterodactylServerCategory::Copy];
    let list: &mut [PterodactylServerCategory] = &mut list;
    assert!(list.test(PterodactylServerCategory::Copy));
    assert!(!list.test(PterodactylServerCategory::Patreon));
}

#[test]
fn perms_use_override_or_default() {
    let perms = PterodactylPerms {
        default: vec!["control.console".to_owned()],
        overrides: vec![(PterodactylServerCategory::Cmp, vec!["file.read".to_owned(), "file.update".to_owned()])],
    };
    assert_eq!(perms.get_perms(PterodactylServerCategory::Cmp), &["file.read".to_owned(), "file.update".to_owned()]);
    assert_eq!(perms.get_perms(PterodactylServerCategory::Smp), &["control.console".to_owned()]);
}

#[test]
fn default_prefix_is_dollar() {
    assert_eq!(default_command_prefix(), "$");
    assert_eq!(GuildStorage::new().command_prefix, "$");
}
