use spyparty::GameResult;
use spyparty::Replay;

#[test]
fn spy_name_user_name() {
    let mut replay: Replay = Default::default();
    replay.header.spy_user_name = "test".to_string();

    assert_eq!(replay.spy_name(), "test");
}

#[test]
fn spy_name_display_name() {
    let mut replay: Replay = Default::default();
    replay.header.spy_user_name = "test".to_string();
    replay.header.spy_display_name = Some("Test".to_string());

    assert_eq!(replay.spy_name(), "Test");
}

#[test]
fn sniper_name_user_name() {
    let mut replay: Replay = Default::default();
    replay.header.sniper_user_name = "test".to_string();

    assert_eq!(replay.sniper_name(), "test");
}

#[test]
fn sniper_name_display_name() {
    let mut replay: Replay = Default::default();
    replay.header.sniper_user_name = "test".to_string();
    replay.header.sniper_display_name = Some("Test".to_string());

    assert_eq!(replay.sniper_name(), "Test");
}

#[test]
fn has_player_spy_user_name() {
    let mut replay: Replay = Default::default();
    replay.header.spy_user_name = "test".to_string();

    assert!(replay.has_player("test"));
}

#[test]
fn has_player_spy_user_name_ignore_case() {
    let mut replay: Replay = Default::default();
    replay.header.spy_user_name = "Test".to_string();

    assert!(replay.has_player("test"));
}

#[test]
fn has_player_spy_display_name() {
    let mut replay: Replay = Default::default();
    replay.header.spy_display_name = Some("test".to_string());

    assert!(replay.has_player("test"));
}

#[test]
fn has_player_sniper_user_name() {
    let mut replay: Replay = Default::default();
    replay.header.sniper_user_name = "test".to_string();

    assert!(replay.has_player("test"));
}

#[test]
fn has_player_sniper_user_name_ignore_case() {
    let mut replay: Replay = Default::default();
    replay.header.spy_user_name = "test".to_string();

    assert!(replay.has_player("Test"));
}

#[test]
fn has_player_sniper_display_name() {
    let mut replay: Replay = Default::default();
    replay.header.sniper_display_name = Some("test".to_string());

    assert!(replay.has_player("test"));
}

#[test]
fn has_spy_user_name() {
    let mut replay: Replay = Default::default();
    replay.header.spy_user_name = "test".to_string();

    assert!(replay.has_spy("test"));
}

#[test]
fn has_spy_display_name() {
    let mut replay: Replay = Default::default();
    replay.header.spy_display_name = Some("test".to_string());

    assert!(replay.has_spy("test"));
}

#[test]
fn has_spy_not_sniper() {
    let mut replay: Replay = Default::default();
    replay.header.sniper_display_name = Some("test".to_string());

    assert!(!replay.has_spy("test"));
}

#[test]
fn has_sniper_user_name() {
    let mut replay: Replay = Default::default();
    replay.header.sniper_user_name = "test".to_string();

    assert!(replay.has_sniper("test"));
}

#[test]
fn has_sniper_display_name() {
    let mut replay: Replay = Default::default();
    replay.header.sniper_display_name = Some("test".to_string());

    assert!(replay.has_sniper("test"));
}

#[test]
fn has_sniper_not_spy() {
    let mut replay: Replay = Default::default();
    replay.header.spy_display_name = Some("test".to_string());

    assert!(!replay.has_sniper("test"));
}

#[test]
fn is_spy_win() {
    let mut replay: Replay = Default::default();
    replay.header.result_data.game_result = GameResult::MissionsWin;

    assert!(replay.is_spy_win());
}

#[test]
fn is_sniper_win() {
    let mut replay: Replay = Default::default();
    replay.header.result_data.game_result = GameResult::SpyTimeout;

    assert!(replay.is_sniper_win());
}

#[test]
fn is_win_for_spy() {
    let mut replay: Replay = Default::default();
    replay.header.spy_user_name = "test".to_string();
    replay.header.result_data.game_result = GameResult::MissionsWin;

    assert!(replay.is_win_for("test"));
}

#[test]
fn is_win_for_sniper() {
    let mut replay: Replay = Default::default();
    replay.header.sniper_user_name = "test".to_string();
    replay.header.result_data.game_result = GameResult::SpyShot;

    assert!(replay.is_win_for("test"));
}

#[test]
fn is_loss_for_spy() {
    let mut replay: Replay = Default::default();
    replay.header.spy_user_name = "test".to_string();
    replay.header.result_data.game_result = GameResult::SpyShot;

    assert!(replay.is_loss_for("test"));
    assert!(!replay.is_win_for("test"));
}

#[test]
fn unfinished_replay_is_no_win_and_no_loss() {
    let mut replay: Replay = Default::default();
    replay.header.spy_user_name = "test".to_string();
    replay.header.result_data.game_result = GameResult::InProgress;

    assert!(!replay.is_win_for("test"));
    assert!(!replay.is_loss_for("test"));
}
