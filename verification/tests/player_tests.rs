use rockola::events::AppEvent;
use rockola::player::{FinishAction, Player, PlayerStateEnum, QueueItem, RepeatMode};

fn item(id: i64, title: &str) -> QueueItem {
    QueueItem {
        id,
        title: title.to_string(),
        artist: "Test Artist".to_string(),
        media_type: "audio".to_string(),
        file_path: format!("/music/{}.mp3", title),
        duration_ms: Some(180000),
    }
}

fn ids(v: &[QueueItem]) -> Vec<i64> {
    v.iter().map(|i| i.id).collect()
}

#[test]
fn test_player_creation() {
    let player = Player::new();
    assert_eq!(player.get_queue_length(), 0);
    assert_eq!(player.get_state(), PlayerStateEnum::Idle);
}

#[test]
fn test_enqueue_and_play() {
    let mut player = Player::new();
    let item = QueueItem {
        id: 1,
        title: "Test Song".to_string(),
        artist: "Test Artist".to_string(),
        media_type: "audio".to_string(),
        file_path: "/path/to/test.mp3".to_string(),
        duration_ms: Some(180000),
    };

    player.enqueue(item);
    assert_eq!(player.get_queue_length(), 1);

    let result = player.play_next();
    assert!(result.is_ok());
}

#[test]
fn play_next_takes_the_front_of_the_queue() {
    let mut p = Player::new();
    p.enqueue(item(1, "a"));
    p.enqueue(item(2, "b"));
    p.play_next().unwrap();
    assert_eq!(p.get_current_item().map(|i| i.id), Some(1));
    assert_eq!(ids(&p.get_queue()), vec![2]);
    assert_eq!(p.get_state(), PlayerStateEnum::Playing);
    assert_eq!(p.get_current_position(), 0);
}

#[test]
fn play_next_on_empty_queue_fails() {
    let mut p = Player::new();
    assert!(p.play_next().is_err());
    assert_eq!(p.get_state(), PlayerStateEnum::Idle);
}

#[test]
fn previous_undoes_next() {
    let mut p = Player::new();
    p.enqueue(item(1, "a"));
    p.enqueue(item(2, "b"));
    p.play_next().unwrap();
    p.play_next().unwrap();
    assert_eq!(p.get_current_item().map(|i| i.id), Some(2));
    p.play_previous().unwrap();
    assert_eq!(p.get_current_item().map(|i| i.id), Some(1));
    assert_eq!(ids(&p.get_queue()), vec![2]);
}

#[test]
fn play_previous_without_history_fails() {
    let mut p = Player::new();
    assert!(p.play_previous().is_err());
}

#[test]
fn repeat_all_never_runs_dry() {
    let mut p = Player::new();
    p.set_repeat_mode(RepeatMode::All);
    p.enqueue(item(1, "a"));
    for _ in 0..5 {
        assert!(p.play_next().is_ok());
    }
}

#[test]
fn pause_then_play_resumes() {
    let mut p = Player::new();
    p.enqueue(item(1, "a"));
    p.play_next().unwrap();
    p.seek_to(5000);
    p.pause();
    assert_eq!(p.get_state(), PlayerStateEnum::Paused);
    p.play().unwrap();
    assert_eq!(p.get_state(), PlayerStateEnum::Playing);
    assert_eq!(p.get_current_position(), 5000);
    assert_eq!(p.get_current_item().map(|i| i.id), Some(1));
}

#[test]
fn move_and_remove_keep_items() {
    let mut p = Player::new();
    p.enqueue_multiple(vec![item(1, "a"), item(2, "b"), item(3, "c")]);
    p.move_queue_item(0, 2);
    assert_eq!(ids(&p.get_queue()), vec![2, 3, 1]);
    p.insert_at(1, item(9, "z"));
    assert_eq!(ids(&p.get_queue()), vec![2, 9, 3, 1]);
    let removed = p.remove_from_queue(1);
    assert_eq!(removed.map(|i| i.id), Some(9));
    assert_eq!(ids(&p.get_queue()), vec![2, 3, 1]);
    assert!(p.remove_from_queue(10).is_none());
    p.clear_queue();
    assert_eq!(p.get_queue_length(), 0);
}

#[test]
fn shuffle_keeps_the_same_items() {
    let mut p = Player::new();
    p.enqueue_multiple((1..=20).map(|i| item(i, "x")).collect());
    p.shuffle_queue();
    let mut got = ids(&p.get_queue());
    got.sort();
    assert_eq!(got, (1..=20).collect::<Vec<i64>>());
}

#[test]
fn finishing_an_item() {
    let mut p = Player::new();
    p.enqueue(item(1, "a"));
    p.play_next().unwrap();
    assert_eq!(p.on_item_finished(), FinishAction::AdvanceAfter { delay_ms: 2000 });
    p.set_repeat_mode(RepeatMode::One);
    p.seek_to(1000);
    assert_eq!(p.on_item_finished(), FinishAction::Repeated);
    assert_eq!(p.get_current_position(), 0);
}

#[test]
fn stop_reports_position_zero() {
    let mut p = Player::new();
    p.enqueue(item(1, "a"));
    p.play_next().unwrap();
    p.take_events();
    p.seek_to(3000);
    p.stop();
    assert_eq!(p.get_state(), PlayerStateEnum::Stopped);
    assert_eq!(p.get_current_position(), 3000);
    let events = p.take_events();
    assert!(events.iter().any(|e| matches!(e, AppEvent::PlaybackEvent(ev) if ev.event_type == "stopped" && ev.position_ms == Some(0))));
    assert!(events.iter().any(|e| matches!(e, AppEvent::PlayerState(s) if s.state == "stopped" && s.position_ms == 0)));
}

#[test]
fn enqueue_reports_a_queue_change() {
    let mut p = Player::new();
    p.enqueue(item(7, "a"));
    let events = p.take_events();
    assert_eq!(events.len(), 1);
    match &events[0] {
        AppEvent::QueueDelta(d) => {
            assert_eq!(d.reason, "added");
            assert_eq!(d.queue_item_ids, vec![7]);
        }
        other => panic!("unexpected event {:?}", other),
    }
    assert!(p.take_events().is_empty());
}

#[test]
fn player_state_reports_repeat_mode_and_shuffle() {
    let mut p = Player::new();
    p.enqueue(item(1, "a"));
    p.enqueue(item(2, "b"));
    p.play_next().unwrap();
    let first = p.take_events().into_iter().find_map(|e| match e {
        AppEvent::PlayerState(s) => Some(s),
        _ => None,
    });
    let first = first.unwrap();
    assert_eq!((first.repeat_mode.as_str(), first.shuffle), ("none", false));
    p.set_repeat_mode(RepeatMode::All);
    p.set_shuffle(true);
    p.play_next().unwrap();
    let second = p.take_events().into_iter().find_map(|e| match e {
        AppEvent::PlayerState(s) => Some(s),
        _ => None,
    });
    let second = second.unwrap();
    assert_eq!((second.repeat_mode.as_str(), second.shuffle, second.item_id), ("all", true, Some(2)));
}
