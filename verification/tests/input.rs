use connect_four::game::{Action, Outcome, Phase};
use connect_four::board::Player;
use connect_four::input::{action_for, Input, Key, KeyPress};

fn key(key: Key) -> Input {
    Input::Key(KeyPress { key, control: false })
}

fn all_phases() -> [Phase; 4] {
    [
        Phase::Start,
        Phase::Playing,
        Phase::GameOver { outcome: Outcome::Win(Player::Blue) },
        Phase::GameOver { outcome: Outcome::Draw },
    ]
}

#[test]
fn control_c_quits_in_every_phase() {
    let interrupt = Input::Key(KeyPress { key: Key::Char('c'), control: true });
    for phase in all_phases() {
        assert_eq!(action_for(phase, interrupt), Some(Action::Quit));
    }
}

#[test]
fn no_key_no_action() {
    for phase in all_phases() {
        assert_eq!(action_for(phase, Input::Other), None);
    }
}

#[test]
fn any_key_begins() {
    for pressed in [Key::Char('c'), Key::Char('x'), Key::Left, Key::Right, Key::Enter, Key::Other] {
        assert_eq!(action_for(Phase::Start, key(pressed)), Some(Action::Begin));
    }
    let control_x = Input::Key(KeyPress { key: Key::Char('x'), control: true });
    assert_eq!(action_for(Phase::Start, control_x), Some(Action::Begin));
}

#[test]
fn any_key_restarts() {
    let over = Phase::GameOver { outcome: Outcome::Draw };
    for pressed in [Key::Char('c'), Key::Char('q'), Key::Left, Key::Right, Key::Enter, Key::Other] {
        assert_eq!(action_for(over, key(pressed)), Some(Action::Restart));
    }
    let won = Phase::GameOver { outcome: Outcome::Win(Player::Red) };
    assert_eq!(action_for(won, key(Key::Enter)), Some(Action::Restart));
}

#[test]
fn keys_of_a_running_match() {
    let playing = Phase::Playing;
    assert_eq!(action_for(playing, key(Key::Left)), Some(Action::MoveCursorLeft));
    assert_eq!(action_for(playing, key(Key::Char('h'))), Some(Action::MoveCursorLeft));
    assert_eq!(action_for(playing, key(Key::Right)), Some(Action::MoveCursorRight));
    assert_eq!(action_for(playing, key(Key::Char('l'))), Some(Action::MoveCursorRight));
    assert_eq!(action_for(playing, key(Key::Enter)), Some(Action::Confirm));
    assert_eq!(action_for(playing, key(Key::Char('c'))), None);
    assert_eq!(action_for(playing, key(Key::Char('H'))), None);
    assert_eq!(action_for(playing, key(Key::Other)), None);
    let control_h = Input::Key(KeyPress { key: Key::Char('h'), control: true });
    assert_eq!(action_for(playing, control_h), Some(Action::MoveCursorLeft));
}
