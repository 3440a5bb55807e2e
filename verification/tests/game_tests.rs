use ballgame::game::PointerState;
use ballgame::network::{Message, MessageType, Pos};

fn p(x: f64, y: f64) -> Pos {
    Pos { x: x.to_bits(), y: y.to_bits() }
}

#[test]
fn new_state_is_at_origin() {
    let s = PointerState::new();
    assert_eq!(s.get_own_pos(), p(0.0, 0.0));
    assert_eq!(s.get_remote_pos(), p(0.0, 0.0));
}

#[test]
fn update_pointer_pos_records_and_announces() {
    let mut s = PointerState::new();
    let m = s.update_pointer_pos(p(0.5, 0.25));
    assert_eq!(m, MessageType::MousePosition(p(0.5, 0.25)));
    assert_eq!(s.get_own_pos(), p(0.5, 0.25));
    assert_eq!(s.get_remote_pos(), p(0.0, 0.0));
}

#[test]
fn apply_updates_takes_last_message() {
    let mut s = PointerState::new();
    let ms = vec![
        Message { peer_id: 1, content: MessageType::MousePosition(p(0.1, 0.2)) },
        Message { peer_id: 1, content: MessageType::MousePosition(p(0.3, 0.4)) },
    ];
    s.apply_updates(&ms);
    assert_eq!(s.get_remote_pos(), p(0.3, 0.4));
    s.apply_updates(&vec![]);
    assert_eq!(s.get_remote_pos(), p(0.3, 0.4));
}

#[test]
fn exchange_without_remote_shows_own_position() {
    let mut s = PointerState::new();
    s.update_pointer_pos(p(0.7, 0.8));
    assert_eq!(s.absorb_exchange(None), p(0.7, 0.8));
}

#[test]
fn updates_alone_do_not_make_remote_known() {
    let mut s = PointerState::new();
    s.update_pointer_pos(p(0.7, 0.8));
    s.apply_updates(&vec![Message {
        peer_id: 2,
        content: MessageType::MousePosition(p(0.1, 0.1)),
    }]);
    assert_eq!(s.absorb_exchange(None), p(0.7, 0.8));
}

#[test]
fn exchanged_position_becomes_remote_and_stays_known() {
    let mut s = PointerState::new();
    s.update_pointer_pos(p(0.7, 0.8));
    assert_eq!(s.absorb_exchange(Some(p(0.2, 0.3))), p(0.2, 0.3));
    assert_eq!(s.get_remote_pos(), p(0.2, 0.3));
    assert_eq!(s.absorb_exchange(None), p(0.2, 0.3));
    s.update_pointer_pos(p(0.9, 0.9));
    assert_eq!(s.absorb_exchange(None), p(0.2, 0.3));
    s.apply_updates(&vec![Message {
        peer_id: 2,
        content: MessageType::MousePosition(p(0.4, 0.4)),
    }]);
    assert_eq!(s.absorb_exchange(None), p(0.4, 0.4));
}
