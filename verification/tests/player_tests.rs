use uttt::{Mark, Player};

#[test]
fn letters() {
    assert_eq!(Player::X.get_letter(), "X");
    assert_eq!(Player::O.get_letter(), "O");
    assert_eq!(Mark::Empty.get_letter(), " ");
    assert_eq!(Mark::X.get_letter(), "X");
    assert_eq!(Mark::O.get_letter(), "O");
}

#[test]
fn marks() {
    assert_eq!(Player::X.to_mark(), Mark::X);
    assert_eq!(Player::O.to_mark(), Mark::O);
    assert_ne!(Mark::Empty, Mark::X);
}
