use dl::pieces::{DynamicPieceMaker, PieceMaker, PieceMakerImpl, StaticPieceMaker};

#[test]
fn constructing_static_piece_maker() {
    assert_eq!(StaticPieceMaker::new(1).piece_size, 1);
}

#[test]
fn calculating_a_static_piece_size() {
    assert_eq!(StaticPieceMaker::new(1).calc_piece_size(100), 1);
}

#[test]
fn constructing_dynamic_piece_maker() {
    assert_eq!(DynamicPieceMaker::new(2).divisor, 2);
}

#[test]
fn calculating_a_dynamic_piece_size() {
    assert_eq!(DynamicPieceMaker::new(2).calc_piece_size(200), 100);
}

#[test]
fn dynamic_piece_size_rounds_down() {
    assert_eq!(DynamicPieceMaker::new(3).calc_piece_size(10), 3);
}

#[test]
fn wrapping_a_static_piece_maker() {
    match PieceMakerImpl::Static(StaticPieceMaker::new(7)) {
        PieceMakerImpl::Static(m) => assert_eq!(m.calc_piece_size(1000), 7),
    }
}

#[test]
fn a_file_smaller_than_the_divisor_is_one_piece() {
    assert_eq!(DynamicPieceMaker::new(4).calc_piece_size(3), 3);
    assert_eq!(DynamicPieceMaker::new(4).calc_piece_size(0), 0);
}
