use order_ledger::padding::space_pad;

#[test]
fn space_pad_fills_to_the_next_block() {
    let mut message: Vec<u8> = vec![b'a', b'b', b'c'];
    space_pad(4, &mut message);
    assert_eq!(message, vec![b'a', b'b', b'c', b' ']);
}

#[test]
fn space_pad_leaves_a_full_block_alone() {
    let mut message: Vec<u8> = vec![b'a', b'b', b'c', b'd'];
    space_pad(4, &mut message);
    assert_eq!(message, vec![b'a', b'b', b'c', b'd']);
}

#[test]
fn space_pad_of_nothing_is_nothing() {
    let mut message: Vec<u8> = vec![];
    space_pad(256, &mut message);
    assert_eq!(message, Vec::<u8>::new());
}

#[test]
fn space_pad_hands_back_the_same_buffer() {
    let mut message: Vec<u8> = vec![b'x'; 5];
    let padded = space_pad(3, &mut message);
    padded.push(b'!');
    assert_eq!(message, vec![b'x', b'x', b'x', b'x', b'x', b' ', b'!']);
}
