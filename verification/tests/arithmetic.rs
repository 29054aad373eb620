#[test]
fn it_works() {
    let result = tockloader::add(2, 2);
    assert_eq!(result, 4);
}

#[test]
fn add_is_the_plain_sum() {
    assert_eq!(tockloader::add(0, 0), 0);
    assert_eq!(tockloader::add(usize::MAX - 1, 1), usize::MAX);
}
