use asteroids::sweep::sweep;

#[test]
fn sweep_without_marks_changes_nothing() {
    let mut items: Vec<u8> = vec![10, 11, 12];
    sweep(&mut items, &vec![false, false, false]);
    assert_eq!(items, vec![10, 11, 12]);
}

#[test]
fn sweep_of_an_empty_list() {
    let mut items: Vec<u8> = Vec::new();
    sweep(&mut items, &Vec::new());
    assert_eq!(items, Vec::<u8>::new());
}

#[test]
fn sweep_with_all_marks_leaves_nothing() {
    let mut items: Vec<u8> = vec![10, 11, 12];
    sweep(&mut items, &vec![true, true, true]);
    assert_eq!(items, Vec::<u8>::new());
}

#[test]
fn sweep_of_the_last_item_keeps_the_order() {
    let mut items: Vec<u8> = vec![1, 2, 3];
    sweep(&mut items, &vec![false, false, true]);
    assert_eq!(items, vec![1, 2]);
}

#[test]
fn sweep_moves_the_last_item_into_the_gap() {
    let mut items: Vec<u8> = vec![1, 2, 3, 4];
    sweep(&mut items, &vec![true, false, false, false]);
    assert_eq!(items, vec![4, 2, 3]);
}

#[test]
fn sweep_goes_from_the_top_down() {
    let mut items: Vec<u8> = vec![10, 11, 12, 13];
    sweep(&mut items, &vec![true, false, true, false]);
    assert_eq!(items, vec![13, 11]);
}

#[test]
fn sweep_of_two_among_six() {
    let mut items: Vec<u8> = vec![0, 1, 2, 3, 4, 5];
    sweep(&mut items, &vec![false, true, false, true, false, false]);
    assert_eq!(items, vec![0, 4, 2, 5]);
}

#[test]
fn sweep_keeps_exactly_the_unmarked_items() {
    let mut pattern: u32 = 0;
    while pattern < 256 {
        let mut items: Vec<u32> = Vec::new();
        let mut marked: Vec<bool> = Vec::new();
        let mut expected: Vec<u32> = Vec::new();
        let mut i: u32 = 0;
        while i < 8 {
            let mark: bool = (pattern >> i) & 1 == 1;
            items.push(100 + i);
            marked.push(mark);
            if !mark {
                expected.push(100 + i);
            }
            i += 1;
        }
        sweep(&mut items, &marked);
        items.sort();
        assert_eq!(items, expected);
        pattern += 1;
    }
}
