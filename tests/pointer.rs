use interpreter::pointer::ReadPointer;

#[test]
fn move_pointer() {
    let mut ptr = ReadPointer::from_pos((0, 3, 0, 6), (3, 6));
    ReadPointer::move_pointer(&mut ptr, "abc\nabcd");
    assert_eq!(ptr, ReadPointer::from_pos((0, 3, 1, 4), (3, 14)));
}

#[test]
fn move_pointer_with_all_line_endings() {
    let mut ptr_unix = ReadPointer::from_pos((0, 3, 0, 6), (3, 6));
    ReadPointer::move_pointer(&mut ptr_unix, "abc\nabcd");

    let mut ptr_windows = ReadPointer::from_pos((0, 3, 0, 6), (3, 6));
    ReadPointer::move_pointer(&mut ptr_windows, "abc\r\nabcd");

    let mut ptr_old_mac = ReadPointer::from_pos((0, 3, 0, 6), (3, 6));
    ReadPointer::move_pointer(&mut ptr_old_mac, "abc\rabcd");

    assert_eq!(ptr_unix, ReadPointer::from_pos((0, 3, 1, 4), (3, 14)), "Unix Line Ending");
    assert_eq!(ptr_windows, ReadPointer::from_pos((0, 3, 1, 4), (3, 15)), "Windows Line Ending");
    assert_eq!(ptr_old_mac, ReadPointer::from_pos((0, 3, 1, 4), (3, 14)), "Old Mac Line Ending");
}

#[test]
fn pointer_increment() {
    let mut ptr = ReadPointer::from_pos((0, 3, 0, 6), (3, 6));
    ptr.increment();
    assert_eq!(ptr, ReadPointer::from_pos((0, 3, 0, 7), (3, 7)));
}

#[test]
fn pointer_increment_line() {
    let mut ptr = ReadPointer::from_pos((0, 3, 0, 6), (3, 6));
    ptr.increment_line();
    assert_eq!(ptr, ReadPointer::from_pos((0, 3, 1, 0), (3, 6)));
}

#[test]
fn pointer_commit() {
    let mut ptr = ReadPointer::from_pos((0, 3, 1, 6), (3, 9));
    ptr.commit();
    assert_eq!(ptr, ReadPointer::from_pos((1, 6, 1, 6), (9, 9)));
}

#[test]
fn pointer_push_pop() {
    let mut ptr = ReadPointer::from_pos((0, 3, 1, 6), (3, 9));
    let state_0 = ptr.clone();
    ptr.push();
    ptr.increment();
    ptr.increment_line();
    assert_ne!(ptr, state_0);
    let state_1 = ptr.clone();
    ptr.push();
    ptr.increment_line();
    ptr.commit();
    ptr.increment();
    assert_ne!(ptr, state_0);
    assert_ne!(ptr, state_1);
    ptr.pop();
    assert_eq!(ptr, state_1);
    ptr.pop();
    assert_eq!(ptr, state_0);
}

#[test]
fn pointer_back_undoes_the_pending_advance() {
    let mut ptr = ReadPointer::from_pos((0, 3, 1, 6), (3, 9));
    ptr.back();
    assert_eq!(ptr, ReadPointer::from_pos((0, 3, 0, 3), (3, 3)));
}

#[test]
fn pointer_pull_keeps_the_position() {
    let mut ptr = ReadPointer::from_pos((0, 0, 0, 0), (0, 0));
    ptr.push();
    ptr.increment();
    ptr.pull();
    assert_eq!(ptr, ReadPointer::from_pos((0, 0, 0, 1), (0, 1)));
    // nothing is left to return to
    ptr.pop();
    assert_eq!(ptr, ReadPointer::from_pos((0, 0, 0, 1), (0, 1)));
}

#[test]
fn pointer_len_and_from_to() {
    let ptr1 = ReadPointer::from_pos((0, 3, 0, 6), (3, 6));
    let ptr2 = ReadPointer::from_pos((0, 6, 0, 9), (6, 9));
    let ptr3 = ReadPointer::from_to(&ptr1, &ptr2);
    assert_eq!(ptr3, ReadPointer::from_pos((0, 3, 0, 9), (3, 9)));
    assert_eq!(ptr3.len(), 6);
}

#[test]
fn move_pointer_counts_a_trailing_carriage_return_as_a_line_break() {
    let mut ptr = ReadPointer::from_pos((0, 0, 0, 0), (0, 0));
    ReadPointer::move_pointer(&mut ptr, "ab\r");
    assert_eq!(ptr, ReadPointer::from_pos((0, 0, 1, 0), (0, 3)));
}
