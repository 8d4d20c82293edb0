use taskdeck::selection::Cursor;

#[test]
fn next_cycles_back_to_start() {
    // Stepping once per item walks the whole list and returns to 0.
    for len in 0usize..6 {
        let mut c = Cursor::new();
        for _ in 0..len {
            c.next(len);
        }
        assert_eq!(c.selected(), Some(0));
    }
}

#[test]
fn previous_undoes_next() {
    let len = 5usize;
    for start in 0..len {
        let mut c = Cursor::new();
        c.select(start);
        c.next(len);
        c.previous(len);
        assert_eq!(c.selected(), Some(start));
        c.previous(len);
        c.next(len);
        assert_eq!(c.selected(), Some(start));
    }
}

#[test]
fn next_wraps_at_end() {
    let mut c = Cursor::new();
    c.select(2);
    c.next(3);
    assert_eq!(c.selected(), Some(0));
}

#[test]
fn previous_wraps_at_start() {
    let mut c = Cursor::new();
    c.previous(4);
    assert_eq!(c.selected(), Some(3));
}

#[test]
fn empty_list_moves_are_noops() {
    let mut c = Cursor::new();
    c.next(0);
    assert_eq!(c.selected(), Some(0));
    c.previous(0);
    assert_eq!(c.selected(), Some(0));
}

#[test]
fn select_previous_stops_at_zero() {
    let mut c = Cursor::new();
    c.select(2);
    c.select_previous();
    assert_eq!(c.selected(), Some(1));
    c.select_previous();
    assert_eq!(c.selected(), Some(0));
    c.select_previous();
    assert_eq!(c.selected(), Some(0));
}
