use gc::{
    BorrowMode, BorrowState, GcBoxHeader, GcColor, GcFlags, GrayLink, GrayQueue, RootCount,
};

fn colors() -> Vec<GcColor> {
    vec![
        GcColor::White1,
        GcColor::White2,
        GcColor::LightGray,
        GcColor::DarkGray,
        GcColor::Black,
    ]
}

fn header(color: GcColor) -> GcBoxHeader {
    GcBoxHeader {
        flags: GcFlags::new(color),
        root_count: RootCount::new(),
        borrow_state: BorrowState::new(),
        next_all: Some(3),
        gray_link: GrayLink::Queue,
    }
}

fn queue(uphold_invariant: bool) -> GrayQueue {
    GrayQueue { uphold_invariant, primary: Some(10), secondary: Some(20) }
}

#[test]
fn whites_are_white() {
    assert!(GcColor::White1.is_white());
    assert!(GcColor::White2.is_white());
    assert!(!GcColor::LightGray.is_white());
    assert!(!GcColor::DarkGray.is_white());
    assert!(!GcColor::Black.is_white());
}

#[test]
fn flags_give_back_the_color() {
    for first in colors() {
        for second in colors() {
            let mut flags = GcFlags::new(first);
            assert_eq!(flags.color(), first);
            flags.set_color(second);
            assert_eq!(flags.color(), second);
        }
    }
}

#[test]
fn root_count_goes_up_and_down() {
    let mut count = RootCount::new();
    assert!(!count.is_rooted());
    count.increment();
    count.increment();
    count.decrement();
    assert!(count.is_rooted());
    assert!(!count.is_full());
    count.decrement();
    assert!(!count.is_rooted());
}

#[test]
fn borrow_state_follows_the_guards() {
    let mut state = BorrowState::new();
    assert_eq!(state.mode(), BorrowMode::Unused);
    state.inc_reading();
    state.inc_reading();
    assert_eq!(state.mode(), BorrowMode::Reading);
    state.dec_reading();
    assert_eq!(state.mode(), BorrowMode::Reading);
    state.dec_reading();
    assert_eq!(state.mode(), BorrowMode::Unused);
    state.set_writing();
    assert_eq!(state.mode(), BorrowMode::Writing);
    state.set_unused();
    assert_eq!(state.mode(), BorrowMode::Unused);
}

#[test]
fn queue_roots_white_boxes_in() {
    for color in colors() {
        let mut queue = queue(false);
        let mut header = header(color);
        queue.root(5, &mut header);
        assert!(header.root_count.is_rooted());
        assert_eq!(header.next_all, Some(3));
        assert_eq!(queue.primary, Some(10));
        if color.is_white() {
            assert_eq!(header.flags.color(), GcColor::LightGray);
            assert_eq!(header.gray_link, GrayLink::Next(Some(20)));
            assert_eq!(queue.secondary, Some(5));
        } else {
            assert_eq!(header.flags.color(), color);
            assert_eq!(header.gray_link, GrayLink::Queue);
            assert_eq!(queue.secondary, Some(20));
        }
    }
}

#[test]
fn queue_traces_boxes() {
    for color in colors() {
        let mut queue = queue(false);
        let mut header = header(color);
        queue.trace(5, &mut header);
        assert!(!header.root_count.is_rooted());
        assert_eq!(queue.secondary, Some(20));
        let expected = if color == GcColor::Black { GcColor::Black } else { GcColor::DarkGray };
        assert_eq!(header.flags.color(), expected);
        if color.is_white() {
            assert_eq!(header.gray_link, GrayLink::Next(Some(10)));
            assert_eq!(queue.primary, Some(5));
        } else {
            assert_eq!(header.gray_link, GrayLink::Queue);
            assert_eq!(queue.primary, Some(10));
        }
    }
}

#[test]
fn write_barrier_darkens_black_boxes_alone() {
    for color in colors() {
        for uphold in vec![false, true] {
            let mut queue = queue(uphold);
            let mut header = header(color);
            queue.write_barrier(5, &mut header);
            assert_eq!(queue.secondary, Some(20));
            assert_eq!(queue.uphold_invariant, uphold);
            if color == GcColor::Black && uphold {
                assert_eq!(header.flags.color(), GcColor::DarkGray);
                assert_eq!(header.gray_link, GrayLink::Next(Some(10)));
                assert_eq!(queue.primary, Some(5));
            } else {
                assert_eq!(header.flags.color(), color);
                assert_eq!(header.gray_link, GrayLink::Queue);
                assert_eq!(queue.primary, Some(10));
            }
        }
    }
}
