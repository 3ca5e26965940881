use flushing_schedule::layout::{bin_column, frame_row, mark_for, rule_row};
use flushing_schedule::navigation::{next, previous, react};
use flushing_schedule::{BinState, Command, LertVisualizer, Mark, Reaction, ScheduleError};

#[test]
fn default_configuration_is_accepted() {
    let cfg = LertVisualizer::new(5, 20, 3, 10, 1, 2).unwrap();
    assert_eq!(cfg.ram_size, 5);
    assert_eq!(cfg.disk_size, 20);
    assert_eq!(cfg.expansion_factor, 3);
    assert_eq!(cfg.depth, 10);
    assert_eq!(cfg.stretch_num, 1);
    assert_eq!(cfg.stretch_den, 2);
    assert_eq!(cfg.num_bins, 3);
}

#[test]
fn bins_are_the_rounded_reciprocal_plus_one() {
    assert_eq!(LertVisualizer::bins_per_level(1, 1), Ok(2));
    assert_eq!(LertVisualizer::bins_per_level(1, 2), Ok(3));
    assert_eq!(LertVisualizer::bins_per_level(2, 5), Ok(4));
    assert_eq!(LertVisualizer::bins_per_level(3, 10), Ok(5));
    assert_eq!(LertVisualizer::bins_per_level(3, 9), Ok(4));
    assert_eq!(LertVisualizer::bins_per_level(7, 7), Ok(2));
    assert_eq!(LertVisualizer::bins_per_level(99, 100), Ok(3));
    assert_eq!(LertVisualizer::bins_per_level(1, u32::MAX - 1), Ok(u32::MAX));
    assert_eq!(LertVisualizer::bins_per_level(u32::MAX, u32::MAX), Ok(2));
    assert_eq!(LertVisualizer::bins_per_level(2, u32::MAX), Ok(2147483649));
}

#[test]
fn stretch_outside_the_unit_interval_is_invalid() {
    assert_eq!(LertVisualizer::bins_per_level(0, 1), Err(ScheduleError::InvalidConfiguration));
    assert_eq!(LertVisualizer::bins_per_level(0, 0), Err(ScheduleError::InvalidConfiguration));
    assert_eq!(LertVisualizer::bins_per_level(3, 2), Err(ScheduleError::InvalidConfiguration));
    assert_eq!(
        LertVisualizer::new(5, 20, 3, 10, 0, 2),
        Err(ScheduleError::InvalidConfiguration)
    );
    assert_eq!(
        LertVisualizer::new(5, 20, 3, 10, 3, 2),
        Err(ScheduleError::InvalidConfiguration)
    );
}

#[test]
fn sizes_factor_and_depth_are_checked() {
    assert_eq!(
        LertVisualizer::new(0, 20, 3, 10, 1, 2),
        Err(ScheduleError::InvalidConfiguration)
    );
    assert_eq!(
        LertVisualizer::new(5, 0, 3, 10, 1, 2),
        Err(ScheduleError::InvalidConfiguration)
    );
    assert_eq!(
        LertVisualizer::new(5, 20, 1, 10, 1, 2),
        Err(ScheduleError::InvalidConfiguration)
    );
    assert_eq!(
        LertVisualizer::new(5, 20, 0, 10, 1, 2),
        Err(ScheduleError::InvalidConfiguration)
    );
    assert_eq!(
        LertVisualizer::new(5, 20, 3, 0, 1, 2),
        Err(ScheduleError::InvalidConfiguration)
    );
    assert!(LertVisualizer::new(1, 1, 2, 1, 1, 1).is_ok());
}

#[test]
fn bin_count_beyond_32_bits_is_reported() {
    assert_eq!(
        LertVisualizer::bins_per_level(1, u32::MAX),
        Err(ScheduleError::ArithmeticOverflow)
    );
    assert_eq!(
        LertVisualizer::new(5, 20, 3, 10, 1, u32::MAX),
        Err(ScheduleError::ArithmeticOverflow)
    );
    assert_eq!(
        LertVisualizer::new(0, 20, 3, 10, 1, u32::MAX),
        Err(ScheduleError::InvalidConfiguration)
    );
}

#[test]
fn stepping_forward_and_back() {
    assert_eq!(next(0), 1);
    assert_eq!(next(41), 42);
    assert_eq!(previous(42), 41);
    assert_eq!(previous(1), 0);
    assert_eq!(previous(0), 0);
}

#[test]
fn commands_move_the_step_and_choose_the_reaction() {
    assert_eq!(react(0, Command::Forward), (1, Reaction::Redraw));
    assert_eq!(react(7, Command::Forward), (8, Reaction::Redraw));
    assert_eq!(react(7, Command::Back), (6, Reaction::Redraw));
    assert_eq!(react(0, Command::Back), (0, Reaction::Stay));
    assert_eq!(react(7, Command::Quit), (7, Reaction::Stop));
    assert_eq!(react(u32::MAX, Command::Back), (u32::MAX - 1, Reaction::Redraw));
    assert_eq!(react(u32::MAX, Command::Quit), (u32::MAX, Reaction::Stop));
}

#[test]
fn rows_of_the_grid() {
    let rule: String = rule_row(3).into_iter().collect();
    assert_eq!(rule, "--------------");
    let frame: String = frame_row(3).into_iter().collect();
    assert_eq!(frame, "|   |   |   | ");
    let none: String = frame_row(0).into_iter().collect();
    assert_eq!(none, "| ");
    assert_eq!(rule_row(0).len(), 2);
    assert_eq!(rule_row(100).len(), 402);
}

#[test]
fn marks_sit_in_the_third_column_of_a_cell() {
    assert_eq!(bin_column(3, 0), 3);
    assert_eq!(bin_column(3, 1), 7);
    assert_eq!(bin_column(3, 2), 11);
    let frame = frame_row(3);
    for i in 0..3u32 {
        let at = bin_column(3, i) as usize - 1;
        assert_eq!(frame[at], ' ');
        assert_eq!(frame[at - 2], '|');
    }
}

#[test]
fn marks_by_state() {
    assert_eq!(mark_for(BinState::Empty), Mark::Blank);
    assert_eq!(mark_for(BinState::Flushing), Mark::Flush);
    assert_eq!(mark_for(BinState::Full), Mark::Shaded { numerator: 1, denominator: 1 });
    assert_eq!(mark_for(BinState::Filling { numerator: 0, denominator: 3 }), Mark::Blank);
    assert_eq!(
        mark_for(BinState::Filling { numerator: 2, denominator: 3 }),
        Mark::Shaded { numerator: 2, denominator: 3 }
    );
}
