use twrp_brute::config::{Code, Settings, SettingsError, ATTEMPT_TIMEOUT, LOCKOUT_MIN};
use twrp_brute::render::{step_grid, step_of};

fn pattern_settings() -> Settings {
    Settings {
        code: Code::Pattern,
        dots: vec![0, 1, 2, 3, 4, 5, 6, 7, 8],
        grid_size: 3,
        len_min: 4,
        len_max: 5,
        max_distance: 1,
        pause_ms: ATTEMPT_TIMEOUT,
    }
}

#[test]
fn default_settings_are_valid() {
    assert_eq!(pattern_settings().validate(), Ok(()));
    let mut s = pattern_settings();
    s.code = Code::Pin;
    s.grid_size = 0;
    assert_eq!(s.validate(), Ok(()));
}

#[test]
fn short_pause_is_refused() {
    let mut s = pattern_settings();
    s.pause_ms = LOCKOUT_MIN - 1;
    assert_eq!(s.validate(), Err(SettingsError::PauseTooShort));
    s.code = Code::Pin;
    assert_eq!(s.validate(), Err(SettingsError::PauseTooShort));
    s.pause_ms = LOCKOUT_MIN;
    assert_eq!(s.validate(), Ok(()));
}

#[test]
fn bad_pattern_settings_are_refused() {
    let mut s = pattern_settings();
    s.grid_size = 0;
    assert_eq!(s.validate(), Err(SettingsError::EmptyGrid));

    let mut s = pattern_settings();
    s.len_min = 6;
    assert_eq!(s.validate(), Err(SettingsError::LengthBounds));

    let mut s = pattern_settings();
    s.max_distance = 0;
    assert_eq!(s.validate(), Err(SettingsError::ZeroDistance));

    let mut s = pattern_settings();
    s.dots = vec![0, 9];
    assert_eq!(s.validate(), Err(SettingsError::DotOutsideGrid));

    let mut s = pattern_settings();
    s.grid_size = 15;
    s.dots = vec![0, 207];
    assert_eq!(s.validate(), Err(SettingsError::DotNotEncodable));

    let mut s = pattern_settings();
    s.dots = vec![0, 4, 8, 4];
    assert_eq!(s.validate(), Err(SettingsError::RepeatedDot));
}

#[test]
fn step_of_finds_first_visit() {
    let p = vec![4u16, 0, 8, 4];
    assert_eq!(step_of(&p, 4), Some(0));
    assert_eq!(step_of(&p, 8), Some(2));
    assert_eq!(step_of(&p, 3), None);
    assert_eq!(step_of(&vec![], 0), None);
}

#[test]
fn step_grid_lays_out_a_pattern() {
    let p = vec![0u16, 4, 8, 5];
    let g = step_grid(&p, 3);
    assert_eq!(
        g,
        vec![
            vec![Some(0), None, None],
            vec![None, Some(1), Some(3)],
            vec![None, None, Some(2)],
        ]
    );
    assert!(step_grid(&p, 0).is_empty());
}
