use mandelbrot::settings::{
    depth_arg, dimension_arg, Settings, SettingsError, DEFAULT_DEPTH, DEFAULT_DIMENSION,
};

#[test]
fn defaults_when_nothing_is_given() {
    assert_eq!(
        Settings::from_args(None, None, None),
        Ok(Settings { width: 1080, height: 1080, depth: 64 })
    );
    assert_eq!(DEFAULT_DIMENSION, 1080);
    assert_eq!(DEFAULT_DEPTH, 64);
}

#[test]
fn given_values_are_read() {
    assert_eq!(
        Settings::from_args(Some("100"), Some("200"), Some("50")),
        Ok(Settings { width: 200, height: 100, depth: 50 })
    );
    assert_eq!(dimension_arg(Some("+7")), Some(7));
    assert_eq!(dimension_arg(Some("4294967295")), Some(u32::MAX));
    assert_eq!(depth_arg(Some("0")), Some(0));
}

#[test]
fn width_abc_is_rejected() {
    assert_eq!(dimension_arg(Some("abc")), None);
    assert_eq!(
        Settings::from_args(None, Some("abc"), None),
        Err(SettingsError::Width)
    );
}

#[test]
fn malformed_numbers_are_rejected() {
    for bad in ["", "+", "-1", "-0", " 5", "5 ", "1_000", "4294967296", "١٢"] {
        assert_eq!(dimension_arg(Some(bad)), None, "{:?}", bad);
    }
    assert_eq!(depth_arg(Some("x")), None);
    assert_eq!(depth_arg(Some("18446744073709551616")), None);
}

#[test]
fn first_bad_value_is_reported() {
    assert_eq!(
        Settings::from_args(Some("h"), Some("w"), Some("d")),
        Err(SettingsError::Height)
    );
    assert_eq!(
        Settings::from_args(Some("1"), Some("w"), Some("d")),
        Err(SettingsError::Width)
    );
    assert_eq!(
        Settings::from_args(Some("1"), Some("2"), Some("d")),
        Err(SettingsError::Depth)
    );
}
