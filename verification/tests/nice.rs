use testnice::nice::{
    getnice_outcome, is_valid_nice_level, renice_outcome, renice_request, GetniceError, NiceLevel,
    ReniceError, EACCES, EACCES_DESC, EPERM, EPERM_DESC, MAX_NICE_LEVEL, MIN_NICE_LEVEL,
};

#[test]
fn nice_level_bounds() {
    assert_eq!(MIN_NICE_LEVEL, -20);
    assert_eq!(MAX_NICE_LEVEL, 19);
    for prio in [i32::MIN, -1000, -21, 20, 21, 1000, i32::MAX] {
        assert!(!is_valid_nice_level(prio));
        assert!(NiceLevel::new(prio).is_none());
    }
    for prio in -20..=19 {
        assert!(is_valid_nice_level(prio));
        assert_eq!(NiceLevel::new(prio).unwrap().get(), prio);
    }
    assert!(NiceLevel::new(-20) < NiceLevel::new(19));
}

#[test]
fn nice_level_from_text() {
    assert_eq!("0".parse::<NiceLevel>().unwrap().get(), 0);
    assert_eq!("-20".parse::<NiceLevel>().unwrap().get(), -20);
    assert_eq!("+19".parse::<NiceLevel>().unwrap().get(), 19);
    assert_eq!(NiceLevel::parse(b"007").unwrap().get(), 7);
    for text in ["20", "-21", "2147483647", "-2147483648"] {
        assert_eq!(text.parse::<NiceLevel>(), Err(String::from("invalid nice level")));
    }
    for text in ["", " 1", "1 ", "one", "1.0", "2147483648", "--1", "0x1"] {
        assert_eq!(text.parse::<NiceLevel>(), Err(String::from("not an integer")));
        assert_eq!(NiceLevel::parse(text.as_bytes()), Err(String::from("not an integer")));
    }
}

#[test]
fn renice_decisions() {
    assert_eq!(renice_request(5).unwrap().get(), 5);
    assert_eq!(renice_request(-20).unwrap().get(), -20);
    assert!(matches!(renice_request(20), Err(ReniceError::InvalidNiceLevel(20))));
    assert!(matches!(renice_request(-21), Err(ReniceError::InvalidNiceLevel(-21))));
    assert!(matches!(renice_outcome(0, 0), Ok(())));
    assert!(matches!(renice_outcome(0, EPERM), Ok(())));
    assert!(matches!(renice_outcome(-1, EACCES), Err(ReniceError::Access)));
    assert!(matches!(renice_outcome(-1, EPERM), Err(ReniceError::Permission)));
    assert_eq!(EPERM, 1);
    assert_eq!(EACCES, 13);
}

#[test]
fn getnice_decisions() {
    assert_eq!(getnice_outcome(0, 0), Ok(0));
    assert_eq!(getnice_outcome(19, 0), Ok(19));
    assert_eq!(getnice_outcome(-20, 0), Ok(-20));
    // -1 is a niceness unless an error came with it.
    assert_eq!(getnice_outcome(-1, 0), Ok(-1));
    assert_eq!(getnice_outcome(-1, EPERM), Err(GetniceError::Permission));
    assert_eq!(getnice_outcome(5, EPERM), Ok(5));
}

#[test]
fn nice_error_messages() {
    assert_eq!(ReniceError::Access.to_string(), EACCES_DESC);
    assert_eq!(ReniceError::Permission.to_string(), EPERM_DESC);
    assert_eq!(GetniceError::Permission.to_string(), EPERM_DESC);
    assert_eq!(
        ReniceError::InvalidNiceLevel(20).to_string(),
        "Received invalid nice level: 20"
    );
    assert_eq!(
        ReniceError::InvalidNiceLevel(i32::MIN).to_string(),
        "Received invalid nice level: -2147483648"
    );
    assert!(EACCES_DESC.starts_with("The caller attempted to set a lower nice value"));
    assert!(EACCES_DESC.ends_with("CAP_SYS_NICE capability)."));
    assert!(EPERM_DESC.ends_with("https://man7.org/linux/man-pages/man2/getpriority.2.html"));
}
