use regexpp_rs::{EcmaRegexValidator, EcmaVersion};

#[test]
fn valid_flags() {
    let validator = EcmaRegexValidator::new(EcmaVersion::ES2018);
    assert_eq!(validator.validate_flags("gimuys"), Ok(()));
    assert_eq!(validator.validate_flags("gimuy"), Ok(()));
    assert_eq!(validator.validate_flags("gim"), Ok(()));
    assert_eq!(validator.validate_flags("g"), Ok(()));
    assert_eq!(validator.validate_flags("i"), Ok(()));
    assert_eq!(validator.validate_flags("m"), Ok(()));
    assert_eq!(validator.validate_flags("s"), Ok(()));
    assert_eq!(validator.validate_flags("u"), Ok(()));
    assert_eq!(validator.validate_flags("y"), Ok(()));

    assert_eq!(validator.validate_flags("gy"), Ok(()));
    assert_eq!(validator.validate_flags("iy"), Ok(()));
    assert_eq!(validator.validate_flags("my"), Ok(()));
    assert_eq!(validator.validate_flags("uy"), Ok(()));
}

#[test]
fn duplicate_flags() {
    let validator = EcmaRegexValidator::new(EcmaVersion::ES2018);
    assert_eq!(validator.validate_flags("gimgu"), Err("Duplicated flag g".to_string()));
    assert_eq!(validator.validate_flags("migg"), Err("Duplicated flag g".to_string()));
    assert_eq!(validator.validate_flags("igi"), Err("Duplicated flag i".to_string()));

    assert_eq!(validator.validate_flags("ii"), Err("Duplicated flag i".to_string()));
    assert_eq!(validator.validate_flags("mm"), Err("Duplicated flag m".to_string()));
    assert_eq!(validator.validate_flags("ss"), Err("Duplicated flag s".to_string()));
    assert_eq!(validator.validate_flags("uu"), Err("Duplicated flag u".to_string()));
    assert_eq!(validator.validate_flags("yy"), Err("Duplicated flag y".to_string()));
}

#[test]
fn invalid_flags() {
    let validator = EcmaRegexValidator::new(EcmaVersion::ES2018);
    assert_eq!(validator.validate_flags("gimuf"), Err("Invalid flag f".to_string()));
    assert_eq!(validator.validate_flags("gI"), Err("Invalid flag I".to_string()));
    assert_eq!(validator.validate_flags("a"), Err("Invalid flag a".to_string()));
    assert_eq!(validator.validate_flags("1"), Err("Invalid flag 1".to_string()));
}
