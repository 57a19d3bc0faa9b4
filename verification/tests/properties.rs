use regexpp_rs::{EcmaRegexValidator, EcmaVersion, Reader, RegexSyntaxError};

// Unicode mode is at least as strict about escapes and class ranges: inputs
// accepted with the flag are a refinement at the rule level, shown here on
// identity escapes and on class-escape range endpoints.
#[test]
fn unicode_mode_stricter_on_escapes() {
    let mut validator = EcmaRegexValidator::new(EcmaVersion::ES2018);
    assert_eq!(validator.validate_pattern("\\z", false), Ok(()));
    assert_ne!(validator.validate_pattern("\\z", true), Ok(()));
    assert_eq!(validator.validate_pattern("[\\u0000-\\d]", false), Ok(()));
    assert_eq!(
        validator.validate_pattern("[\\u0000-\\d]", true),
        Err(RegexSyntaxError::InvalidCharacterClass)
    );
    assert_eq!(validator.validate_pattern("\\x", false), Ok(()));
    assert_eq!(
        validator.validate_pattern("\\x", true),
        Err(RegexSyntaxError::InvalidEscape)
    );
}

// Validation is idempotent: the same validator, the same inputs, the same
// outcome, whatever was validated in between.
#[test]
fn validation_is_idempotent() {
    let mut validator = EcmaRegexValidator::new(EcmaVersion::ES2018);
    let first = validator.validate_pattern("(?<a>x)\\k<a>", false);
    let between = validator.validate_pattern("[z-a]", false);
    let second = validator.validate_pattern("(?<a>x)\\k<a>", false);
    assert_eq!(first, Ok(()));
    assert_ne!(between, Ok(()));
    assert_eq!(first, second);
    let e1 = validator.validate_pattern("a{2,1}", true);
    let e2 = validator.validate_pattern("a{2,1}", true);
    assert_eq!(e1, e2);
    assert_eq!(e1, Err(RegexSyntaxError::NumbersOutOfOrderInQuantifier));
}

// Class-range ordering holds for every edition.
#[test]
fn range_order_every_edition() {
    let editions = vec![
        EcmaVersion::ES5,
        EcmaVersion::ES2015,
        EcmaVersion::ES2016,
        EcmaVersion::ES2017,
        EcmaVersion::ES2018,
        EcmaVersion::ES2019,
        EcmaVersion::ES2020,
        EcmaVersion::ES2021,
    ];
    for edition in editions {
        let mut validator = EcmaRegexValidator::new(edition);
        assert_eq!(
            validator.validate_pattern("[z-a]", false),
            Err(RegexSyntaxError::RangeOutOfOrderInCharacterClass)
        );
        assert_eq!(validator.validate_pattern("[a-z]", false), Ok(()));
    }
}

// Quantifier bound ordering, and a quantifier may not quantify a quantifier.
#[test]
fn quantifier_order() {
    let mut validator = EcmaRegexValidator::new(EcmaVersion::ES2018);
    assert_eq!(
        validator.validate_pattern("x{2,1}", false),
        Err(RegexSyntaxError::NumbersOutOfOrderInQuantifier)
    );
    assert_eq!(validator.validate_pattern("x{1,2}", false), Ok(()));
    assert_eq!(
        validator.validate_pattern("x{1}{1,}", false),
        Err(RegexSyntaxError::NothingToRepeat)
    );
}

// The named-capture re-pass: with the `u` flag off the first pass reads
// `\k<a>` as an identity escape, and the presence of `(?<a>` forces the
// second pass that resolves it; ES2017 has no named groups at all.
#[test]
fn named_group_re_pass() {
    let mut validator = EcmaRegexValidator::new(EcmaVersion::ES2018);
    assert_eq!(validator.validate_pattern("(?<a>x)\\k<a>", false), Ok(()));
    assert_eq!(
        validator.validate_pattern("(?<a>x)\\k<b>", false),
        Err(RegexSyntaxError::InvalidNamedCaptureReferenced)
    );
    let mut validator = EcmaRegexValidator::new(EcmaVersion::ES2017);
    assert_ne!(validator.validate_pattern("(?<a>x)\\k<a>", false), Ok(()));
}

// Surrogate handling: with the `u` flag an astral character is one atom, so
// an inverted astral range is in order code-point-wise; without it the same
// text is two code units and the range check sees a lone trail surrogate
// above a lead surrogate.
#[test]
fn surrogate_pair_decoding() {
    let mut validator = EcmaRegexValidator::new(EcmaVersion::ES2018);
    assert_eq!(validator.validate_pattern("[\u{1F337}-\u{1F338}]", true), Ok(()));
    assert_eq!(
        validator.validate_pattern("[\u{1F337}-\u{1F338}]", false),
        Err(RegexSyntaxError::RangeOutOfOrderInCharacterClass)
    );
    assert_eq!(validator.validate_pattern("\u{1F338}{3}", true), Ok(()));

    let mut reader = Reader::new();
    reader.reset("\u{1F338}", 0, 2, true);
    assert_eq!(reader.code_point_with_offset(0), Some(0x1F338));
    reader.advance();
    assert_eq!(reader.index(), 2);
    reader.reset("\u{1F338}", 0, 2, false);
    assert_eq!(reader.code_point_with_offset(0), Some(0xD83C));
    assert_eq!(reader.code_point_with_offset(1), Some(0xDF38));
    reader.advance();
    assert_eq!(reader.index(), 1);
}

// Backreference numbers are checked against the pre-scanned group count.
#[test]
fn backreference_validity() {
    let mut validator = EcmaRegexValidator::new(EcmaVersion::ES2018);
    assert_eq!(
        validator.validate_pattern("(a)\\2", true),
        Err(RegexSyntaxError::InvalidEscape)
    );
    assert_eq!(validator.validate_pattern("(a)(b)\\2", true), Ok(()));
}

// Property escapes need ES2018 and the `u` flag; without the flag `\p` is an
// identity escape and the braces are literal text.
#[test]
fn property_escape_editions() {
    let mut validator = EcmaRegexValidator::new(EcmaVersion::ES2017);
    assert_eq!(
        validator.validate_pattern("\\p{ASCII}", true),
        Err(RegexSyntaxError::InvalidEscape)
    );
    let mut validator = EcmaRegexValidator::new(EcmaVersion::ES2018);
    assert_eq!(validator.validate_pattern("\\p{ASCII}", true), Ok(()));
    assert_eq!(validator.validate_pattern("\\p{ASCII}", false), Ok(()));
    assert_eq!(
        validator.validate_pattern("\\p{General_Category=Hiragana}", true),
        Err(RegexSyntaxError::InvalidPropertyName)
    );
    assert_eq!(validator.validate_pattern("\\p{General_Category=Letter}", true), Ok(()));
    assert_eq!(validator.validate_pattern("\\p{Script=Hiragana}", true), Ok(()));
    let mut validator = EcmaRegexValidator::new(EcmaVersion::ES2019);
    assert_eq!(validator.validate_pattern("\\p{Extended_Pictographic}", true), Ok(()));
    let mut validator = EcmaRegexValidator::new(EcmaVersion::ES2018);
    assert_eq!(
        validator.validate_pattern("\\p{Extended_Pictographic}", true),
        Err(RegexSyntaxError::InvalidPropertyName)
    );
}

// Each diagnosed failure comes back as its own error, on an input that
// provokes exactly it.
#[test]
fn error_variants() {
    let mut validator = EcmaRegexValidator::new(EcmaVersion::ES2018);
    assert_eq!(
        validator.validate_pattern(")", false),
        Err(RegexSyntaxError::UnmatchedParen)
    );
    assert_eq!(
        validator.validate_pattern("a\\", false),
        Err(RegexSyntaxError::BackslashAtEndOfPattern)
    );
    assert_eq!(
        validator.validate_pattern("a}", true),
        Err(RegexSyntaxError::LoneQuantifierBrackets)
    );
    assert_eq!(
        validator.validate_pattern("*", false),
        Err(RegexSyntaxError::NothingToRepeat)
    );
    assert_eq!(
        validator.validate_pattern("(a", false),
        Err(RegexSyntaxError::UnterminatedGroup)
    );
    assert_eq!(
        validator.validate_pattern("[a", false),
        Err(RegexSyntaxError::UnterminatedCharacterClass)
    );
    let mut old_validator = EcmaRegexValidator::new(EcmaVersion::ES2015);
    assert_eq!(
        old_validator.validate_pattern("(?<a>x)", false),
        Err(RegexSyntaxError::InvalidGroup)
    );
    assert_eq!(
        validator.validate_pattern("(?<a>x)(?<a>y)", false),
        Err(RegexSyntaxError::DuplicateCaptureGroupName)
    );
    assert_eq!(
        validator.validate_pattern("(?<1>x)", false),
        Err(RegexSyntaxError::InvalidCaptureGroupName)
    );
    assert_eq!(
        validator.validate_pattern("\\k<", true),
        Err(RegexSyntaxError::InvalidCaptureGroupName)
    );
    assert_eq!(
        validator.validate_pattern("a{1,", true),
        Err(RegexSyntaxError::IncompleteQuantifier)
    );
    assert_eq!(
        validator.validate_pattern("\\u{110000}", true),
        Err(RegexSyntaxError::InvalidUnicodeEscape)
    );
    assert_eq!(
        validator.validate_pattern("\\p{Nonsense}", true),
        Err(RegexSyntaxError::InvalidPropertyName)
    );
}

// The diagnostic line of a rejection.
#[test]
fn error_messages() {
    let mut validator = EcmaRegexValidator::new(EcmaVersion::ES2018);
    let unmatched = validator.validate_pattern(")", false).unwrap_err();
    assert_eq!(unmatched.message(), "Unmatched ')'");
    let out_of_order = validator.validate_pattern("[z-a]", false).unwrap_err();
    assert_eq!(out_of_order.message(), "Range out of order in character class");
    let quantifier = validator.validate_pattern("x{2,1}", false).unwrap_err();
    assert_eq!(quantifier.message(), "numbers out of order in {} quantifier");
}

// Flag validation: order-independent acceptance, duplicate detection with
// the offending flag named, and edition gating of `u`, `y`, `s`.
#[test]
fn flag_validation_edges() {
    let validator = EcmaRegexValidator::new(EcmaVersion::ES2018);
    assert_eq!(validator.validate_flags("gimsuy"), Ok(()));
    assert_eq!(validator.validate_flags("yusmig"), Ok(()));
    assert_eq!(
        validator.validate_flags("gimgu"),
        Err("Duplicated flag g".to_string())
    );
    assert_eq!(
        validator.validate_flags("migg"),
        Err("Duplicated flag g".to_string())
    );
    let old_validator = EcmaRegexValidator::new(EcmaVersion::ES5);
    assert_eq!(old_validator.validate_flags("u"), Err("Invalid flag u".to_string()));
    assert_eq!(old_validator.validate_flags("y"), Err("Invalid flag y".to_string()));
    let es2015_validator = EcmaRegexValidator::new(EcmaVersion::ES2015);
    assert_eq!(es2015_validator.validate_flags("uy"), Ok(()));
    assert_eq!(es2015_validator.validate_flags("s"), Err("Invalid flag s".to_string()));
}

// The reader's four-slot lookahead window: offsets past 3 report nothing,
// and `source`/`index` expose what `reset` bound.
#[test]
fn reader_window() {
    let mut reader = Reader::new();
    reader.reset("abcdef", 0, 6, false);
    assert_eq!(reader.source(), "abcdef");
    assert_eq!(reader.index(), 0);
    assert_eq!(reader.code_point_with_offset(3), Some('d' as u32));
    assert_eq!(reader.code_point_with_offset(4), None);
    reader.rewind(5);
    assert_eq!(reader.code_point_with_offset(0), Some('f' as u32));
    assert_eq!(reader.code_point_with_offset(1), None);
}
