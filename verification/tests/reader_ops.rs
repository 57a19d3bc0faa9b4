use regexpp_rs::{EcmaRegexValidator, EcmaVersion, Reader};

#[test]
fn eat_test() {
    let mut reader = Reader::new();
    reader.reset("abcdefghijk", 0, 11, true);
    assert_eq!(reader.eat('a'), true);
    assert_eq!(reader.eat3('b', 'd', 'd'), false);
    assert_eq!(reader.eat3('b', 'c', 'd'), true);
    assert_eq!(reader.eat2('e', 'f'), true);
    assert_eq!(reader.eat('h'), false);
    assert_eq!(reader.eat('g'), true);
    assert_eq!(reader.eat2('h', 'i'), true);
    assert_eq!(reader.eat3('j', 'k', 'a'), false);
}

#[test]
fn rewind_test() {
    let mut reader = Reader::new();
    reader.reset("abcd", 0, 4, true);
    assert_eq!(reader.eat('a'), true);
    assert_eq!(reader.eat3('b', 'd', 'd'), false);
    assert_eq!(reader.eat3('b', 'c', 'd'), true);
    reader.rewind(0);
    assert_eq!(reader.eat('a'), true);
    assert_eq!(reader.eat3('b', 'd', 'd'), false);
    assert_eq!(reader.eat3('b', 'c', 'd'), true);
}

#[test]
fn count_capturing_parens_test() {
    let mut validator = EcmaRegexValidator::new(EcmaVersion::ES2018);
    let source = "foo|(abc)de";
    validator.reset(source, 0, source.len(), false);
    assert_eq!(validator.count_capturing_parens(), 1);
    let source = "foo|(?:abc)de";
    validator.reset(source, 0, source.len(), false);
    assert_eq!(validator.count_capturing_parens(), 0);
    let source = "((foo)|(abc)de)";
    validator.reset(source, 0, source.len(), false);
    assert_eq!(validator.count_capturing_parens(), 3);
}
