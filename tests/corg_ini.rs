use corgos::corg_ini::{Error, KeyValue, Location, Parser};

#[test]
fn lib_parse_key_value_ascii() {
    let input = b"foo = bar";
    let mut parser = Parser::new(input);
    let foo_bar = parser.parse();
    assert_eq!(
        foo_bar,
        Ok(Some(KeyValue {
            key: b"foo",
            value: b"bar"
        }))
    );

    let eoi = parser.parse();
    assert_eq!(eoi, Ok(None))
}

#[test]
fn lib_parse_key_values_ascii() {
    let input =
        b"foo0 = bar0\nfoo1 = bar1\nfoo2 = bar2\nfoo3 = bar3#.....\n#.........\nfoo4 = bar4\n\n";
    let mut parser = Parser::new(input);
    let foo_bar = parser.parse();
    assert_eq!(
        foo_bar,
        Ok(Some(KeyValue {
            key: b"foo0",
            value: b"bar0"
        }))
    );
    let foo_bar = parser.parse();
    assert_eq!(
        foo_bar,
        Ok(Some(KeyValue {
            key: b"foo1",
            value: b"bar1"
        }))
    );
    let foo_bar = parser.parse();
    assert_eq!(
        foo_bar,
        Ok(Some(KeyValue {
            key: b"foo2",
            value: b"bar2"
        }))
    );
    let foo_bar = parser.parse();
    assert_eq!(
        foo_bar,
        Ok(Some(KeyValue {
            key: b"foo3",
            value: b"bar3"
        }))
    );
    let foo_bar = parser.parse();
    assert_eq!(
        foo_bar,
        Ok(Some(KeyValue {
            key: b"foo4",
            value: b"bar4"
        }))
    );

    let eoi = parser.parse();
    assert_eq!(eoi, Ok(None))
}

#[test]
fn char_input() {
    let input: Vec<char> = "größe = 12".chars().collect();
    let mut parser = Parser::new(&input);
    let expected_key: Vec<char> = "größe".chars().collect();
    let expected_value: Vec<char> = "12".chars().collect();
    assert_eq!(
        parser.parse(),
        Ok(Some(KeyValue { key: &expected_key[..], value: &expected_value[..] }))
    );
    assert_eq!(parser.parse(), Ok(None));
}

#[test]
fn underscore_is_not_a_key_character() {
    let mut parser = Parser::new(b"foo_bar = 1");
    assert_eq!(
        parser.parse(),
        Err(Error::ExpectedAssign(Location { line: 1, col: 4, pos: 3 }))
    );
}

#[test]
fn quotes_are_not_values() {
    let mut parser = Parser::new(b"foo = \"bar\"");
    assert_eq!(
        parser.parse(),
        Err(Error::UnexpectedToken(Location { line: 1, col: 7, pos: 6 }))
    );
}
