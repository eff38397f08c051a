use corgos::ini_file::{Error, KeyValue, Location, Parser};

#[test]
fn parse_key_value_ascii() {
    let input = b"br-ick_c.o.u.n.t0 = \"infinite infinity\"".as_slice();
    let mut parser = Parser::new(input);
    let foo_bar = parser.parse();
    assert_eq!(
        foo_bar,
        Ok(Some(KeyValue {
            key: b"br-ick_c.o.u.n.t0".as_slice(),
            value: b"infinite infinity".as_slice()
        }))
    );

    let eoi = parser.parse();
    assert_eq!(eoi, Ok(None))
}

#[test]
fn parse_key_value() {
    let input = "br-ick_c.o.u.n.t0 = \"infinite infinity\"";
    let mut parser = Parser::new(input);
    let foo_bar = parser.parse();
    assert_eq!(
        foo_bar,
        Ok(Some(KeyValue {
            key: "br-ick_c.o.u.n.t0",
            value: "infinite infinity"
        }))
    );

    let eoi = parser.parse();
    assert_eq!(eoi, Ok(None))
}

#[test]
fn parse_key_values_ascii() {
    let input =
        b"foo0 = bar0\nfoo1 = bar1\nfoo2 = bar2\nfoo3 = \"bar3 bar3\"#.....\n#.........\nfoo4 = bar4\n\n".as_slice();
    let mut parser = Parser::new(input);
    let foo_bar = parser.parse();
    assert_eq!(
        foo_bar,
        Ok(Some(KeyValue {
            key: b"foo0".as_slice(),
            value: b"bar0".as_slice()
        }))
    );
    let foo_bar = parser.parse();
    assert_eq!(
        foo_bar,
        Ok(Some(KeyValue {
            key: b"foo1".as_slice(),
            value: b"bar1".as_slice()
        }))
    );
    let foo_bar = parser.parse();
    assert_eq!(
        foo_bar,
        Ok(Some(KeyValue {
            key: b"foo2".as_slice(),
            value: b"bar2".as_slice()
        }))
    );
    let foo_bar = parser.parse();
    assert_eq!(
        foo_bar,
        Ok(Some(KeyValue {
            key: b"foo3".as_slice(),
            value: b"bar3 bar3".as_slice()
        }))
    );
    let foo_bar = parser.parse();
    assert_eq!(
        foo_bar,
        Ok(Some(KeyValue {
            key: b"foo4".as_slice(),
            value: b"bar4".as_slice()
        }))
    );

    let eoi = parser.parse();
    assert_eq!(eoi, Ok(None))
}

#[test]
fn parse_key_values() {
    let input =
        "foo0 = bar0\nfoo1 = bar1\nfoo2 = bar2\nfoo3 = \"bar3 bar3\"#.....\n#..COMMENT.COMMENT......\nfoo4 = bar4\n\n";
    let mut parser = Parser::new(input);
    let foo_bar = parser.parse();
    assert_eq!(
        foo_bar,
        Ok(Some(KeyValue {
            key: "foo0",
            value: "bar0"
        }))
    );
    let foo_bar = parser.parse();
    assert_eq!(
        foo_bar,
        Ok(Some(KeyValue {
            key: "foo1",
            value: "bar1"
        }))
    );
    let foo_bar = parser.parse();
    assert_eq!(
        foo_bar,
        Ok(Some(KeyValue {
            key: "foo2",
            value: "bar2"
        }))
    );
    let foo_bar = parser.parse();
    assert_eq!(
        foo_bar,
        Ok(Some(KeyValue {
            key: "foo3",
            value: "bar3 bar3"
        }))
    );
    let foo_bar = parser.parse();
    assert_eq!(
        foo_bar,
        Ok(Some(KeyValue {
            key: "foo4",
            value: "bar4"
        }))
    );

    let eoi = parser.parse();
    assert_eq!(eoi, Ok(None))
}

#[test]
fn key_must_start_with_a_letter() {
    let mut parser = Parser::new("1abc = x");
    assert_eq!(
        parser.parse(),
        Err(Error::InvalidKeyName(Location { line: 1, col: 1, pos: 0 }))
    );
}

#[test]
fn missing_assign() {
    let mut parser = Parser::new(b"foo bar".as_slice());
    assert_eq!(
        parser.parse(),
        Err(Error::ExpectedAssign(Location { line: 1, col: 8, pos: 7 }))
    );
}

#[test]
fn missing_value() {
    let mut parser = Parser::new(b"\nfoo = =".as_slice());
    assert_eq!(
        parser.parse(),
        Err(Error::UnexpectedToken(Location { line: 2, col: 8, pos: 8 }))
    );
}

#[test]
fn unterminated_quote_is_no_value() {
    let mut parser = Parser::new("foo = \"bar");
    assert_eq!(
        parser.parse(),
        Err(Error::UnexpectedToken(Location { line: 1, col: 11, pos: 10 }))
    );
}

#[test]
fn stray_character() {
    let mut parser = Parser::new(b"  ; x".as_slice());
    assert_eq!(
        parser.parse(),
        Err(Error::UnexpectedToken(Location { line: 1, col: 3, pos: 2 }))
    );
}

#[test]
fn null_ends_input() {
    let mut parser = Parser::new(b"a = b\0c = d".as_slice());
    assert_eq!(
        parser.parse(),
        Ok(Some(KeyValue { key: b"a".as_slice(), value: b"b".as_slice() }))
    );
    assert_eq!(parser.parse(), Ok(None));
    assert_eq!(parser.parse(), Ok(None));
}

#[test]
fn unicode_letters_in_str_input() {
    let mut parser = Parser::new("schlüssel = wert");
    assert_eq!(
        parser.parse(),
        Ok(Some(KeyValue { key: "schlüssel", value: "wert" }))
    );
    let mut parser = Parser::new("ключ = 42");
    assert_eq!(parser.parse(), Ok(Some(KeyValue { key: "ключ", value: "42" })));
}
