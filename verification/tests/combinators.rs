use pcomb::outcome::Reply;
use pcomb::parser::Parser;
use pcomb::value::Value;

#[test]
fn and_ok() {
    let string = |p:&str| Parser::regex(p, 0);
    let parser = string("key").and(string(":")).and(string("value"));
    let result = parser.parse("key:value").unwrap();
    assert_eq!(result.is_ok(), true);
    assert_eq!(
        result.value(),
        Value::List(vec![
            Value::List(vec![
                Value::Leaf("key".to_string()),
                Value::Leaf(":".to_string()),
            ]),
            Value::Leaf("value".to_string()),
        ]),
    );
}

#[test]
fn and_error() {
    let string = |p:&str| Parser::regex(p, 0);
    let parser = string("key").and(string(":")).and(string("value"));
    let result = parser.parse("key:valu").unwrap();
    assert_eq!(result.is_ok(), false);
    assert_eq!(result.err_position(), 4);
}

#[test]
fn or_ok() {
    let string = |p:&str| Parser::regex(p, 0);
    let parser = string("x").or(string("y")).or(string("z"));
    let result = parser.parse("x").unwrap();
    assert_eq!(result.is_ok(), true);
    assert_eq!(result.value(), Value::Leaf("x".to_string()));
}

#[test]
fn or_error() {
    let string = |p:&str| Parser::regex(p, 0);
    let parser = string("x").or(string("y")).or(string("z"));
    let result = parser.parse("w").unwrap();
    assert_eq!(result.is_ok(), false);
    assert_eq!(result.err_position(), 0);
}

#[test]
fn many_ok() {
    let string = |p:&str| Parser::regex(p, 0);
    let parser = string("xy").repeat().flat();
    let result = parser.parse("xyxyxyxy").unwrap();
    assert_eq!(result.is_ok(), true);
    assert_eq!(
        result.value(),
        Value::List(vec![
            Value::Leaf("xy".to_string()),
            Value::Leaf("xy".to_string()),
            Value::Leaf("xy".to_string()),
            Value::Leaf("xy".to_string()),
        ]),
    );

    let parser = string("xy").repeat().flat();
    let result = parser.parse("").unwrap();
    assert_eq!(result.is_ok(), true);
    assert_eq!(
        result.value(),
        Value::Empty,
    );
}

#[test]
fn many_error() {
    let string = |p:&str| Parser::regex(p, 0);
    let parser = string("x").repeat();
    let result = parser.parse("xxxxxy").unwrap();
    assert_eq!(result.is_ok(), false);
    assert_eq!(result.err_position(), 5);
}

#[test]
fn regex_ok() {
    let parser = Parser::regex(r"([0-9]+)([a-z]+)", 1);
    let result = parser.parse("123abc").unwrap();
    assert_eq!(result.is_ok(), true);
    assert_eq!(result.value(), Value::Leaf("123".to_string()));

    let parser = Parser::regex(r"[0-9]+", 0);
    let result = parser.parse("123").unwrap();
    assert_eq!(result.is_ok(), true);
    assert_eq!(result.value(), Value::Leaf("123".to_string()));
}

#[test]
fn regex_error() {
    let parser = Parser::regex(r"[0-9]+", 0);
    let result = parser.parse("12a").unwrap();
    assert_eq!(result.is_ok(), false);
    assert_eq!(result.err_position(), 2);
}

#[test]
fn sep_by1_ok() {
    let string = |p:&str| Parser::regex(p, 0);
    let parser_val = string("val");
    let parser = parser_val.clone().and(Parser::skip(",").and(parser_val.clone()).repeat()).flat();

    let result = parser.parse("val").unwrap();
    assert_eq!(result.is_ok(), true);
    assert_eq!(
        result.value(),
        Value::List(vec![
            Value::Leaf("val".to_string()),
        ]),
    );

    let result = parser.parse("val,val,val").unwrap();
    assert_eq!(result.is_ok(), true);
    assert_eq!(
        result.value(),
        Value::List(vec![
            Value::Leaf("val".to_string()),
            Value::Leaf("val".to_string()),
            Value::Leaf("val".to_string()),
        ]),
    );
}

#[test]
fn sep_by1_error() {
    let string = |p:&str| Parser::regex(p, 0);
    let parser_val = string("val");
    let parser = parser_val.clone().and(Parser::skip(",").and(parser_val.clone()).repeat()).flat();

    let result = parser.parse("").unwrap();
    assert_eq!(result.is_ok(), false);
    assert_eq!(result.err_position(), 0);

    let result = parser.parse("val,").unwrap();
    assert_eq!(result.is_ok(), false);
    assert_eq!(result.err_position(), 3);
}

#[test]
fn sep_by_ok() {
    let string = |p:&str| Parser::regex(p, 0);
    let parser_val = string("val");
    let parser = parser_val.clone().and(Parser::skip(",").and(string("val")).repeat()).flat().or(Parser::skip(""));

    let result = parser.parse("").unwrap();
    assert_eq!(result.is_ok(), true);
    assert_eq!(
        result.value(),
        Value::Empty,
    );

    let result = parser.parse("val").unwrap();
    assert_eq!(result.is_ok(), true);
    assert_eq!(
        result.value(),
        Value::List(vec![
            Value::Leaf("val".to_string()),
        ]),
    );

    let result = parser.parse("val,val,val").unwrap();
    assert_eq!(result.is_ok(), true);
    assert_eq!(
        result.value(),
        Value::List(vec![
            Value::Leaf("val".to_string()),
            Value::Leaf("val".to_string()),
            Value::Leaf("val".to_string()),
        ]),
    );
}

#[test]
fn sep_by_error() {
    let string = |p:&str| Parser::regex(p, 0);
    let parser_val = string("val");
    let parser = parser_val.clone().and(Parser::skip(",").and(string("val")).repeat()).flat().or(Parser::skip(""));
    let result = parser.parse("val,").unwrap();
    assert_eq!(result.is_ok(), false);
    assert_eq!(result.err_position(), 3);
}

#[test]
fn skip_ok() {
    let parser = Parser::regex("x", 0).and(Parser::skip("y"));
    let result = parser.parse("xy").unwrap();
    assert_eq!(result.is_ok(), true);
    assert_eq!(result.value(), Value::Leaf("x".to_string()));
}

#[test]
fn skip_error() {
    let parser = Parser::regex("xxx", 0).and(Parser::skip("yyy"));
    let result = parser.parse("xxxxyy").unwrap();
    assert_eq!(result.is_ok(), false);
    assert_eq!(result.err_position(), 3);
}

#[test]
fn string_ok() {
    let string = |p:&str| Parser::regex(p, 0);
    let parser = string("source");
    let result = parser.parse("source").unwrap();
    assert_eq!(result.is_ok(), true);
    assert_eq!(result.value(), Value::Leaf("source".to_string()));
}

#[test]
fn string_error() {
    let string = |p:&str| Parser::regex(p, 0);
    let parser = string("source");
    let result = parser.parse("other").unwrap();
    assert_eq!(result.is_ok(), false);
    assert_eq!(result.err_position(), 0);
}

#[test]
fn then_ok() {
    let parser = Parser::skip("x").and(Parser::regex("y", 0));
    let result = parser.parse("xy").unwrap();
    assert_eq!(result.is_ok(), true);
    assert_eq!(result.value(), Value::Leaf("y".to_string()));
}

#[test]
fn then_error() {
    let parser = Parser::skip("xxx").and(Parser::regex("yyy", 0));
    let result = parser.parse("xxxxyy").unwrap();
    assert_eq!(result.is_ok(), false);
    assert_eq!(result.err_position(), 3);
}

#[test]
fn json_ok() {
    let json_boolean = Parser::regex("true", 0).or(Parser::regex("false", 0));
    let json_quot = Parser::skip("\"");
    let json_string = json_quot.clone().and(Parser::regex("([^\\\\\"]*(\\\\.)?)+", 0)).and(json_quot.clone());
    let json_number = Parser::regex("-?(0|[1-9][0-9]*)", 0);
    let json_item = json_boolean.clone().or(json_string.clone()).or(json_number.clone());

    let json_array = Parser::new(Box::new(move |root:&Parser|
            Parser::skip("\\[")
            .and(root.clone().and(Parser::skip(",")).repeat().and(root.clone().or(Parser::skip(""))).flat())
            .and(Parser::skip("]"))
        ));

    let json_string_for_object = json_string.clone();
    let json_object = Parser::new(Box::new(move |root:&Parser|{
        let json_pair = json_string_for_object.clone().and(Parser::skip(":")).and(root.clone());
        let json_comma = Parser::skip(",");
        Parser::skip("\\{")
        .and(
            json_pair.clone().list()
            .and(json_comma.clone().and(json_pair.clone()).repeat()).flat()
            .and(json_comma.clone().or(Parser::skip(""))))
        .and(Parser::skip("}"))
        }));

    let json_elements = json_item.clone()
                    .or(json_array.clone())
                    .or(json_object.clone());

    let result = json_boolean.parse("true").unwrap();
    assert_eq!(result.is_ok(), true);
    assert_eq!(result.value(), Value::Leaf("true".to_string()));

    let result = json_boolean.parse("false").unwrap();
    assert_eq!(result.is_ok(), true);
    assert_eq!(result.value(), Value::Leaf("false".to_string()));

    let result = json_number.parse("-123").unwrap();
    assert_eq!(result.is_ok(), true);
    assert_eq!(result.value(), Value::Leaf("-123".to_string()));

    let result = json_number.parse("1230").unwrap();
    assert_eq!(result.is_ok(), true);
    assert_eq!(result.value(), Value::Leaf("1230".to_string()));

    let result = json_string.parse("\"foobar\"").unwrap();
    assert_eq!(result.is_ok(), true);
    assert_eq!(result.value(), Value::Leaf("foobar".to_string()));

    let result = json_string.parse("\"\"").unwrap();
    assert_eq!(result.is_ok(), true);
    assert_eq!(result.value(), Value::Leaf("".to_string()));

    let result = json_elements.parse("[\"foo\",\"bar\"]").unwrap();
    assert_eq!(result.is_ok(), true);
    assert_eq!(
        result.value(),
        Value::List(vec![
            Value::Leaf("foo".to_string()),
            Value::Leaf("bar".to_string()),
        ]),
    );

    let result = json_elements.parse("[]").unwrap();
    assert_eq!(result.is_ok(), true);
    assert_eq!(
        result.value(),
        Value::Empty,
    );

    let result = json_elements.parse("[,]").unwrap();
    assert_eq!(result.is_ok(), false);
    assert_eq!(result.err_position(), 1);

    let result = json_elements.parse("[123,456,]").unwrap();
    assert_eq!(result.is_ok(), true);
    assert_eq!(
        result.value(),
        Value::List(vec![
            Value::Leaf("123".to_string()),
            Value::Leaf("456".to_string()),
        ]),
    );

    let result = json_elements.parse("[123,456,789]").unwrap();
    assert_eq!(result.is_ok(), true);
    assert_eq!(
        result.value(),
        Value::List(vec![
            Value::Leaf("123".to_string()),
            Value::Leaf("456".to_string()),
            Value::Leaf("789".to_string()),
        ]),
    );

    let result = json_elements.parse("[123\"456\"]").unwrap();
    assert_eq!(result.is_ok(), false);
    assert_eq!(result.err_position(),4);

    let result = json_elements.parse("{\"key1\":\"value\",\"key2\":123,}").unwrap();
    assert_eq!(result.is_ok(), true);
    assert_eq!(
        result.value(),
        Value::List(vec![
            Value::List(vec![
                Value::Leaf("key1".to_string()),
                Value::Leaf("value".to_string()),
            ]),
            Value::List(vec![
                Value::Leaf("key2".to_string()),
                Value::Leaf("123".to_string()),
            ]),
        ]),
    );

    let result = json_elements.parse("{\"key1\":\"value\",\"key2\":123,\"key3\":true,}").unwrap();
    assert_eq!(result.is_ok(), true);
    assert_eq!(
        result.value(),
        Value::List(vec![
            Value::List(vec![
                Value::Leaf("key1".to_string()),
                Value::Leaf("value".to_string()),
            ]),
            Value::List(vec![
                Value::Leaf("key2".to_string()),
                Value::Leaf("123".to_string()),
            ]),
            Value::List(vec![
                Value::Leaf("key3".to_string()),
                Value::Leaf("true".to_string()),
            ]),
        ]),
    );

    let result = json_elements.parse("{}").unwrap();
    assert_eq!(result.is_ok(), false);
    assert_eq!(result.err_position(), 1);

    let result = json_elements.parse("{,}").unwrap();
    assert_eq!(result.is_ok(), false);
    assert_eq!(result.err_position(), 1);

    let result = json_elements.parse("{\"arr\":[123,\"4\\\"56\",789],\"obj\":{\"key\":\"value\",\"key\":123},}").unwrap();
    assert_eq!(result.is_ok(), true);
    assert_eq!(
        result.value(),
        Value::List(vec![
            Value::List(vec![
                Value::Leaf("arr".to_string()),
                Value::List(vec![
                    Value::Leaf("123".to_string()),
                    Value::Leaf("4\\\"56".to_string()),
                    Value::Leaf("789".to_string()),
                ]),
            ]),
            Value::List(vec![
                Value::Leaf("obj".to_string()),
                Value::List(vec![
                    Value::List(vec![
                        Value::Leaf("key".to_string()),
                        Value::Leaf("value".to_string()),
                    ]),
                    Value::List(vec![
                        Value::Leaf("key".to_string()),
                        Value::Leaf("123".to_string()),
                    ]),
                ]),
            ]),
        ]),
    );
}
