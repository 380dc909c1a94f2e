use alzed::codec::to_text;
use alzed::jsonc::{parse_jsonc, to_plain_json};

fn parsed(text: &str) -> String {
    to_text(parse_jsonc(text).unwrap())
}

#[test]
fn launch_files_are_read() {
    let text = "// launch\n{\n  /* all of\n     them */\n  \"configurations\": [\n    { \"name\": \"a\", }, // first\n  ],\n}\n";
    assert_eq!(parsed(text), r#"{"configurations":[{"name":"a"}]}"#);
}

#[test]
fn plain_json_stays_as_it_is() {
    let text = "{\"a\": [1, 2, {\"b\": \"c\"}], \"d\": \"e/f\"}";
    assert_eq!(to_plain_json(text), text);
    assert_eq!(to_plain_json(""), "");
}

#[test]
fn comments_in_literals_are_kept() {
    let text = r#"{"url": "http://x", "block": "/* no */", "quote": "\"// still in\\"}"#;
    assert_eq!(to_plain_json(text), text);
}

#[test]
fn line_comments_keep_the_line_break() {
    assert_eq!(to_plain_json("1 // one\n2"), "1 \n2");
    assert_eq!(to_plain_json("1 // to the end"), "1 ");
    assert_eq!(to_plain_json("1 //\r\n2"), "1 \n2");
}

#[test]
fn block_comments_leave_nothing() {
    assert_eq!(to_plain_json("1/* a \n * b **/2"), "12");
    assert_eq!(to_plain_json("1/**/2"), "12");
    assert_eq!(to_plain_json("1/*/2*/3"), "13");
    assert_eq!(to_plain_json("1/* open"), "1");
}

#[test]
fn a_lone_slash_is_kept() {
    assert_eq!(to_plain_json("a / b /"), "a / b /");
}

#[test]
fn trailing_commas_go() {
    assert_eq!(parsed("[1, 2, ]"), "[1,2]");
    assert_eq!(parsed("{\"a\": 1,\t\n}"), r#"{"a":1}"#);
    assert_eq!(to_plain_json("{\"a\": 1,\u{a0}}"), "{\"a\": 1\u{a0}}");
    assert_eq!(parsed("[1, // one\n]"), "[1]");
    assert_eq!(to_plain_json("[1,,]"), "[1,]");
    assert_eq!(to_plain_json("1,"), "1,");
}

#[test]
fn a_comma_before_a_bracket_stays_in_a_literal() {
    assert_eq!(parsed(r#"{"a": "x, }"}"#), r#"{"a":"x, }"}"#);
    assert_eq!(parsed(r#"{"a":"x,]"}"#), r#"{"a":"x,]"}"#);
    assert_eq!(to_plain_json(r#"["a,]", "\",}", ]"#), r#"["a,]", "\",}" ]"#);
    assert_eq!(to_plain_json(r#""open, ]"#), r#""open, ]"#);
}

#[test]
fn json_means_itself() {
    for text in [
        r#"{"url":"http://x/*y*/","list":[",]",",}"],"n":[1,-2,0.5],"e":{}}"#,
        r#"["\\", "\"//", null]"#,
        "\"/*\"",
        " 17 ",
    ] {
        assert_eq!(to_plain_json(text), text);
        let value: serde_json::Value = serde_json::from_str(text).unwrap();
        assert_eq!(parsed(text), value.to_string());
    }
}

#[test]
fn comments_between_any_two_tokens_mean_nothing() {
    let tokens = ["{", "\"a//\"", ":", "[", "1.5e3", ",", "true", ",", "\",]\"", "]", "}"];
    let plain = tokens.concat();
    let mut at = 0;
    for cut in 0..tokens.len() + 1 {
        let (a, b) = plain.split_at(at);
        assert_eq!(parsed(&format!("{}/* x, ] */{}", a, b)), parsed(&plain));
        assert_eq!(parsed(&format!("{}/***/{}", a, b)), parsed(&plain));
        assert_eq!(parsed(&format!("{}// \"x\n{}", a, b)), parsed(&plain));
        if cut < tokens.len() {
            at += tokens[cut].len();
        }
    }
    assert_eq!(parsed(&format!("{}// end", plain)), parsed(&plain));
}

#[test]
fn a_comment_may_stand_before_a_trailing_comma_and_behind_it() {
    assert_eq!(parsed("[1 /* a */ , /* b */ ]"), "[1]");
    assert_eq!(parsed("{\"a\": [1, // one\n 2, // two\n ], }"), r#"{"a":[1,2]}"#);
}

#[test]
fn what_is_left_must_be_json() {
    assert!(parse_jsonc("").is_err());
    assert!(parse_jsonc("// only a comment").is_err());
    assert!(parse_jsonc("{\"a\": }").is_err());
    assert!(parse_jsonc("\"open").is_err());
}
