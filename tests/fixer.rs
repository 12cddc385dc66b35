use json_fixer::{AdvanceResult, JsonFixer};
use std::io::Cursor;

fn run(input: &[u8]) -> Vec<u8> {
    let mut fixer = JsonFixer::new(Cursor::new(input));
    let mut out = Vec::new();
    loop {
        match fixer.advance().unwrap() {
            AdvanceResult::Empty => return out,
            AdvanceResult::Nothing => {}
            AdvanceResult::Byte(b) => out.push(b),
        }
    }
}

fn run_str(input: &str) -> String {
    String::from_utf8(run(input.as_bytes())).unwrap()
}

/// Drops JSON whitespace outside strings, so that two texts of one value compare equal.
fn squeeze(text: &str) -> String {
    let mut out = String::new();
    let mut in_string = false;
    let mut escaped = false;
    for c in text.chars() {
        if in_string {
            out.push(c);
            if escaped {
                escaped = false;
            } else if c == '\\' {
                escaped = true;
            } else if c == '"' {
                in_string = false;
            }
        } else if c == '"' {
            in_string = true;
            out.push(c);
        } else if !matches!(c, ' ' | '\t' | '\n' | '\r') {
            out.push(c);
        }
    }
    out
}

/// A source that hands out at most `chunk` bytes per read.
struct Trickle<'a> {
    data: &'a [u8],
    chunk: usize,
}

impl<'a> std::io::Read for Trickle<'a> {
    fn read(&mut self, buf: &mut [u8]) -> std::io::Result<usize> {
        let n = self.chunk.min(buf.len()).min(self.data.len());
        buf[..n].copy_from_slice(&self.data[..n]);
        self.data = &self.data[n..];
        Ok(n)
    }
}

/// A source that fails on every read.
struct Broken;

impl std::io::Read for Broken {
    fn read(&mut self, _buf: &mut [u8]) -> std::io::Result<usize> {
        Err(std::io::Error::new(std::io::ErrorKind::Other, "broken"))
    }
}

#[test]
fn remove_line_comment() {
    let input = r#"
    {
        // the first name of the person
        "name": "Joe",
        // the last name of the person
        "surname": "Smith",
        // the address of the person
        "address": {
            "number": "123",
            // address street name
            "street": "Mulberry Ln"
        }
    }
    "#;
    let output = r#"{
        "name": "Joe",
        "surname": "Smith",
        "address": {
            "number": "123",
            "street": "Mulberry Ln"
        }
    }"#;
    assert_eq!(squeeze(&run_str(input)), squeeze(output));
}

#[test]
fn remove_multi_comment() {
    let input = r#"
    {
        /*
         * Customer list
         */
        "customers": [
            {
                "name": "Joe Smith",
                "id": "001",
                "debt": "1000"
            },
            {
                "name": "Jane Smith",
                "id": "002",
                "debt": "7500"
            },
            /* Alice is no longer a customer
            {
                "name": "Alice A",
                "id": "003",
                "debt": "200"
            },
            */
            {
                "name": "Bob B",
                "id": "004",
                "debt": "3600"
            }
            /* Eve was removed
            {
                "name": "Eve E",
                "id": "005",
                "debt": "2400"
            }
            */
        ]
    }
    "#;
    let output = r#"{
        "customers": [
            {
                "name": "Joe Smith",
                "id": "001",
                "debt": "1000"
            },
            {
                "name": "Jane Smith",
                "id": "002",
                "debt": "7500"
            },
            {
                "name": "Bob B",
                "id": "004",
                "debt": "3600"
            }
        ]
    }"#;
    assert_eq!(squeeze(&run_str(input)), squeeze(output));
}

#[test]
fn remove_trailing_commas() {
    let input = r#"
    {
        "numbers": [
            1,
            2,
            3,
        ],
        "letters": [
            "a",
            "b",
            "c",
        ],
        "objects": [
            {
                "number": 1,
                "letter": "a",
            },
            {
                "number": 2,
                "letter": "b",
            },
            {
                "number": 3,
                "letter": "c",
            },
        ],
    }
    "#;
    let output = r#"{
        "numbers": [
            1,
            2,
            3
        ],
        "letters": [
            "a",
            "b",
            "c"
        ],
        "objects": [
            {
                "number": 1,
                "letter": "a"
            },
            {
                "number": 2,
                "letter": "b"
            },
            {
                "number": 3,
                "letter": "c"
            }
        ]
    }"#;
    assert_eq!(squeeze(&run_str(input)), squeeze(output));
}

#[test]
fn whole_json() {
    let input = r#"
    {
        /*
         * Sample JSON file from the JSON website
         * with added comments and trailing commas
         */
        "glossary": {
            // line comment
            "title": "example glossary",
            "GlossDiv": {
                /* removed element with multiline comment
                "title": "S",
                */
                "GlossList": {
                    "GlossEntry": {
                        "ID": "SGML",
                        "SortAs": "SGML",
                        // another line comment
                        "GlossTerm": "Standard Generalized Markup Language",
                        "Acronym": "SGML",
                        "Abbrev": "ISO 8879:1986",
                        "GlossDef": {
                            /* this line removed because it's too long! 
                            "para": "A meta-markup language, used to create
                                     markup languages such as DocBook.",
                            */
                            "GlossSeeAlso": ["GML", "XML",],
                        },
                        "GlossSee": "markup",
                    },
                },
            },
        },
    }
    "#;
    let output = r#"{
        "glossary": {
            "title": "example glossary",
            "GlossDiv": {
                "GlossList": {
                    "GlossEntry": {
                        "ID": "SGML",
                        "SortAs": "SGML",
                        "GlossTerm": "Standard Generalized Markup Language",
                        "Acronym": "SGML",
                        "Abbrev": "ISO 8879:1986",
                        "GlossDef": {
                            "GlossSeeAlso": ["GML", "XML"]
                        },
                        "GlossSee": "markup"
                    }
                }
            }
        }
    }"#;
    assert_eq!(squeeze(&run_str(input)), squeeze(output));
}

#[test]
fn fixer_size() {
    let size = std::mem::size_of::<JsonFixer<()>>();
    assert_eq!(size, 2);
}

#[test]
fn scenario_line_comment_in_object() {
    // The whitespace after a comma is written at once; the comma follows it.
    assert_eq!(run_str("{\"a\": 1, // note\n \"b\": 2}"), "{\"a\": 1  ,\"b\": 2}");
}

#[test]
fn scenario_trailing_comma_in_array() {
    assert_eq!(run_str("[1, 2, 3,]"), "[1 ,2 ,3]");
    assert_eq!(run_str("[1,2,3,]"), "[1,2,3]");
}

#[test]
fn scenario_string_with_comment_text() {
    assert_eq!(
        run_str("{\"x\": \"a, b/*not a comment*/\",}"),
        "{\"x\": \"a, b/*not a comment*/\"}"
    );
}

#[test]
fn scenario_leading_block_comment() {
    assert_eq!(run_str("/* header */ {\"k\": 1}"), " {\"k\": 1}");
}

#[test]
fn scenario_double_comma() {
    assert_eq!(run_str("[1,,2]"), "[1,,2]");
}

#[test]
fn clean_input_unchanged() {
    let input = "{\"a\":[1,2,{\"b\":\"x\\\"y\"}],\"c\":null, \"d\" : true}";
    let input = input.replace(", ", ",");
    assert_eq!(run_str(&input), input);
    assert_eq!(run_str(""), "");
}

#[test]
fn comments_elided() {
    assert_eq!(run_str("[1// one\n]"), "[1]");
    assert_eq!(run_str("[1/* a * b / c */]"), "[1]");
    assert_eq!(run_str("[1/* ends with stars **/]"), "[1]");
    assert_eq!(run_str("[1,/* c */ // d\n 2]"), "[1  ,2]");
}

#[test]
fn strings_untouched() {
    let input = "[\"// not, a comment ]\", \"/* , } */\", \"\\\\\", \"\\\",]\"]";
    let expected = "[\"// not, a comment ]\" ,\"/* , } */\" ,\"\\\\\" ,\"\\\",]\"]";
    assert_eq!(run_str(input), expected);
}

#[test]
fn trailing_commas_dropped_and_kept() {
    assert_eq!(run_str("{\"a\":1,\n/* x */ // y\n}"), "{\"a\":1\n }");
    assert_eq!(run_str("[1,\t]"), "[1\t]");
    assert_eq!(run_str("[1,2]"), "[1,2]");
    assert_eq!(run_str("[\"a\",\"b\"]"), "[\"a\",\"b\"]");
}

#[test]
fn streaming_same_output() {
    let input = b"{\"a\": [1, 2,], // c\n \"b\": \"/*\\\"*/\", /* d */}";
    let whole = run(input);
    for chunk in 1..8 {
        let mut fixer = JsonFixer::new(Trickle { data: input, chunk });
        let mut out = Vec::new();
        loop {
            match fixer.advance().unwrap() {
                AdvanceResult::Empty => break,
                AdvanceResult::Nothing => {}
                AdvanceResult::Byte(b) => out.push(b),
            }
        }
        assert_eq!(out, whole);
    }
}

#[test]
fn quirks_of_slash() {
    // A slash right before a quote is dropped.
    assert_eq!(run_str("/\"a\""), "\"a\"");
    // A bare slash passes with the byte after it.
    assert_eq!(run_str("1/2"), "1/2");
    // After a comma, a bare slash does not settle the comma.
    assert_eq!(run_str("[1,/x]"), "[1/x]");
}

#[test]
fn unterminated_input() {
    assert_eq!(run_str("[1, /* open"), "[1 ");
    assert_eq!(run_str("\"abc"), "\"abc");
    assert_eq!(run_str("\"a\\"), "\"a\\");
    assert_eq!(run_str("[1,"), "[1");
}

#[test]
fn source_error_handed_on() {
    let mut fixer = JsonFixer::new(Broken);
    assert!(fixer.advance().is_err());
}
