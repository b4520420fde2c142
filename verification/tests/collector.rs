use std::collections::HashMap;

use firebase_secrets::firebase::{BuilderError, FirebaseInterfaceBuilder};
use firebase_secrets::mapping::SecretMap;
use firebase_secrets::secret::{find_comment, is_skipped_line, parse_secret};
use firebase_secrets::text::{char_is_space, contains_chars, find_char, to_chars, trim_bounds};

fn collected(builder: &FirebaseInterfaceBuilder) -> HashMap<String, String> {
    builder
        .secrets()
        .entries()
        .iter()
        .map(|entry| (entry.key.clone(), entry.value.clone()))
        .collect()
}

fn parsed(line: &str) -> Option<(String, String)> {
    parse_secret(line).map(|entry| (entry.key, entry.value))
}

fn pair(key: &str, value: &str) -> Option<(String, String)> {
    Some((key.to_owned(), value.to_owned()))
}

#[test]
fn add_valid_secret() {
    let mut builder = FirebaseInterfaceBuilder::builder();
    let secret = "KEY=VALUE".to_owned();

    assert!(builder.add_secret(secret).is_ok());

    let mut hash_map = HashMap::new();
    hash_map.insert("KEY".to_owned(), "VALUE".to_owned());

    assert_eq!(hash_map, collected(&builder))
}

#[test]
fn add_invalid_secret() {
    let mut builder = FirebaseInterfaceBuilder::builder();
    let secret = "INVALID_FORMAT".to_owned();
    let res = builder.add_secret(secret.clone());
    assert!(res.is_err());

    let error_msg = format!("secret `{secret}` is in an invalid format");
    let error = res.unwrap_err();

    assert_eq!(error.message(), error_msg);
}

#[test]
fn add_secrets_from_source() {
    let mut builder = FirebaseInterfaceBuilder::builder();
    let source = r#"KEY1=VALUE1
KEY2=VALUE2
KEY3=VALUE=3=
"#
    .as_bytes();

    assert!(builder.from_source(source).is_ok());

    let mut hash_map = HashMap::new();
    hash_map.insert("KEY1".into(), "VALUE1".into());
    hash_map.insert("KEY2".into(), "VALUE2".into());
    hash_map.insert("KEY3".into(), "VALUE=3=".into());

    assert_eq!(hash_map, collected(&builder));
}

#[test]
fn add_secrets_from_source_export_from_firebase() {
    let mut builder = FirebaseInterfaceBuilder::builder();
    let source = r#"KEY1="VALUE1"
KEY2=VALUE2
#### COMMENT
KEY3="VAL3"                 # comment
"#
    .as_bytes();

    assert!(builder.from_source(source).is_ok());

    let mut hash_map = HashMap::new();
    hash_map.insert("KEY1".into(), "VALUE1".into());
    hash_map.insert("KEY2".into(), "VALUE2".into());
    hash_map.insert("KEY3".into(), "VAL3".into());

    assert_eq!(hash_map, collected(&builder));
}

#[test]
fn plain_definition_keeps_key_and_trims_value() {
    assert_eq!(parsed("K=V"), pair("K", "V"));
    assert_eq!(parsed("K=  V \t"), pair("K", "V"));
    assert_eq!(parsed("K=a b"), pair("K", "a b"));
    assert_eq!(parsed("K="), pair("K", ""));
    assert_eq!(parsed("K=   "), pair("K", ""));
}

#[test]
fn key_is_taken_verbatim() {
    assert_eq!(parsed(" K =V"), pair(" K ", "V"));
    assert_eq!(parsed(" =V"), pair(" ", "V"));
    assert_eq!(parsed("\"K\"=V"), pair("\"K\"", "V"));
}

#[test]
fn empty_key_is_refused() {
    assert_eq!(parsed("=V"), None);
    assert_eq!(parsed("="), None);
    assert_eq!(parsed("==V"), None);
    let mut builder = FirebaseInterfaceBuilder::builder();
    match builder.add_secret("=V".to_owned()) {
        Err(BuilderError::InvalidSecretFormat(echo)) => assert_eq!(echo, "=V"),
        _ => panic!("the line was not refused as malformed"),
    }
    match builder.from_source("A=1\n=2\nB=3\n".as_bytes()) {
        Err(BuilderError::InvalidSecretFormat(echo)) => assert_eq!(echo, "=2"),
        _ => panic!("the line was not refused as malformed"),
    }
    assert_eq!(builder.secrets().len(), 1);
    assert_eq!(builder.secrets().get(""), None);
}

#[test]
fn definition_is_split_at_first_equals() {
    assert_eq!(parsed("KEY3=VALUE=3="), pair("KEY3", "VALUE=3="));
    assert_eq!(parsed("A==="), pair("A", "=="));
}

#[test]
fn quoted_value_loses_one_pair_of_quotes() {
    assert_eq!(parsed("K=\"V\""), pair("K", "V"));
    assert_eq!(parsed("K=\" V \""), pair("K", " V "));
    assert_eq!(parsed("K=  \"V\"  "), pair("K", "V"));
    assert_eq!(parsed("K=\"\""), pair("K", ""));
    assert_eq!(parsed("K=\"\"V\"\""), pair("K", "\"V\""));
    assert_eq!(parsed("K=\"a\"b\""), pair("K", "a\"b"));
}

#[test]
fn lone_or_unbalanced_quote_stays() {
    assert_eq!(parsed("K=\""), pair("K", "\""));
    assert_eq!(parsed("K=\"V"), pair("K", "\"V"));
    assert_eq!(parsed("K=V\""), pair("K", "V\""));
}

#[test]
fn comment_and_space_before_it_are_dropped() {
    assert_eq!(parsed("K=V   # note"), pair("K", "V"));
    assert_eq!(parsed("K=V#note"), pair("K", "V"));
    assert_eq!(parsed("K=V # a # b"), pair("K", "V"));
    assert_eq!(parsed("K=#"), pair("K", ""));
    assert_eq!(parsed("K=\"VAL3\"                 # comment"), pair("K", "VAL3"));
}

#[test]
fn hash_inside_quotes_begins_no_comment() {
    assert_eq!(parsed("K=\"V#1\""), pair("K", "V#1"));
    assert_eq!(parsed("K=\"a#b\" # c"), pair("K", "a#b"));
    assert_eq!(parsed("K=\"a\"#b\""), pair("K", "a"));
    assert_eq!(parsed("K=\"open # never closed"), pair("K", "\"open # never closed"));
}

#[test]
fn line_without_equals_defines_nothing() {
    assert_eq!(parsed("BROKEN"), None);
    assert_eq!(parsed(""), None);
    assert_eq!(parsed("# note"), None);
    assert_eq!(parsed("a b c"), None);
}

#[test]
fn line_without_equals_is_echoed_verbatim() {
    let mut builder = FirebaseInterfaceBuilder::builder();
    let line = "  no equals here # really ".to_owned();
    match builder.add_secret(line.clone()) {
        Err(BuilderError::InvalidSecretFormat(echo)) => assert_eq!(echo, line),
        _ => panic!("the line was not refused as malformed"),
    }
    assert!(collected(&builder).is_empty());
}

#[test]
fn add_secret_passes_over_nothing() {
    let mut builder = FirebaseInterfaceBuilder::builder();
    assert!(matches!(
        builder.add_secret("# A=1".to_owned()),
        Ok(())
    ));
    assert_eq!(builder.secrets().get("# A"), Some(&"1".to_owned()));
    assert!(matches!(
        builder.add_secret("#".to_owned()),
        Err(BuilderError::InvalidSecretFormat(_))
    ));
}

#[test]
fn blank_and_comment_lines_add_nothing() {
    let mut builder = FirebaseInterfaceBuilder::builder();
    let source = "\n# a comment\n   # indented=1\n\n#A=1\n\u{a0}\t#x\n";
    assert!(builder.from_source(source.as_bytes()).is_ok());
    assert!(collected(&builder).is_empty());
    assert_eq!(builder.secrets().len(), 0);
    assert!(builder.secrets().is_empty());
}

#[test]
fn skipped_lines_are_told_apart() {
    assert!(is_skipped_line(""));
    assert!(is_skipped_line("#"));
    assert!(is_skipped_line("# A=1"));
    assert!(is_skipped_line(" \t # A=1"));
    assert!(!is_skipped_line(" "));
    assert!(!is_skipped_line("A=1 # note"));
    assert!(!is_skipped_line("A#=1"));
}

#[test]
fn line_of_whitespace_alone_is_malformed() {
    let mut builder = FirebaseInterfaceBuilder::builder();
    match builder.from_source("A=1\n   \nB=2\n".as_bytes()) {
        Err(BuilderError::InvalidSecretFormat(echo)) => assert_eq!(echo, "   "),
        _ => panic!("the line was not refused as malformed"),
    }
}

#[test]
fn last_write_wins() {
    let mut builder = FirebaseInterfaceBuilder::builder();
    assert!(builder.from_source("A=1\nA=2\n".as_bytes()).is_ok());
    let mut expected = HashMap::new();
    expected.insert("A".to_owned(), "2".to_owned());
    assert_eq!(collected(&builder), expected);
    assert_eq!(builder.secrets().len(), 1);

    assert!(builder.add_secret("A=3".to_owned()).is_ok());
    assert_eq!(builder.secrets().get("A"), Some(&"3".to_owned()));
    assert_eq!(builder.secrets().len(), 1);
}

#[test]
fn sources_add_up() {
    let mut builder = FirebaseInterfaceBuilder::builder();
    assert!(builder.add_secret("A=1".to_owned()).is_ok());
    assert!(builder.from_source("B=2\nA=9\n".as_bytes()).is_ok());
    assert!(builder.from_source("C=3".as_bytes()).is_ok());
    let mut expected = HashMap::new();
    expected.insert("A".to_owned(), "9".to_owned());
    expected.insert("B".to_owned(), "2".to_owned());
    expected.insert("C".to_owned(), "3".to_owned());
    assert_eq!(collected(&builder), expected);
}

#[test]
fn malformed_line_aborts_source_and_keeps_earlier_lines() {
    let mut builder = FirebaseInterfaceBuilder::builder();
    match builder.from_source("A=1\nBROKEN\nB=2\n".as_bytes()) {
        Err(BuilderError::InvalidSecretFormat(echo)) => assert_eq!(echo, "BROKEN"),
        _ => panic!("the source was not refused"),
    }
    let mut expected = HashMap::new();
    expected.insert("A".to_owned(), "1".to_owned());
    assert_eq!(collected(&builder), expected);
    assert_eq!(builder.secrets().get("B"), None);
}

#[test]
fn source_lines_end_at_line_feed_or_at_the_end() {
    let mut builder = FirebaseInterfaceBuilder::builder();
    assert!(builder.from_source("A=1\r\nB=\"x\"\r\nC=3".as_bytes()).is_ok());
    let mut expected = HashMap::new();
    expected.insert("A".to_owned(), "1".to_owned());
    expected.insert("B".to_owned(), "x".to_owned());
    expected.insert("C".to_owned(), "3".to_owned());
    assert_eq!(collected(&builder), expected);
}

#[test]
fn carriage_return_line_is_not_empty() {
    let mut builder = FirebaseInterfaceBuilder::builder();
    assert!(builder.from_source("\r\nA=1\n".as_bytes()).is_ok());
    match builder.from_source("\r\r\nA=1\n".as_bytes()) {
        Err(BuilderError::InvalidSecretFormat(echo)) => assert_eq!(echo, "\r"),
        _ => panic!("the line was not refused as malformed"),
    }
}

#[test]
fn empty_source_adds_nothing() {
    let mut builder = FirebaseInterfaceBuilder::builder();
    assert!(builder.from_source(&[]).is_ok());
    assert!(collected(&builder).is_empty());
}

#[test]
fn source_that_is_not_text_is_an_io_error() {
    let mut builder = FirebaseInterfaceBuilder::builder();
    let source: &[u8] = &[b'A', b'=', b'1', b'\n', b'B', b'=', 0xff, 0xfe, b'\n', b'C', b'=', b'3'];
    let error = match builder.from_source(source) {
        Err(error) => error,
        Ok(()) => panic!("the source was not refused"),
    };
    assert!(matches!(error, BuilderError::Io(_)));
    assert_eq!(error.message(), "error reading from source file");
    let mut expected = HashMap::new();
    expected.insert("A".to_owned(), "1".to_owned());
    assert_eq!(collected(&builder), expected);
}

#[test]
fn source_text_beyond_ascii_is_decoded() {
    let mut builder = FirebaseInterfaceBuilder::builder();
    assert!(builder
        .from_source("CLÉ=\"valeur # éàü\" # note\nключ=\u{2003}значение\u{3000}\n".as_bytes())
        .is_ok());
    assert_eq!(builder.secrets().get("CLÉ"), Some(&"valeur # éàü".to_owned()));
    assert_eq!(builder.secrets().get("ключ"), Some(&"значение".to_owned()));
}

#[test]
fn build_without_alias_fails() {
    let mut builder = FirebaseInterfaceBuilder::builder();
    assert!(builder.add_secret("A=1".to_owned()).is_ok());
    assert_eq!(builder.alias(), None);
    let error = match builder.build() {
        Err(error) => error,
        Ok(_) => panic!("a collection without alias was finished"),
    };
    assert!(matches!(error, BuilderError::ProjectAliasNotSetError));
    assert_eq!(error.message(), "error project alias not set");
}

#[test]
fn build_hands_over_secrets_and_alias() {
    let mut builder = FirebaseInterfaceBuilder::builder();
    builder.set_alias("staging".to_owned());
    builder.set_alias("default".to_owned());
    assert_eq!(builder.alias(), Some(&"default".to_owned()));
    assert!(builder.add_secret("A=1".to_owned()).is_ok());
    let interface = match builder.build() {
        Ok(interface) => interface,
        Err(_) => panic!("the collection was not finished"),
    };
    assert_eq!(interface.alias(), "default");
    assert_eq!(interface.secrets().len(), 1);
    assert_eq!(interface.secrets().get("A"), Some(&"1".to_owned()));
}

#[test]
fn build_with_empty_alias_fails() {
    let mut builder = FirebaseInterfaceBuilder::builder();
    builder.set_alias(String::new());
    assert!(matches!(
        builder.build(),
        Err(BuilderError::ProjectAliasNotSetError)
    ));
}

#[test]
fn build_accepts_empty_collection() {
    let mut builder = FirebaseInterfaceBuilder::builder();
    builder.set_alias("d".to_owned());
    let interface = match builder.build() {
        Ok(interface) => interface,
        Err(_) => panic!("the collection was not finished"),
    };
    assert_eq!(interface.alias(), "d");
    assert!(interface.secrets().is_empty());
}

#[test]
fn mapping_holds_each_key_once() {
    let mut map = SecretMap::new();
    assert!(map.is_empty());
    map.insert("A".to_owned(), "1".to_owned());
    map.insert("B".to_owned(), "2".to_owned());
    map.insert("A".to_owned(), "3".to_owned());
    assert_eq!(map.len(), 2);
    assert!(!map.is_empty());
    assert_eq!(map.get("A"), Some(&"3".to_owned()));
    assert_eq!(map.get("B"), Some(&"2".to_owned()));
    assert_eq!(map.get("C"), None);
    let mut entries: Vec<(String, String)> =
        map.into_entries().into_iter().map(|e| (e.key, e.value)).collect();
    entries.sort();
    assert_eq!(
        entries,
        vec![("A".to_owned(), "3".to_owned()), ("B".to_owned(), "2".to_owned())]
    );
}

#[test]
fn whitespace_is_the_unicode_set() {
    let spaces = [
        '\t', '\n', '\u{b}', '\u{c}', '\r', ' ', '\u{85}', '\u{a0}', '\u{1680}', '\u{2000}',
        '\u{2001}', '\u{2002}', '\u{2003}', '\u{2004}', '\u{2005}', '\u{2006}', '\u{2007}',
        '\u{2008}', '\u{2009}', '\u{200a}', '\u{2028}', '\u{2029}', '\u{202f}', '\u{205f}',
        '\u{3000}',
    ];
    for c in spaces {
        assert!(char_is_space(c));
    }
    for c in ['a', '#', '"', '=', '\u{8}', '\u{e}', '\u{1f}', '\u{200b}', '\u{feff}', '\u{180e}'] {
        assert!(!char_is_space(c));
    }
    let mut n: u32 = 0;
    while n <= 0x3100 {
        if let Some(c) = char::from_u32(n) {
            assert_eq!(char_is_space(c), c.is_whitespace());
        }
        n += 1;
    }
}

#[test]
fn trim_bounds_cut_whitespace_at_both_ends() {
    assert_eq!(trim_bounds(&to_chars("  a b \t")), (2, 5));
    assert_eq!(trim_bounds(&to_chars("ab")), (0, 2));
    assert_eq!(trim_bounds(&to_chars("   ")), (3, 3));
    assert_eq!(trim_bounds(&to_chars("")), (0, 0));
}

#[test]
fn find_char_gives_first_position() {
    assert_eq!(find_char(&to_chars("a=b=c"), '='), Some(1));
    assert_eq!(find_char(&to_chars("=="), '='), Some(0));
    assert_eq!(find_char(&to_chars("abc"), '='), None);
    assert_eq!(find_char(&to_chars("é=1"), '='), Some(1));
}

#[test]
fn find_comment_skips_quoted_hashes() {
    assert_eq!(find_comment(&to_chars("ab # c")), 3);
    assert_eq!(find_comment(&to_chars("\"a#b\" # c")), 6);
    assert_eq!(find_comment(&to_chars("\"a#b")), 4);
    assert_eq!(find_comment(&to_chars("no comment")), 10);
    assert_eq!(find_comment(&to_chars("#")), 0);
}

#[test]
fn contains_chars_finds_contiguous_runs() {
    assert!(contains_chars(&to_chars("an Error occurred"), &to_chars("Error")));
    assert!(contains_chars(&to_chars("Error"), &to_chars("Error")));
    assert!(contains_chars(&to_chars("xxErrorError"), &to_chars("Error")));
    assert!(contains_chars(&to_chars("abc"), &to_chars("")));
    assert!(!contains_chars(&to_chars("Erro"), &to_chars("Error")));
    assert!(!contains_chars(&to_chars("error"), &to_chars("Error")));
    assert!(!contains_chars(&to_chars("E r r o r"), &to_chars("Error")));
    assert!(!contains_chars(&to_chars("ErrorX"), &to_chars("ErrorXY")));
}
