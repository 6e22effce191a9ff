use env2bws::text::{chars_of, find_char, is_whitespace, string_of, trim_bounds};
use env2bws::EnvVar;
use uuid::Uuid;

fn fields(line: &str, parse_comments: bool) -> Option<(String, String, Option<String>)> {
    EnvVar::parse_from_str(line, parse_comments).map(|v| (v.key, v.value, v.comment))
}

fn record(key: &str, value: &str, comment: Option<&str>) -> Option<(String, String, Option<String>)> {
    Some((key.to_owned(), value.to_owned(), comment.map(|c| c.to_owned())))
}

#[test]
fn ignores_lines_that_look_like_a_comment_when_comment_parsing_is_disabled() {
    assert_eq!(EnvVar::parse_from_str("# comment", false), None);
}

#[test]
fn ignores_lines_that_look_like_a_comment_when_comment_parsing_is_enabled() {
    assert_eq!(EnvVar::parse_from_str("# comment", true), None);
}

#[test]
fn ignores_lines_with_no_equals_sign_when_comment_parsing_is_disabled() {
    assert_eq!(EnvVar::parse_from_str("invalid string", false), None);
}

#[test]
fn ignores_lines_with_no_equals_sign_when_comment_parsing_is_enabled() {
    assert_eq!(EnvVar::parse_from_str("invalid string", true), None);
}

#[test]
fn parses_key_value_pairs_with_no_comments() {
    let parsed = EnvVar::parse_from_str("KEY=VALUE", false);
    assert!(matches!(
        parsed,
        Some(EnvVar { key, value, comment, .. })
            if key == "KEY".to_owned() && value == "VALUE".to_owned() && comment == None
    ));
}

#[test]
fn parses_key_value_pairs_with_no_comments_when_comment_parsing_enabled() {
    let parsed = EnvVar::parse_from_str("KEY=VALUE", true);
    assert!(matches!(
        parsed,
        Some(EnvVar { key, value, comment, .. })
            if key == "KEY".to_owned() && value == "VALUE".to_owned() && comment == None
    ));
}

#[test]
fn ignores_comments_when_disabled() {
    let parsed = EnvVar::parse_from_str("KEY=VALUE # Comment", false);
    assert!(matches!(
        parsed,
        Some(EnvVar { key, value, comment, .. })
            if key == "KEY".to_owned() && value == "VALUE".to_owned() && comment == None
    ));
}

#[test]
fn parses_comments_when_enabled() {
    let parsed = EnvVar::parse_from_str("KEY=VALUE # Comment", true);
    assert!(matches!(
        parsed,
        Some(EnvVar { key, value, comment, .. })
            if key == "KEY".to_owned()
                && value == "VALUE".to_owned()
                && comment == Some("Comment".to_owned())
    ));
}

#[test]
fn trims_whitespace_in_all_segments() {
    let parsed = EnvVar::parse_from_str(
        "    KEY            =   VALUE  #              New Comment     ",
        true,
    );
    assert!(matches!(
        parsed,
        Some(EnvVar { key, value, comment, .. })
            if key == "KEY".to_owned()
                && value == "VALUE".to_owned()
                && comment == Some("New Comment".to_owned())
    ));
}

#[test]
fn whole_line_comment_gives_nothing_whatever_the_flag() {
    assert_eq!(fields("# just a comment", true), None);
    assert_eq!(fields("# just a comment", false), None);
    assert_eq!(fields("   \t# KEY=VALUE", true), None);
    assert_eq!(fields("#", true), None);
    assert_eq!(fields("#KEY=VALUE", false), None);
}

#[test]
fn blank_line_gives_nothing() {
    assert_eq!(fields("", true), None);
    assert_eq!(fields("", false), None);
    assert_eq!(fields("   ", true), None);
    assert_eq!(fields(" \t \r", false), None);
    assert_eq!(fields("\n", true), None);
}

#[test]
fn line_without_hash_has_no_comment_whatever_the_flag() {
    assert_eq!(fields("KEY=VALUE", true), record("KEY", "VALUE", None));
    assert_eq!(fields("KEY=VALUE", false), record("KEY", "VALUE", None));
}

#[test]
fn hash_inside_a_value_starts_the_comment() {
    assert_eq!(
        fields("URL=\"http://host/#anchor\"", true),
        record("URL", "\"http://host/", Some("anchor\""))
    );
    assert_eq!(
        fields("URL=\"http://host/#anchor\"", false),
        record("URL", "\"http://host/", None)
    );
    assert_eq!(fields("K=V#c", true), record("K", "V", Some("c")));
    assert_eq!(fields("K=a # b # c", true), record("K", "a", Some("b # c")));
}

#[test]
fn quotes_and_inner_whitespace_are_kept() {
    assert_eq!(fields("ENV_1=\"env 1\"", true), record("ENV_1", "\"env 1\"", None));
    assert_eq!(fields("K =  a   b  ", false), record("K", "a   b", None));
    assert_eq!(fields("K='  x  '", false), record("K", "'  x  '", None));
    assert_eq!(fields(" MY KEY = v", false), record("MY KEY", "v", None));
}

#[test]
fn splits_at_the_first_equals_sign() {
    assert_eq!(fields("K=a=b", false), record("K", "a=b", None));
    assert_eq!(fields("K==", false), record("K", "=", None));
    assert_eq!(fields("K = a = b # c=d", true), record("K", "a = b", Some("c=d")));
}

#[test]
fn empty_key_value_and_comment_are_kept_empty() {
    assert_eq!(fields("KEY=", true), record("KEY", "", None));
    assert_eq!(fields("=VALUE", true), record("", "VALUE", None));
    assert_eq!(fields("=", false), record("", "", None));
    assert_eq!(fields("K=V #", true), record("K", "V", Some("")));
    assert_eq!(fields("K=V #   ", true), record("K", "V", Some("")));
    assert_eq!(fields("K= # note", true), record("K", "", Some("note")));
}

#[test]
fn equals_sign_behind_the_hash_does_not_count() {
    assert_eq!(fields("KEY # A=B", true), None);
    assert_eq!(fields("KEY # A=B", false), None);
    assert_eq!(fields("KEY#=", true), None);
}

#[test]
fn trims_unicode_whitespace() {
    assert_eq!(
        fields("\u{a0}KEY\u{2003}=\u{3000}VALUE\u{85}#\u{1680}note\u{2028}", true),
        record("KEY", "VALUE", Some("note"))
    );
    assert_eq!(fields("\u{b}\u{c}K=V\u{202f}\u{205f}", false), record("K", "V", None));
    assert_eq!(fields("\u{2029}\u{200a}", true), None);
}

#[test]
fn keeps_characters_that_only_look_like_whitespace() {
    // zero width space, word joiner and the byte order mark are not whitespace
    assert_eq!(
        fields("\u{200b}K=V\u{feff}", false),
        record("\u{200b}K", "V\u{feff}", None)
    );
    assert_eq!(fields("\u{2060}", true), None);
    assert_eq!(fields("K=\u{1c}", false), record("K", "\u{1c}", None));
}

#[test]
fn keeps_text_of_more_than_one_byte_in_each_character() {
    assert_eq!(
        fields("clé = valeur d'été # commentaire ☃", true),
        record("clé", "valeur d'été", Some("commentaire ☃"))
    );
    assert_eq!(fields("名前=値 # 注", true), record("名前", "値", Some("注")));
}

#[test]
fn line_feed_inside_a_line_is_only_trimmed_at_the_ends() {
    assert_eq!(fields("\nK=V\n", false), record("K", "V", None));
    assert_eq!(fields("K=a\nb", false), record("K", "a\nb", None));
}

#[test]
fn each_record_gets_an_identifier_of_its_own() {
    let a = EnvVar::parse_from_str("K=V", false).expect("a variable line");
    let b = EnvVar::parse_from_str("K=V", false).expect("a variable line");
    assert_ne!(a.temp_id, b.temp_id);
    assert_eq!(a.temp_id.get_version_num(), 4);
    assert_eq!((a.key, a.value, a.comment), (b.key, b.value, b.comment));
}

#[test]
fn parse_with_id_keeps_the_given_identifier() {
    let id = Uuid::from_u128(0x1234_5678_9abc_def0_1122_3344_5566_7788);
    let parsed = EnvVar::parse_with_id(" A = b # c ", true, id);
    assert_eq!(
        parsed,
        Some(EnvVar {
            key: "A".to_owned(),
            value: "b".to_owned(),
            comment: Some("c".to_owned()),
            temp_id: id,
        })
    );
    assert_eq!(EnvVar::parse_with_id("# A = b", true, id), None);
    assert_eq!(EnvVar::parse_with_id("no equals", false, id), None);
}

#[test]
fn clone_of_a_record_is_equal_to_it() {
    let v = EnvVar::parse_from_str("A=b # c", true).expect("a variable line");
    assert_eq!(v.clone(), v);
    let w = EnvVar::parse_from_str("A=b", true).expect("a variable line");
    assert_eq!(w.clone(), w);
    assert_ne!(v, w);
}

/// The rule of a line, written with the string functions of the standard
/// library.
fn by_std(s: &str, parse_comments: bool) -> Option<(String, String, Option<String>)> {
    let trimmed = s.trim();
    if trimmed.starts_with('#') || trimmed.is_empty() {
        return None;
    }
    let (content, comment) = match trimmed.split_once('#') {
        Some((content, comment)) => (content.trim(), Some(comment.trim())),
        None => (trimmed, None),
    };
    let (key, value) = content.split_once('=')?;
    Some((
        key.trim().to_owned(),
        value.trim().to_owned(),
        if parse_comments { comment.map(|c| c.to_owned()) } else { None },
    ))
}

#[test]
fn agrees_with_the_standard_library_on_many_lines() {
    let alphabet = [
        'a', 'B', '=', '#', ' ', '\t', '"', '\r', '\n', '\u{a0}', '\u{3000}', 'é', '\u{200b}', '=',
        '#', ' ',
    ];
    let mut state: u64 = 0x2545_f491_4f6c_dd1d;
    let mut seen_some = 0;
    let mut seen_none = 0;
    for round in 0..4000 {
        let mut line = String::new();
        let len = round % 13;
        for _ in 0..len {
            state = state.wrapping_mul(6364136223846793005).wrapping_add(1442695040888963407);
            line.push(alphabet[((state >> 33) % 16) as usize]);
        }
        for flag in [false, true] {
            let got = fields(&line, flag);
            assert_eq!(got, by_std(&line, flag), "line {:?}", line);
            if got.is_some() {
                seen_some += 1;
            } else {
                seen_none += 1;
            }
        }
    }
    assert!(seen_some > 100 && seen_none > 100);
}

#[test]
fn whitespace_is_what_the_standard_library_calls_whitespace() {
    for code in 0..=0x10_ffff_u32 {
        if let Some(c) = char::from_u32(code) {
            assert_eq!(is_whitespace(c), c.is_whitespace(), "U+{:04X}", code);
        }
    }
}

#[test]
fn scanners_work_on_spans_of_a_buffer() {
    let buf = chars_of("  a=b # c  ");
    assert_eq!(buf.len(), 11);
    assert_eq!(buf, vec![' ', ' ', 'a', '=', 'b', ' ', '#', ' ', 'c', ' ', ' ']);
    assert_eq!(trim_bounds(&buf, 0, 11), (2, 9));
    let (a, b) = trim_bounds(&buf, 5, 6);
    assert!(a == b && 5 <= a && a <= 6);
    let (a, b) = trim_bounds(&buf, 9, 11);
    assert!(a == b && 9 <= a && a <= 11);
    assert_eq!(trim_bounds(&buf, 4, 8), (4, 7));
    assert_eq!(trim_bounds(&buf, 3, 3), (3, 3));
    assert_eq!(trim_bounds(&buf, 2, 9), (2, 9));
    assert_eq!(find_char(&buf, 0, 11, '#'), 6);
    assert_eq!(find_char(&buf, 0, 11, '='), 3);
    assert_eq!(find_char(&buf, 4, 11, '='), 11);
    assert_eq!(find_char(&buf, 0, 6, '#'), 6);
    assert_eq!(find_char(&buf, 0, 11, ' '), 0);
    assert_eq!(find_char(&buf, 2, 11, ' '), 5);
    assert_eq!(string_of(&buf, 2, 9), "a=b # c");
    assert_eq!(string_of(&buf, 4, 4), "");
    assert_eq!(string_of(&chars_of("héllo ☃"), 1, 7), "éllo ☃");
    assert_eq!(chars_of(""), Vec::<char>::new());
}
