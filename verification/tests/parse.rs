use scptdisplay::parse::{Input, Output};
use scptdisplay::record::StringMap;
use scptdisplay::text::{chars_of, is_whitespace, join};
use std::collections::HashMap;

fn as_map(m: &StringMap) -> HashMap<String, String> {
    let map: HashMap<String, String> = m.entries().iter().cloned().collect();
    assert_eq!(map.len(), m.len());
    map
}

#[test]
fn test_record_empty() {
    let got = Output::record("");
    assert_eq!(HashMap::new(), as_map(&got));
}

#[test]
fn test_record_one() {
    let got = Output::record("key:value");
    assert_eq!(
        HashMap::from([("key".to_string(), "value".to_string())]),
        as_map(&got)
    );
}

#[test]
fn test_record_two() {
    let got = Output::record("key:value, key 2:value 2");
    assert_eq!(
        HashMap::from([
            ("key".to_string(), "value".to_string()),
            ("key 2".to_string(), "value 2".to_string()),
        ]),
        as_map(&got)
    );
}

#[test]
fn test_integer_or_text_1() {
    let got = Input::integer_or_text("1");
    assert_eq!("1", got);
}

#[test]
fn test_integer_or_text_one() {
    let got = Input::integer_or_text("one");
    assert_eq!("\"one\"", got);
}

#[test]
fn test_apple_script_list_empty() {
    let got = Input::apple_script_list(Vec::<String>::new());
    assert_eq!("{}".to_string(), got);
}

#[test]
fn test_apple_script_list_one() {
    let got = Input::apple_script_list(vec!["a".to_string()]);
    assert_eq!("{\"a\"}".to_string(), got);
}

#[test]
fn test_apple_script_list_two() {
    let got = Input::apple_script_list(vec!["a".to_string(), "b".to_string()]);
    assert_eq!("{\"a\",\"b\"}".to_string(), got);
}

#[test]
fn test_apple_script_list_keeps_order_and_repeats() {
    let got = Input::apple_script_list(vec![
        "b".to_string(),
        "a".to_string(),
        "b".to_string(),
        "".to_string(),
    ]);
    assert_eq!("{\"b\",\"a\",\"b\",\"\"}", got);
}

#[test]
fn test_quoted_wraps_in_double_quotes() {
    assert_eq!("\"hi\"", Input::quoted("hi"));
    assert_eq!("\"\"", Input::quoted(""));
}

#[test]
fn test_quoted_escapes_nothing() {
    assert_eq!("\"say \"hi\"\"", Input::quoted("say \"hi\""));
    assert_eq!("\"a\\b\"", Input::quoted("a\\b"));
    assert_eq!("\"a,b:c\"", Input::quoted("a,b:c"));
    for x in ["", "\"", "\"\"", "é\u{3000}", "a\nb"] {
        let got = Input::quoted(x);
        assert!(got.starts_with('"') && got.ends_with('"'));
        assert_eq!(x, &got[1..got.len() - 1]);
    }
}

#[test]
fn test_integer_or_text_seven() {
    assert_eq!("7", Input::integer_or_text("7"));
    assert_eq!("\"seven\"", Input::integer_or_text("seven"));
}

#[test]
fn test_integer_or_text_bounds() {
    assert_eq!("0", Input::integer_or_text("0"));
    assert_eq!("255", Input::integer_or_text("255"));
    assert_eq!("\"256\"", Input::integer_or_text("256"));
    assert_eq!("\"-1\"", Input::integer_or_text("-1"));
    assert_eq!("\"\"", Input::integer_or_text(""));
    assert_eq!("\"1.5\"", Input::integer_or_text("1.5"));
    assert_eq!("\" 1\"", Input::integer_or_text(" 1"));
}

#[test]
fn test_is_integer_reads_as_u8_does() {
    let cases = [
        "", "+", "-", "0", "7", "+7", "-7", "-0", "++7", "+-7", "007", "0255", "0256", "255",
        "256", "260", "999", "1000", "00000000000000000000255", "99999999999999999999999",
        "1e2", "0x10", "1_0", " 7", "7 ", "7\n", "seven", "７", "٣", "2 5", "25a", "a25", "+255",
        "+256", "+0", "+", "1+", "12+",
    ];
    for x in cases {
        assert_eq!(x.parse::<u8>().is_ok(), Input::is_integer(x), "{:?}", x);
    }
    for n in 0..2000u32 {
        let x = n.to_string();
        assert_eq!(n <= 255, Input::is_integer(&x), "{:?}", x);
    }
}

#[test]
fn test_integer_writes_base_ten() {
    assert_eq!("0", Input::integer(0));
    assert_eq!("9", Input::integer(9));
    assert_eq!("10", Input::integer(10));
    assert_eq!("99", Input::integer(99));
    assert_eq!("100", Input::integer(100));
    assert_eq!("105", Input::integer(105));
    assert_eq!("255", Input::integer(255));
    for n in 0..=255u8 {
        assert_eq!(n.to_string(), Input::integer(n));
    }
}

#[test]
fn test_record_fragment_without_colon_is_passed_over() {
    let got = Output::record("nothing here, key:value,,also nothing");
    assert_eq!(
        HashMap::from([("key".to_string(), "value".to_string())]),
        as_map(&got)
    );
    assert_eq!(HashMap::new(), as_map(&Output::record("no colon at all")));
    assert_eq!(HashMap::new(), as_map(&Output::record(",,,")));
}

#[test]
fn test_record_later_key_wins() {
    let got = Output::record("k:1, k:2,k:3");
    assert_eq!(1, got.len());
    assert_eq!(Some(&"3".to_string()), got.get("k"));
}

#[test]
fn test_record_cuts_at_first_colon_only() {
    let got = Output::record("time:12:30:00");
    assert_eq!(Some(&"12:30:00".to_string()), got.get("time"));
    let got = Output::record(":v");
    assert_eq!(Some(&"v".to_string()), got.get(""));
    let got = Output::record("k:");
    assert_eq!(Some(&"".to_string()), got.get("k"));
}

#[test]
fn test_record_trims_end_of_text_and_start_of_keys_only() {
    let got = Output::record("button returned:OK, gave up:false\n");
    assert_eq!(
        HashMap::from([
            ("button returned".to_string(), "OK".to_string()),
            ("gave up".to_string(), "false".to_string()),
        ]),
        as_map(&got)
    );
    let got = Output::record("  key  : value , next:x  \t\r\n");
    assert_eq!(
        HashMap::from([
            ("key  ".to_string(), " value ".to_string()),
            ("next".to_string(), "x".to_string()),
        ]),
        as_map(&got)
    );
    let got = Output::record(" \u{a0}\u{3000}k:v\u{2003}");
    assert_eq!(Some(&"v".to_string()), got.get("k"));
    let got = Output::record("  k:v");
    assert_eq!(Some(&"v".to_string()), got.get("k"));
}

#[test]
fn test_record_does_not_protect_commas_in_values() {
    let got = Output::record("text returned:a,b, button returned:OK");
    assert_eq!(
        HashMap::from([
            ("text returned".to_string(), "a".to_string()),
            ("button returned".to_string(), "OK".to_string()),
        ]),
        as_map(&got)
    );
}

#[test]
fn test_record_reads_as_the_split_functions_of_std_do() {
    let cases = [
        "",
        " ",
        "key:value",
        "key:value, key 2:value 2",
        "a:1,b:2,a:3,",
        ",a:1",
        "a:1,,b:2",
        "  a :1:2 , \t b: , c",
        "é:ü, 日本:語\u{3000}",
        "k:v \u{85}\u{1680}\u{2028}\u{2029}\u{202f}\u{205f}",
        "\u{200b}k:v\u{200b}",
        "\u{180e}k:v\u{180e}",
        "a:b\0",
    ];
    for x in cases {
        let mut want: HashMap<String, String> = HashMap::new();
        for fragment in x.trim_end().split(',') {
            if let Some((k, v)) = fragment.split_once(':') {
                want.insert(k.trim_start().to_string(), v.to_string());
            }
        }
        assert_eq!(want, as_map(&Output::record(x)), "{:?}", x);
    }
}

#[test]
fn test_is_whitespace_is_that_of_char() {
    for n in 0..=0x10ffffu32 {
        if let Some(c) = char::from_u32(n) {
            assert_eq!(c.is_whitespace(), is_whitespace(c), "{:?}", c);
        }
    }
}

#[test]
fn test_chars_of_lists_the_characters() {
    assert_eq!(Vec::<char>::new(), chars_of(""));
    assert_eq!(vec!['a', 'é', '日', ' '], chars_of("aé日 "));
}

#[test]
fn test_join_puts_the_separator_between() {
    assert_eq!("", join(&vec![], ","));
    assert_eq!("a", join(&vec!["a".to_string()], ","));
    assert_eq!(
        "a, b, ",
        join(&vec!["a".to_string(), "b".to_string(), "".to_string()], ", ")
    );
}

#[test]
fn test_string_map_insert_get_len() {
    let mut m = StringMap::new();
    assert_eq!(0, m.len());
    assert_eq!(None, m.get("a"));
    m.insert("a".to_string(), "1".to_string());
    m.insert("b".to_string(), "2".to_string());
    assert_eq!(2, m.len());
    assert_eq!(Some(&"1".to_string()), m.get("a"));
    m.insert("a".to_string(), "3".to_string());
    assert_eq!(2, m.len());
    assert_eq!(Some(&"3".to_string()), m.get("a"));
    assert_eq!(Some(&"2".to_string()), m.get("b"));
    assert_eq!(None, m.get("c"));
    assert_eq!(
        &vec![
            ("a".to_string(), "3".to_string()),
            ("b".to_string(), "2".to_string())
        ],
        m.entries()
    );
}
