use anseo_api::order::chars_lt;
use anseo_api::text::{
    dec_chars, join_strings, parse_i64_chars, parse_u64_chars, signed_dec_chars, split_chars, trimmed,
};

fn chars(s: &str) -> Vec<char> {
    s.chars().collect()
}

fn text(v: &[char]) -> String {
    v.iter().collect()
}

#[test]
fn trimming_matches_str_trim() {
    for s in ["  a b  ", "\u{3000}x\u{a0}", "\t\n", "", "plain", "\u{2009} y \u{85}"] {
        assert_eq!(text(&trimmed(s)), s.trim());
    }
}

#[test]
fn decimal_parsing_matches_from_str() {
    for s in ["0", "42", "+7", "-7", "", "+", "1a", "18446744073709551615", "18446744073709551616", "007"] {
        assert_eq!(parse_u64_chars(&chars(s)), s.parse::<u64>().ok(), "u64 {:?}", s);
    }
    for s in ["0", "-42", "+7", "-", "9223372036854775807", "-9223372036854775808", "9223372036854775808", "1 "] {
        assert_eq!(parse_i64_chars(&chars(s)), s.parse::<i64>().ok(), "i64 {:?}", s);
    }
}

#[test]
fn decimal_rendering_matches_to_string() {
    for n in [0u64, 7, 10, 1234567890, u64::MAX] {
        assert_eq!(text(&dec_chars(n)), n.to_string());
        assert_eq!(parse_u64_chars(&dec_chars(n)), Some(n));
    }
    for n in [0i64, -1, 99, i64::MIN, i64::MAX] {
        assert_eq!(text(&signed_dec_chars(n)), n.to_string());
    }
}

#[test]
fn splitting_and_joining_match_std() {
    for s in ["a,b,,c", "", ",", "solo"] {
        let pieces: Vec<String> = split_chars(&chars(s), ',').iter().map(|p| text(p)).collect();
        let expected: Vec<String> = s.split(',').map(|p| p.to_string()).collect();
        assert_eq!(pieces, expected);
    }
    let v = vec!["x".to_string(), "y".to_string(), "z".to_string()];
    assert_eq!(join_strings(&v, ", "), "x, y, z");
    assert_eq!(join_strings(&vec![], ", "), "");
}

#[test]
fn char_order_matches_string_order() {
    let words = ["", "a", "ab", "b", "B", "é", "zz", "a\u{0}"];
    for a in words {
        for b in words {
            assert_eq!(chars_lt(&chars(a), &chars(b)), a < b, "{:?} < {:?}", a, b);
        }
    }
}
