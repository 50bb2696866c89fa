use finalizer::text::{
    chars_of, contains_chars, decimal_string, parse_uint_chars, split_lines, split_words,
    trim_chars,
};

fn s(v: &[char]) -> String {
    v.iter().collect()
}

const SAMPLES: &[&str] = &[
    "",
    "\n",
    "a",
    "a\n",
    "a\nb",
    "a\r\nb\r\n",
    "a\r",
    "\r\n\r\n",
    "  cpu0 1 2 3  ",
    "\tcpu\u{a0}x\u{2003}y\u{3000}",
    "x\u{85}y\u{200b}z",
    "one\n\ntwo\n",
    "+12",
    "-3",
    "+",
    "007",
    "18446744073709551615",
    "18446744073709551616",
    "4294967295",
    "4294967296",
    "12a",
    "\u{ff11}2",
];

#[test]
fn chars_match_std() {
    for t in SAMPLES {
        assert_eq!(chars_of(t), t.chars().collect::<Vec<char>>());
    }
}

#[test]
fn trim_matches_std() {
    for t in SAMPLES {
        let cs = chars_of(t);
        assert_eq!(s(&trim_chars(&cs)), t.trim());
    }
}

#[test]
fn words_match_split_whitespace() {
    for t in SAMPLES {
        let cs = chars_of(t);
        let got: Vec<String> = split_words(&cs).iter().map(|w| s(w)).collect();
        let want: Vec<String> = t.split_whitespace().map(|w| w.to_string()).collect();
        assert_eq!(got, want, "input {:?}", t);
    }
}

#[test]
fn lines_match_std() {
    for t in SAMPLES {
        let cs = chars_of(t);
        let got: Vec<String> = split_lines(&cs).iter().map(|l| s(l)).collect();
        let want: Vec<String> = t.lines().map(|l| l.to_string()).collect();
        assert_eq!(got, want, "input {:?}", t);
    }
}

#[test]
fn parsing_matches_from_str() {
    for t in SAMPLES {
        let cs = chars_of(t);
        assert_eq!(parse_uint_chars(&cs, u64::MAX), t.parse::<u64>().ok(), "input {:?}", t);
        assert_eq!(
            parse_uint_chars(&cs, u32::MAX as u64),
            t.parse::<u32>().ok().map(|v| v as u64),
            "input {:?}",
            t
        );
    }
}

#[test]
fn decimal_matches_to_string() {
    for v in [0u64, 7, 10, 99, 100, 1200000, 4294967295, u64::MAX] {
        assert_eq!(decimal_string(v), v.to_string());
    }
}

#[test]
fn contains_matches_std() {
    let hay = "com.tencent.tmgp.sgame:xg_vip_service";
    for needle in ["", "com", "sgame", "service", "tmgp.sgame:", "sgamex", "x", hay] {
        let h = chars_of(hay);
        let n = chars_of(needle);
        assert_eq!(contains_chars(&h, &n), hay.contains(needle), "needle {:?}", needle);
    }
    assert!(!contains_chars(&chars_of("ab"), &chars_of("abc")));
}
