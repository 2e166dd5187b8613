use drone_sim::model::{is_whitespace, model_id, parse_index, parse_indices, split_whitespace};

fn chars(text: &str) -> Vec<char> {
    text.chars().collect()
}

fn words_of(text: &str) -> Vec<String> {
    let all = chars(text);
    split_whitespace(&all).iter().map(|&(a, b)| all[a..b].iter().collect()).collect()
}

fn index(word: &str) -> Option<u16> {
    let all = chars(word);
    parse_index(&all, 0, all.len())
}

#[test]
fn white_space_is_what_separates_words() {
    let mut count = 0;
    for n in 0..=0x10FFFFu32 {
        if let Some(c) = char::from_u32(n) {
            assert_eq!(is_whitespace(c), c.is_whitespace());
            if is_whitespace(c) {
                count += 1;
            }
        }
    }
    assert_eq!(count, 25);
    assert!(is_whitespace(' '));
    assert!(is_whitespace('\n'));
    assert!(is_whitespace('\t'));
    assert!(is_whitespace('\r'));
    assert!(is_whitespace('\u{a0}'));
    assert!(is_whitespace('\u{3000}'));
    assert!(!is_whitespace('0'));
    assert!(!is_whitespace('\u{200b}'));
}

#[test]
fn split_whitespace_finds_every_word() {
    assert_eq!(split_whitespace(&chars("")), vec![]);
    assert_eq!(split_whitespace(&chars(" \n\t ")), vec![]);
    assert_eq!(split_whitespace(&chars("12")), vec![(0, 2)]);
    assert_eq!(split_whitespace(&chars(" 12")), vec![(1, 3)]);
    assert_eq!(split_whitespace(&chars("12 ")), vec![(0, 2)]);
    assert_eq!(split_whitespace(&chars("0 1  22\n333\t4")), vec![(0, 1), (2, 3), (5, 7), (8, 11), (12, 13)]);
    let texts = ["0 1 2\n2 3 0\n", "  a\u{a0}b \u{2003} c", "1.5 -2e3\r\n+7 x", "é ü\u{3000}ß"];
    for text in texts {
        let expected: Vec<String> = text.split_whitespace().map(|w| w.to_string()).collect();
        assert_eq!(words_of(text), expected);
    }
}

#[test]
fn parse_index_reads_sixteen_bits() {
    assert_eq!(index("0"), Some(0));
    assert_eq!(index("7"), Some(7));
    assert_eq!(index("65535"), Some(65535));
    assert_eq!(index("65536"), None);
    assert_eq!(index("99999999999999999999"), None);
    assert_eq!(index("00012"), Some(12));
    assert_eq!(index("0000000000000000065535"), Some(65535));
    assert_eq!(index("+7"), Some(7));
    assert_eq!(index("+"), None);
    assert_eq!(index("++7"), None);
    assert_eq!(index(""), None);
    assert_eq!(index("-1"), None);
    assert_eq!(index("-0"), None);
    assert_eq!(index("1a"), None);
    assert_eq!(index("a1"), None);
    assert_eq!(index("1.0"), None);
    assert_eq!(index("1_000"), None);
    assert_eq!(index("\u{663}"), None);
    let words = ["0", "1", "42", "65535", "65536", "70000", "+0", "+65535", "+65536", "-5", "007", "", "+", "-", "12x", "x12", "1 2", "٤٢"];
    for word in words {
        assert_eq!(index(word), word.parse::<u16>().ok());
    }
}

#[test]
fn parse_index_reads_a_part_of_the_text() {
    let text = chars("10 +20 x30");
    assert_eq!(parse_index(&text, 0, 2), Some(10));
    assert_eq!(parse_index(&text, 3, 6), Some(20));
    assert_eq!(parse_index(&text, 4, 6), Some(20));
    assert_eq!(parse_index(&text, 7, 10), None);
    assert_eq!(parse_index(&text, 8, 10), Some(30));
    assert_eq!(parse_index(&text, 5, 5), None);
    assert_eq!(parse_index(&text, 0, 3), None);
}

#[test]
fn parse_indices_passes_over_what_is_no_index() {
    assert_eq!(parse_indices(&chars("0 1 2\n2 3 0\n")), vec![0, 1, 2, 2, 3, 0]);
    assert_eq!(parse_indices(&chars("")), Vec::<u16>::new());
    assert_eq!(parse_indices(&chars("0 one 2 3.0 -4 +5 65536 65535")), vec![0, 2, 5, 65535]);
    let text = "7 8 9 # a face\n10\u{a0}11\t12";
    let expected: Vec<u16> = text.split_whitespace().filter_map(|w| w.parse().ok()).collect();
    assert_eq!(parse_indices(&chars(text)), expected);
    assert_eq!(expected, vec![7, 8, 9, 10, 11, 12]);
}

#[test]
fn model_id_is_the_first_place_of_the_name() {
    let names = vec!["cube".to_string(), "drone".to_string(), "cube".to_string()];
    assert_eq!(model_id(&names, &"cube".to_string()), Some(0));
    assert_eq!(model_id(&names, &"drone".to_string()), Some(1));
    assert_eq!(model_id(&names, &"Drone".to_string()), None);
    assert_eq!(model_id(&names, &"".to_string()), None);
    assert_eq!(model_id(&Vec::new(), &"cube".to_string()), None);
}
