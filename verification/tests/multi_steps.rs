use dsfb::multi_steps::{parse_multi_steps, StepsIssue};

#[derive(Debug, PartialEq, Eq)]
enum Refusal {
    Invalid(String),
    Zero,
    Empty,
}

fn reference(raw: &str) -> Result<Vec<usize>, Refusal> {
    let mut out = Vec::new();
    for chunk in raw.split(',') {
        let token = chunk.trim();
        if token.is_empty() {
            continue;
        }
        let steps = token.parse::<usize>().map_err(|_| Refusal::Invalid(token.to_string()))?;
        if steps == 0 {
            return Err(Refusal::Zero);
        }
        out.push(steps);
    }
    if out.is_empty() {
        return Err(Refusal::Empty);
    }
    Ok(out)
}

fn ours(raw: &str) -> Result<Vec<usize>, Refusal> {
    parse_multi_steps(raw).map_err(|issue| match issue {
        StepsIssue::Invalid { start, end } => {
            Refusal::Invalid(raw.chars().skip(start).take(end - start).collect())
        }
        StepsIssue::Zero => Refusal::Zero,
        StepsIssue::Empty => Refusal::Empty,
    })
}

#[test]
fn reads_counts_parted_by_commas() {
    assert_eq!(parse_multi_steps("5000,10000,20000"), Ok(vec![5000, 10000, 20000]));
    assert_eq!(parse_multi_steps("7"), Ok(vec![7]));
    assert_eq!(parse_multi_steps(" 12 ,\t34\n, 56 "), Ok(vec![12, 34, 56]));
}

#[test]
fn passes_over_empty_places() {
    assert_eq!(parse_multi_steps(",,5,, ,6,"), Ok(vec![5, 6]));
    assert_eq!(parse_multi_steps("1,"), Ok(vec![1]));
    assert_eq!(parse_multi_steps(",1"), Ok(vec![1]));
}

#[test]
fn accepts_one_plus_sign_and_leading_zeros() {
    assert_eq!(parse_multi_steps("+5"), Ok(vec![5]));
    assert_eq!(parse_multi_steps("007, +010"), Ok(vec![7, 10]));
    assert_eq!(parse_multi_steps("++5"), Err(StepsIssue::Invalid { start: 0, end: 3 }));
    assert_eq!(parse_multi_steps("+"), Err(StepsIssue::Invalid { start: 0, end: 1 }));
    assert_eq!(parse_multi_steps("5+"), Err(StepsIssue::Invalid { start: 0, end: 2 }));
}

#[test]
fn refuses_what_is_no_count() {
    assert_eq!(parse_multi_steps("abc"), Err(StepsIssue::Invalid { start: 0, end: 3 }));
    assert_eq!(parse_multi_steps("10, x1 ,20"), Err(StepsIssue::Invalid { start: 4, end: 6 }));
    assert_eq!(parse_multi_steps("-5"), Err(StepsIssue::Invalid { start: 0, end: 2 }));
    assert_eq!(parse_multi_steps("1 2"), Err(StepsIssue::Invalid { start: 0, end: 3 }));
    assert_eq!(parse_multi_steps("1.5"), Err(StepsIssue::Invalid { start: 0, end: 3 }));
    assert_eq!(parse_multi_steps("\u{0661}"), Err(StepsIssue::Invalid { start: 0, end: 1 }));
}

#[test]
fn refuses_zero_and_nothing() {
    assert_eq!(parse_multi_steps("0"), Err(StepsIssue::Zero));
    assert_eq!(parse_multi_steps("5, 000"), Err(StepsIssue::Zero));
    assert_eq!(parse_multi_steps("+0"), Err(StepsIssue::Zero));
    assert_eq!(parse_multi_steps(""), Err(StepsIssue::Empty));
    assert_eq!(parse_multi_steps(" , ,"), Err(StepsIssue::Empty));
}

#[test]
fn the_first_fault_in_order_is_reported() {
    assert_eq!(parse_multi_steps("0,abc"), Err(StepsIssue::Zero));
    assert_eq!(parse_multi_steps("abc,0"), Err(StepsIssue::Invalid { start: 0, end: 3 }));
    assert_eq!(parse_multi_steps("3,abc,0"), Err(StepsIssue::Invalid { start: 2, end: 5 }));
}

#[test]
fn counts_must_fit_the_machine_word() {
    let max = usize::MAX.to_string();
    assert_eq!(parse_multi_steps(&max), Ok(vec![usize::MAX]));
    let mut over = max.clone();
    let last = over.pop().unwrap();
    over.push(((last as u8) + 1) as char);
    assert_eq!(ours(&over), reference(&over));
    assert!(matches!(parse_multi_steps(&over), Err(StepsIssue::Invalid { .. })));
    let longer = format!("{max}0");
    assert!(matches!(parse_multi_steps(&longer), Err(StepsIssue::Invalid { .. })));
    let padded = format!("000000000000000000000000000000{max}");
    assert_eq!(parse_multi_steps(&padded), Ok(vec![usize::MAX]));
}

#[test]
fn white_space_is_what_unicode_says() {
    for space in [
        '\u{0009}', '\u{000A}', '\u{000B}', '\u{000C}', '\u{000D}', '\u{0020}', '\u{0085}',
        '\u{00A0}', '\u{1680}', '\u{2000}', '\u{2005}', '\u{200A}', '\u{2028}', '\u{2029}',
        '\u{202F}', '\u{205F}', '\u{3000}',
    ] {
        let text = format!("{space}41{space},{space}{space}42");
        assert_eq!(parse_multi_steps(&text), Ok(vec![41, 42]));
    }
    for other in ['\u{200B}', '\u{FEFF}', '\u{001F}', '\u{180E}', '_'] {
        let text = format!("{other}41");
        assert_eq!(parse_multi_steps(&text), Err(StepsIssue::Invalid { start: 0, end: 3 }));
        assert_eq!(ours(&text), reference(&text));
    }
}

#[test]
fn positions_count_characters_not_bytes() {
    let text = "\u{3000}7,\u{00A0}é9\u{2003}";
    assert_eq!(parse_multi_steps(text), Err(StepsIssue::Invalid { start: 4, end: 6 }));
    assert_eq!(ours(text), Err(Refusal::Invalid("é9".to_string())));
    assert_eq!(ours(text), reference(text));
}

#[test]
fn agrees_with_split_trim_and_parse() {
    let alphabet: Vec<char> =
        vec!['0', '1', '9', ',', ' ', '+', '-', 'x', '\t', '\u{00A0}', '5', ','];
    let mut state = 0x1234_5678_9ABC_DEF0_u64;
    for _ in 0..4000 {
        state = state.wrapping_mul(6364136223846793005).wrapping_add(1442695040888963407);
        let len = ((state >> 60) % 12) as usize;
        let mut text = String::new();
        let mut bits = state;
        for _ in 0..len {
            bits = bits.wrapping_mul(6364136223846793005).wrapping_add(1442695040888963407);
            text.push(alphabet[((bits >> 33) % alphabet.len() as u64) as usize]);
        }
        assert_eq!(ours(&text), reference(&text), "text: {text:?}");
    }
}
