use calc_rs::valid_operand;

/// What the machine's own reading of a number says of `text`: it is read,
/// and what is read is a number.
fn machine_reads_a_number(text: &str) -> bool {
    match text.parse::<f64>() {
        Ok(value) => !value.is_nan(),
        Err(_) => false,
    }
}

fn check_all(alphabet: &[char], max_len: usize) {
    let mut last = vec![String::new()];
    assert_eq!(valid_operand(""), machine_reads_a_number(""));
    for _ in 0..max_len {
        let mut next = Vec::new();
        for text in &last {
            for c in alphabet {
                let mut longer = text.clone();
                longer.push(*c);
                assert_eq!(
                    valid_operand(&longer),
                    machine_reads_a_number(&longer),
                    "{:?}",
                    longer
                );
                next.push(longer);
            }
        }
        last = next;
    }
}

#[test]
fn plain_numbers_are_operands() {
    for text in ["7", "007", "3.14", "-3.14", "+3.14", "5.", ".5", "-.5", "+5.", "0", "-0"] {
        assert!(valid_operand(text), "{:?}", text);
    }
}

#[test]
fn numbers_with_exponents_are_operands() {
    for text in ["2.5E10", "2.5e10", "2.5E-10", "2.5e+10", "1e0", ".5e3", "5.e3", "-1E-1", "1e999"] {
        assert!(valid_operand(text), "{:?}", text);
    }
}

#[test]
fn infinities_are_operands() {
    for text in ["inf", "-inf", "+inf", "INF", "Inf", "infinity", "+infinity", "-Infinity", "INFINITY", "iNfInItY"] {
        assert!(valid_operand(text), "{:?}", text);
    }
}

#[test]
fn not_a_number_is_no_operand() {
    for text in ["nan", "NaN", "NAN", "+nan", "-nan", "-NaN"] {
        assert!(!valid_operand(text), "{:?}", text);
    }
}

#[test]
fn malformed_texts_are_no_operands() {
    for text in [
        "", "+", "-", ".", "+.", "-.", "e", "e5", "1e", "1e+", "1e-", "1e1.5", "1.2.3", "1..2",
        "5x", "x5", "abc", "1 ", " 1", "1_000", "0x10", "1e1e1", "--1", "+-1", "1-", "in",
        "infi", "infinit", "infinityy", "inff", "1inf", "inf1", "\u{661}", "\u{ff11}", "1,5",
        "1'0", "\u{130}nf", "\u{131}nf",
    ] {
        assert!(!valid_operand(text), "{:?}", text);
    }
}

#[test]
fn operands_agree_with_the_machine_on_short_texts() {
    check_all(
        &['+', '-', '.', 'e', 'E', '0', '7', 'i', 'n', 'f', 'N', 'a', 't', 'y', ' ', 'x'],
        4,
    );
}

#[test]
fn operands_agree_with_the_machine_on_number_characters() {
    check_all(&['+', '-', '.', 'e', '1'], 7);
}

#[test]
fn operands_agree_with_the_machine_on_names() {
    for word in ["inf", "infinity", "nan", "infinit", "in", "na"] {
        let letters: Vec<char> = word.chars().collect();
        for mask in 0..(1u32 << letters.len()) {
            let mut text = String::new();
            for (i, c) in letters.iter().enumerate() {
                if mask & (1 << i) != 0 {
                    text.push(c.to_ascii_uppercase());
                } else {
                    text.push(*c);
                }
            }
            for prefix in ["", "+", "-", "--", " "] {
                let full = format!("{}{}", prefix, text);
                assert_eq!(valid_operand(&full), machine_reads_a_number(&full), "{:?}", full);
            }
        }
    }
}

#[test]
fn every_operand_is_read_by_the_machine() {
    for text in ["1e400", "-1e400", "0.0000000000000000000000000000000000001e-400", "1e99999999999999999999", "00000000000000000000000000000000001", "123456789012345678901234567890.123456789012345678901234567890"] {
        assert!(valid_operand(text), "{:?}", text);
        assert!(machine_reads_a_number(text), "{:?}", text);
    }
}
