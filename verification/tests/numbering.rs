use pdir::add_line_numbers;
use pdir::lines::{split_lines, split_on};
use pdir::strings::{decimal_text, same_text};

#[test]
fn line_numbers_single_digit_width() {
    let result = add_line_numbers("a\nb\nc\n");
    assert_eq!(result, "1\ta\n2\tb\n3\tc\n");
}

#[test]
fn line_numbers_pads_to_consistent_width() {
    // 10 lines → width 2
    let text = "x\n".repeat(10);
    let result = add_line_numbers(&text);
    assert!(result.starts_with(" 1\tx\n"));
    assert!(result.contains("10\tx\n"));
}

#[test]
fn line_numbers_empty_input_returns_empty() {
    assert_eq!(add_line_numbers(""), "");
}

#[test]
fn line_numbers_exact_width_three() {
    let text = "x\n".repeat(100);
    let mut expected = String::new();
    for i in 1..101 {
        expected.push_str(&format!("{i:>3}\tx\n"));
    }
    assert_eq!(add_line_numbers(&text), expected);
}

#[test]
fn line_numbers_final_newline_is_always_there() {
    assert_eq!(add_line_numbers("a\nb"), "1\ta\n2\tb\n");
    assert_eq!(add_line_numbers("a"), "1\ta\n");
    assert_eq!(add_line_numbers("\n"), "1\t\n");
    assert_eq!(add_line_numbers("\n\n"), "1\t\n2\t\n");
}

#[test]
fn line_numbers_drop_carriage_returns_of_line_endings() {
    assert_eq!(add_line_numbers("a\r\nb\r\n"), "1\ta\n2\tb\n");
    assert_eq!(add_line_numbers("a\rb\r\r\nc\r"), "1\ta\rb\r\n2\tc\r\n");
}

#[test]
fn numbering_keeps_lines() {
    let text = "fn main() {\n\tlet a = 1;\n\n}\u{e9}";
    let before = split_lines(text);
    let after = split_lines(&add_line_numbers(text));
    assert_eq!(before.len(), after.len());
    for (i, line) in before.iter().enumerate() {
        assert_eq!(after[i], format!("{}\t{line}", i + 1));
    }
}

#[test]
fn lines_agree_with_std() {
    for text in ["", "a", "a\n", "a\n\nb", "\n", "\r\n", "a\r\nb\r", "\r", "\u{e9}\r\r\n\u{20ac}"] {
        let expected: Vec<&str> = text.lines().collect();
        assert_eq!(split_lines(text), expected);
    }
}

#[test]
fn splitting_and_joining() {
    for text in ["", ",", "a,b", ",a,,b,", "abc"] {
        let expected: Vec<&str> = text.split(',').collect();
        let pieces = split_on(text, ',');
        assert_eq!(pieces, expected);
        assert_eq!(pieces.join(","), text);
    }
}

#[test]
fn numerals() {
    for n in [0, 1, 9, 10, 11, 99, 100, 1234567890, usize::MAX] {
        assert_eq!(decimal_text(n), n.to_string());
    }
}

#[test]
fn text_comparison() {
    assert!(same_text("", ""));
    assert!(same_text("rs", "rs"));
    assert!(same_text("\u{e9}", "\u{e9}"));
    assert!(!same_text("rs", "rt"));
    assert!(!same_text("rs", "r"));
    assert!(!same_text("", "r"));
}
