use deet::command::{BreakTarget, DebuggerCommand};
use deet::number::{read_decimal, read_hexadecimal};

fn tokens(line: &str) -> Vec<String> {
    line.split_whitespace().map(|t| t.to_string()).collect()
}

#[test]
fn from_tokens_reads_every_command_in_both_forms() {
    assert_eq!(DebuggerCommand::from_tokens(&tokens("quit")), Some(DebuggerCommand::Quit));
    assert_eq!(DebuggerCommand::from_tokens(&tokens("q")), Some(DebuggerCommand::Quit));
    assert_eq!(DebuggerCommand::from_tokens(&tokens("continue")), Some(DebuggerCommand::Continue));
    assert_eq!(DebuggerCommand::from_tokens(&tokens("c")), Some(DebuggerCommand::Continue));
    assert_eq!(DebuggerCommand::from_tokens(&tokens("backtrace")), Some(DebuggerCommand::Backtrace));
    assert_eq!(DebuggerCommand::from_tokens(&tokens("bt")), Some(DebuggerCommand::Backtrace));
    assert_eq!(DebuggerCommand::from_tokens(&tokens("run")), Some(DebuggerCommand::Run(vec![])));
    assert_eq!(
        DebuggerCommand::from_tokens(&tokens("run a  bb ccc")),
        Some(DebuggerCommand::Run(vec!["a".to_string(), "bb".to_string(), "ccc".to_string()]))
    );
    assert_eq!(
        DebuggerCommand::from_tokens(&tokens("break *0x401136")),
        Some(DebuggerCommand::Break("*0x401136".to_string()))
    );
    assert_eq!(
        DebuggerCommand::from_tokens(&tokens("break main extra")),
        Some(DebuggerCommand::Break("main".to_string()))
    );
}

#[test]
fn from_tokens_refuses_what_is_no_command() {
    assert_eq!(DebuggerCommand::from_tokens(&tokens("")), None);
    assert_eq!(DebuggerCommand::from_tokens(&tokens("break")), None);
    assert_eq!(DebuggerCommand::from_tokens(&tokens("Quit")), None);
    assert_eq!(DebuggerCommand::from_tokens(&tokens("runs")), None);
    assert_eq!(DebuggerCommand::from_tokens(&tokens("step")), None);
}

#[test]
fn break_target_reads_raw_addresses() {
    assert_eq!(BreakTarget::parse("*0x401136".to_string()), Some(BreakTarget::Address(0x401136)));
    assert_eq!(BreakTarget::parse("*0X1f".to_string()), Some(BreakTarget::Address(0x1f)));
    assert_eq!(BreakTarget::parse("*0xABCdef".to_string()), Some(BreakTarget::Address(0xabcdef)));
    assert_eq!(BreakTarget::parse("*0x0".to_string()), Some(BreakTarget::Address(0)));
    assert_eq!(BreakTarget::parse("*0x+10".to_string()), Some(BreakTarget::Address(16)));
    assert_eq!(
        BreakTarget::parse("*0xffffffffffffffff".to_string()),
        Some(BreakTarget::Address(usize::MAX))
    );
}

#[test]
fn break_target_refuses_malformed_addresses() {
    assert_eq!(BreakTarget::parse("*0x".to_string()), None);
    assert_eq!(BreakTarget::parse("*0xg1".to_string()), None);
    assert_eq!(BreakTarget::parse("*0x12 ".to_string()), None);
    assert_eq!(BreakTarget::parse("*0x-1".to_string()), None);
    assert_eq!(BreakTarget::parse("*0x+".to_string()), None);
    assert_eq!(BreakTarget::parse("*0x10000000000000000".to_string()), None);
}

#[test]
fn break_target_reads_lines_and_functions() {
    assert_eq!(BreakTarget::parse("15".to_string()), Some(BreakTarget::Line(15)));
    assert_eq!(BreakTarget::parse("+15".to_string()), Some(BreakTarget::Line(15)));
    assert_eq!(BreakTarget::parse("007".to_string()), Some(BreakTarget::Line(7)));
    assert_eq!(BreakTarget::parse("main".to_string()), Some(BreakTarget::Function("main".to_string())));
    assert_eq!(BreakTarget::parse("15a".to_string()), Some(BreakTarget::Function("15a".to_string())));
    assert_eq!(BreakTarget::parse("-3".to_string()), Some(BreakTarget::Function("-3".to_string())));
    assert_eq!(BreakTarget::parse("".to_string()), Some(BreakTarget::Function("".to_string())));
    assert_eq!(BreakTarget::parse("0x10".to_string()), Some(BreakTarget::Function("0x10".to_string())));
    assert_eq!(BreakTarget::parse("*1x".to_string()), Some(BreakTarget::Function("*1x".to_string())));
    assert_eq!(
        BreakTarget::parse("99999999999999999999999".to_string()),
        Some(BreakTarget::Function("99999999999999999999999".to_string()))
    );
}

#[test]
fn read_decimal_agrees_with_the_standard_parser() {
    for text in ["0", "1", "+1", "42", "18446744073709551615", "18446744073709551616", "", "+", "-1", "1 ", "١٢", "1_000", "0x1", "ff"] {
        assert_eq!(read_decimal(text), text.parse::<usize>().ok(), "{:?}", text);
    }
}

#[test]
fn read_hexadecimal_agrees_with_the_standard_parser() {
    for text in ["0", "ff", "FF", "+fF", "deadbeef", "ffffffffffffffff", "10000000000000000", "", "+", "g", "0x1", "-f", " f"] {
        assert_eq!(read_hexadecimal(text), usize::from_str_radix(text, 16).ok(), "{:?}", text);
    }
}
