use asmvm::address::Address;
use asmvm::address::Destination as RefTarget;
use asmvm::assignment::{Assignment, Type};
use asmvm::command::{merge_quotes, Command};
use asmvm::destination::Destination;
use asmvm::jump::JumpDestination;
use asmvm::register::Register;
use asmvm::text::{parse_isize, parse_usize, str_eq, substitute_marker};

#[test]
fn tokenizer_splits_words() {
    let toks = merge_quotes("mov rax 5");
    assert_eq!(toks, vec!["mov".to_string(), "rax".to_string(), "5".to_string()]);
}

#[test]
fn tokenizer_keeps_quoted_spans_whole() {
    let toks = merge_quotes("mov rax \"hello world\"");
    assert_eq!(toks, vec!["mov".to_string(), "rax".to_string(), "\"hello world\"".to_string()]);
}

#[test]
fn tokenizer_cuts_at_comment() {
    let toks = merge_quotes("mov rax 5 ; trailing comment");
    assert_eq!(toks, vec!["mov".to_string(), "rax".to_string(), "5".to_string()]);
}

#[test]
fn tokenizer_drops_extra_spaces() {
    let toks = merge_quotes("  add   rax  rbx ");
    assert_eq!(toks, vec!["add".to_string(), "rax".to_string(), "rbx".to_string()]);
}

#[test]
fn address_registers_parse() {
    assert_eq!(Address::parse("rax").unwrap(), Address::Register(Register::Rax));
    assert_eq!(Address::parse("rbx").unwrap(), Address::Register(Register::Rbx));
    assert_eq!(Address::parse("rcx").unwrap(), Address::Register(Register::Rcx));
}

#[test]
fn address_stack_slots_parse() {
    assert_eq!(Address::parse("sp").unwrap(), Address::StackPointer(0));
    assert_eq!(Address::parse("sp[10]").unwrap(), Address::StackPointer(10));
}

#[test]
fn address_references_parse_one_level() {
    assert_eq!(
        Address::parse("[rax]").unwrap(),
        Address::Reference(RefTarget::Register(Register::Rax))
    );
    assert_eq!(
        Address::parse("[sp[2]]").unwrap(),
        Address::Reference(RefTarget::StackPointer(2))
    );
    // Nesting brackets does not nest indirection: one level remains.
    assert_eq!(
        Address::parse("[[rax]]").unwrap(),
        Address::Reference(RefTarget::Register(Register::Rax))
    );
}

#[test]
fn address_rejects_unknown_forms() {
    assert!(Address::parse("zz").is_err());
    assert!(Address::parse("sp[]").is_err());
    assert!(Address::parse("[3]").is_err());
    assert!(Address::parse("").is_err());
}

#[test]
fn address_rejects_oversized_slot_index() {
    // One above the largest expressible index.
    assert!(Address::parse("sp[18446744073709551616]").is_err());
}

#[test]
fn printed_address_form_does_not_round_trip() {
    // A parsed stack slot prints as 0x-prefixed decimal, which is not
    // itself parseable address syntax: assertions must target structure,
    // never textual re-parse equality.
    let a = Address::parse("sp[3]").unwrap();
    assert_eq!(a, Address::StackPointer(3));
    assert_eq!(a.to_string_raw(), "0x3");
    assert!(Address::parse("0x3").is_err());
}

#[test]
fn assignment_literals_parse() {
    assert_eq!(Assignment::parse("5").unwrap(), Assignment::Value(Type::Integer(5)));
    assert_eq!(Assignment::parse("-7").unwrap(), Assignment::Value(Type::Integer(-7)));
    assert_eq!(
        Assignment::parse("\"hi\"").unwrap(),
        Assignment::Value(Type::String("hi".to_string()))
    );
    assert_eq!(
        Assignment::parse("\"two words\"").unwrap(),
        Assignment::Value(Type::String("two words".to_string()))
    );
}

#[test]
fn assignment_prefers_addresses() {
    assert_eq!(
        Assignment::parse("sp").unwrap(),
        Assignment::Address(Address::StackPointer(0))
    );
    assert_eq!(
        Assignment::parse("rbx").unwrap(),
        Assignment::Address(Address::Register(Register::Rbx))
    );
}

#[test]
fn assignment_rejects_garbage() {
    assert!(Assignment::parse("no\"quote").is_err());
    assert!(Assignment::parse("1.5").is_err());
    assert!(Assignment::parse("").is_err());
}

#[test]
fn destination_parses_and_displays() {
    assert_eq!(Destination::parse("sp[4]").unwrap(), Destination::StackPointer(4));
    assert_eq!(Destination::parse("rcx").unwrap(), Destination::Register(Register::Rcx));
    assert!(Destination::parse("sp").is_err());
    assert_eq!(Destination::StackPointer(4).to_display_string(), "Stack[4]");
}

#[test]
fn command_arities_parse() {
    assert_eq!(Command::parse("leave").unwrap(), Command::Leave);
    assert_eq!(
        Command::parse("label_one:").unwrap(),
        Command::Label("label_one".to_string())
    );
    assert_eq!(
        Command::parse("jmp start").unwrap(),
        Command::Jmp(JumpDestination::Label("start".to_string()))
    );
    assert_eq!(
        Command::parse("call helper").unwrap(),
        Command::CallVoid(JumpDestination::Label("helper".to_string()))
    );
    assert_eq!(
        Command::parse("call rax helper").unwrap(),
        Command::CallRet(
            Address::Register(Register::Rax),
            JumpDestination::Label("helper".to_string())
        )
    );
    assert_eq!(
        Command::parse("mov rax 5").unwrap(),
        Command::Mov(Address::Register(Register::Rax), Assignment::Value(Type::Integer(5)))
    );
    assert_eq!(
        Command::parse("lea rax sp[5]").unwrap(),
        Command::LoadEffectiveAddress(
            Address::Register(Register::Rax),
            Address::StackPointer(5)
        )
    );
    assert_eq!(
        Command::parse("add rax rax rbx").unwrap(),
        Command::Add(
            Address::Register(Register::Rax),
            Assignment::Address(Address::Register(Register::Rax)),
            Assignment::Address(Address::Register(Register::Rbx))
        )
    );
    assert_eq!(
        Command::parse("sub rax 10 3").unwrap(),
        Command::Sub(
            Address::Register(Register::Rax),
            Assignment::Value(Type::Integer(10)),
            Assignment::Value(Type::Integer(3))
        )
    );
    assert_eq!(
        Command::parse("ret rax").unwrap(),
        Command::Return(Assignment::Address(Address::Register(Register::Rax)))
    );
    assert_eq!(
        Command::parse("syscall printf").unwrap(),
        Command::Syscall(JumpDestination::Label("printf".to_string()))
    );
}

#[test]
fn command_rejects_unknown_shapes() {
    assert!(Command::parse("bogus").is_err());
    assert!(Command::parse("mov rax").is_err());
    assert!(Command::parse("mov rax 1 2 3").is_err());
    assert!(Command::parse("").is_err());
    let e = Command::parse("frobnicate rax 1").unwrap_err();
    assert_eq!(e.message(), "Unknown instruction");
}

#[test]
fn numeral_parsing_bounds() {
    assert_eq!(parse_usize("0"), Some(0));
    assert_eq!(parse_usize("007"), Some(7));
    assert_eq!(parse_usize("18446744073709551615"), Some(usize::MAX));
    assert_eq!(parse_usize("18446744073709551616"), None);
    assert_eq!(parse_usize(""), None);
    assert_eq!(parse_usize("1x"), None);
    assert_eq!(parse_isize("-9223372036854775808"), Some(isize::MIN));
    assert_eq!(parse_isize("9223372036854775807"), Some(isize::MAX));
    assert_eq!(parse_isize("-9223372036854775809"), None);
    assert_eq!(parse_isize("+3"), Some(3));
    assert_eq!(parse_isize("-"), None);
}

#[test]
fn marker_substitution_replaces_first_only() {
    assert_eq!(substitute_marker("{} and {}", "x"), "x and {}");
    assert_eq!(substitute_marker("no marker", "x"), "no marker");
    assert_eq!(substitute_marker("{}", "y"), "y");
}

#[test]
fn string_equality_helper() {
    assert!(str_eq("abc", "abc"));
    assert!(!str_eq("abc", "abd"));
    assert!(!str_eq("abc", "ab"));
    assert!(str_eq("", ""));
}
