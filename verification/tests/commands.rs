use ldk::command::{help, interpret, parse_command, unknown_command_message, Command, LineDecision};
use ldk::words::{chars_of, is_whitespace, same_text, split_words};

#[test]
fn splits_on_any_white_space() {
    assert_eq!(split_words("openchannel  abc\t12 \n"), vec!["openchannel", "abc", "12"]);
    assert_eq!(split_words("  lead and trail  "), vec!["lead", "and", "trail"]);
    assert_eq!(split_words("a\u{a0}b\u{3000}c\u{2003}d"), vec!["a", "b", "c", "d"]);
    assert_eq!(split_words("one"), vec!["one"]);
}

#[test]
fn blank_lines_have_no_words() {
    assert_eq!(split_words(""), Vec::<String>::new());
    assert_eq!(split_words(" \t \r\n"), Vec::<String>::new());
}

#[test]
fn splitting_agrees_with_the_standard_splitter() {
    for line in ["sendpayment lnbc1 5000", " x ", "", "a\u{85}b", "é ü\u{1680}ß", "no-break\u{feff}space", "tab\tsep\u{b}v\u{c}f", "\u{200b}zero width"] {
        let expected: Vec<String> = line.split_whitespace().map(|w| w.to_string()).collect();
        assert_eq!(split_words(line), expected, "{:?}", line);
    }
}

#[test]
fn white_space_agrees_with_the_standard_predicate() {
    for code in 0u32..0x3100 {
        if let Some(c) = char::from_u32(code) {
            assert_eq!(is_whitespace(c), c.is_whitespace(), "{:x}", code);
        }
    }
    assert!(!is_whitespace('\u{feff}'));
    assert!(!is_whitespace('\u{10ffff}'));
}

#[test]
fn characters_come_in_order() {
    assert_eq!(chars_of("aé₿"), vec!['a', 'é', '₿']);
    assert_eq!(chars_of(""), Vec::<char>::new());
}

#[test]
fn texts_are_compared_exactly() {
    assert!(same_text("help", "help"));
    assert!(!same_text("help", "Help"));
    assert!(!same_text("help", "help "));
    assert!(same_text("", ""));
}

#[test]
fn every_command_has_its_word() {
    assert_eq!(parse_command("help"), Command::Help);
    assert_eq!(parse_command("openchannel"), Command::OpenChannel);
    assert_eq!(parse_command("closechannel"), Command::CloseChannel);
    assert_eq!(parse_command("forceclosechannel"), Command::ForceCloseChannel);
    assert_eq!(parse_command("listchannels"), Command::ListChannels);
    assert_eq!(parse_command("sendpayment"), Command::SendPayment);
    assert_eq!(parse_command("getinvoice"), Command::GetInvoice);
    assert_eq!(parse_command("nodeinfo"), Command::NodeInfo);
    assert_eq!(parse_command("quit"), Command::Quit);
    assert_eq!(parse_command("exit"), Command::Quit);
}

#[test]
fn other_words_are_unknown() {
    assert_eq!(parse_command("HELP"), Command::Unknown);
    assert_eq!(parse_command("connectpeer"), Command::Unknown);
    assert_eq!(parse_command(""), Command::Unknown);
    assert_eq!(parse_command("quit!"), Command::Unknown);
}

#[test]
fn end_of_input_stops_the_loop() {
    let read = interpret(None);
    assert_eq!(read.decision, LineDecision::Stop);
    assert!(read.args.is_empty());
}

#[test]
fn quit_and_exit_stop_the_loop() {
    assert_eq!(interpret(Some("quit")).decision, LineDecision::Stop);
    assert_eq!(interpret(Some("  exit now ")).decision, LineDecision::Stop);
}

#[test]
fn empty_and_blank_lines_are_skipped() {
    assert_eq!(interpret(Some("")).decision, LineDecision::Skip);
    assert_eq!(interpret(Some("   \t")).decision, LineDecision::Skip);
    assert!(interpret(Some("  ")).args.is_empty());
}

#[test]
fn unknown_command_is_a_diagnostic_and_the_loop_goes_on() {
    let read = interpret(Some("frobnicate 1 2"));
    assert_eq!(read.decision, LineDecision::Run(Command::Unknown));
    assert_eq!(read.args, vec!["1", "2"]);
    assert_eq!(
        unknown_command_message(),
        "Unknown command. See `\"help\" for available commands."
    );
}

#[test]
fn arguments_are_the_words_after_the_command() {
    let read = interpret(Some(" closechannel  aabb 02cc  "));
    assert_eq!(read.decision, LineDecision::Run(Command::CloseChannel));
    assert_eq!(read.args, vec!["aabb", "02cc"]);
    let read = interpret(Some("nodeinfo"));
    assert_eq!(read.decision, LineDecision::Run(Command::NodeInfo));
    assert!(read.args.is_empty());
}

#[test]
fn help_lists_the_commands() {
    let text = help("ldk-cli", "0.1.0");
    assert!(text.starts_with("\nVERSION:\n  ldk-cli v0.1.0\n\nUSAGE:\n  Command [arguments]\n"));
    for line in [
        "      openchannel pubkey@[host:port] <amt_satoshis> [--public] [--with-anchors]\n",
        "      closechannel <channel_id> <peer_pubkey>\n",
        "      forceclosechannel <channel_id> <peer_pubkey>\n",
        "      listchannels\n",
        "      sendpayment <invoice|offer|human readable name> [<amount_msat>]\n",
        "      getinvoice <amt_msats> <expiry_secs>\n",
        "  help\tShows a list of commands.\n",
        "  quit\tClose the application.\n",
    ] {
        assert!(text.contains(line), "{:?}", line);
    }
    assert!(text.ends_with("\n  Other:\n      nodeinfo\n"));
}
