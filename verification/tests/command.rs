use prattle::command::{is_blank, Command, COMMAND_HELP};

#[test]
fn parses_empty_strings() {
    for input in ["", " ", "   ", "\t", "\n", " \t \n "] {
        assert!(
            matches!(Command::parse(input), Command::Empty),
            "expected Empty command for {input}"
        );
    }
}

#[test]
fn parses_quit_command() {
    for input in ["/quit", "  /quit  ", "/quit\n"] {
        assert!(
            matches!(Command::parse(input), Command::Quit),
            "expected Quit command for {input}"
        );
    }
}

#[test]
fn parses_who_command() {
    for input in ["/who", "  /who  ", "/who\n"] {
        assert!(
            matches!(Command::parse(input), Command::Who),
            "expected Who command for {input}"
        );
    }
}

#[test]
fn parses_action_command() {
    for (input, expected_action) in [
        ("/action waves hello", "waves hello"),
        // Leading/trailing whitespace on the input is trimmed
        ("  /action does something  ", "does something"),
        ("/action jumps", "jumps"),
        // Internal spaces in the action text are preserved
        ("/action does   something", "does   something"),
    ] {
        assert!(
            matches!(
                Command::parse(input),
                Command::Action(action) if action == expected_action
            ),
            "expected Action(\"{expected_action}\") for {input}"
        );
    }
}

#[test]
fn parses_action_without_text_as_message() {
    // "/action" without trailing space and text is treated as a regular message
    // "/action " with trailing space gets trimmed to "/action", also a message
    for input in ["/action", "/action "] {
        assert!(
            matches!(Command::parse(input), Command::Msg(msg) if msg == "/action"),
            "expected Msg(\"/action\") for {input}"
        );
    }
}

#[test]
fn parses_regular_messages() {
    for (input, expected_msg) in [
        ("Hello, world!", "Hello, world!"),
        // Leading/trailing whitespace is trimmed
        ("  This is a message  ", "This is a message"),
        ("Multi-word message here", "Multi-word message here"),
    ] {
        assert!(
            matches!(Command::parse(input), Command::Msg(msg) if msg == expected_msg),
            "expected Msg(\"{expected_msg}\") for {input}"
        );
    }
}

#[test]
fn parses_unknown_commands_as_messages() {
    // Commands that don't exist should be treated as regular messages
    for input in ["/unknown", "/sleep", "/quit_now"] {
        assert!(
            matches!(Command::parse(input), Command::Msg(msg) if msg == input),
            "expected Msg(\"{input}\") for {input}"
        );
    }
}

#[test]
fn parses_messages_resembling_commands() {
    // Messages that have / but aren't valid commands
    for input in ["/", "//", "This /action is in the middle"] {
        assert!(
            matches!(Command::parse(input), Command::Msg(msg) if msg == input),
            "expected Msg(\"{input}\") for {input}"
        );
    }
}

#[test]
fn parses_help_command() {
    for input in ["/help", "  /help  ", "/help\n", "\t/help\r\n"] {
        assert!(
            matches!(Command::parse(input), Command::Help),
            "expected Help command for {input}"
        );
    }
}

#[test]
fn commands_are_case_sensitive_and_exact() {
    for input in ["/Quit", "/QUIT", "/quit now", "/helpme", "/who?", "/whoami", "/Action waves"] {
        assert!(
            matches!(Command::parse(input), Command::Msg(msg) if msg == input),
            "expected Msg(\"{input}\") for {input}"
        );
    }
}

#[test]
fn action_keeps_inner_whitespace_after_the_prefix() {
    // Only the one space of the prefix is taken; what follows stays as it is.
    assert!(matches!(Command::parse("/action  waves"), Command::Action(" waves")));
    assert!(matches!(Command::parse("/action \twaves\n"), Command::Action("\twaves")));
    assert!(matches!(Command::parse("/action /quit"), Command::Action("/quit")));
    assert!(matches!(Command::parse("/action /action x"), Command::Action("/action x")));
}

#[test]
fn action_prefix_needs_its_space() {
    assert!(matches!(Command::parse("/actionwaves"), Command::Msg("/actionwaves")));
    assert!(matches!(Command::parse("/action\twaves"), Command::Msg("/action\twaves")));
    assert!(matches!(Command::parse("/action\n"), Command::Msg("/action")));
}

#[test]
fn trims_every_kind_of_unicode_whitespace() {
    let blanks = [
        '\u{9}', '\u{a}', '\u{b}', '\u{c}', '\u{d}', '\u{20}', '\u{85}', '\u{a0}', '\u{1680}',
        '\u{2000}', '\u{2001}', '\u{2002}', '\u{2003}', '\u{2004}', '\u{2005}', '\u{2006}',
        '\u{2007}', '\u{2008}', '\u{2009}', '\u{200a}', '\u{2028}', '\u{2029}', '\u{202f}',
        '\u{205f}', '\u{3000}',
    ];
    for blank in blanks {
        let alone = format!("{blank}");
        assert!(matches!(Command::parse(&alone), Command::Empty), "U+{:04X}", blank as u32);
        let around = format!("{blank}/quit{blank}");
        assert!(matches!(Command::parse(&around), Command::Quit), "U+{:04X}", blank as u32);
        let inside = format!("a{blank}b");
        assert!(
            matches!(Command::parse(&inside), Command::Msg(msg) if msg == inside),
            "U+{:04X}",
            blank as u32
        );
    }
}

#[test]
fn keeps_characters_that_only_look_blank() {
    // None of these has the property White_Space.
    for odd in ['\u{200b}', '\u{180e}', '\u{feff}', '\u{2060}', '\u{0}', '\u{1f}', '\u{7f}'] {
        let input = format!("{odd}");
        assert!(
            matches!(Command::parse(&input), Command::Msg(msg) if msg == input),
            "U+{:04X}",
            odd as u32
        );
    }
}

#[test]
fn classify_reads_the_line_as_it_is() {
    assert!(matches!(Command::classify(""), Command::Empty));
    assert!(matches!(Command::classify("/quit"), Command::Quit));
    assert!(matches!(Command::classify("/help"), Command::Help));
    assert!(matches!(Command::classify("/who"), Command::Who));
    assert!(matches!(Command::classify("/action bows"), Command::Action("bows")));
    // Nothing is trimmed here: a line with a blank around it is chat.
    assert!(matches!(Command::classify(" /quit"), Command::Msg(" /quit")));
    assert!(matches!(Command::classify("/quit "), Command::Msg("/quit ")));
    assert!(matches!(Command::classify(" "), Command::Msg(" ")));
    assert!(matches!(Command::classify("/action "), Command::Action("")));
}

#[test]
fn parsing_a_parsed_line_changes_nothing() {
    for input in ["  hello  ", "/quit\n", " /action waves ", "\t\n", "/who", "über  uns "] {
        let trimmed = input.trim();
        let once = format!("{:?}", Command::parse(input));
        let twice = format!("{:?}", Command::parse(trimmed));
        assert_eq!(once, twice);
    }
}

#[test]
fn help_text_has_eight_lines() {
    let lines: Vec<&str> = COMMAND_HELP.split('\n').collect();
    // Eight lines, each ended by a newline, leave an empty piece at the end.
    assert_eq!(lines.len(), 9);
    assert_eq!(lines[0], "");
    assert_eq!(lines[1], "/quit             Leave the server");
    assert_eq!(lines[2], "/help             Show this message");
    assert_eq!(lines[3], "/who              List online users");
    assert_eq!(lines[4], "/action <action>  Broadcast an action, e.g. /action waves");
    assert_eq!(lines[5], "");
    assert_eq!(lines[6], "[anything else]   Send a regular message");
    assert_eq!(lines[7], "");
    assert_eq!(lines[8], "");
}

#[test]
fn whitespace_is_what_the_standard_library_calls_so() {
    for code in 0..=0x10ffff_u32 {
        if let Some(c) = char::from_u32(code) {
            assert_eq!(is_blank(c), c.is_whitespace(), "U+{code:04X}");
        }
    }
}

#[test]
fn trimming_agrees_with_the_standard_library() {
    let pieces = ["", " ", "\t", "\n", "\r\n", "\u{a0}", "\u{3000}", "a", "é", "日本", "/quit", "x y"];
    for front in pieces {
        for middle in pieces {
            for back in pieces {
                let line = format!("{front}{middle}{back}");
                let parsed = format!("{:?}", Command::parse(&line));
                let expected = format!("{:?}", Command::classify(line.trim()));
                assert_eq!(parsed, expected, "{line:?}");
            }
        }
    }
}

#[test]
fn text_of_many_bytes_is_cut_at_characters() {
    assert!(matches!(Command::parse("\u{3000}日本語\u{3000}"), Command::Msg("日本語")));
    assert!(matches!(Command::parse(" /action grüßt 🙂 "), Command::Action("grüßt 🙂")));
    assert!(matches!(Command::parse("\u{2003}/action é"), Command::Action("é")));
    assert!(matches!(Command::classify("/action 🙂"), Command::Action("🙂")));
    assert!(matches!(Command::classify("/actioñ x"), Command::Msg("/actioñ x")));
}
