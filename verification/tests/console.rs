use blog_publish::console::{
    read, read_choice, read_integer, read_valid, read_yes_no, write_error, write_info,
    write_warning, write_with_color, ReadStep,
};

#[test]
fn colored_messages() {
    assert_eq!(write_warning("careful"), "\x1b[33mcareful\x1b[0m\n");
    assert_eq!(write_error("broken"), "\x1b[31mbroken\x1b[0m\n");
    assert_eq!(write_info("done"), "\x1b[32mdone\x1b[0m\n");
    assert_eq!(write_with_color("x", "35"), "\x1b[35mx\x1b[0m\n");
    assert_eq!(blog_publish::console::write("plain"), "plain\n");
}

#[test]
fn answers_are_trimmed() {
    assert_eq!(read("  yes \n"), "yes");
    assert_eq!(read("\t\u{3000}12\r\n"), "12");
    assert_eq!(read("   "), "");
}

#[test]
fn integer_prompts_name_the_bounds() {
    let q = read_integer("How many?", None, None);
    assert_eq!(q.prompt, "How many?");
    assert_eq!(q.elaboration, "Please enter an integer.");
    let q = read_integer("How many?", Some(3), None);
    assert_eq!(q.prompt, "[3+] How many?");
    assert_eq!(q.elaboration, "Please enter an integer greater than 2.");
    let q = read_integer("How many?", None, Some(9));
    assert_eq!(q.prompt, "[-9] How many?");
    assert_eq!(q.elaboration, "Please enter an integer less than 10.");
    let q = read_integer("?", Some(1), Some(12));
    assert_eq!(q.prompt, "[1-12] ?");
    assert_eq!(q.elaboration, "Please enter an integer from 1 to 12.");
}

#[test]
fn integer_answers_are_checked_against_the_bounds() {
    let q = read_integer("?", Some(1), Some(3));
    assert_eq!(q.check("2"), Ok(2));
    assert_eq!(q.check("+3"), Ok(3));
    assert_eq!(q.check("1"), Ok(1));
    assert_eq!(q.check("0"), Err("Input is too low.".to_string()));
    assert_eq!(q.check("4"), Err("Input is too high.".to_string()));
    assert_eq!(q.check("two"), Err("Input is not an integer".to_string()));
    assert_eq!(q.check(""), Err("Input is not an integer".to_string()));
    assert_eq!(q.check("-1"), Err("Input is not an integer".to_string()));
    assert_eq!(q.check("+"), Err("Input is not an integer".to_string()));
    let open = read_integer("?", None, None);
    assert_eq!(open.check("18446744073709551615"), Ok(usize::MAX));
    assert_eq!(
        open.check("18446744073709551616"),
        Err("Input is not an integer".to_string())
    );
    assert_eq!(open.check("007"), Ok(7));
}

#[test]
fn integer_parsing_agrees_with_std() {
    let open = read_integer("?", None, None);
    for s in ["0", "42", "+5", "-5", "", "+", "1_000", " 1", "99999999999999999999", "١٢"] {
        assert_eq!(open.check(s).ok(), s.parse::<usize>().ok(), "{:?}", s);
    }
}

#[test]
fn refused_integer_answer_is_explained() {
    let q = read_integer("?", Some(1), Some(2));
    match q.respond("5") {
        ReadStep::Retry(lines) => {
            assert_eq!(
                lines,
                vec![
                    "\x1b[33mInput is too high.\x1b[0m\n".to_string(),
                    "Please enter an integer from 1 to 2.\n".to_string()
                ]
            );
        }
        ReadStep::Done(_) => panic!("accepted"),
    }
    match q.respond("2") {
        ReadStep::Done(v) => assert_eq!(v, 2),
        ReadStep::Retry(_) => panic!("refused"),
    }
}

#[test]
fn yes_no_answers() {
    let q = read_yes_no("Go on?");
    assert_eq!(q.prompt, "[Y/N] Go on?");
    for yes in ["y", "Y", "yes", "YES", "yEs"] {
        assert_eq!(q.check(yes), Ok(true));
    }
    for no in ["n", "N", "no", "No", "NO"] {
        assert_eq!(q.check(no), Ok(false));
    }
    for other in ["", "ye", "nope", "yes!", "oui"] {
        assert_eq!(q.check(other), Err("Please answer 'Y' or 'N'.".to_string()));
    }
    match q.respond("maybe") {
        ReadStep::Retry(lines) => assert_eq!(
            lines,
            vec!["\x1b[33mPlease answer 'Y' or 'N'.\x1b[0m\n".to_string()]
        ),
        ReadStep::Done(_) => panic!("accepted"),
    }
}

#[test]
fn yes_no_agrees_with_lowercasing() {
    let q = read_yes_no("?");
    for s in ["Y", "yEs", "NO", "\u{212A}", "İ", "Yes ", "ｙ"] {
        let lowered = s.to_lowercase();
        let expected = match lowered.as_str() {
            "y" | "yes" => Ok(true),
            "n" | "no" => Ok(false),
            _ => Err("Please answer 'Y' or 'N'.".to_string()),
        };
        assert_eq!(q.check(s), expected, "{:?}", s);
    }
}

#[test]
fn read_valid_steps() {
    match read_valid::<u8>(Ok(4), Some("more")) {
        ReadStep::Done(v) => assert_eq!(v, 4),
        ReadStep::Retry(_) => panic!(),
    }
    match read_valid::<u8>(Err("bad".to_string()), Some("more")) {
        ReadStep::Retry(lines) => assert_eq!(
            lines,
            vec!["\x1b[33mbad\x1b[0m\n".to_string(), "more\n".to_string()]
        ),
        ReadStep::Done(_) => panic!(),
    }
    match read_valid::<u8>(Err("bad".to_string()), None) {
        ReadStep::Retry(lines) => assert_eq!(lines.len(), 1),
        ReadStep::Done(_) => panic!(),
    }
}

#[test]
fn choice_menu_numbers_from_one() {
    let labels = vec!["first".to_string(), "second".to_string(), "third".to_string()];
    let m = read_choice("Pick one", &labels);
    assert_eq!(
        m.lines,
        vec![
            "Pick one".to_string(),
            "[1] first".to_string(),
            "[2] second".to_string(),
            "[3] third".to_string()
        ]
    );
    assert_eq!(m.question.prompt, "[1-3] ?");
    assert_eq!(m.count, 3);
    assert_eq!(m.index(1), Some(0));
    assert_eq!(m.index(3), Some(2));
    assert_eq!(m.index(0), None);
    assert_eq!(m.index(4), None);
    assert_eq!(m.question.check("3"), Ok(3));
    assert_eq!(m.question.check("4"), Err("Input is too high.".to_string()));
}
