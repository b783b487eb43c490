use uranos_core::shell::{add_new_input, find_program, process_input, run_command, shell_split, ParseError};

fn chars(s: &str) -> Vec<char> {
    s.chars().collect()
}

fn string(v: &[char]) -> String {
    v.iter().collect()
}

const DEL: char = '\u{7f}';
const ESC: char = '\u{1b}';

#[test]
fn printable_input_passes_through() {
    let mut line = chars("ls -l\n");
    let (finished, deletions) = process_input(&mut line);
    assert!(finished);
    assert_eq!(deletions, 0);
    assert_eq!(string(&line), "ls -l\n");
}

#[test]
fn a_backspace_erases_the_character_before_it() {
    let mut line = chars("cat");
    line.push(DEL);
    line.extend(chars("d"));
    let (finished, deletions) = process_input(&mut line);
    assert!(finished);
    assert_eq!(deletions, 1);
    assert_eq!(string(&line), "cad");
}

#[test]
fn a_backspace_with_nothing_before_it_is_kept_and_unfinished() {
    let mut line = vec![DEL, DEL];
    line.extend(chars("ok"));
    let (finished, deletions) = process_input(&mut line);
    assert!(!finished);
    assert_eq!(deletions, 0);
    assert_eq!(line[0], DEL);
    assert_eq!(line[1], DEL);
    assert_eq!(string(&line[2..]), "ok");
}

#[test]
fn escape_sequences_are_stripped() {
    // ESC [ A is an arrow key: the two characters after the escape go too.
    let mut line = vec![ESC, '[', 'A'];
    line.extend(chars("pwd"));
    let (finished, deletions) = process_input(&mut line);
    assert!(finished);
    assert_eq!(deletions, 0);
    assert_eq!(string(&line), "pwd");
}

#[test]
fn unprintable_characters_are_dropped() {
    let mut line = vec!['a', '\u{1}', 'b', '\u{300}', 'c'];
    let (finished, _) = process_input(&mut line);
    assert!(finished);
    assert_eq!(string(&line), "abc");
}

#[test]
fn splitting_cuts_at_unquoted_separators_and_trims() {
    let pieces = shell_split(&chars("  echo hi ; ls ;x"), &chars("'\""), &chars(";")).unwrap();
    let pieces: Vec<String> = pieces.iter().map(|p| string(p)).collect();
    assert_eq!(pieces, vec!["echo hi", "ls", "x"]);
}

#[test]
fn separators_inside_quotes_do_not_split() {
    let pieces = shell_split(&chars("echo 'a;b' ; ls"), &chars("'\""), &chars(";")).unwrap();
    let pieces: Vec<String> = pieces.iter().map(|p| string(p)).collect();
    assert_eq!(pieces, vec!["echo 'a;b'", "ls"]);
}

#[test]
fn a_trailing_separator_leaves_no_empty_tail_piece() {
    let pieces = shell_split(&chars("ls;"), &chars("'\""), &chars(";")).unwrap();
    let pieces: Vec<String> = pieces.iter().map(|p| string(p)).collect();
    assert_eq!(pieces, vec!["ls"]);
}

#[test]
fn an_unclosed_quote_does_not_parse() {
    match shell_split(&chars("echo 'oops"), &chars("'\""), &chars(";")) {
        Err(ParseError::QuoteUnclosed) => {},
        other => panic!("an unclosed quote must be refused, got {other:?}"),
    }
}

#[test]
fn words_split_at_spaces() {
    let pieces = shell_split(&chars("run a 'b c'"), &chars("'\""), &chars(" ")).unwrap();
    let pieces: Vec<String> = pieces.iter().map(|p| string(p)).collect();
    assert_eq!(pieces, vec!["run", "a", "'b c'"]);
}

#[test]
fn clean_new_input_is_appended_and_echoed() {
    let mut line = chars("ca");
    let echo = add_new_input(&mut line, chars("t"));
    assert_eq!(string(&line), "cat");
    assert_eq!(echo.erase, 0);
    assert_eq!(string(&echo.echo), "t");
}

#[test]
fn stranded_backspaces_reach_into_the_earlier_text() {
    let mut line = chars("cat");
    let mut input = vec![DEL, DEL];
    input.push('r');
    let echo = add_new_input(&mut line, input);
    // The two deletes erase 't' and 'a' of the earlier text; 'r' follows.
    assert_eq!(string(&line), "cr");
    assert_eq!(echo.erase, 2);
}

#[test]
fn backspaces_into_an_empty_line_are_discarded() {
    let mut line = chars("");
    let echo = add_new_input(&mut line, vec![DEL, DEL, 'x']);
    assert_eq!(string(&line), "x");
    assert_eq!(echo.erase, 0);
}

#[test]
fn a_command_runs_the_program_its_first_word_names() {
    let programs = vec![chars("ls"), chars("echo")];
    let (idx, args) = run_command(&chars("echo hi there"), &chars("'\""), &chars(" "), &programs)
        .expect("a known program must run");
    assert_eq!(idx, 1);
    let args: Vec<String> = args.iter().map(|a| string(a)).collect();
    assert_eq!(args, vec!["hi", "there"]);
}

#[test]
fn an_unknown_program_is_reported_with_the_command() {
    let programs = vec![chars("ls")];
    match run_command(&chars("nope -v"), &chars("'\""), &chars(" "), &programs) {
        Err(ParseError::UnknownProgram(c)) => assert_eq!(string(&c), "nope -v"),
        other => panic!("an unknown program must be refused, got {other:?}"),
    }
}

#[test]
fn a_command_with_unclosed_quotes_does_not_run() {
    let programs = vec![chars("ls")];
    match run_command(&chars("ls 'arg"), &chars("'\""), &chars(" "), &programs) {
        Err(ParseError::QuoteUnclosed) => {},
        other => panic!("got {other:?}"),
    }
}

#[test]
fn program_lookup_finds_the_first_exact_name() {
    let programs = vec![chars("cat"), chars("ls"), chars("ls")];
    assert_eq!(find_program(&chars("ls"), &programs), Some(1));
    assert_eq!(find_program(&chars("l"), &programs), None);
    assert_eq!(find_program(&chars("lsx"), &programs), None);
}
