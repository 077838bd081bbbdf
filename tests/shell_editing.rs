use kernel_sched::shell::{ArithmeticError, EnvironmentVariables, Shell};

#[test]
fn environment_defaults_and_updates() {
    let mut env = EnvironmentVariables::new();
    assert_eq!(env.get("PATH").unwrap(), "/bin:/usr/bin");
    assert_eq!(env.get("HOME").unwrap(), "/home/user");
    assert_eq!(env.get("LANG").unwrap(), "en_US.UTF-8");
    assert!(env.get("EDITOR").is_none());
    env.set("EDITOR".to_string(), "vi".to_string());
    assert_eq!(env.get("EDITOR").unwrap(), "vi");
    env.set("PATH".to_string(), "/sbin".to_string());
    assert_eq!(env.get("PATH").unwrap(), "/sbin");
    env.unset("PATH");
    assert!(env.get("PATH").is_none());
    env.unset("NOPE");
    assert_eq!(env.get("USER").unwrap(), "user");
}

#[test]
fn line_editing() {
    let mut sh = Shell::new();
    sh.insert_char('l');
    sh.insert_char('s');
    assert_eq!(sh.get_current_line(), "ls");
    assert_eq!(sh.get_cursor_pos(), 2);
    assert_eq!(sh.move_cursor(-1), 1);
    sh.insert_char('x');
    assert_eq!(sh.get_current_line(), "lxs");
    assert!(sh.delete_char());
    assert_eq!(sh.get_current_line(), "ls");
    assert_eq!(sh.move_cursor(-10), 0);
    assert!(!sh.delete_char());
    assert_eq!(sh.move_cursor(isize::MAX), 2);
    assert_eq!(sh.move_cursor(isize::MIN), 0);
    sh.clear_current_line();
    assert_eq!(sh.get_current_line(), "");
    assert_eq!(sh.get_cursor_pos(), 0);
    sh.set_current_line("héllo".to_string());
    assert_eq!(sh.get_cursor_pos(), 5);
    assert_eq!(sh.get_current_line(), "héllo");
}

#[test]
fn history_browsing() {
    let mut sh = Shell::new();
    assert_eq!(sh.history_navigate(-1), None);
    sh.add_to_history("ls");
    sh.add_to_history("ls");
    sh.add_to_history("");
    sh.add_to_history("pwd");
    sh.set_current_line("ec".to_string());
    assert_eq!(sh.history_navigate(1), None);
    assert_eq!(sh.history_navigate(-1).unwrap(), "pwd");
    assert_eq!(sh.history_navigate(-1).unwrap(), "ls");
    assert_eq!(sh.history_navigate(-1).unwrap(), "ls");
    assert_eq!(sh.history_navigate(1).unwrap(), "pwd");
    assert_eq!(sh.history_navigate(1).unwrap(), "ec");
    assert_eq!(sh.history_navigate(-1).unwrap(), "pwd");
    assert_eq!(sh.history_navigate(isize::MAX).unwrap(), "ec");
}

#[test]
fn history_keeps_last_hundred() {
    let mut sh = Shell::new();
    for i in 0..105 {
        sh.add_to_history(&format!("cmd{}", i));
    }
    assert_eq!(sh.history_navigate(-1).unwrap(), "cmd104");
    assert_eq!(sh.history_navigate(-99).unwrap(), "cmd5");
    assert_eq!(sh.history_navigate(-1).unwrap(), "cmd5");
}

#[test]
fn completion_replaces_word_before_cursor() {
    let mut sh = Shell::new();
    sh.set_current_line("cat fo bar".to_string());
    sh.move_cursor(-4);
    sh.apply_completion("foo.txt");
    assert_eq!(sh.get_current_line(), "cat foo.txt bar");
    assert_eq!(sh.get_cursor_pos(), 11);
    let mut sh = Shell::new();
    sh.set_current_line("ec".to_string());
    sh.apply_completion("echo");
    assert_eq!(sh.get_current_line(), "echo");
    assert_eq!(sh.get_cursor_pos(), 4);
}

#[test]
fn signal_flags() {
    let mut sh = Shell::new();
    assert!(!sh.check_interrupt());
    sh.request_interrupt();
    assert!(sh.check_interrupt());
    assert!(!sh.check_interrupt());
    sh.request_suspend();
    assert!(!sh.check_interrupt());
    assert!(sh.check_suspend());
    assert!(!sh.check_suspend());
}

#[test]
fn glob_matching() {
    let sh = Shell::new();
    assert!(sh.glob_match("*.txt", "notes.txt"));
    assert!(!sh.glob_match("*.txt", "notes.md"));
    assert!(sh.glob_match("a?c", "abc"));
    assert!(!sh.glob_match("a?c", "ac"));
    assert!(sh.glob_match("[a-c]x", "bx"));
    assert!(!sh.glob_match("[a-c]x", "dx"));
    assert!(!sh.glob_match("[!a-c]x", "bx"));
    assert!(sh.glob_match("[^a]", "b"));
    assert!(sh.glob_match("*", ""));
    assert!(sh.glob_match("", ""));
    assert!(!sh.glob_match("", "a"));
    assert!(!sh.glob_match("[abc", "a"));
    assert!(sh.glob_match("a*b*c", "aXXbYc"));
    assert!(!sh.glob_match("a*b*c", "aXXbY"));
    assert!(sh.glob_match("[z-a]", "z"));
    assert!(!sh.glob_match("[z-a]", "a"));
    assert!(sh.glob_match("[-a]", "-"));
    assert!(sh.glob_match("file[0-9][0-9]", "file42"));
}

#[test]
fn resolve_paths() {
    let sh = Shell::new();
    assert_eq!(sh.resolve_path("/etc"), "/etc");
    assert_eq!(sh.resolve_path("docs"), "/docs");
    assert_eq!(sh.resolve_path("~"), "/home/user");
    assert_eq!(sh.resolve_path("~/notes"), "/home/user/notes");
    assert_eq!(sh.resolve_path(""), "/");
}

#[test]
fn complete_command_names() {
    let sh = Shell::new();
    assert_eq!(sh.complete_command("c"), Some(vec!["cat".to_string(), "cd".to_string(), "clear/cls".to_string()]));
    assert_eq!(sh.complete_command("un"), Some(vec!["unalias".to_string(), "unset".to_string()]));
    assert_eq!(sh.complete_command("zz"), None);
    assert_eq!(sh.complete_command("").unwrap().len(), 19);
}

#[test]
fn arithmetic_evaluation() {
    let sh = Shell::new();
    assert_eq!(sh.eval_arithmetic("1+2"), Ok(3));
    assert_eq!(sh.eval_arithmetic(" 7 "), Ok(7));
    assert_eq!(sh.eval_arithmetic("+5"), Ok(5));
    assert_eq!(sh.eval_arithmetic("-5"), Ok(-5));
    assert_eq!(sh.eval_arithmetic("2*3+4"), Ok(10));
    assert_eq!(sh.eval_arithmetic("10-4-3"), Ok(9));
    assert_eq!(sh.eval_arithmetic("7/2"), Ok(3));
    assert_eq!(sh.eval_arithmetic("-7/2"), Ok(-3));
    assert_eq!(sh.eval_arithmetic("7%3"), Ok(1));
    assert_eq!(sh.eval_arithmetic("-7%3"), Ok(-1));
    assert_eq!(sh.eval_arithmetic("\u{a0}3\u{a0}"), Ok(3));
    assert_eq!(sh.eval_arithmetic("-9223372036854775808"), Ok(i64::MIN));
}

#[test]
fn arithmetic_errors() {
    let sh = Shell::new();
    assert_eq!(sh.eval_arithmetic("1/0"), Err(ArithmeticError::DivisionByZero));
    assert_eq!(sh.eval_arithmetic("5%0"), Err(ArithmeticError::DivisionByZero));
    assert_eq!(sh.eval_arithmetic("abc"), Err(ArithmeticError::InvalidExpression));
    assert_eq!(sh.eval_arithmetic(""), Err(ArithmeticError::InvalidExpression));
    assert_eq!(sh.eval_arithmetic("1+"), Err(ArithmeticError::InvalidExpression));
    assert_eq!(
        sh.eval_arithmetic("9223372036854775807+1"),
        Err(ArithmeticError::Overflow)
    );
    assert_eq!(
        sh.eval_arithmetic("9223372036854775808"),
        Err(ArithmeticError::InvalidExpression)
    );
    assert_eq!(
        sh.eval_arithmetic("-9223372036854775808/-1"),
        Err(ArithmeticError::InvalidExpression)
    );
    assert_eq!(
        sh.eval_arithmetic("-9223372036854775808*2"),
        Err(ArithmeticError::Overflow)
    );
}

#[test]
fn unset_command_removes_each_name() {
    let mut sh = Shell::new();
    assert_eq!(sh.cmd_unset(&["PATH", "HOME", "NOPE"]), Ok(()));
    assert_eq!(sh.resolve_path("~"), "/home/user");
    assert!(sh.cmd_unset(&[]).is_ok());
}

#[test]
fn signal_flags_leave_editing_state_alone() {
    let mut sh = Shell::new();
    sh.set_current_line("ls -l".to_string());
    sh.move_cursor(-2);
    sh.add_to_history("pwd");
    sh.request_interrupt();
    sh.request_suspend();
    assert!(sh.check_interrupt());
    assert!(sh.check_suspend());
    assert_eq!(sh.get_current_line(), "ls -l");
    assert_eq!(sh.get_cursor_pos(), 3);
    assert_eq!(sh.history_navigate(-1).unwrap(), "pwd");
}
