use cc_session::shell_setup::{rc_content_with_functions, shell_functions};

#[test]
fn shell_functions_define_both_wrappers() {
    let block = shell_functions();
    assert!(block.starts_with("# >>> cc-session shell functions >>>"));
    assert!(block.ends_with("# <<< cc-session shell functions <<<\n"));
    assert!(block.contains("ccs()"));
    assert!(block.contains("ccf()"));
}

#[test]
fn install_appends_when_no_block_exists() {
    let content = "export A=1\n";
    let expected = format!("{}\n{}\n", content, shell_functions());
    assert_eq!(rc_content_with_functions(content), expected);
}

#[test]
fn install_replaces_an_existing_block() {
    let old_block = "# >>> cc-session shell functions >>>\nstale definitions\n# <<< cc-session shell functions <<<";
    let content = format!("export A=1\n\n{}\nexport B=2\n", old_block);
    let expected = format!("export A=1\n\n{}\nexport B=2\n\n", shell_functions());
    assert_eq!(rc_content_with_functions(&content), expected);
}

#[test]
fn install_replaces_a_trailing_block() {
    let content = format!("export A=1\n\n{}", shell_functions());
    let expected = format!("export A=1\n\n{}\n", shell_functions());
    assert_eq!(rc_content_with_functions(&content), expected);
}
