use baroboard::launch::{escape_single_quotes, join_with_spaces, launch_plan};
use baroboard::links::ProgramLink;

fn s(x: &str) -> String {
    x.to_string()
}

fn link(cmd: &str, args: &[&str], admin: bool, new_window: bool) -> ProgramLink {
    ProgramLink::new(vec![s("x")], s(""), s(cmd), args.iter().map(|a| s(a)).collect(), vec![], admin, new_window)
}

#[test]
fn empty_command_runs_nothing() {
    assert!(launch_plan(&link("", &["a"], true, true)).is_none());
}

#[test]
fn elevated_in_new_window() {
    let p = launch_plan(&link("C:\\it's.exe", &["a", "b'c"], true, true)).unwrap();
    assert_eq!(p.program, "powershell");
    assert_eq!(
        p.args,
        vec![
            s("-Command"),
            s("Start-Process -FilePath 'C:\\it''s.exe' -Verb RunAs -WindowStyle Normal -ArgumentList 'a b''c'")
        ]
    );
}

#[test]
fn elevated_hidden_without_arguments() {
    let p = launch_plan(&link("tool.exe", &[], true, false)).unwrap();
    assert_eq!(p.args[1], "Start-Process -FilePath 'tool.exe' -Verb RunAs -WindowStyle Hidden");
}

#[test]
fn plain_in_new_window_goes_through_cmd() {
    let p = launch_plan(&link("tool.exe", &["-v"], false, true)).unwrap();
    assert_eq!(p.program, "cmd");
    assert_eq!(p.args, vec![s("/c"), s("start"), s("cmd"), s("/c"), s("tool.exe"), s("-v")]);
}

#[test]
fn plain_runs_the_command_itself() {
    let p = launch_plan(&link("tool.exe", &["-v", "x"], false, false)).unwrap();
    assert_eq!(p.program, "tool.exe");
    assert_eq!(p.args, vec![s("-v"), s("x")]);
}

#[test]
fn quoting_helpers() {
    assert_eq!(escape_single_quotes("a'b''"), "a''b''''");
    assert_eq!(escape_single_quotes(""), "");
    assert_eq!(join_with_spaces(&vec![s("a"), s("b c")]), "a b c");
    assert_eq!(join_with_spaces(&vec![]), "");
}
