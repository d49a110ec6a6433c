//! Shell recognition, completion lines, and configuration paths.

use agentfs::completions::{completion_installed, remove_matching_lines, Shell};

fn b(s: &str) -> Vec<u8> {
    s.as_bytes().to_vec()
}

#[test]
fn detect_from_recognizes_known_shells() {
    assert_eq!(Shell::detect_from(&b("/bin/bash")), Some(Shell::Bash));
    assert_eq!(Shell::detect_from(&b("/usr/bin/zsh")), Some(Shell::Zsh));
    assert_eq!(Shell::detect_from(&b("/usr/local/bin/fish")), Some(Shell::Fish));
    assert_eq!(Shell::detect_from(&b("/opt/elvish")), Some(Shell::Elvish));
    assert_eq!(Shell::detect_from(&b("/usr/bin/pwsh")), Some(Shell::PowerShell));
    assert_eq!(Shell::detect_from(&b("/snap/powershell")), Some(Shell::PowerShell));
    // a bare name works too
    assert_eq!(Shell::detect_from(&b("zsh")), Some(Shell::Zsh));
}

#[test]
fn detect_from_rejects_everything_else() {
    assert_eq!(Shell::detect_from(&b("/bin/tcsh")), None);
    assert_eq!(Shell::detect_from(&b("")), None);
    // a trailing separator leaves an empty basename
    assert_eq!(Shell::detect_from(&b("/bin/bash/")), None);
    // the name must stand alone after the last separator
    assert_eq!(Shell::detect_from(&b("/bin/bashx")), None);
}

#[test]
fn completion_lines_are_exact() {
    assert_eq!(Shell::Bash.completion_line(), "source <(COMPLETE=bash agentfs)");
    assert_eq!(Shell::Zsh.completion_line(), "source <(COMPLETE=zsh agentfs)");
    assert_eq!(Shell::Fish.completion_line(), "COMPLETE=fish agentfs | source");
    assert_eq!(Shell::Elvish.completion_line(), "eval (COMPLETE=elvish agentfs | slurp)");
    assert_eq!(
        Shell::PowerShell.completion_line(),
        "$env:COMPLETE = \"powershell\"; agentfs | Out-String | Invoke-Expression; Remove-Item Env:\\COMPLETE"
    );
}

#[test]
fn shell_names() {
    assert_eq!(Shell::Bash.name(), "bash");
    assert_eq!(Shell::Zsh.name(), "zsh");
    assert_eq!(Shell::Fish.name(), "fish");
    assert_eq!(Shell::Elvish.name(), "elvish");
    assert_eq!(Shell::PowerShell.name(), "powershell");
}

#[test]
fn completion_installed_finds_the_line() {
    let line = b(Shell::Zsh.completion_line());
    let mut contents = b("# my shell setup\nalias ll='ls -l'\n");
    assert!(!completion_installed(&contents, &line));
    contents.extend_from_slice(&line);
    contents.push(b'\n');
    assert!(completion_installed(&contents, &line));
    // the empty needle is everywhere
    assert!(completion_installed(&contents, &b("")));
    // a needle longer than the haystack is nowhere
    assert!(!completion_installed(&b("ab"), &b("abc")));
}

#[test]
fn remove_matching_lines_filters_and_rejoins() {
    let line = b(Shell::Bash.completion_line());
    let mut contents = b("# setup\n");
    contents.extend_from_slice(&line);
    contents.push(b'\n');
    contents.extend_from_slice(b"alias x=1\n");
    assert_eq!(remove_matching_lines(&contents, &line), b("# setup\nalias x=1\n"));
    // removing every line leaves a single newline
    let mut only = line.clone();
    only.push(b'\n');
    assert_eq!(remove_matching_lines(&only, &line), b("\n"));
    // a missing final newline comes back
    assert_eq!(remove_matching_lines(&b("a\nb"), &b("zzz")), b("a\nb\n"));
    // a carriage return goes with its line ending
    assert_eq!(remove_matching_lines(&b("a\r\nb\r\n"), &b("zzz")), b("a\nb\n"));
    // the needle may sit anywhere inside the line
    assert_eq!(remove_matching_lines(&b("keep\nprefix zzz suffix\n"), &b("zzz")), b("keep\n"));
}

#[test]
fn config_paths_split_between_home_and_config() {
    assert_eq!(Shell::Bash.config_path("/home/u", "/home/u/.config"), "/home/u/.bashrc");
    assert_eq!(Shell::Zsh.config_path("/home/u", "/home/u/.config"), "/home/u/.zshrc");
    assert_eq!(
        Shell::Fish.config_path("/home/u", "/home/u/.config"),
        "/home/u/.config/fish/config.fish"
    );
    assert_eq!(
        Shell::Elvish.config_path("/home/u", "/home/u/.config"),
        "/home/u/.config/elvish/rc.elv"
    );
    assert_eq!(
        Shell::PowerShell.config_path("/home/u", "/home/u/.config"),
        "/home/u/.config/powershell/Microsoft.PowerShell_profile.ps1"
    );
}
