use zsh_infinite::text::{contains, matches_at, replace};
use zsh_infinite::utils::install::{install, snippet_content, source_line, theme_script};
use zsh_infinite::utils::uninstall::uninstall;

const SNIPPET: &str = "/home/ann/.config/zsh-infinite/infinite_zshrc_snippet";

fn line() -> String {
    format!("source \"{}\"", SNIPPET)
}

#[test]
fn search_agrees_with_the_standard_library() {
    for (text, pattern) in [
        ("", ""),
        ("abc", ""),
        ("", "a"),
        ("abc", "abc"),
        ("abc", "abcd"),
        ("xxabc", "abc"),
        ("abcabc", "bca"),
        ("aaab", "aab"),
        ("ab\u{2500}cd", "\u{2500}c"),
        ("ab\u{2500}cd", "\u{2501}"),
    ] {
        assert_eq!(contains(text, pattern), text.contains(pattern), "{:?} {:?}", text, pattern);
    }
    let chars: Vec<char> = "abcabc".chars().collect();
    let pattern: Vec<char> = "bc".chars().collect();
    assert!(matches_at(&chars, &pattern, 1));
    assert!(matches_at(&chars, &pattern, 4));
    assert!(!matches_at(&chars, &pattern, 0));
    assert!(!matches_at(&chars, &pattern, 5));
    assert!(!matches_at(&chars, &pattern, 6));
    assert!(matches_at(&chars, &Vec::new(), 6));
}

#[test]
fn replace_agrees_with_the_standard_library() {
    for (text, from, to) in [
        ("", "", ""),
        ("", "", "x"),
        ("ab", "", "-"),
        ("", "a", "b"),
        ("abc", "b", ""),
        ("abc", "b", "xyz"),
        ("aaaa", "aa", "b"),
        ("aaa", "aa", "b"),
        ("abab", "ab", "ab"),
        ("hello {{RUN_DIR}}/bin {{RUN_DIR}}", "{{RUN_DIR}}", "/opt"),
        ("a\u{2500}b\u{2500}", "\u{2500}", "--"),
        ("abc", "abcd", "x"),
        ("xabcabcx", "abc", "c"),
    ] {
        assert_eq!(replace(text, from, to), text.replace(from, to), "{:?} {:?} {:?}", text, from, to);
    }
}

#[test]
fn installation_adds_the_line_once() {
    assert_eq!(source_line(SNIPPET), line());
    let zshrc = "export PATH=$PATH:~/bin\n";
    let edited = install(zshrc, SNIPPET).unwrap();
    assert_eq!(
        edited,
        format!("export PATH=$PATH:~/bin\n\n# Added by zsh-infinite installer\n{}\n", line())
    );
    assert_eq!(install(&edited, SNIPPET), None);
    assert_eq!(install("", SNIPPET), Some(format!("\n# Added by zsh-infinite installer\n{}\n", line())));
    assert_eq!(install(&format!("# {}", line()), SNIPPET), None);
}

#[test]
fn snippet_loads_the_theme_if_it_exists() {
    assert_eq!(
        snippet_content("/t/infinite.zsh-theme"),
        "\n# Added by zsh-infinite installer\nif [ -f \"/t/infinite.zsh-theme\" ]; then\n    source \"/t/infinite.zsh-theme\"\nfi\n"
    );
    assert_eq!(
        theme_script("PROMPT='$({{RUN_DIR}} zsh prompt left)'\n{{RUN_DIR}}", "/opt/zi"),
        "PROMPT='$(/opt/zi zsh prompt left)'\n/opt/zi"
    );
}

#[test]
fn removal_undoes_an_installation() {
    let zshrc = "export PATH=$PATH:~/bin\n";
    let installed = install(zshrc, SNIPPET).unwrap();
    assert_eq!(uninstall(&installed, SNIPPET), Some("export PATH=$PATH:~/bin\n\n".to_string()));
    assert_eq!(uninstall(zshrc, SNIPPET), None);
    assert_eq!(uninstall("", SNIPPET), None);
    assert_eq!(
        uninstall(&format!("a\n{}\nb\n", line()), SNIPPET),
        Some("a\nb\n".to_string())
    );
    // the line between two line breaks goes before the comment at the start is looked for
    assert_eq!(
        uninstall(&format!("# Added by zsh-infinite installer\n{}\nb\n", line()), SNIPPET),
        Some("# Added by zsh-infinite installer\nb\n".to_string())
    );
    assert_eq!(
        uninstall(&format!("# Added by zsh-infinite installer\n{}", line()), SNIPPET),
        Some("# Added by zsh-infinite installer\n".to_string())
    );
    assert_eq!(uninstall(&format!("x {} y", line()), SNIPPET), Some("x  y".to_string()));
}
