use easytex::words::{count_words, include_targets_of, WordWalk};

fn chars(s: &str) -> Vec<char> {
    s.chars().collect()
}

fn strings(v: Vec<Vec<char>>) -> Vec<String> {
    v.into_iter().map(|c| c.into_iter().collect()).collect()
}

#[test]
fn counting_words() {
    assert_eq!(count_words(&chars("")), 0);
    assert_eq!(count_words(&chars("   ")), 0);
    assert_eq!(count_words(&chars("one")), 1);
    assert_eq!(count_words(&chars("  one two\tthree\nfour  ")), 4);
    assert_eq!(count_words(&chars("a\u{3000}b\u{a0}c")), 3);
    let text = "x y z\n w";
    assert_eq!(count_words(&chars(text)) as usize, text.split_whitespace().count());
}

#[test]
fn include_directives() {
    assert_eq!(
        strings(include_targets_of(&chars("\\input{ chap1 } and \\input{chap2.tex}"))),
        vec!["chap1.tex".to_string(), "chap2.tex".to_string()]
    );
    // The argument follows the directive that matched, \input{ or \include{.
    assert_eq!(strings(include_targets_of(&chars("\\include{intro}"))), vec!["intro.tex".to_string()]);
    // Directives are taken in the order they appear, whichever their kind.
    assert_eq!(
        strings(include_targets_of(&chars("\\include{a} \\input{b} \\include{c.tex}"))),
        vec!["a.tex".to_string(), "b.tex".to_string(), "c.tex".to_string()]
    );
    // A directive without a closing brace ends the scan.
    assert_eq!(strings(include_targets_of(&chars("\\input{a} \\input{b"))), vec!["a.tex".to_string()]);
    assert!(include_targets_of(&chars("no directives")).is_empty());
}

#[test]
fn walking_a_document_and_its_inputs() {
    let mut walk = WordWalk::new("/p", "main.tex");
    assert_eq!(walk.next_path().as_deref(), Some("/p/main.tex"));
    walk.visit("Hello world \\input{a} \\input{b}");
    assert_eq!(walk.total(), 4);
    // The last queued file is read first.
    assert_eq!(walk.next_path().as_deref(), Some("/p/b.tex"));
    walk.visit("two words \\input{./main.tex}");
    assert_eq!(walk.next_path().as_deref(), Some("/p/a.tex"));
    walk.visit("three more words");
    // main.tex was read already, under another spelling.
    assert_eq!(walk.next_path(), None);
    assert_eq!(walk.total(), 4 + 3 + 3);
}

#[test]
fn absolute_inputs_replace_the_project_directory() {
    let mut walk = WordWalk::new("/p", "main.tex");
    assert_eq!(walk.next_path().as_deref(), Some("/p/main.tex"));
    walk.visit("\\input{/etc/x}");
    assert_eq!(walk.next_path().as_deref(), Some("/etc/x.tex"));
}

#[test]
fn included_chapters_are_counted() {
    let mut walk = WordWalk::new("/p", "main.tex");
    assert_eq!(walk.next_path().as_deref(), Some("/p/main.tex"));
    walk.visit("a \\include{ch}");
    assert_eq!(walk.next_path().as_deref(), Some("/p/ch.tex"));
    walk.visit("b c");
    assert_eq!(walk.next_path(), None);
    assert_eq!(walk.total(), 4);
}
