use deagle::loc::{loc_report, LocRow};

fn row(language: &str, files: usize, code: usize, comments: usize, blanks: usize) -> LocRow {
    LocRow { language: language.to_string(), files, code, comments, blanks }
}

#[test]
fn report_orders_by_code_and_skips_empty_languages() {
    let rows = vec![
        row("Rust", 2, 100, 10, 5),
        row("Markdown", 1, 0, 0, 3),
        row("Python", 3, 100, 0, 1),
        row("Go", 1, 300, 5, 2),
    ];
    let r = loc_report(&rows);
    let names: Vec<_> = r.rows.iter().map(|x| x.language.as_str()).collect();
    assert_eq!(names, vec!["Go", "Rust", "Python"]);
    assert_eq!((r.files, r.code, r.comments, r.blanks), (6, 500, 15, 8));
}

#[test]
fn report_of_nothing_is_empty() {
    let r = loc_report(&Vec::new());
    assert!(r.rows.is_empty());
    assert_eq!((r.files, r.code, r.comments, r.blanks), (0, 0, 0, 0));
}

#[test]
fn comment_only_language_is_shown() {
    let r = loc_report(&vec![row("Text", 1, 0, 4, 0)]);
    assert_eq!(r.rows.len(), 1);
    assert_eq!(r.comments, 4);
}
