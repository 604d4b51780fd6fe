use lint_session::diagnostic::{Diagnostic, Position, Range};
use lint_session::order::{compare_bytes, precedes_or_ties, sort_diagnostics};

fn diag(code: &str, file: &str, line: usize, col: usize) -> Diagnostic {
    Diagnostic {
        code: code.to_string(),
        message: format!("message of {}", code),
        hint: None,
        filename: file.to_string(),
        range: Range::new(
            Position { line_index: line, column_index: col },
            Position { line_index: line, column_index: col + 1 },
        ),
    }
}

#[test]
fn sorts_by_file_then_line_then_column() {
    let d1 = diag("d1", "a.ts", 5, 2);
    let d2 = diag("d2", "a.ts", 5, 1);
    let d3 = diag("d3", "b.ts", 1, 1);
    let mut v = vec![d1.clone(), d2.clone(), d3.clone()];
    sort_diagnostics(&mut v);
    assert_eq!(v, vec![d2.clone(), d1.clone(), d3.clone()]);
    let mut w = vec![d3.clone(), d1.clone(), d2.clone()];
    sort_diagnostics(&mut w);
    assert_eq!(w, vec![d2, d1, d3]);
}

#[test]
fn line_comes_before_column() {
    let a = diag("a", "a.ts", 2, 9);
    let b = diag("b", "a.ts", 10, 0);
    let mut v = vec![b.clone(), a.clone()];
    sort_diagnostics(&mut v);
    assert_eq!(v, vec![a, b]);
}

#[test]
fn equal_keys_keep_their_order() {
    let a = diag("first", "a.ts", 1, 1);
    let b = diag("second", "a.ts", 1, 1);
    let c = diag("third", "a.ts", 0, 0);
    let mut v = vec![a.clone(), b.clone(), c.clone()];
    sort_diagnostics(&mut v);
    assert_eq!(v, vec![c.clone(), a.clone(), b.clone()]);
    let mut w = vec![b.clone(), a.clone(), c.clone()];
    sort_diagnostics(&mut w);
    assert_eq!(w, vec![c, b, a]);
}

#[test]
fn sorting_nothing_gives_nothing() {
    let mut v: Vec<Diagnostic> = Vec::new();
    sort_diagnostics(&mut v);
    assert!(v.is_empty());
}

#[test]
fn sorted_order_does_not_depend_on_arrival_order() {
    let items = vec![
        diag("a", "z.ts", 0, 0),
        diag("b", "a.ts", 3, 0),
        diag("c", "a.ts", 1, 7),
        diag("d", "m.ts", 1, 1),
        diag("e", "a.ts", 1, 2),
    ];
    let mut one = items.clone();
    let mut two: Vec<Diagnostic> = items.iter().rev().cloned().collect();
    sort_diagnostics(&mut one);
    sort_diagnostics(&mut two);
    assert_eq!(one, two);
    let codes: Vec<&str> = one.iter().map(|d| d.code.as_str()).collect();
    assert_eq!(codes, vec!["e", "c", "b", "d", "a"]);
}

#[test]
fn bytes_compare_lexicographically() {
    assert_eq!(compare_bytes(b"a.ts", b"b.ts"), -1);
    assert_eq!(compare_bytes(b"b.ts", b"a.ts"), 1);
    assert_eq!(compare_bytes(b"a.ts", b"a.ts"), 0);
    assert_eq!(compare_bytes(b"a", b"a.ts"), -1);
    assert_eq!(compare_bytes(b"a.ts", b"a"), 1);
    assert_eq!(compare_bytes(b"", b""), 0);
    assert_eq!(compare_bytes(b"Z", b"a"), -1);
}

#[test]
fn order_test_agrees_with_the_keys() {
    assert!(precedes_or_ties(&diag("x", "a.ts", 5, 1), &diag("y", "a.ts", 5, 2)));
    assert!(!precedes_or_ties(&diag("x", "a.ts", 5, 2), &diag("y", "a.ts", 5, 1)));
    assert!(precedes_or_ties(&diag("x", "a.ts", 5, 2), &diag("y", "a.ts", 5, 2)));
    assert!(precedes_or_ties(&diag("x", "a.ts", 9, 9), &diag("y", "b.ts", 0, 0)));
    assert!(!precedes_or_ties(&diag("x", "b.ts", 0, 0), &diag("y", "a.ts", 9, 9)));
}
