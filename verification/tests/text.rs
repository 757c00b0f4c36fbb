use spinoza::text::{join_strings, push_debug_list, push_debug_str, push_decimal, stable_order_by_key, str_eq, str_lt};

#[test]
fn debug_quoting_matches_std() {
    for s in ["plain", "a\"b", "back\\slash", "line\nbreak\ttab\r", "nul\0", "ctl\u{1}\u{1f}\u{7f}", "é ü"] {
        let mut out = String::new();
        push_debug_str(&mut out, s);
        assert_eq!(out, format!("{:?}", s));
    }
    let items = vec!["assembled".to_string(), "matrix\"free".to_string()];
    let mut out = String::new();
    push_debug_list(&mut out, &items);
    assert_eq!(out, format!("{:?}", items));
    let mut empty = String::new();
    push_debug_list(&mut empty, &Vec::new());
    assert_eq!(empty, "[]");
}

#[test]
fn decimal_and_join() {
    for n in [0usize, 7, 10, 99, 12345, usize::MAX] {
        let mut out = String::new();
        push_decimal(&mut out, n);
        assert_eq!(out, n.to_string());
    }
    let items = vec!["a".to_string(), "b".to_string(), "c".to_string()];
    assert_eq!(join_strings(&items, ", "), "a, b, c");
    assert_eq!(join_strings(&Vec::new(), ", "), "");
}

#[test]
fn string_order_matches_std() {
    let words = ["", "a", "ab", "b", "B", "Solver_CG", "Space_H1Scalar", "Solver_GMRES"];
    for a in words {
        for b in words {
            assert_eq!(str_lt(a, b), a < b, "{a:?} < {b:?}");
            assert_eq!(str_eq(a, b), a == b);
        }
    }
}

#[test]
fn stable_order_sorts_and_keeps_ties() {
    let keys: Vec<String> = ["poisson", "block2x2", "poisson", "elasticity"].iter().map(|s| s.to_string()).collect();
    assert_eq!(stable_order_by_key(&keys), vec![1, 3, 0, 2]);
}
