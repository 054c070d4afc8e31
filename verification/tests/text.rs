use utxo_commitments::text::{push_byte_list, push_decimal};

#[test]
fn decimal_agrees_with_display() {
    for n in [0u64, 1, 9, 10, 11, 99, 100, 546, 1_000_000, u64::MAX] {
        let mut out = "n=".to_string();
        push_decimal(&mut out, n);
        assert_eq!(out, format!("n={}", n));
    }
}

#[test]
fn byte_list_agrees_with_debug() {
    let lists: Vec<Vec<u8>> = vec![vec![], vec![0], vec![255, 0], vec![1, 20, 200, 9]];
    for bytes in lists {
        let mut out = "bytes ".to_string();
        push_byte_list(&mut out, &bytes);
        assert_eq!(out, format!("bytes {:?}", bytes));
    }
}
