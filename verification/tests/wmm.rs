use kinavis::error::KernelError;
use kinavis::wmm::{check_layout, slot, MAX_COEFFICIENTS, MAX_DEGREE, TABLE_LEN};

fn file_order() -> Vec<(u8, u8)> {
    let mut rows = Vec::new();
    for n in 1..=MAX_DEGREE as u8 {
        for m in 0..=n {
            rows.push((n, m));
        }
    }
    rows
}

#[test]
fn the_triangular_table_holds_every_pair_once() {
    let mut seen = vec![false; TABLE_LEN];
    for n in 0..=MAX_DEGREE {
        for m in 0..=n {
            let s = slot(n, m);
            assert!(s < TABLE_LEN);
            assert!(!seen[s]);
            seen[s] = true;
        }
    }
    assert!(seen.iter().all(|&b| b));
    assert_eq!(slot(2, 1), 4);
    assert_eq!(slot(usize::MAX, 1), usize::MAX / 2 + 1);
}

#[test]
fn a_supplied_table_is_checked_for_length_and_order() {
    let rows = file_order();
    assert_eq!(rows.len(), MAX_COEFFICIENTS);
    assert!(check_layout(&rows).is_ok());
    for (k, &(n, m)) in rows.iter().enumerate() {
        assert_eq!(slot(n as usize, m as usize), k + 1);
    }
    assert!(matches!(check_layout(&rows[..2]), Err(KernelError::InsufficientData { .. })));
    let mut long = rows.clone();
    long.push((13, 0));
    assert!(matches!(check_layout(&long), Err(KernelError::CapacityExceeded { .. })));
    let disordered = vec![(12u8, 12u8); MAX_COEFFICIENTS];
    assert!(matches!(check_layout(&disordered), Err(KernelError::Parse { .. })));
}
