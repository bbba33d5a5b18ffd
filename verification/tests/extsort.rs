use router::storage::extsort::{merge_order, sort_and_merge};

fn run_sort(keys_and_vals: &[(u64, u64)], chunk_size: usize) -> Vec<u64> {
    let keys: Vec<u64> = keys_and_vals.iter().map(|kv| kv.0).collect();
    sort_and_merge(&keys, chunk_size)
        .into_iter()
        .map(|idx| keys_and_vals[idx as usize].1)
        .collect()
}

#[test]
fn extsort_test_empty() {
    assert_eq!(sort_and_merge(&Vec::new(), 4), Vec::<u64>::new());
}

#[test]
fn test_single_chunk() {
    let items = [(3u64, 30u64), (1, 10), (2, 20)];
    assert_eq!(run_sort(&items, 100), [10, 20, 30]);
}

#[test]
fn test_multi_chunk() {
    // chunk_size=2 → 3 runs for 5 items
    let items = [(5u64, 50u64), (3, 30), (1, 10), (4, 40), (2, 20)];
    assert_eq!(run_sort(&items, 2), [10, 20, 30, 40, 50]);
}

#[test]
fn test_large_multi_chunk() {
    let n = 10_000u64;
    // keys in reverse order; chunk_size=500 → 20 chunks
    let items: Vec<(u64, u64)> = (0..n).rev().map(|i| (i, i)).collect();
    let result = run_sort(&items, 500);
    let expected: Vec<u64> = (0..n).collect();
    assert_eq!(result, expected);
}

#[test]
fn equal_keys_later_chunk_first() {
    // chunks of two: [0, 1], [2, 3], [4]; all keys equal
    assert_eq!(sort_and_merge(&vec![7, 7, 7, 7, 7], 2), vec![4, 2, 3, 0, 1]);
    // within a chunk equal keys keep index order
    assert_eq!(sort_and_merge(&vec![1, 1, 0], 3), vec![2, 0, 1]);
}

#[test]
fn merge_of_sorted_chunks() {
    let run = vec![(1, 100), (4, 101), (2, 102), (3, 103)];
    assert_eq!(merge_order(&run, 2), vec![0, 2, 3, 1]);
}
