use histogram256::engine::{chunk_counts, histogram_256, histogram_256_chunked, merge_counts};

fn pseudo_random(n: usize, seed: u64) -> Vec<u32> {
    let mut state = seed;
    let mut out = Vec::with_capacity(n);
    for _ in 0..n {
        state = state.wrapping_mul(6364136223846793005).wrapping_add(1442695040888963407);
        out.push((state >> 33) as u32 % 1_000_000);
    }
    out
}

fn naive(nums: &[u32]) -> Vec<u32> {
    let mut h = vec![0u32; 256];
    if nums.is_empty() {
        return h;
    }
    let mn = *nums.iter().min().unwrap();
    let mx = *nums.iter().max().unwrap();
    for &x in nums {
        let idx = if mx == mn { 0 } else { ((x - mn) as u64 * 255 / (mx - mn) as u64) as usize };
        h[idx] += 1;
    }
    h
}

#[test]
fn empty_input_gives_all_zeros() {
    let h = histogram_256(&[]);
    assert_eq!(h, [0u32; 256]);
}

#[test]
fn all_equal_values_go_to_bucket_zero() {
    for &v in &[0u32, 7, u32::MAX] {
        for n in [1usize, 2, 1000] {
            let nums = vec![v; n];
            let h = histogram_256(&nums);
            assert_eq!(h[0], n as u32);
            assert!(h[1..].iter().all(|&c| c == 0));
        }
    }
}

#[test]
fn boundary_mapping_of_two_values() {
    let h = histogram_256(&[0, 100]);
    assert_eq!(h[0], 1);
    assert_eq!(h[255], 1);
    assert_eq!(h.iter().map(|&c| c as u64).sum::<u64>(), 2);
}

#[test]
fn extreme_values_do_not_overflow() {
    let h = histogram_256(&[0, u32::MAX / 2, u32::MAX]);
    assert_eq!(h[0], 1);
    assert_eq!(h[127], 1);
    assert_eq!(h[255], 1);
}

#[test]
fn midpoint_maps_by_the_formula() {
    // (50 - 0) * 255 / 100 = 127
    let h = histogram_256(&[0, 50, 100]);
    assert_eq!(h[0], 1);
    assert_eq!(h[127], 1);
    assert_eq!(h[255], 1);
    // (13 - 10) * 255 / 20 = 38
    let h = histogram_256(&[10, 13, 30, 13]);
    assert_eq!(h[0], 1);
    assert_eq!(h[38], 2);
    assert_eq!(h[255], 1);
}

#[test]
fn counts_add_up_to_the_length() {
    for (n, seed) in [(1usize, 1u64), (17, 2), (10_000, 3), (70_000, 4)] {
        let nums = pseudo_random(n, seed);
        let h = histogram_256(&nums);
        assert_eq!(h.iter().map(|&c| c as u64).sum::<u64>(), n as u64);
    }
}

#[test]
fn chunk_size_does_not_change_the_result() {
    let nums = pseudo_random(10_000, 42);
    let expected = naive(&nums);
    for chunk in [1usize, 7, 256, 1000, 9_999, 10_000, 65_536, usize::MAX] {
        let h = histogram_256_chunked(&nums, chunk);
        assert_eq!(h.to_vec(), expected, "chunk size {}", chunk);
    }
    assert_eq!(histogram_256(&nums).to_vec(), expected);
}

#[test]
fn larger_values_never_land_in_lower_buckets() {
    let nums: Vec<u32> = (0..=1000u32).map(|i| 5 + i * 3).collect();
    let h = histogram_256(&nums);
    assert_eq!(h.to_vec(), naive(&nums));
    let mut seen = 0u64;
    for (b, &c) in h.iter().enumerate() {
        for &x in &nums[seen as usize..(seen + c as u64) as usize] {
            assert_eq!(((x - 5) as u64 * 255 / 3000) as usize, b);
        }
        seen += c as u64;
    }
    assert_eq!(seen, 1001);
}

#[test]
fn chunk_counts_maps_each_element() {
    let h = chunk_counts(&[10, 20, 20, 30], 10, 20);
    assert_eq!(h[0], 1);
    assert_eq!(h[127], 2);
    assert_eq!(h[255], 1);
    assert_eq!(h.iter().map(|&c| c as u64).sum::<u64>(), 4);
}

#[test]
fn merge_adds_and_saturates() {
    let mut a = [0u32; 256];
    let mut b = [0u32; 256];
    a[0] = u32::MAX - 1;
    b[0] = 5;
    a[3] = 2;
    b[3] = 3;
    b[255] = 9;
    let r = merge_counts(a, b);
    assert_eq!(r[0], u32::MAX);
    assert_eq!(r[3], 5);
    assert_eq!(r[255], 9);
    assert_eq!(r[1], 0);
    assert_eq!(merge_counts(b, a), r);
    assert_eq!(merge_counts([0u32; 256], a), a);
}
