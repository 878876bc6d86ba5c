use stratsample::sampler::{sample_from, Reservoir};

fn b(s: &str) -> Vec<u8> {
    s.as_bytes().to_vec()
}

fn items(count: usize) -> Vec<Vec<u8>> {
    let mut v = Vec::new();
    for i in 0..count {
        v.push(b(&format!("/r/A/f{i}")));
    }
    v
}

#[test]
fn sample_size_is_min_of_target_and_available() {
    assert_eq!(sample_from(&items(10), 3).len(), 3);
    assert_eq!(sample_from(&items(3), 3).len(), 3);
    assert_eq!(sample_from(&items(1), 3).len(), 1);
    assert_eq!(sample_from(&items(0), 3).len(), 0);
    assert_eq!(sample_from(&items(10), 0).len(), 0);
    assert_eq!(sample_from(&items(0), 0).len(), 0);
}

#[test]
fn sample_holds_only_source_items() {
    let src = items(7);
    for _ in 0..200 {
        let s = sample_from(&src, 4);
        for it in &s {
            assert!(src.contains(it));
        }
    }
}

#[test]
fn sample_never_repeats_a_source_item() {
    let src = items(10);
    for _ in 0..300 {
        let s = sample_from(&src, 6);
        for i in 0..s.len() {
            for j in (i + 1)..s.len() {
                assert_ne!(s[i], s[j]);
            }
        }
    }
}

#[test]
fn reservoir_observes_each_item_once() {
    let mut r = Reservoir::new(3);
    for _ in 0..5 {
        r.observe();
    }
    assert_eq!(r.seen, 5);
    assert_eq!(r.slots.len(), 3);
    for i in 0..r.slots.len() {
        assert!(r.slots[i] < 5);
        for j in (i + 1)..r.slots.len() {
            assert_ne!(r.slots[i], r.slots[j]);
        }
    }
}

#[test]
fn reservoir_short_stream_keeps_everything() {
    let mut r = Reservoir::new(4);
    r.observe();
    r.observe();
    assert_eq!(r.slots, vec![0, 1]);
}

#[test]
fn uniformity_over_many_trials() {
    // 10 items, 3 slots: each item should be chosen with frequency close
    // to 3/10 over many runs.
    let src = items(10);
    let trials = 30000;
    let mut counts = [0usize; 10];
    for _ in 0..trials {
        let s = sample_from(&src, 3);
        assert_eq!(s.len(), 3);
        for it in &s {
            let d = (it[it.len() - 1] - b'0') as usize;
            counts[d] += 1;
        }
    }
    // Expected 9000 per item; the tolerance is far beyond statistical noise.
    for (i, &c) in counts.iter().enumerate() {
        assert!(
            c > 7800 && c < 10200,
            "item {i} was selected {c} times out of {trials} trials"
        );
    }
}
