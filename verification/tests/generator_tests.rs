use passcode_cracker::combinations::CombinationGenerator;

fn collect_space(length: usize) -> Vec<Vec<u8>> {
    let mut generator = CombinationGenerator::new(length);
    let mut out: Vec<Vec<u8>> = Vec::new();
    while let Some(candidate) = generator.next() {
        out.push(candidate);
    }
    out
}

fn numeric_value(digits: &[u8]) -> usize {
    let mut value: usize = 0;
    for d in digits {
        value = value * 10 + *d as usize;
    }
    value
}

#[test]
fn generates_full_space_in_order() {
    for length in 1..=4usize {
        let space = collect_space(length);
        let expected_count = 10usize.pow(length as u32);
        assert_eq!(space.len(), expected_count);
        for (i, candidate) in space.iter().enumerate() {
            assert_eq!(candidate.len(), length);
            assert!(candidate.iter().all(|d| *d < 10));
            // the candidate at position i reads as the number i: ascending
            // numeric order, no repeats, and every combination covered
            assert_eq!(numeric_value(candidate), i);
        }
    }
}

#[test]
fn generator_is_restartable() {
    let first = collect_space(2);
    let second = collect_space(2);
    assert_eq!(first, second);
    assert_eq!(first[0], vec![0, 0]);
    assert_eq!(first[99], vec![9, 9]);
    assert_eq!(first[37], vec![3, 7]);
}

#[test]
fn generator_exhausts_once() {
    let mut generator = CombinationGenerator::new(1);
    for expected in 0..10u8 {
        assert_eq!(generator.next(), Some(vec![expected]));
    }
    assert_eq!(generator.next(), None);
    assert_eq!(generator.next(), None);
}

#[test]
fn generator_zero_length() {
    let space = collect_space(0);
    assert_eq!(space, vec![Vec::<u8>::new()]);
}
