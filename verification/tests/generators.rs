use bolero::boolean::BooleanGenerator;
use bolero::driver::{Bound, ByteSliceDriver, Driver, Rng};
use bolero::generator::{
    generate_from, mutate_from, produce, replay, BoundedValue, TypeGenerator,
    TypeGeneratorWithParams, ValueGenerator,
};
use bolero::time::DurationGenerator;
use bolero::{Duration, Options};
use rand::rngs::StdRng;
use rand::SeedableRng;

/// A thousand inputs of up to 511 random bytes each, drawn through the
/// library's random driver.
fn random_inputs() -> Vec<Vec<u8>> {
    let options = Options::new().with_max_len(8 * 1024 * 1024);
    let mut driver = Rng::new(StdRng::from_rng(&mut rand::rng()), &options);
    let mut inputs = Vec::new();
    for _ in 0..1000 {
        let len = driver
            .gen_u32(Bound::Included(0), Bound::Excluded(512))
            .unwrap() as usize;
        let mut input = Vec::with_capacity(len);
        for _ in 0..len {
            input.push(driver.gen_u8(Bound::Unbounded, Bound::Unbounded).unwrap());
        }
        inputs.push(input);
    }
    inputs
}

/// Generates a value from each input, mutates a copy of it on the same
/// input, and expects the copy to be left as it was.
fn generator_test<G>(generator: G) -> Vec<G::Output>
where
    G: ValueGenerator,
    G::Output: Clone + PartialEq + core::fmt::Debug,
{
    let options = Options::new();
    let inputs = random_inputs();
    let mut results = vec![];
    let mut failed = 0;

    for input in inputs.iter() {
        if let Some(value) = generator.generate(&mut ByteSliceDriver::new(input, &options)) {
            let mut mutated = value.clone();
            generator
                .mutate(&mut ByteSliceDriver::new(input, &options), &mut mutated)
                .expect("mutation with same driver should produce a value");
            assert_eq!(
                value, mutated,
                "a mutation on the same input should leave the value as it was"
            );
            results.push(value);
        } else {
            failed += 1;
        }
    }

    assert_ne!(failed, inputs.len(), "all the inputs failed");
    results
}

#[test]
fn bool_test() {
    let _ = generator_test(produce::<bool>());
}

#[test]
fn bool_with_test() {
    let weight = (0.1f32 * 256.0) as u16;
    let _ = generator_test(bool::gen_with().weight(weight));
}

#[test]
fn duration_test() {
    let _ = generator_test(produce::<Duration>());
}

#[test]
fn duration_values_stay_below_one_second_of_nanos() {
    for value in generator_test(produce::<Duration>()) {
        assert!(value.subsec_nanos() < 1_000_000_000);
    }
}

#[test]
fn weighted_bool_sees_both_values() {
    let values = generator_test(BooleanGenerator::default());
    assert!(values.iter().any(|value| *value));
    assert!(values.iter().any(|value| !*value));
}

#[test]
fn bool_is_true_from_byte_128() {
    let options = Options::new();
    assert_eq!(generate_from(&produce::<bool>(), &[127], &options), Some(false));
    assert_eq!(generate_from(&produce::<bool>(), &[128], &options), Some(true));
    assert_eq!(generate_from(&produce::<bool>(), &[0], &options), Some(false));
    assert_eq!(generate_from(&produce::<bool>(), &[255], &options), Some(true));
}

#[test]
fn bool_weight_is_a_share_of_256() {
    let options = Options::new();
    let never = bool::gen_with().weight(0);
    let always = bool::gen_with().weight(256);
    let tenth = bool::gen_with().weight(26);
    for byte in [0u8, 1, 127, 128, 229, 230, 255] {
        assert_eq!(generate_from(&never, &[byte], &options), Some(false));
        assert_eq!(generate_from(&always, &[byte], &options), Some(true));
        assert_eq!(generate_from(&tenth, &[byte], &options), Some(byte >= 230));
    }
}

#[test]
fn bool_rejects_empty_input() {
    let options = Options::new();
    assert_eq!(generate_from(&produce::<bool>(), &[], &options), None);
    assert_eq!(generate_from(&bool::gen_with().weight(256), &[], &options), None);
}

#[test]
fn constant_bool_takes_no_bytes() {
    let options = Options::new();
    let mut driver = ByteSliceDriver::new(&[9, 8], &options);
    assert_eq!(ValueGenerator::generate(&true, &mut driver), Some(true));
    assert_eq!(ValueGenerator::generate(&false, &mut driver), Some(false));
    assert_eq!(driver.as_slice(), &[9, 8]);
}

#[test]
fn integers_are_little_endian() {
    let options = Options::new();
    assert_eq!(generate_from(&produce::<u8>(), &[7, 1], &options), Some(7));
    assert_eq!(
        generate_from(&produce::<u32>(), &[0x78, 0x56, 0x34, 0x12], &options),
        Some(0x1234_5678)
    );
    assert_eq!(
        generate_from(&produce::<u64>(), &[1, 2, 3, 4, 5, 6, 7, 8, 9], &options),
        Some(0x0807_0605_0403_0201)
    );
    let wide: Vec<u8> = (1..=16).collect();
    assert_eq!(
        generate_from(&produce::<u128>(), &wide, &options),
        Some(0x100f_0e0d_0c0b_0a09_0807_0605_0403_0201)
    );
}

#[test]
fn integers_reject_short_input() {
    let options = Options::new();
    assert_eq!(generate_from(&produce::<u8>(), &[], &options), None);
    assert_eq!(generate_from(&produce::<u32>(), &[1, 2, 3], &options), None);
    assert_eq!(generate_from(&produce::<u64>(), &[1, 2, 3, 4, 5, 6, 7], &options), None);
    assert_eq!(generate_from(&produce::<u128>(), &[0; 15], &options), None);
}

#[test]
fn bounded_integer_from_empty_input_is_a_reject() {
    let options = Options::new();
    let mut driver = ByteSliceDriver::new(&[], &options);
    assert_eq!(driver.gen_u8(Bound::Included(3), Bound::Included(9)), None);
    assert_eq!(driver.gen_u32(Bound::Included(3), Bound::Included(9)), None);
    assert_eq!(driver.gen_u64(Bound::Unbounded, Bound::Unbounded), None);
    assert_eq!(driver.gen_u128(Bound::Unbounded, Bound::Excluded(5)), None);
    assert_eq!(u32::gen_bounded(&mut driver, Bound::Included(1), Bound::Included(2)), None);
    assert_eq!(generate_from(&(3u32..9), &[], &options), None);
}

#[test]
fn ranges_take_the_remainder() {
    let options = Options::new();
    // 10 + 25 % 6
    assert_eq!(generate_from(&(10u8..16), &[25], &options), Some(11));
    // 0x0102 % 1000 = 258
    assert_eq!(generate_from(&(0u32..1000), &[2, 1, 0, 0], &options), Some(258));
    // zero bytes give the start of the range
    assert_eq!(generate_from(&(5u64..6), &[0; 8], &options), Some(5));
    assert_eq!(generate_from(&(5u64..6), &[0xff; 8], &options), Some(5));
}

#[test]
fn bounds_of_every_kind() {
    let options = Options::new();
    let mut driver = ByteSliceDriver::new(&[200, 200, 200, 200, 200], &options);
    // 200 % 10
    assert_eq!(driver.gen_u8(Bound::Included(0), Bound::Excluded(10)), Some(0));
    // 4 + 200 % 7
    assert_eq!(driver.gen_u8(Bound::Excluded(3), Bound::Included(10)), Some(8));
    // 250 + 200 % 6
    assert_eq!(driver.gen_u8(Bound::Included(250), Bound::Unbounded), Some(252));
    assert_eq!(driver.gen_u8(Bound::Unbounded, Bound::Included(0)), Some(0));
    assert_eq!(driver.as_slice(), &[200]);
}

#[test]
fn empty_ranges_are_rejected_and_take_nothing() {
    let options = Options::new();
    let mut driver = ByteSliceDriver::new(&[1, 2, 3, 4], &options);
    assert_eq!(driver.gen_u8(Bound::Included(5), Bound::Excluded(5)), None);
    assert_eq!(driver.gen_u8(Bound::Included(6), Bound::Included(5)), None);
    assert_eq!(driver.gen_u8(Bound::Excluded(255), Bound::Unbounded), None);
    assert_eq!(driver.gen_u8(Bound::Unbounded, Bound::Excluded(0)), None);
    assert_eq!(driver.as_slice(), &[1, 2, 3, 4]);
    assert_eq!(generate_from(&(5u8..5), &[1], &options), None);
}

#[test]
fn driver_respects_max_len() {
    let options = Options::new().with_max_len(3);
    let mut driver = ByteSliceDriver::new(&[1, 2, 3, 4, 5], &options);
    assert_eq!(driver.remaining(), 3);
    assert_eq!(driver.gen_u32(Bound::Unbounded, Bound::Unbounded), None);
    assert_eq!(driver.gen_u8(Bound::Unbounded, Bound::Unbounded), Some(1));
    assert_eq!(driver.remaining(), 2);
    assert_eq!(Options::new().max_len_or_default(), 4096);
}

#[test]
fn nesting_is_limited() {
    let options = Options::new().with_max_depth(2);
    let mut driver = ByteSliceDriver::new(&[], &options);
    assert_eq!(driver.depth(), 0);
    assert_eq!(driver.max_depth(), 2);
    assert_eq!(driver.enter_product(), Some(()));
    assert_eq!(driver.enter_sum(), Some(()));
    assert_eq!(driver.depth(), 2);
    assert_eq!(driver.enter_product(), None);
    assert_eq!(driver.enter_sum(), None);
    assert_eq!(driver.depth(), 2);
    driver.leave();
    assert_eq!(driver.depth(), 1);
    assert_eq!(driver.enter_product(), Some(()));
    driver.leave();
    driver.leave();
    driver.leave();
    assert_eq!(driver.depth(), 0);
}

#[test]
fn duration_is_rejected_where_nothing_may_nest() {
    let options = Options::new().with_max_depth(0);
    assert_eq!(generate_from(&produce::<Duration>(), &[0; 12], &options), None);
    let options = Options::new().with_max_depth(1);
    assert_eq!(
        generate_from(&produce::<Duration>(), &[0; 12], &options),
        Some(Duration::new(0, 0))
    );
}

#[test]
fn duration_reads_seconds_then_nanos() {
    let options = Options::new();
    let mut input = vec![5, 0, 0, 0, 0, 0, 0, 0];
    // 1_000_000_007 % 1_000_000_000
    input.extend_from_slice(&1_000_000_007u32.to_le_bytes());
    assert_eq!(
        generate_from(&produce::<Duration>(), &input, &options),
        Some(Duration::new(5, 7))
    );
    assert_eq!(generate_from(&produce::<Duration>(), &input[..11], &options), None);
    assert_eq!(<Duration as TypeGenerator>::generate(&mut ByteSliceDriver::new(&input, &options)),
        Some(Duration::new(5, 7)));
}

#[test]
fn duration_generator_takes_other_parts() {
    let options = Options::new();
    let generator = Duration::gen_with().seconds(3u64).nanos(2_500_000_000u32);
    // the nanoseconds carry two seconds over
    let value = generate_from(&generator, &[], &options).unwrap();
    assert_eq!(value.as_secs(), 5);
    assert_eq!(value.subsec_nanos(), 500_000_000);
    assert_eq!(value.as_nanos(), 5_500_000_000);

    let generator = Duration::gen_with().seconds(10u64..12).nanos(0u32..1);
    assert_eq!(
        generate_from(&generator, &[3, 0, 0, 0, 0, 0, 0, 0, 9, 9, 9, 9], &options),
        Some(Duration::new(11, 0))
    );
}

#[test]
fn duration_generator_maps_its_parts() {
    let options = Options::new();
    let generator = Duration::gen_with()
        .seconds(7u64)
        .map_seconds(|seconds| seconds + 1)
        .nanos(1u32);
    assert_eq!(generate_from(&generator, &[], &options), Some(Duration::new(8, 1)));

    let mapped: DurationGenerator<u64, u32> =
        Duration::gen_with().seconds(7u64).nanos(1u32).map_nanos(|nanos| nanos + 41);
    assert_eq!(generate_from(&mapped, &[], &options), Some(Duration::new(7, 42)));
    let ranged = Duration::gen_with().seconds(7u64).nanos(1u32).map_nanos(|nanos| nanos..5);
    // 1 + 6 % 4
    assert_eq!(generate_from(&ranged, &[6, 0, 0, 0], &options), Some(Duration::new(7, 3)));
}

#[test]
fn duration_generator_rejects_overflowing_seconds() {
    let options = Options::new();
    let generator = Duration::gen_with().seconds(u64::MAX).nanos(1_000_000_000u32);
    assert_eq!(generate_from(&generator, &[], &options), None);
    let mut value = Duration::new(1, 1);
    assert_eq!(mutate_from(&generator, &[], &options, &mut value), None);
    let generator = Duration::gen_with().seconds(u64::MAX).nanos(999_999_999u32);
    assert_eq!(
        generate_from(&generator, &[], &options),
        Some(Duration::new(u64::MAX, 999_999_999))
    );
}

#[test]
fn rejected_mutation_leaves_the_span_alone() {
    let options = Options::new();
    let generator = produce::<Duration>();
    let before = Duration::new(11, 22);
    // the seconds decode, the nanoseconds do not
    for len in 0..12usize {
        let input = vec![9u8; len];
        let mut value = before;
        assert_eq!(mutate_from(&generator, &input, &options, &mut value), None);
        assert_eq!(value, before);
        let mut value = before;
        let mut driver = ByteSliceDriver::new(&input, &options);
        assert_eq!(TypeGenerator::mutate(&mut value, &mut driver), None);
        assert_eq!(value, before);
    }
    // nothing may nest
    let flat = Options::new().with_max_depth(0);
    let mut value = before;
    assert_eq!(mutate_from(&generator, &[0; 12], &flat, &mut value), None);
    assert_eq!(value, before);
}

#[test]
fn bounded_duration_fits_in_sixty_four_bits_of_nanoseconds() {
    let options = Options::new();
    let mut driver = Rng::from_seed(3, &options);
    let mut some = 0;
    for _ in 0..200 {
        if let Some(span) = Duration::gen_bounded(&mut driver, Bound::Unbounded, Bound::Unbounded)
        {
            assert!(span.as_nanos() <= u64::MAX as u128);
            some += 1;
        }
    }
    // nearly every draw of 128 bits passes 64 bits and is rejected
    assert!(some < 200);
    let mut driver = Rng::from_seed(3, &options);
    for _ in 0..50 {
        let span = Duration::gen_bounded(
            &mut driver,
            Bound::Included(Duration::new(2, 0)),
            Bound::Excluded(Duration::new(3, 0)),
        )
        .unwrap();
        assert_eq!(span.as_secs(), 2);
    }
}

#[test]
fn mutation_replays_generation() {
    let options = Options::new();
    let generator = produce::<Duration>();
    let input: Vec<u8> = (10..30).collect();
    let value = generate_from(&generator, &input, &options).unwrap();
    let mut other = Duration::new(1, 2);
    assert_eq!(mutate_from(&generator, &input, &options, &mut other), Some(()));
    assert_eq!(other, value);
    let mut same = value;
    assert_eq!(mutate_from(&generator, &input, &options, &mut same), Some(()));
    assert_eq!(same, value);

    let mut number = 5u32;
    assert_eq!(mutate_from(&produce::<u32>(), &[1, 0, 0, 0], &options, &mut number), Some(()));
    assert_eq!(number, 1);
    assert_eq!(mutate_from(&produce::<u32>(), &[1, 0, 0], &options, &mut number), None);
    assert_eq!(number, 1);
    let mut flag = false;
    let mut driver = ByteSliceDriver::new(&[200], &options);
    assert_eq!(TypeGenerator::mutate(&mut flag, &mut driver), Some(()));
    assert!(flag);
}

#[test]
fn bounded_duration_counts_nanoseconds() {
    let options = Options::new();
    let min = Duration::new(1, 0);
    let max = Duration::new(1, 10);
    let mut input = vec![0u8; 16];
    input[0] = 25;
    // 1_000_000_000 + 25 % 11
    assert_eq!(
        Duration::gen_bounded(
            &mut ByteSliceDriver::new(&input, &options),
            Bound::Included(min),
            Bound::Included(max)
        ),
        Some(Duration::new(1, 3))
    );
    assert_eq!(
        Duration::gen_bounded(
            &mut ByteSliceDriver::new(&input[..15], &options),
            Bound::Included(min),
            Bound::Included(max)
        ),
        None
    );
    // beyond what sixty-four bits of nanoseconds hold
    let all = vec![0xffu8; 16];
    assert_eq!(
        Duration::gen_bounded(
            &mut ByteSliceDriver::new(&all, &options),
            Bound::Unbounded,
            Bound::Unbounded
        ),
        None
    );
}

#[test]
fn random_driver_stays_within_range_and_budget() {
    let options = Options::new().with_max_len(10);
    let mut driver = Rng::from_seed(7, &options);
    assert_eq!(driver.remaining(), 10);
    for _ in 0..2 {
        let value = driver.gen_u32(Bound::Included(100), Bound::Excluded(110)).unwrap();
        assert!((100..110).contains(&value));
    }
    assert_eq!(driver.remaining(), 2);
    assert_eq!(driver.gen_u32(Bound::Unbounded, Bound::Unbounded), None);
    assert_eq!(driver.remaining(), 2);
    assert!(driver.gen_bool(None).is_some());
    assert!(driver.gen_u8(Bound::Unbounded, Bound::Unbounded).is_some());
    assert_eq!(driver.gen_bool(None), None);
}

#[test]
fn random_driver_hands_out_varied_bytes() {
    let options = Options::new();
    let mut driver = Rng::from_seed(1, &options);
    let mut seen = std::collections::BTreeSet::new();
    for _ in 0..256 {
        seen.insert(driver.gen_u8(Bound::Unbounded, Bound::Unbounded).unwrap());
    }
    assert!(seen.len() > 32);
}

#[test]
fn replay_gives_what_was_generated() {
    let options = Options::new();
    for input in random_inputs().iter().take(200) {
        assert_eq!(
            replay(&produce::<Duration>(), input, &options),
            generate_from(&produce::<Duration>(), input, &options)
        );
        assert_eq!(
            replay(&(3u64..900), input, &options),
            generate_from(&(3u64..900), input, &options)
        );
        assert_eq!(
            replay(&bool::gen_with().weight(77), input, &options),
            generate_from(&bool::gen_with().weight(77), input, &options)
        );
    }
    assert_eq!(replay(&produce::<u32>(), &[1, 2, 3], &options), None);
    assert_eq!(replay(&produce::<u32>(), &[1, 2, 3, 4], &options), Some(0x0403_0201));
}
