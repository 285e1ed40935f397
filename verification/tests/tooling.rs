use bolero::libfuzzer::{decimal, fuzz_flags, shrink_flags, FuzzArgs, FLAGS};
use bolero::report::{Stats, Window};
use bolero::scaffold::{New, FUZZ_FILE, GENERATOR_FILE};

#[test]
fn decimal_digits() {
    assert_eq!(decimal(0), "0");
    assert_eq!(decimal(7), "7");
    assert_eq!(decimal(10), "10");
    assert_eq!(decimal(1234567890), "1234567890");
    assert_eq!(decimal(u64::MAX), "18446744073709551615");
    for value in [9u64, 99, 100, 101, 4096, 999_999] {
        assert_eq!(decimal(value), value.to_string());
    }
}

#[test]
fn fuzz_flags_name_each_limit_that_is_set() {
    let args = FuzzArgs {
        seed: Some(5),
        runs: Some(1000),
        time: Some(60),
        max_input_length: Some(4096),
        jobs: Some(2),
    };
    assert_eq!(
        fuzz_flags("target/crashes", &args),
        vec![
            "-artifact_prefix=target/crashes/",
            "-seed=5",
            "-runs=1000",
            "-max_total_time=60",
            "-max_len=4096",
            "-jobs=2",
        ]
    );
    let args = FuzzArgs { runs: Some(0), jobs: Some(12), ..FuzzArgs::default() };
    assert_eq!(fuzz_flags("c", &args), vec!["-artifact_prefix=c/", "-runs=0", "-jobs=12"]);
    assert_eq!(fuzz_flags("", &FuzzArgs::default()), vec!["-artifact_prefix=/"]);
}

#[test]
fn shrink_flags_reduce_a_corpus() {
    assert_eq!(shrink_flags(), vec!["-shrink=1", "-merge=1", "-reduce_inputs=1"]);
    assert_eq!(FLAGS.len(), 4);
    assert_eq!(FLAGS[0], "--cfg fuzzing_libfuzzer");
}

#[test]
fn new_target_picks_its_template() {
    let mut new = New {
        test: String::from("parser"),
        package: None,
        manifest_path: None,
        generator: false,
    };
    assert_eq!(new.template(), FUZZ_FILE);
    assert!(new.template().starts_with("use bolero::fuzz;\n"));
    new.generator = true;
    assert_eq!(new.template(), GENERATOR_FILE);
    assert!(new.template().starts_with("use bolero::{fuzz, generator::*};\n"));
}

#[test]
fn new_target_is_registered_in_the_manifest() {
    let new = New {
        test: String::from("parser"),
        package: Some(String::from("app")),
        manifest_path: None,
        generator: false,
    };
    assert_eq!(
        new.manifest_entry(),
        "\n[[test]]\nname = \"parser\"\npath = \"tests/parser/main.rs\"\nharness = false\n"
    );
    assert_eq!(new.source_path(), "tests/parser/main.rs");
}

#[test]
fn rejected_runs_do_not_count_as_valid() {
    let mut stats = Stats::new();
    for _ in 0..10 {
        assert!(!stats.on_result(false));
    }
    for _ in 0..5 {
        assert!(!stats.on_result(true));
    }
    let window = stats.close_window();
    assert_eq!(
        window,
        Window { total_runs: 5, window_runs: 5, total_valid: 5, window_valid: 5 }
    );
    assert!(window.all_valid());
}

#[test]
fn rejected_runs_leave_the_counts_alone() {
    let mut stats = Stats::new();
    for _ in 0..1023 {
        assert!(!stats.on_result(true));
    }
    let before = stats;
    // a rejected input is no run, so the 1024th run is still to come
    for _ in 0..5000 {
        assert!(!stats.on_result(false));
        assert_eq!(stats, before);
    }
    assert!(stats.on_result(true));
    assert!(!stats.on_result(false));
    assert_eq!(
        stats.close_window(),
        Window { total_runs: 1024, window_runs: 1024, total_valid: 1024, window_valid: 1024 }
    );
}

#[test]
fn a_look_is_due_every_1024_runs() {
    let mut stats = Stats::new();
    for run in 1..=4096u64 {
        assert_eq!(stats.on_result(true), run % 1024 == 0);
    }
    let window = stats.close_window();
    assert_eq!(window.window_runs, 4096);
    assert!(window.all_valid());
    // the new window starts at zero; every second input is rejected
    let mut counted = 0u64;
    for run in 1..=2048u64 {
        let is_valid = run % 2 == 0;
        if is_valid {
            counted += 1;
        }
        assert_eq!(stats.on_result(is_valid), is_valid && counted == 1024);
    }
    let window = stats.close_window();
    assert_eq!(
        window,
        Window { total_runs: 5120, window_runs: 1024, total_valid: 5120, window_valid: 1024 }
    );
    assert_eq!(
        stats.close_window(),
        Window { total_runs: 5120, window_runs: 0, total_valid: 5120, window_valid: 0 }
    );
    assert_eq!(Stats::default(), Stats::new());
}
