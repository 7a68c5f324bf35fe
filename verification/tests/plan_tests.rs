use globalsearch_benches::functions::ackley::Ackley;
use globalsearch_benches::functions::cross_in_tray::CrossInTray;
use globalsearch_benches::functions::griewank::Griewank;
use globalsearch_benches::functions::six_hump_camel::SixHumpCamel;
use globalsearch_benches::functions::{all_dims, BenchmarkFn};
use globalsearch_benches::plan::{
    default_dims, pick, select, trial_seed, trial_seeds, SEED_STRIDE,
};

#[test]
fn seeds_of_five_trials() {
    assert_eq!(trial_seeds(5), vec![0, 702983, 1405966, 2108949, 2811932]);
}

#[test]
fn seed_is_index_times_stride() {
    assert_eq!(SEED_STRIDE, 702983);
    assert_eq!(trial_seed(0), 0);
    assert_eq!(trial_seed(1), 702983);
    assert_eq!(trial_seed(19), 19 * 702983);
    assert_eq!(trial_seed(1_000_000), 702_983_000_000);
}

#[test]
fn seed_wraps_beyond_64_bits() {
    assert_eq!(trial_seed(u64::MAX), u64::MAX.wrapping_mul(702983));
    assert_eq!(trial_seed(u64::MAX), 0u64.wrapping_sub(702983));
}

#[test]
fn seeds_of_no_trials() {
    assert_eq!(trial_seeds(0), Vec::<u64>::new());
}

#[test]
fn seeds_are_distinct() {
    let seeds = trial_seeds(1000);
    assert_eq!(seeds.len(), 1000);
    for i in 0..seeds.len() {
        for j in 0..i {
            assert_ne!(seeds[i], seeds[j]);
        }
    }
    let far = [0u64, 1, u64::MAX, u64::MAX / 702983, u64::MAX / 702983 + 1, 1 << 63];
    for a in far {
        for b in far {
            if a != b {
                assert_ne!(trial_seed(a), trial_seed(b));
            }
        }
    }
}

#[test]
fn default_dimensions() {
    assert_eq!(default_dims(None), vec![10, 50, 100]);
    assert_eq!(default_dims(Some(7)), vec![7]);
}

#[test]
fn names_of_the_problems() {
    assert_eq!(Ackley.name(), "Ackley");
    assert_eq!(Griewank.name(), "Griewank");
    assert_eq!(SixHumpCamel.name(), "SixHumpCamel");
    assert_eq!(CrossInTray.name(), "CrossInTray");
}

#[test]
fn supported_dimensions() {
    let asked = [10usize, 50, 100];
    assert_eq!(Ackley.supported_dims(&asked), vec![10, 50, 100]);
    assert_eq!(Griewank.supported_dims(&asked), vec![10, 50, 100]);
    assert_eq!(SixHumpCamel.supported_dims(&asked), vec![2]);
    assert_eq!(CrossInTray.supported_dims(&asked), vec![2]);
    assert_eq!(CrossInTray.supported_dims(&[]), vec![2]);
    assert_eq!(Ackley.supported_dims(&[100, 3, 100]), vec![100, 3, 100]);
    assert_eq!(all_dims(&[4, 1]), vec![4, 1]);
}

fn names() -> Vec<&'static str> {
    vec!["Ackley", "Griewank", "SixHumpCamel", "CrossInTray"]
}

#[test]
fn select_everything_when_nothing_is_asked_for() {
    assert_eq!(select(&names(), None), vec![0, 1, 2, 3]);
}

#[test]
fn select_sets_letter_case_aside() {
    assert_eq!(select(&names(), Some("ACKLEY")), vec![0]);
    assert_eq!(select(&names(), Some("sixhumpcamel")), vec![2]);
    assert_eq!(select(&names(), Some("CrossInTray")), vec![3]);
}

#[test]
fn select_an_unknown_name_gives_nothing() {
    assert_eq!(select(&names(), Some("Rosenbrok")), Vec::<usize>::new());
    assert_eq!(select(&names(), Some("")), Vec::<usize>::new());
}

#[test]
fn select_finds_every_match_in_order() {
    let twice = vec!["Levy", "ackley", "LEVY"];
    assert_eq!(select(&twice, Some("levy")), vec![0, 2]);
}

#[test]
fn pick_compares_exactly() {
    let lowered = vec!["ackley".to_string(), "Ackley".to_string(), "ackley".to_string()];
    assert_eq!(pick(&lowered, &Some("ackley".to_string())), vec![0, 2]);
    assert_eq!(pick(&lowered, &None), vec![0, 1, 2]);
    assert_eq!(pick(&lowered, &Some("griewank".to_string())), Vec::<usize>::new());
    assert_eq!(pick(&Vec::new(), &None), Vec::<usize>::new());
}
