use globalsearch_benches::store::{RunStatistics, Series};

fn entries(stats: &RunStatistics<u32>) -> Vec<(String, Vec<u32>)> {
    let mut out = Vec::new();
    for i in 0..stats.len() {
        let series: &Series<u32> = stats.series(i);
        out.push((series.name.clone(), series.points.clone()));
    }
    out
}

#[test]
fn new_store_is_empty() {
    let stats: RunStatistics<u32> = RunStatistics::new();
    assert_eq!(stats.len(), 0);
    assert_eq!(stats.find(&"Ackley".to_string()), None);
    assert_eq!(stats.get(&"Ackley".to_string()), None);
}

#[test]
fn insert_keeps_the_order_of_problems_and_of_points() {
    let mut stats: RunStatistics<u32> = RunStatistics::new();
    stats.insert("Griewank".to_string(), vec![100, 10, 50]);
    stats.insert("Ackley".to_string(), vec![3, 1, 2]);
    assert_eq!(stats.len(), 2);
    assert_eq!(
        entries(&stats),
        vec![
            ("Griewank".to_string(), vec![100, 10, 50]),
            ("Ackley".to_string(), vec![3, 1, 2]),
        ]
    );
    assert_eq!(stats.get(&"Ackley".to_string()), Some(&vec![3, 1, 2]));
    assert_eq!(stats.find(&"Ackley".to_string()), Some(1));
    assert_eq!(stats.get(&"ackley".to_string()), None);
}

#[test]
fn insert_under_a_known_name_replaces_in_place() {
    let mut stats: RunStatistics<u32> = RunStatistics::new();
    stats.insert("A".to_string(), vec![1]);
    stats.insert("B".to_string(), vec![2]);
    stats.insert("A".to_string(), vec![3, 4]);
    assert_eq!(
        entries(&stats),
        vec![("A".to_string(), vec![3, 4]), ("B".to_string(), vec![2])]
    );
    assert_eq!(stats.get(&"B".to_string()), Some(&vec![2]));
}

#[test]
fn writing_out_and_reading_in_gives_the_same_store() {
    let mut stats: RunStatistics<u32> = RunStatistics::new();
    stats.insert("Ackley".to_string(), vec![1, 2, 3]);
    stats.insert("Griewank".to_string(), vec![]);
    stats.insert("CrossInTray".to_string(), vec![9]);
    let written = entries(&stats);
    let mut read: RunStatistics<u32> = RunStatistics::new();
    for (name, points) in written.clone() {
        read.insert(name, points);
    }
    assert_eq!(entries(&read), written);
}

#[test]
fn baseline_is_found_by_the_name_of_the_current_problem() {
    let mut current: RunStatistics<u32> = RunStatistics::new();
    current.insert("Ackley".to_string(), vec![1]);
    current.insert("Levy".to_string(), vec![2]);
    let mut baseline: RunStatistics<u32> = RunStatistics::new();
    baseline.insert("Levy".to_string(), vec![20]);
    let mut pairs = Vec::new();
    for i in 0..current.len() {
        let series = current.series(i);
        pairs.push((series.points.clone(), baseline.get(&series.name).cloned()));
    }
    assert_eq!(pairs, vec![(vec![1], None), (vec![2], Some(vec![20]))]);
}
