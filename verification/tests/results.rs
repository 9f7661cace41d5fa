use yeti_benchmarks::results::best_runs;
use yeti_benchmarks::results::leads;
use yeti_benchmarks::results::ScoredRun;

fn runs(list: &[(&str, u64)]) -> Vec<ScoredRun> {
    list.iter().map(|(name, score)| ScoredRun { test_name: name.to_string(), score: *score }).collect()
}

#[test]
fn no_runs_no_best() {
    assert_eq!(best_runs(&Vec::new()), Vec::<usize>::new());
    assert!(!leads(&Vec::new(), 0));
}

#[test]
fn highest_score_of_each_test_wins() {
    let stored = runs(&[
        ("rest-read", 100),
        ("ws", 7),
        ("rest-read", 250),
        ("rest-read", 120),
        ("ws", 3),
        ("sse", 1),
    ]);
    assert_eq!(best_runs(&stored), vec![1, 2, 5]);
    assert!(leads(&stored, 2));
    assert!(!leads(&stored, 0));
    assert!(!leads(&stored, 3));
    assert!(!leads(&stored, 6));
}

#[test]
fn earliest_of_equal_scores_wins() {
    let stored = runs(&[("a", 5), ("a", 5), ("b", 0), ("a", 5), ("b", 0)]);
    assert_eq!(best_runs(&stored), vec![0, 2]);
}

fn keep_the_better(list: &[(&str, u64)]) -> Vec<usize> {
    let mut best: std::collections::HashMap<String, (u64, usize)> = std::collections::HashMap::new();
    for (i, (name, score)) in list.iter().enumerate() {
        let is_better = match best.get(*name) {
            Some((existing, _)) => score > existing,
            None => true,
        };
        if is_better {
            best.insert(name.to_string(), (*score, i));
        }
    }
    let mut picked: Vec<usize> = best.into_values().map(|(_, i)| i).collect();
    picked.sort();
    picked
}

#[test]
fn best_runs_agree_with_keeping_the_better_one() {
    let names = ["a", "b", "c", "d"];
    let mut x: u64 = 4242;
    for round in 0..50 {
        let mut list = Vec::new();
        for _ in 0..(round % 17) {
            x = x.wrapping_mul(6364136223846793005).wrapping_add(1442695040888963407);
            list.push((names[(x >> 33) as usize % 4], (x >> 60) % 5));
        }
        assert_eq!(best_runs(&runs(&list)), keep_the_better(&list));
    }
}
