use ar5iv::cache::{lucky_url, LuckyStore};

fn corpus(n: usize) -> Vec<String> {
    (0..n).map(|i| format!("2101.{:05}", i)).collect()
}

fn sorted(mut ids: Vec<String>) -> Vec<String> {
    ids.sort();
    ids
}

#[test]
fn lap_hands_out_each_id_once() {
    let n = 50;
    let mut store = LuckyStore::new();
    assert!(store.is_cold());
    let mut handed_out = Vec::new();
    handed_out.push(store.get(corpus(n)).unwrap());
    assert!(!store.is_cold());
    for _ in 1..n {
        handed_out.push(store.get(Vec::new()).unwrap());
    }
    assert_eq!(sorted(handed_out), corpus(n));
}

#[test]
fn pick_after_a_lap_begins_the_next_lap() {
    let n = 7;
    let mut store = LuckyStore::new();
    let mut first_lap = vec![store.get(corpus(n)).unwrap()];
    for _ in 1..n {
        first_lap.push(store.get(Vec::new()).unwrap());
    }
    let mut second_lap = Vec::new();
    for _ in 0..n {
        second_lap.push(store.get(Vec::new()).unwrap());
    }
    assert_eq!(sorted(first_lap), corpus(n));
    assert_eq!(sorted(second_lap), corpus(n));
    let mut third_lap = Vec::new();
    for _ in 0..n {
        third_lap.push(store.get(corpus(3)).unwrap());
    }
    assert_eq!(sorted(third_lap), corpus(n));
}

#[test]
fn corpus_is_used_by_a_cold_store_only() {
    let mut store = LuckyStore::new();
    let first = store.get(vec!["a".to_string(), "b".to_string()]).unwrap();
    let second = store.get(vec!["x".to_string(), "y".to_string(), "z".to_string()]).unwrap();
    assert_eq!(sorted(vec![first, second]), vec!["a".to_string(), "b".to_string()]);
}

#[test]
fn ids_that_the_corpus_holds_twice_come_twice() {
    let mut store = LuckyStore::new();
    let ids = vec!["a".to_string(), "b".to_string(), "a".to_string()];
    let mut handed_out = vec![store.get(ids).unwrap()];
    handed_out.push(store.get(Vec::new()).unwrap());
    handed_out.push(store.get(Vec::new()).unwrap());
    assert_eq!(sorted(handed_out), vec!["a".to_string(), "a".to_string(), "b".to_string()]);
}

#[test]
fn corpus_of_one_is_handed_out_again_and_again() {
    let mut store = LuckyStore::new();
    assert_eq!(store.get(vec!["only".to_string()]), Some("only".to_string()));
    assert_eq!(store.get(Vec::new()), Some("only".to_string()));
    assert_eq!(store.get(Vec::new()), Some("only".to_string()));
}

#[test]
fn empty_corpus_hands_out_nothing() {
    let mut store = LuckyStore::new();
    assert_eq!(store.get(Vec::new()), None);
    assert!(store.is_cold());
    assert_eq!(store.get(Vec::new()), None);
    assert_eq!(store.get(vec!["late".to_string()]), Some("late".to_string()));
}

#[test]
fn laps_are_shuffled() {
    let n = 200;
    let mut store = LuckyStore::default();
    let mut first_lap = vec![store.get(corpus(n)).unwrap()];
    for _ in 1..n {
        first_lap.push(store.get(Vec::new()).unwrap());
    }
    let mut second_lap = Vec::new();
    for _ in 0..n {
        second_lap.push(store.get(Vec::new()).unwrap());
    }
    assert_ne!(first_lap, corpus(n));
    assert_ne!(second_lap, first_lap);
}

#[test]
fn lucky_url_names_a_paper_of_the_corpus() {
    let ids = corpus(20);
    for _ in 0..50 {
        let url = lucky_url(corpus(20)).unwrap();
        assert!(url.starts_with("/html/"));
        assert!(ids.contains(&url["/html/".len()..].to_string()));
    }
}

#[test]
fn lucky_url_of_one_paper() {
    assert_eq!(lucky_url(vec!["astro-ph/0001016".to_string()]), Some("/html/astro-ph/0001016".to_string()));
}

#[test]
fn lucky_url_without_papers() {
    assert_eq!(lucky_url(Vec::new()), None);
}

#[test]
fn lucky_url_reaches_every_paper() {
    let mut seen = std::collections::BTreeSet::new();
    for _ in 0..400 {
        seen.insert(lucky_url(corpus(4)).unwrap());
    }
    assert_eq!(seen.len(), 4);
}
