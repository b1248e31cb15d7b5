use baroboard::search::{best_score, pinyin_spelling, rank_by_score, search_keys, SCORE_THRESHOLD};

fn bits(x: f64) -> u64 {
    x.to_bits()
}

#[test]
fn keys_are_name_lowercase_and_pinyin() {
    assert_eq!(search_keys("NotePad"), vec!["NotePad".to_string(), "notepad".to_string(), "NotePad".to_string()]);
    assert_eq!(search_keys("记事本"), vec!["记事本".to_string(), "记事本".to_string(), "jishiben".to_string()]);
    assert_eq!(pinyin_spelling("QQ网易云"), "QQwangyiyun");
    assert_eq!(pinyin_spelling(""), "");
}

#[test]
fn threshold_is_one_half() {
    assert_eq!(SCORE_THRESHOLD, bits(0.5));
}

#[test]
fn best_score_takes_the_maximum() {
    assert_eq!(best_score(&vec![bits(0.2), bits(0.9), bits(0.7)]), bits(0.9));
    assert_eq!(best_score(&vec![]), bits(0.0));
}

#[test]
fn ranking_is_best_first_and_stable() {
    let scores = vec![bits(0.6), bits(0.5), bits(0.9), bits(0.6), bits(0.1), bits(1.0)];
    assert_eq!(rank_by_score(&scores), vec![5, 2, 0, 3]);
    assert!(rank_by_score(&vec![bits(0.5), bits(0.0)]).is_empty());
    assert!(rank_by_score(&vec![]).is_empty());
}
