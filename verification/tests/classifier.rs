use dropnote::classifier::is_due_today;

#[test]
fn explicit_today() {
    assert!(is_due_today("今日中に牛乳買う"));
    assert!(is_due_today("今日 PR を出す"));
}

#[test]
fn tomorrow_counts() {
    assert!(is_due_today("明日 PR レビュー"));
}

#[test]
fn time_of_day() {
    assert!(is_due_today("18時までに連絡"));
    assert!(is_due_today("9時 ミーティング"));
    assert!(is_due_today("１８時 集合")); // full-width digits
}

#[test]
fn dusk_and_dawn() {
    assert!(is_due_today("夕方に散歩"));
    assert!(is_due_today("今夜映画"));
    assert!(is_due_today("明朝ジョグ"));
}

#[test]
fn non_urgent() {
    assert!(!is_due_today("ベルトの斜め配置できたら面白そう"));
    assert!(!is_due_today("factory ゲームのチュートリアル"));
    assert!(!is_due_today("Pxlot のパレット選択、HSL 空間で"));
}

#[test]
fn does_not_flag_random_digits() {
    // "12" alone shouldn't trigger; need "時" suffix.
    assert!(!is_due_today("12 個ほしい"));
}

#[test]
fn clock_pattern_allows_space_before_hour_marker() {
    assert!(is_due_today("7 時に起きる"));
    assert!(is_due_today("7\u{3000}時"));
    assert!(!is_due_today("時間がある"));
}

#[test]
fn keyword_anywhere_in_text() {
    assert!(is_due_today("買い物は夕方"));
    assert!(!is_due_today(""));
    assert!(!is_due_today("今 日"));
}

#[test]
fn keyword_flag_survives_surrounding_text() {
    for kw in ["今日", "今夜", "夕方", "明朝", "明日"] {
        assert!(is_due_today(kw));
        assert!(is_due_today(&format!("メモ: {kw}")));
        assert!(is_due_today(&format!("{kw}やること")));
        assert!(is_due_today(&format!("ab{kw}cd")));
    }
}
