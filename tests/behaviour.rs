use passcore::corpus::{CorpusIndex, PasswordEntry, Resemblance};
use passcore::distance::levenshtein_with_cutoff;
use passcore::score::{score_length, score_penalties, score_penalties_with, score_uniqueness, score_variety};
use passcore::text::normalize;
use passcore::{grade_password, review_password, review_with, score, score_with};

fn chars(s: &str) -> Vec<char> {
    s.chars().collect()
}

#[test]
fn score_is_deterministic() {
    for p in ["", "password", "Abc123!@#1", "  Hello World  ", "пароль"] {
        assert_eq!(score(p), score(p));
    }
}

#[test]
fn subscores_stay_in_range() {
    for p in ["", "a", "password", "Abc123!@#1", "🔒🔑", "aaaaaaaaaaaaaaaaaaaaaaaaaaaaaaaaaaaaaaaaaaaaaaaaaaaaaaa"] {
        assert!(score_length(p) <= 400);
        assert!([0, 25, 70, 130, 200].contains(&score_variety(p)));
        assert!(score_uniqueness(p) <= 200);
        assert!([0, 50, 150, 200].contains(&score_penalties(p)));
    }
}

#[test]
fn length_score_never_drops() {
    let mut previous = 0;
    for n in 0..60 {
        let p = "x".repeat(n);
        let s = score_length(&p);
        assert!(s >= previous);
        if n >= 40 {
            assert_eq!(s, 400);
        }
        previous = s;
    }
}

#[test]
fn length_score_breakpoints() {
    assert_eq!(score_length("a"), 4);
    assert_eq!(score_length("abcde"), 32);
    assert_eq!(score_length("abcdefghi"), 114);
    assert_eq!(score_length("abcdefghijklm"), 205);
    assert_eq!(score_length("abcdefghijklmnopq"), 255);
    assert_eq!(score_length(&"z".repeat(25)), 362);
    assert_eq!(score_length(&"z".repeat(39)), 397);
    assert_eq!(score_length(&"a".repeat(40)), 400);
    assert_eq!(score_length(&"a".repeat(52)), 400);
}

#[test]
fn length_counts_characters_not_bytes() {
    assert_eq!(score_length("äöüß"), 10);
}

#[test]
fn variety_needs_every_class() {
    assert_eq!(score_variety("Aa1!"), 200);
    assert_eq!(score_variety("A1!"), 130);
    assert_eq!(score_variety("a b"), 70);
}

#[test]
fn exact_match_forces_zero_total() {
    assert_eq!(score("password"), 0);
    assert_eq!(score("PassWord"), 0);
    assert_eq!(score("  password\t"), 0);
    assert_eq!(grade_password("password"), "F");
}

#[test]
fn penalty_ignores_case_and_surrounding_space() {
    for p in ["  PassWord  ", "QWERTY", "Hello World", " abc123!X "] {
        let lowered = p.trim().to_lowercase();
        assert_eq!(score_penalties(p), score_penalties(&lowered));
    }
    assert_eq!(score_penalties("  PASSWORD  "), 0);
}

#[test]
fn uniqueness_of_empty_and_repeated() {
    assert_eq!(score_uniqueness(""), 0);
    assert_eq!(score_uniqueness("a"), 200);
    assert_eq!(score_uniqueness("aaa"), 67);
    assert_eq!(score_uniqueness(&"b".repeat(16)), 13);
    assert_eq!(score_uniqueness(&"c".repeat(400)), 1);
    assert_eq!(score_uniqueness(&"c".repeat(401)), 0);
}

#[test]
fn uniqueness_counts_characters_not_bytes() {
    assert_eq!(score_uniqueness("ää"), 100);
}

#[test]
fn review_password_is_too_common() {
    assert_eq!(review_password("password"), "Password is too common. Change it.");
}

#[test]
fn review_names_each_category() {
    assert_eq!(review_password("abcdefghijklmnopqrstuvwxyz"), passcore::ADVICE_VARIETY);
    assert_eq!(review_password(&"a".repeat(40)), passcore::ADVICE_UNIQUENESS);
    assert_eq!(review_password("xyza"), passcore::ADVICE_LENGTH);
    assert_eq!(review_password("admin@321"), passcore::ADVICE_SIMILAR);
}

#[test]
fn total_of_a_mixed_password() {
    // length 126, variety 200, uniqueness 180, penalty 50
    assert_eq!(score("Abc123!@#1"), 556);
    assert_eq!(grade_password("Abc123!@#1"), "C");
}

#[test]
fn bounded_distance_values() {
    assert_eq!(levenshtein_with_cutoff(&chars("kitten"), &chars("sitting"), 5), 3);
    assert_eq!(levenshtein_with_cutoff(&chars("kitten"), &chars("sitting"), 2), 3);
    assert_eq!(levenshtein_with_cutoff(&chars("abcdef"), &chars("uvwxyz"), 2), 3);
    assert_eq!(levenshtein_with_cutoff(&chars(""), &chars("ab"), 2), 2);
    assert_eq!(levenshtein_with_cutoff(&chars("abc"), &chars(""), 1), 2);
    assert_eq!(levenshtein_with_cutoff(&chars("same"), &chars("same"), 0), 0);
    assert_eq!(levenshtein_with_cutoff(&chars("ab"), &chars("ba"), 4), 2);
    assert_eq!(levenshtein_with_cutoff(&chars("héllo"), &chars("hello"), 2), 1);
}

#[test]
fn normal_form_trims_and_lowercases() {
    assert_eq!(normalize("  PassWord \n"), "password");
    assert_eq!(normalize("already"), "already");
    assert_eq!(normalize(" \t "), "");
    assert_eq!(normalize("ÄBC"), "äbc");
}

#[test]
fn entries_keep_every_line() {
    let index = CorpusIndex::from_text("Hello\n\n  hello \nworld");
    assert_eq!(index.len(), 4);
    assert_eq!(index.entry(0).password, "hello");
    assert_eq!(index.entry(1).len, 0);
    assert_eq!(index.entry(1).first, None);
    assert_eq!(index.entry(1).last, None);
    assert_eq!(index.entry(2).password, "hello");
    assert_eq!(index.entry(3).first, Some('w'));
    assert_eq!(index.entry(3).last, Some('d'));
    assert_eq!(CorpusIndex::from_text("").len(), 0);
    assert_eq!(CorpusIndex::from_text("a\n").len(), 1);
    assert_eq!(CorpusIndex::from_text("a\r\nb\r\n").entry(1).password, "b");
}

#[test]
fn entry_of_a_line() {
    let e = PasswordEntry::new("  HéLLo ");
    assert_eq!(e.password, "héllo");
    assert_eq!(e.len, 5);
    assert_eq!(e.first, Some('h'));
    assert_eq!(e.last, Some('o'));
}

#[test]
fn classify_on_a_small_corpus() {
    let index = CorpusIndex::from_text("hello\nsecret\n");
    assert_eq!(index.classify(&"hello".to_string()), Resemblance::Exact);
    assert_eq!(index.classify(&"hellp".to_string()), Resemblance::Close(1));
    assert_eq!(index.classify(&"hexxo".to_string()), Resemblance::Close(2));
    assert_eq!(index.classify(&"hzzzz".to_string()), Resemblance::Close(3));
    assert_eq!(index.classify(&"qqqqqqqqqq".to_string()), Resemblance::Distant);
    // too long a gap in length: never compared
    assert_eq!(index.classify(&"hellohello".to_string()), Resemblance::Distant);
    // neither boundary character matches: never compared
    assert_eq!(index.classify(&"xellx".to_string()), Resemblance::Distant);
}

#[test]
fn first_candidate_in_corpus_order_decides() {
    let index = CorpusIndex::from_text("habcde\nhello\n");
    assert_eq!(index.classify(&"hellx".to_string()), Resemblance::Close(3));
    assert_eq!(score_penalties_with(&index, "hellx"), 50);
    let index = CorpusIndex::from_text("hello\nhabcde\n");
    assert_eq!(score_penalties_with(&index, "HELLX"), 150);
}

#[test]
fn penalty_policy_on_a_small_corpus() {
    let index = CorpusIndex::from_text("hello\n");
    assert_eq!(score_penalties_with(&index, " Hello "), 0);
    assert_eq!(score_penalties_with(&index, "hallo"), 150);
    assert_eq!(score_penalties_with(&index, "hzzzz"), 50);
    assert_eq!(score_penalties_with(&index, "zzz"), 200);
    assert_eq!(score_with(&index, "Hello"), 0);
    assert_eq!(review_with(&index, "hello"), passcore::ADVICE_COMMON);
    // length 32, variety 25, uniqueness 200, penalty 200
    assert_eq!(score_with(&index, "qwxyz"), 457);
}
