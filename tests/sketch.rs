use fnv::FnvHasher;
use probminhash::superminhasher::SuperMinHash;
use std::hash::BuildHasherDefault;
use w6r::dedup::Deduplicator;
use w6r::index::Threshold;
use w6r::sketch::{ConfigError, Shingler};

fn chars(s: &str) -> Vec<char> {
    s.chars().collect()
}

fn plain(size: usize, n_gram: usize) -> Shingler {
    Shingler::new(size, n_gram, false, false, false, false).unwrap()
}

fn signature(sh: &Shingler, acc: &mut SuperMinHash<f32, Vec<char>, FnvHasher>, text: &str) -> Vec<u32> {
    for s in sh.shingles(text.to_string()) {
        acc.sketch(&s).unwrap();
    }
    let r = acc.get_hsketch().iter().map(|x| x.to_bits()).collect();
    acc.reinit();
    r
}

fn accumulator(size: usize) -> SuperMinHash<f32, Vec<char>, FnvHasher> {
    SuperMinHash::new(size, BuildHasherDefault::<FnvHasher>::default())
}

#[test]
fn zero_size_rejected() {
    assert_eq!(Shingler::new(0, 5, true, true, true, true).err(), Some(ConfigError::SizeZero));
    assert_eq!(Shingler::new(0, 0, true, true, true, true).err(), Some(ConfigError::SizeZero));
}

#[test]
fn zero_n_gram_rejected() {
    assert_eq!(Shingler::new(16, 0, true, true, true, true).err(), Some(ConfigError::NGramZero));
    assert_eq!(
        Deduplicator::new(16, 0, true, true, true, true).err(),
        Some(ConfigError::NGramZero)
    );
}

#[test]
fn valid_config_accepted() {
    let sh = Shingler::new(128, 5, true, true, true, true).unwrap();
    assert_eq!(sh.size(), 128);
    assert!(Shingler::new(1, 1, false, false, false, false).is_ok());
    assert!(Deduplicator::new(1, 1, true, true, true, true).is_ok());
}

#[test]
fn windows_of_n_characters() {
    let sh = plain(8, 3);
    assert_eq!(sh.shingles("abcde".to_string()), vec![chars("abc"), chars("bcd"), chars("cde")]);
    assert_eq!(sh.shingles("abc".to_string()), vec![chars("abc")]);
}

#[test]
fn short_text_is_one_shingle() {
    let sh = plain(8, 5);
    assert_eq!(sh.shingles("ab".to_string()), vec![chars("ab")]);
    assert_eq!(sh.shingles(String::new()), vec![Vec::<char>::new()]);
}

#[test]
fn windows_count_code_points() {
    let sh = plain(8, 2);
    assert_eq!(sh.shingles("é漢字".to_string()), vec![chars("é漢"), chars("漢字")]);
}

#[test]
fn punctuation_runs_fold_to_space() {
    let sh = Shingler::new(8, 5, false, false, false, true).unwrap();
    assert_eq!(sh.normalize("a, b!!\t\nc".to_string()), "a b c");
}

#[test]
fn lowercase_stage() {
    let sh = Shingler::new(8, 5, true, false, false, false).unwrap();
    assert_eq!(sh.normalize("HeLLo ÄÖ".to_string()), "hello äö");
    assert_eq!(plain(8, 5).normalize("HeLLo".to_string()), "HeLLo");
}

#[test]
fn compatibility_normalization_stage() {
    let sh = Shingler::new(8, 5, false, true, false, false).unwrap();
    assert_eq!(sh.normalize("ｆｕｌｌ①".to_string()), "full1");
}

#[test]
fn script_unification_stage() {
    let sh = Shingler::new(8, 5, false, false, true, false).unwrap();
    assert_eq!(sh.normalize("漢字".to_string()), "汉字");
}

#[test]
fn all_stages_in_order() {
    let sh = Shingler::new(8, 2, true, true, true, true).unwrap();
    assert_eq!(sh.normalize("ＡＢ，漢".to_string()), "ab 汉");
    assert_eq!(
        sh.shingles("ＡＢ，漢".to_string()),
        vec![chars("ab"), chars("b "), chars(" 汉")]
    );
}

#[test]
fn signature_deterministic_on_fresh_instances() {
    let sh1 = Shingler::new(64, 5, true, true, true, true).unwrap();
    let sh2 = Shingler::new(64, 5, true, true, true, true).unwrap();
    let text = "The quick brown fox jumps over the lazy dog.";
    let a = signature(&sh1, &mut accumulator(64), text);
    let b = signature(&sh2, &mut accumulator(64), text);
    assert_eq!(a.len(), 64);
    assert_eq!(a, b);
}

#[test]
fn reset_between_documents() {
    let sh = Shingler::new(64, 5, true, true, true, true).unwrap();
    let mut acc = accumulator(64);
    signature(&sh, &mut acc, "some entirely different first document");
    let b_after = signature(&sh, &mut acc, "the second document");
    let b_alone = signature(&sh, &mut accumulator(64), "the second document");
    assert_eq!(b_after, b_alone);
}

#[test]
fn similarity_tracks_overlap() {
    let sh = plain(256, 3);
    let base: String = (0..400).map(|i| char::from(b'a' + ((i * 7 + i / 13) % 26) as u8)).collect();
    let mut near = base.clone();
    near.replace_range(0..20, "ZZZZZZZZZZZZZZZZZZZZ");
    let far: String = base.chars().rev().collect();
    let s0 = signature(&sh, &mut accumulator(256), &base);
    let s1 = signature(&sh, &mut accumulator(256), &near);
    let s2 = signature(&sh, &mut accumulator(256), &far);
    let agree = |a: &[u32], b: &[u32]| a.iter().zip(b).filter(|(x, y)| x == y).count();
    assert!(agree(&s0, &s1) > agree(&s0, &s2));
}

#[test]
fn deduplicator_flow() {
    let mut d = Deduplicator::new(32, 3, true, true, true, true).unwrap();
    assert_eq!(d.size(), 32);
    let sig = |d: &Deduplicator, t: &str| signature_of(d, t);
    let s1 = sig(&d, "hello world, again");
    let half = Threshold { num: 1, den: 2 };
    assert!(d.check_and_add("one", s1.clone(), half, true, false).is_empty());
    assert_eq!(d.length(), 1);
    let s2 = sig(&d, "HELLO world... again");
    let r = d.check_and_add("two", s2.clone(), half, true, false);
    assert_eq!(r.len(), 1);
    assert_eq!(r[0].id, "one");
    assert_eq!(r[0].matches, 32);
    assert_eq!(d.length(), 1);
    let probe = d.check_and_add("three", s2, half, false, true);
    assert_eq!(probe.len(), 1);
    assert_eq!(d.length(), 1);
    assert_eq!(d.keys(), vec!["one".to_string()]);
    assert_eq!(d.values(), vec![s1]);
}

fn signature_of(d: &Deduplicator, text: &str) -> Vec<u32> {
    let mut acc = accumulator(d.size());
    for s in d.shingles(text.to_string()) {
        acc.sketch(&s).unwrap();
    }
    acc.get_hsketch().iter().map(|x| x.to_bits()).collect()
}
