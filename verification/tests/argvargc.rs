use getargv::ArgvArgc;

fn words(items: &[&str]) -> Vec<Vec<u8>> {
    items.iter().map(|s| s.as_bytes().to_vec()).collect()
}

#[test]
fn argvargc_default_trait_sanity_check() {
    let mut argv_argc: ArgvArgc = Default::default();
    assert_eq!(argv_argc.len(), 0);
    assert!(argv_argc.is_empty());
    assert_eq!(argv_argc.size_hint(), (0, Some(0)));
    assert_eq!(argv_argc.next(), None);
    assert_eq!(argv_argc.next_back(), None);
}

#[test]
fn empty_argvargc_debug_trait_sanity_check() {
    let argv_argc: ArgvArgc = Default::default();
    assert_eq!(argv_argc.render(), "[]");
}

#[test]
fn argvargc_iterator_trait_sanity_check() {
    let mut argv_argc: ArgvArgc = Default::default();
    assert_eq!(argv_argc.next(), None);
}

#[test]
fn argvargc_exact_size_iterator_trait_sanity_check() {
    let argv_argc: ArgvArgc = Default::default();
    assert_eq!(argv_argc.len(), 0);
}

#[test]
fn argvargc_double_ended_iterator_trait_sanity_check() {
    let mut argv_argc: ArgvArgc = Default::default();
    assert_eq!(argv_argc.next_back(), None);
}

#[test]
fn forward_iteration_collects_in_order() {
    let mut seq = ArgvArgc::new(words(&["zero", "one", "two", "three"]));
    let collected = seq.collect_remaining();
    assert_eq!(collected, words(&["zero", "one", "two", "three"]));
    assert_eq!(seq.len(), 0);
    assert_eq!(seq.next(), None);
}

#[test]
fn backward_draws_yield_reverse_order() {
    let mut seq = ArgvArgc::new(words(&["zero", "one", "two"]));
    assert_eq!(seq.next_back(), Some(b"two".to_vec()));
    assert_eq!(seq.next_back(), Some(b"one".to_vec()));
    assert_eq!(seq.next_back(), Some(b"zero".to_vec()));
    assert_eq!(seq.next_back(), None);
    assert_eq!(seq.len(), 0);
}

#[test]
fn interleaved_draws_consume_each_argument_exactly_once() {
    let mut seq = ArgvArgc::new(words(&["zero", "one", "two", "three"]));
    assert_eq!(seq.len(), 4);
    assert_eq!(seq.next(), Some(b"zero".to_vec()));
    assert_eq!(seq.len(), 3);
    assert_eq!(seq.next_back(), Some(b"three".to_vec()));
    assert_eq!(seq.len(), 2);
    assert_eq!(seq.next(), Some(b"one".to_vec()));
    assert_eq!(seq.len(), 1);
    assert_eq!(seq.next_back(), Some(b"two".to_vec()));
    assert_eq!(seq.len(), 0);
    assert_eq!(seq.next(), None);
    assert_eq!(seq.next_back(), None);
}

#[test]
fn every_front_back_split_consumes_all_in_order() {
    let names = ["zero", "one", "two", "three"];
    for k in 0..=names.len() {
        let mut seq = ArgvArgc::new(words(&names));
        for i in 0..k {
            assert_eq!(seq.next(), Some(names[i].as_bytes().to_vec()));
            assert_eq!(seq.len(), names.len() - i - 1);
        }
        for j in (k..names.len()).rev() {
            assert_eq!(seq.next_back(), Some(names[j].as_bytes().to_vec()));
            assert_eq!(seq.len(), j - k);
        }
        assert_eq!(seq.next(), None);
        assert_eq!(seq.next_back(), None);
    }
}

#[test]
fn remaining_args_copies_without_consuming() {
    let mut seq = ArgvArgc::new(words(&["zero", "one"]));
    assert_eq!(seq.remaining_args(), words(&["zero", "one"]));
    assert_eq!(seq.len(), 2);
    seq.next();
    assert_eq!(seq.remaining_args(), words(&["one"]));
}

#[test]
fn size_hint_is_exact() {
    let mut seq = ArgvArgc::new(words(&["zero", "one"]));
    assert_eq!(seq.size_hint(), (2, Some(2)));
    seq.next();
    assert_eq!(seq.size_hint(), (1, Some(1)));
}

#[test]
fn render_reflects_only_unconsumed_arguments() {
    let mut seq = ArgvArgc::new(words(&["zero", "one", "two"]));
    assert_eq!(seq.render(), "[\"zero\", \"one\", \"two\"]");
    seq.next();
    assert_eq!(seq.render(), "[\"one\", \"two\"]");
    seq.next_back();
    assert_eq!(seq.render(), "[\"one\"]");
    seq.next();
    assert_eq!(seq.render(), "[]");
}

#[test]
fn render_escapes_bytes_outside_printable_ascii() {
    let seq = ArgvArgc::new(vec![vec![0x61, 0x00, 0x62], vec![0x22, 0x5c], vec![0x7f]]);
    assert_eq!(seq.render(), "[\"a\\x00b\", \"\\\"\\\\\", \"\\x7f\"]");
}
