use bevy_bae::plan::mtr::{Mtr, Rank};

#[test]
fn anything_is_better_than_nothing() {
    let mtr1 = Mtr(vec![1, 2, 3]);
    let mtr2 = Mtr(vec![]);

    assert!(mtr1 < mtr2);
}

#[test]
fn self_is_le_and_ge() {
    let mtr1 = Mtr(vec![1, 2, 3]);
    let mtr2 = Mtr(vec![1, 2, 3]);

    assert!(mtr1 <= mtr2);
    assert!(mtr1 >= mtr2);
}

#[test]
fn last_of_same_length_works() {
    let mtr1 = Mtr(vec![1, 2, 2]);
    let mtr2 = Mtr(vec![1, 2, 3]);

    assert!(mtr1 < mtr2);
}

#[test]
fn mid_of_same_length_works() {
    let mtr1 = Mtr(vec![1, 1, 3]);
    let mtr2 = Mtr(vec![1, 2, 3]);

    assert!(mtr1 < mtr2);
}

#[test]
fn start_of_same_length_works() {
    let mtr1 = Mtr(vec![0, 2, 3]);
    let mtr2 = Mtr(vec![1, 2, 3]);

    assert!(mtr1 < mtr2);
}

#[test]
fn better_but_shorter_works() {
    let mtr1 = Mtr(vec![1, 2, 3]);
    let mtr2 = Mtr(vec![1, 2, 4, 5]);

    assert!(mtr1 < mtr2);
}

#[test]
fn better_but_longer_works() {
    let mtr1 = Mtr(vec![1, 2, 3, 5]);
    let mtr2 = Mtr(vec![1, 2, 4]);

    assert!(mtr1 < mtr2);
}

#[test]
fn same_but_longer_is_equal() {
    let mtr1 = Mtr(vec![1, 2, 3]);
    let mtr2 = Mtr(vec![1, 2, 3, 5]);

    assert!(mtr1 == mtr2);
}

#[test]
fn nothing_ranks_after_nothing() {
    // The empty record ranks after everything, itself included.
    let a = Mtr::none();
    let b = Mtr::none();
    assert_eq!(a.partial_cmp(&b), Some(std::cmp::Ordering::Greater));
    assert!(a == b);
}

#[test]
fn nothing_ranks_after_anything() {
    let a = Mtr::none();
    let b = Mtr(vec![7]);
    assert!(a > b);
    assert_eq!(a.rank(&b), Rank::Greater);
    assert_eq!(b.rank(&a), Rank::Less);
}

#[test]
fn with_appends_method_order() {
    let m = Mtr::none().with(2).with(0);
    assert_eq!(m.0, vec![2, 0]);
    assert!(Mtr(vec![2]).with(0) < Mtr(vec![2]).with(1));
}

#[test]
fn default_is_none() {
    let m = Mtr::default();
    assert!(m.is_empty());
    assert_eq!(m.len(), 0);
}

#[test]
fn differing_records_are_not_equal() {
    assert!(Mtr(vec![1, 2]) != Mtr(vec![1, 3]));
    assert!(!Mtr(vec![1, 2]).agrees_with(&Mtr(vec![1, 3])));
}

#[test]
fn rank_is_transitive_on_example() {
    let a = Mtr(vec![0, 9]);
    let b = Mtr(vec![1]);
    let c = Mtr(vec![1, 5]);
    let d = Mtr(vec![2, 0, 0]);
    assert!(a < b);
    assert!(c < d);
    assert!(a < d);
}

#[test]
fn mtr_text_is_dotted_decimal() {
    assert_eq!(Mtr(vec![1, 20, 300]).to_string(), "1.20.300");
    assert_eq!(Mtr(vec![65535]).to_string(), "65535");
    assert_eq!(Mtr::none().to_string(), "");
}

#[test]
fn clone_keeps_record() {
    let a = Mtr(vec![3, 1]);
    let b = a.clone();
    assert_eq!(a.0, b.0);
}

#[test]
fn rank_is_antisymmetric_on_example() {
    let a = Mtr(vec![1, 4]);
    let b = Mtr(vec![1, 5, 0]);
    assert!(a < b);
    assert!(b > a);
    let c = Mtr(vec![1]);
    assert_eq!(a.rank(&c), Rank::Equal);
    assert_eq!(c.rank(&a), Rank::Equal);
    assert!(a == c);
}
