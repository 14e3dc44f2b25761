use ulmus::layout::{allocate, Size};

fn sum(cells: &[u16]) -> u32 {
    cells.iter().map(|c| *c as u32).sum()
}

#[test]
fn two_lengths_leave_the_rest_unallocated() {
    let cells = allocate(&vec![Size::Length(20), Size::Length(20)], &vec![0, 0], 50);
    assert_eq!(cells, vec![20, 20]);
    assert_eq!(sum(&cells), 40);
}

#[test]
fn auto_and_length_leave_two_cells() {
    let cells = allocate(&vec![Size::Auto, Size::Length(3)], &vec![5, 0], 10);
    assert_eq!(cells, vec![5, 3]);
    assert_eq!(sum(&cells), 8);
}

#[test]
fn equal_fractions_split_seven_as_four_and_three() {
    let cells = allocate(&vec![Size::Fraction(1), Size::Fraction(1)], &vec![0, 0], 7);
    assert_eq!(cells, vec![4, 3]);
}

#[test]
fn fractions_share_what_fixed_and_auto_leave() {
    let sizes = vec![Size::Fraction(1), Size::Length(2), Size::Auto, Size::Fraction(1)];
    let cells = allocate(&sizes, &vec![9, 9, 1, 9], 10);
    assert_eq!(cells, vec![4, 2, 1, 3]);
    assert_eq!(sum(&cells), 10);
}

#[test]
fn lengths_are_served_before_autos_whatever_the_order() {
    let sizes = vec![Size::Auto, Size::Length(8), Size::Auto, Size::Length(8)];
    let cells = allocate(&sizes, &vec![5, 0, 5, 0], 20);
    assert_eq!(cells, vec![4, 8, 0, 8]);
    assert_eq!(sum(&cells), 20);
}

#[test]
fn exhausted_length_pass_leaves_nothing_for_later_children() {
    let sizes = vec![Size::Length(6), Size::Length(6), Size::Length(6), Size::Auto, Size::Fraction(1)];
    let cells = allocate(&sizes, &vec![0, 0, 0, 3, 0], 10);
    assert_eq!(cells, vec![6, 4, 0, 0, 0]);
}

#[test]
fn exact_fit_gives_later_children_zero() {
    let sizes = vec![Size::Length(10), Size::Auto, Size::Fraction(3)];
    let cells = allocate(&sizes, &vec![0, 4, 0], 10);
    assert_eq!(cells, vec![10, 0, 0]);
}

#[test]
fn weights_divide_in_proportion() {
    let sizes = vec![Size::Fraction(1), Size::Fraction(2), Size::Fraction(3)];
    assert_eq!(allocate(&sizes, &vec![0, 0, 0], 12), vec![2, 4, 6]);
    assert_eq!(allocate(&sizes, &vec![0, 0, 0], 13), vec![3, 4, 6]);
    assert_eq!(allocate(&sizes, &vec![0, 0, 0], 14), vec![3, 4, 7]);
    assert_eq!(allocate(&sizes, &vec![0, 0, 0], 17), vec![3, 6, 8]);
}

#[test]
fn zero_weight_receives_nothing() {
    let sizes = vec![Size::Fraction(0), Size::Fraction(1), Size::Fraction(0), Size::Fraction(1)];
    assert_eq!(allocate(&sizes, &vec![0, 0, 0, 0], 7), vec![0, 4, 0, 3]);
}

#[test]
fn only_zero_weights_hand_out_nothing() {
    let sizes = vec![Size::Fraction(0), Size::Length(2), Size::Fraction(0)];
    assert_eq!(allocate(&sizes, &vec![0, 0, 0], 9), vec![0, 2, 0]);
}

#[test]
fn zero_total_gives_all_zero() {
    let sizes = vec![Size::Length(3), Size::Auto, Size::Fraction(2)];
    assert_eq!(allocate(&sizes, &vec![0, 4, 0], 0), vec![0, 0, 0]);
}

#[test]
fn no_children_no_lengths() {
    assert_eq!(allocate(&vec![], &vec![], 80), Vec::<u16>::new());
}

#[test]
fn largest_values_do_not_overflow() {
    let sizes = vec![Size::Fraction(65535), Size::Fraction(65535), Size::Fraction(1)];
    let cells = allocate(&sizes, &vec![0, 0, 0], 65535);
    assert_eq!(cells, vec![32768, 32767, 0]);
    assert_eq!(sum(&cells), 65535);

    let sizes = vec![Size::Length(65535), Size::Length(65535), Size::Auto];
    assert_eq!(allocate(&sizes, &vec![0, 0, 65535], 65535), vec![65535, 0, 0]);
}

#[test]
fn sum_never_exceeds_total_and_fills_it_with_a_positive_weight() {
    let mixes: Vec<(Vec<Size>, Vec<u16>)> = vec![
        (vec![Size::Length(5), Size::Auto, Size::Fraction(2), Size::Fraction(5)], vec![0, 7, 0, 0]),
        (vec![Size::Fraction(3), Size::Fraction(3), Size::Fraction(3)], vec![0, 0, 0]),
        (vec![Size::Auto, Size::Auto], vec![4, 9]),
        (vec![Size::Length(30), Size::Fraction(1)], vec![0, 0]),
        (vec![Size::Length(1)], vec![0]),
    ];
    for (sizes, hints) in mixes.iter() {
        let weighted = sizes.iter().any(|s| matches!(s, Size::Fraction(w) if *w > 0));
        let mut asked: u32 = 0;
        for (size, hint) in sizes.iter().zip(hints.iter()) {
            asked += match size {
                Size::Length(n) => *n as u32,
                Size::Auto => *hint as u32,
                Size::Fraction(_) => 0,
            };
        }
        for total in 0u16..60 {
            let cells = allocate(sizes, hints, total);
            assert_eq!(cells.len(), sizes.len());
            assert!(sum(&cells) <= total as u32);
            if weighted {
                assert_eq!(sum(&cells), total as u32);
            } else {
                assert_eq!(sum(&cells), asked.min(total as u32));
            }
        }
    }
}
