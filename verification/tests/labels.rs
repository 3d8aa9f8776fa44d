use labeled_tree::growth::{carries, child_label, child_polynomial};
use labeled_tree::linear::linear_string;
use labeled_tree::prettyprint::{DebugText, PrettyPrint};
use labeled_tree::text::{has_final_newline, signed_text, unsigned_text};
use labeled_tree::tree::Tree;
use polynomial::Polynomial;

#[test]
fn numerals_are_those_of_the_standard_library() {
    for n in [0u64, 1, 9, 10, 11, 99, 100, 101, 12345, 1 << 63, u64::MAX] {
        assert_eq!(unsigned_text(n), format!("{}", n));
        assert_eq!(n.ascii(), format!("{}", n));
        assert_eq!(n.debug_string(), format!("{:?}", n));
    }
    for n in [0i64, 1, -1, 9, -9, 10, -10, 1234, -1234, i64::MAX, i64::MIN] {
        assert_eq!(signed_text(n), format!("{}", n));
        assert_eq!(n.debug_string(), format!("{:?}", n));
    }
    assert_eq!(unsigned_text(0), "0");
    assert_eq!(unsigned_text(1907), "1907");
    assert_eq!(signed_text(-40), "-40");
    assert_eq!((-5i32).debug_string(), "-5");
    assert_eq!(7u32.debug_string(), "7");
    assert_eq!(70usize.debug_string(), "70");
}

#[test]
fn a_final_line_break_is_found() {
    assert!(!has_final_newline(""));
    assert!(has_final_newline("\n"));
    assert!(has_final_newline("a\n"));
    assert!(!has_final_newline("a\nb"));
    assert!(!has_final_newline("└── "));
    assert!(has_final_newline("└── \n"));
}

#[test]
fn polynomials_are_shown_as_linear_terms() {
    assert_eq!(Polynomial::new(vec![0i64]).ascii(), "0");
    assert_eq!(Polynomial::<i64>::new(vec![]).ascii(), "0");
    assert_eq!(Polynomial::new(vec![5i64]).ascii(), "5");
    assert_eq!(Polynomial::new(vec![-5i64]).ascii(), "-5");
    assert_eq!(Polynomial::new(vec![0i64, 1]).ascii(), "n");
    assert_eq!(Polynomial::new(vec![3i64, 1]).ascii(), "n+3");
    assert_eq!(Polynomial::new(vec![-3i64, 1]).ascii(), "n-3");
    assert_eq!(Polynomial::new(vec![0i64, 2]).ascii(), "2n");
    assert_eq!(Polynomial::new(vec![1i64, -1]).ascii(), "-1n+1");
    assert_eq!(Polynomial::new(vec![-12i64, 30]).ascii(), "30n-12");
    // what follows the second coefficient is not shown
    assert_eq!(Polynomial::new(vec![1i64, 2, 3]).ascii(), "2n+1");
    // trailing zeros are no coefficients
    assert_eq!(Polynomial::new(vec![4i64, 0, 0]).ascii(), "4");
}

#[test]
fn the_text_follows_the_coefficients() {
    assert_eq!(linear_string(&[]), "0");
    assert_eq!(linear_string(&[0]), "0");
    assert_eq!(linear_string(&[17]), "17");
    assert_eq!(linear_string(&[0, 0]), "0n");
    assert_eq!(linear_string(&[2, 1]), "n+2");
    assert_eq!(linear_string(&[i64::MIN, i64::MAX]), "9223372036854775807n-9223372036854775808");
}

#[test]
fn a_tree_of_polynomials_is_drawn() {
    let mut tree = Tree::new(Polynomial::new(vec![0i64]));
    tree.add_child(Tree::new(Polynomial::new(vec![0i64, 1])));
    tree.add_child(Tree::new(Polynomial::new(vec![2i64])));
    tree.add_child_at_label(
        &Polynomial::new(vec![0i64, 1]),
        &Tree::new(Polynomial::new(vec![-1i64, 1])),
    );
    let mut flags = vec![true; tree.depth()];
    assert_eq!(tree.ascii_pretty(0, &mut flags), "0\n├── n\n│   └── n-1\n└── 2\n");
    assert_eq!(tree.order(), 4);
}

#[test]
fn the_label_of_a_new_child() {
    // below a label with a term in n
    assert_eq!(child_label(3, &[2, 1]), Some(vec![4]));
    assert_eq!(child_label(1, &[-5, 1]), Some(vec![-5]));
    // below a number
    assert_eq!(child_label(3, &[5]), Some(vec![3, 1]));
    assert_eq!(child_label(4, &[1]), Some(vec![-2, 1]));
    // below the zero polynomial
    assert_eq!(child_label(3, &[]), Some(vec![-2, 1]));
    assert_eq!(child_label(1, &[]), Some(vec![0, 1]));
}

#[test]
fn a_label_that_cannot_be_stored_is_none() {
    assert_eq!(child_label(2, &[i64::MAX, 1]), None);
    assert_eq!(child_label(1, &[i64::MAX, 1]), Some(vec![i64::MAX]));
    assert_eq!(child_label(usize::MAX, &[0, 1]), None);
    assert_eq!(child_label(3, &[i64::MIN]), None);
    assert_eq!(child_label(2, &[i64::MIN]), None);
    assert_eq!(child_label(0, &[i64::MIN]), Some(vec![i64::MIN + 1, 1]));
    assert_eq!(child_label(0, &[i64::MAX]), None);
    assert_eq!(child_label(1, &[i64::MAX]), Some(vec![i64::MAX, 1]));
}

#[test]
fn the_new_label_is_a_polynomial_without_zeros_at_its_end() {
    let n = Polynomial::new(vec![0i64, 1]);
    let zero = Polynomial::new(vec![0i64]);
    let seven = Polynomial::new(vec![7i64]);
    // below a label with a term in n: a number
    assert_eq!(child_polynomial(2, &n), Some(Polynomial::new(vec![1i64])));
    assert_eq!(child_polynomial(2, &n).unwrap().data(), &[1]);
    // the number 0 has no coefficient left
    assert_eq!(child_polynomial(1, &n).unwrap().data(), &[] as &[i64]);
    assert_eq!(child_polynomial(1, &n), Some(Polynomial::new(vec![])));
    // below a number and below zero: a term in n
    assert_eq!(child_polynomial(3, &seven).unwrap().data(), &[5, 1]);
    assert_eq!(child_polynomial(2, &zero).unwrap().data(), &[-1, 1]);
    assert_eq!(child_polynomial(1, &zero).unwrap().data(), &[0, 1]);
    assert_eq!(child_polynomial(2, &zero).unwrap().ascii(), "n-1");
    // what cannot be stored
    assert_eq!(child_polynomial(2, &Polynomial::new(vec![i64::MAX, 1])), None);
    assert_eq!(child_polynomial(0, &Polynomial::new(vec![i64::MAX])), None);
}

#[test]
fn a_label_is_found_by_its_coefficients() {
    let zero = Polynomial::new(vec![0i64]);
    let n = Polynomial::new(vec![0i64, 1]);
    let shifted = Polynomial::new(vec![-1i64, 1]);
    let labels = vec![&zero, &n, &shifted];
    assert!(carries(&labels, &Polynomial::new(vec![0i64, 1])));
    assert!(carries(&labels, &Polynomial::new(vec![-1i64, 1, 0])));
    assert!(carries(&labels, &Polynomial::new(vec![])));
    assert!(carries(&labels, &Polynomial::new(vec![0i64, 0])));
    assert!(!carries(&labels, &Polynomial::new(vec![1i64])));
    assert!(!carries(&labels, &Polynomial::new(vec![-1i64])));
    assert!(!carries(&labels, &Polynomial::new(vec![0i64, 1, 1])));
    assert!(!carries(&labels, &Polynomial::new(vec![1i64, 1])));
    assert!(!carries(&Vec::new(), &zero));
    for label in [&zero, &n, &shifted] {
        for other in [&zero, &n, &shifted] {
            assert_eq!(carries(&vec![label], other), label == other);
        }
    }
}

#[test]
fn a_tree_of_polynomials_grows_by_its_free_labels() {
    let mut tree = Tree::new(Polynomial::new(vec![0i64]));
    tree.add_child(Tree::new(Polynomial::new(vec![0i64, 1])));
    let k = tree.order();
    let labels = tree.node_labels();
    let mut grown = Vec::new();
    for node in tree.get_nodes() {
        let f = child_polynomial(k, node.label()).unwrap();
        if !carries(&labels, &f) {
            let mut next = tree.clone();
            next.add_child_at_label(node.label(), &Tree::new(f));
            grown.push(next);
        }
    }
    assert_eq!(grown.len(), 2);
    let mut flags = vec![true; 3];
    assert_eq!(grown[0].ascii_pretty(0, &mut flags), "0\n├── n\n└── n-1\n");
    assert_eq!(grown[1].ascii_pretty(0, &mut flags), "0\n└── n\n    └── 1\n");

    // in 0[n[1]] the new labels are n-2, 2 and n-1, and all of them are free
    let k = grown[1].order();
    let labels = grown[1].node_labels();
    let free: Vec<bool> = grown[1]
        .get_nodes()
        .iter()
        .map(|node| !carries(&labels, &child_polynomial(k, node.label()).unwrap()))
        .collect();
    assert_eq!(free, vec![true, true, true]);
    let third = child_polynomial(k, labels[2]).unwrap();
    assert_eq!(third.data(), &[-1, 1]);
    assert_eq!(child_polynomial(k, labels[0]).unwrap().ascii(), "n-2");
    assert_eq!(child_polynomial(k, labels[1]).unwrap().ascii(), "2");

    // in 0[n, n-1] the root would give n-2, n gives 2, and n-1 gives 1
    let k = grown[0].order();
    let labels = grown[0].node_labels();
    assert_eq!(child_polynomial(k, labels[2]).unwrap().data(), &[1]);
    // a label that is there already is not free
    let mut full = grown[0].clone();
    full.add_child(Tree::new(Polynomial::new(vec![3i64])));
    let k = full.order();
    let labels = full.node_labels();
    assert_eq!(child_polynomial(k, labels[1]).unwrap().data(), &[3]);
    assert!(carries(&labels, &child_polynomial(k, labels[1]).unwrap()));
}
