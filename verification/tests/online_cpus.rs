use power_profiles::drivers::cpu::utils::online_cpu_id_iter;

#[test]
fn ranges_and_single_ids_give_every_id_in_order() {
    assert_eq!(online_cpu_id_iter("0-3,5,8-9"), vec![0, 1, 2, 3, 5, 8, 9]);
}

#[test]
fn second_example_of_range_notation() {
    assert_eq!(online_cpu_id_iter("0-3,5,7-9"), vec![0, 1, 2, 3, 5, 7, 8, 9]);
}

#[test]
fn ranges_include_both_ends() {
    assert_eq!(online_cpu_id_iter("1-5,7-9"), vec![1, 2, 3, 4, 5, 7, 8, 9]);
    assert_eq!(online_cpu_id_iter("4-4"), vec![4]);
}

#[test]
fn the_newline_that_ends_the_file_is_ignored() {
    assert_eq!(online_cpu_id_iter("0-7\n"), vec![0, 1, 2, 3, 4, 5, 6, 7]);
    assert_eq!(online_cpu_id_iter("  0-1,3 \t\n"), vec![0, 1, 3]);
}

#[test]
fn malformed_tokens_are_dropped() {
    assert_eq!(online_cpu_id_iter("1-5,hello-world,rust,7-9"), vec![1, 2, 3, 4, 5, 7, 8, 9]);
    assert_eq!(online_cpu_id_iter("0-1,,3"), vec![0, 1, 3]);
    assert_eq!(online_cpu_id_iter("x"), Vec::<u32>::new());
    assert_eq!(online_cpu_id_iter("1-2-3,4"), vec![4]);
    assert_eq!(online_cpu_id_iter("-3,2"), vec![2]);
    assert_eq!(online_cpu_id_iter("3-,2"), vec![2]);
}

#[test]
fn whitespace_inside_the_list_spoils_its_token_only() {
    assert_eq!(online_cpu_id_iter("0, 1,2"), vec![0, 2]);
    assert_eq!(online_cpu_id_iter("0 -1,2"), vec![2]);
}

#[test]
fn the_empty_list_has_no_cpu() {
    assert_eq!(online_cpu_id_iter(""), Vec::<u32>::new());
    assert_eq!(online_cpu_id_iter("\n"), Vec::<u32>::new());
}

#[test]
fn a_range_that_falls_has_no_cpu() {
    assert_eq!(online_cpu_id_iter("5-3"), Vec::<u32>::new());
    assert_eq!(online_cpu_id_iter("5-3,1"), vec![1]);
}

#[test]
fn a_plus_sign_may_lead_a_number() {
    assert_eq!(online_cpu_id_iter("+1-+3"), vec![1, 2, 3]);
    assert_eq!(online_cpu_id_iter("+"), Vec::<u32>::new());
}

#[test]
fn numbers_that_do_not_fit_are_malformed() {
    assert_eq!(online_cpu_id_iter("4294967296,1"), vec![1]);
    assert_eq!(online_cpu_id_iter("99999999999999999999999,2"), vec![2]);
    assert_eq!(online_cpu_id_iter("4294967295"), vec![4294967295]);
    assert_eq!(online_cpu_id_iter("4294967294-4294967295"), vec![4294967294, 4294967295]);
}

#[test]
fn leading_zeros_are_read() {
    assert_eq!(online_cpu_id_iter("007,010-011"), vec![7, 10, 11]);
}

#[test]
fn ids_are_kept_in_the_order_in_which_the_list_names_them_first() {
    assert_eq!(online_cpu_id_iter("8-9,0-1"), vec![8, 9, 0, 1]);
    assert_eq!(online_cpu_id_iter("3,0-4"), vec![3, 0, 1, 2, 4]);
}

#[test]
fn no_id_stands_twice() {
    assert_eq!(online_cpu_id_iter("1,1"), vec![1]);
    assert_eq!(online_cpu_id_iter("0-2,1-3"), vec![0, 1, 2, 3]);
    assert_eq!(online_cpu_id_iter("0-3,0-3,2"), vec![0, 1, 2, 3]);
    assert_eq!(online_cpu_id_iter("5,x,5,+5,005"), vec![5]);
}
