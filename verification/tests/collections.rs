use rust_primer::collections::exercises::one::count_values;
use rust_primer::collections::exercises::one::median;
use rust_primer::collections::exercises::one::mode;
use rust_primer::collections::exercises::one::most_frequent;
use rust_primer::collections::exercises::one::sort;
use rust_primer::collections::exercises::one::sum;
use rust_primer::collections::exercises::one::try_median;
use rust_primer::collections::exercises::one::try_sum;
use rust_primer::collections::exercises::one::walk;
use rust_primer::collections::exercises::three::comes_first;
use rust_primer::collections::exercises::three::insert_sorted;
use rust_primer::collections::exercises::three::sort_names;
use rust_primer::collections::exercises::three::Company;
use rust_primer::collections::exercises::two::append_hay;
use rust_primer::collections::exercises::two::convert_to_piglatin;
use rust_primer::collections::exercises::two::obfuscate;
use rust_primer::collections::hash_maps::count_words;

fn strings(words: &[&str]) -> Vec<String> {
    words.iter().map(|w| w.to_string()).collect()
}

#[test]
fn collections_it_works() {
    let ints = vec![4, 3, 5, 3, 2, 4, 4, 1, 0];
    assert_eq!(sum(&ints), 26);
    assert_eq!(median(&ints), 3);
    assert_eq!(mode(&ints), 4);

    assert_eq!(
        convert_to_piglatin("This may easiy be awesome!"),
        "his-Tay ay-may easiy-hay e-bay awesome!-hay"
    );
    assert_eq!(
        convert_to_piglatin("When was your first apple"),
        "hen-Way as-way our-yay irst-fay apple-hay"
    );
    assert_eq!(
        convert_to_piglatin("The cat sat   on the\n mat"),
        "he-Tay at-cay at-say on-hay he-tay at-may"
    );

    let mut comp: Company = Company::new();
    comp.add_to_dept("Marketing", "Scott");
    comp.add_to_dept("Marketing", "Kaushik");
    comp.add_to_dept("Sales", "Brian");
    comp.add_to_dept("Engineering", "Abhishek");
    comp.add_to_dept("Coffee Makers", "Ajeet");
    assert_eq!(comp.get_all_from_dept("Marketing"), Some(&strings(&["Scott", "Kaushik"])));
    assert_eq!(
        comp.get_all_sorted(),
        strings(&["Abhishek", "Ajeet", "Brian", "Kaushik", "Scott"])
    );
    assert_eq!(comp.get_all_from_dept("Marketing"), Some(&strings(&["Scott", "Kaushik"])));
    assert_eq!(
        comp.get_all_sorted(),
        strings(&["Abhishek", "Ajeet", "Brian", "Kaushik", "Scott"])
    );
}

#[test]
fn sum_of_nothing_is_zero() {
    assert_eq!(sum(&vec![]), 0);
    assert_eq!(sum(&vec![-5]), -5);
    assert_eq!(sum(&vec![i32::MAX, -1, i32::MIN + 1, 1]), 0);
}

#[test]
fn median_of_an_odd_number_is_the_middle() {
    assert_eq!(median(&vec![7]), 7);
    assert_eq!(median(&vec![3, 1, 2]), 2);
    assert_eq!(median(&vec![5, 5, 5, 1, 9]), 5);
    assert_eq!(median(&vec![-3, -1, -2]), -2);
}

#[test]
fn median_of_an_even_number_is_half_the_middle_sum() {
    assert_eq!(median(&vec![1, 2]), 1);
    assert_eq!(median(&vec![4, 1, 3, 2]), 2);
    assert_eq!(median(&vec![10, 20]), 15);
    assert_eq!(median(&vec![-1, -2]), -1);
    assert_eq!(median(&vec![-4, -1, 0, 7]), 0);
    assert_eq!(median(&vec![-3, 0]), -1);
}

#[test]
fn median_leaves_its_argument_as_it_was() {
    let ints = vec![9, 1, 8, 2];
    assert_eq!(median(&ints), 5);
    assert_eq!(ints, vec![9, 1, 8, 2]);
}

#[test]
fn sort_puts_integers_in_ascending_order() {
    let mut ints = vec![4, 3, 5, 3, 2, 4, 4, 1, 0];
    sort(&mut ints);
    assert_eq!(ints, vec![0, 1, 2, 3, 3, 4, 4, 4, 5]);
    let mut none: Vec<i32> = vec![];
    sort(&mut none);
    assert_eq!(none, vec![]);
    let mut wide = vec![i32::MAX, 0, i32::MIN, -1, 1];
    sort(&mut wide);
    assert_eq!(wide, vec![i32::MIN, -1, 0, 1, i32::MAX]);
    let mut many: Vec<i32> = (0..200).map(|i| (i * 37) % 101 - 50).collect();
    let mut expected = many.clone();
    expected.sort();
    sort(&mut many);
    assert_eq!(many, expected);
}

#[test]
fn mode_is_the_most_frequent_value() {
    assert_eq!(mode(&vec![1, 2, 2, 3]), 2);
    assert_eq!(mode(&vec![-7, -7, 0]), -7);
    assert_eq!(mode(&vec![5]), 5);
    assert_eq!(mode(&vec![0, 0, 1]), 0);
}

#[test]
fn mode_of_nothing_is_zero() {
    assert_eq!(mode(&vec![]), 0);
}

#[test]
fn mode_of_a_tie_is_one_of_the_tied() {
    for _ in 0..20 {
        let m = mode(&vec![1, 2, 2, 1, 3]);
        assert!(m == 1 || m == 2);
    }
}

#[test]
fn pig_latin_of_nothing_is_nothing() {
    assert_eq!(convert_to_piglatin(""), "");
    assert_eq!(convert_to_piglatin("   \n\t "), "");
}

#[test]
fn pig_latin_moves_a_consonant_and_keeps_a_vowel() {
    assert_eq!(convert_to_piglatin("first"), "irst-fay");
    assert_eq!(convert_to_piglatin("apple"), "apple-hay");
    assert_eq!(convert_to_piglatin("a"), "a-hay");
    assert_eq!(convert_to_piglatin("x"), "-xay");
    assert_eq!(convert_to_piglatin("Apple"), "pple-Aay");
}

#[test]
fn pig_latin_splits_at_any_white_space() {
    assert_eq!(convert_to_piglatin("  one\ttwo\u{3000}three\r\nfour  "), "one-hay wo-tay hree-tay our-fay");
    assert_eq!(convert_to_piglatin("un\u{a0}deux"), "un-hay eux-day");
}

#[test]
fn pig_latin_keeps_characters_of_any_width() {
    assert_eq!(convert_to_piglatin("naïve été"), "aïve-nay té-éay");
}

#[test]
fn hay_and_obfuscation_append_to_what_is_there() {
    let mut result = String::from("so: ");
    append_hay("apple", &mut result);
    assert_eq!(result, "so: apple-hay");
    obfuscate("first", 'f', &mut result);
    assert_eq!(result, "so: apple-hayirst-fay");
    let mut other = String::new();
    obfuscate("q", 'z', &mut other);
    assert_eq!(other, "-zay");
}

#[test]
fn a_new_company_has_nobody() {
    let comp = Company::new();
    assert_eq!(comp.get_all_from_dept("Sales"), None);
    assert_eq!(comp.get_all_sorted(), strings(&[]));
}

#[test]
fn people_stay_in_the_order_they_joined_their_department() {
    let mut comp = Company::new();
    comp.add_to_dept("Sales", "Zoe");
    comp.add_to_dept("Engineering", "Sally");
    comp.add_to_dept("Sales", "Amir");
    comp.add_to_dept("Sales", "Zoe");
    assert_eq!(comp.get_all_from_dept("Sales"), Some(&strings(&["Zoe", "Amir", "Zoe"])));
    assert_eq!(comp.get_all_from_dept("Engineering"), Some(&strings(&["Sally"])));
    assert_eq!(comp.get_all_from_dept("sales"), None);
    assert_eq!(comp.get_all_from_dept(""), None);
    assert_eq!(comp.get_all_sorted(), strings(&["Amir", "Sally", "Zoe", "Zoe"]));
}

#[test]
fn alphabetical_order_goes_by_code_points() {
    assert!(comes_first("", ""));
    assert!(comes_first("", "a"));
    assert!(!comes_first("a", ""));
    assert!(comes_first("abc", "abc"));
    assert!(comes_first("ab", "abc"));
    assert!(!comes_first("abc", "ab"));
    assert!(comes_first("Zoe", "amir"));
    assert!(!comes_first("b", "a"));
    assert!(comes_first("z", "é"));
    assert!(comes_first("é", "\u{10000}"));
    assert!(!comes_first("\u{10000}", "\u{ffff}"));
    let samples = ["", "a", "ab", "abc", "b", "B", "é", "z", "\u{ffff}", "\u{10000}", "a\u{10000}"];
    for a in samples {
        for b in samples {
            assert_eq!(comes_first(a, b), a <= b);
        }
    }
}

#[test]
fn names_are_sorted_as_the_standard_sort_sorts_them() {
    let names = strings(&["delta", "Alpha", "charlie", "bravo", "alpha", "", "Émile", "bravo"]);
    let mut expected = names.clone();
    expected.sort();
    assert_eq!(sort_names(names), expected);
    let mut sorted = strings(&["a", "c"]);
    insert_sorted(&mut sorted, String::from("b"));
    insert_sorted(&mut sorted, String::from("d"));
    insert_sorted(&mut sorted, String::from(""));
    insert_sorted(&mut sorted, String::from("c"));
    assert_eq!(sorted, strings(&["", "a", "b", "c", "c", "d"]));
}

#[test]
fn words_are_counted_where_they_first_occur() {
    assert_eq!(
        count_words("hello world wonderful world"),
        vec![(String::from("hello"), 1), (String::from("world"), 2), (String::from("wonderful"), 1)]
    );
    assert_eq!(count_words(""), vec![]);
    assert_eq!(count_words(" \n "), vec![]);
    assert_eq!(count_words("a a a"), vec![(String::from("a"), 3)]);
    assert_eq!(
        count_words("b a\tb\na B"),
        vec![(String::from("b"), 2), (String::from("a"), 2), (String::from("B"), 1)]
    );
}

#[test]
fn the_first_of_the_most_frequent_wins() {
    assert_eq!(most_frequent(&vec![(1, 2), (2, 2)]), 1);
    assert_eq!(most_frequent(&vec![(2, 2), (1, 2)]), 2);
    assert_eq!(most_frequent(&vec![(1, 1), (2, 3), (3, 3), (4, 2)]), 2);
    assert_eq!(most_frequent(&vec![(7, 1)]), 7);
    assert_eq!(most_frequent(&vec![]), 0);
    assert_eq!(most_frequent(&vec![(5, 0), (6, 0)]), 0);
    assert_eq!(most_frequent(&vec![(-1, 1), (-2, usize::MAX)]), -2);
}

#[test]
fn values_are_counted_and_walked() {
    let counts = count_values(&vec![4, 3, 5, 3, 2, 4, 4, 1, 0]);
    assert_eq!(counts.len(), 6);
    assert_eq!(counts.get(&4), Some(&3));
    assert_eq!(counts.get(&3), Some(&2));
    assert_eq!(counts.get(&0), Some(&1));
    assert_eq!(counts.get(&6), None);
    let mut walked = walk(&counts);
    walked.sort();
    assert_eq!(walked, vec![(0, 1), (1, 1), (2, 1), (3, 2), (4, 3), (5, 1)]);
    assert_eq!(count_values(&vec![]).len(), 0);
    assert_eq!(walk(&count_values(&vec![])), vec![]);
}

#[test]
fn a_sum_that_does_not_fit_is_not_given() {
    assert_eq!(try_sum(&vec![1, 2, 3]), Some(6));
    assert_eq!(try_sum(&vec![]), Some(0));
    assert_eq!(try_sum(&vec![i32::MAX, 1]), None);
    assert_eq!(try_sum(&vec![i32::MAX, 1, -1]), None);
    assert_eq!(try_sum(&vec![i32::MIN, -1]), None);
    assert_eq!(try_sum(&vec![i32::MAX, -1, 1]), Some(i32::MAX));
}

#[test]
fn a_median_that_does_not_fit_is_not_given() {
    assert_eq!(try_median(&vec![]), None);
    assert_eq!(try_median(&vec![4, 3, 5, 3, 2, 4, 4, 1, 0]), Some(3));
    assert_eq!(try_median(&vec![i32::MAX, i32::MAX]), None);
    assert_eq!(try_median(&vec![i32::MIN, i32::MIN, 0, 0]), Some(-1073741824));
    assert_eq!(try_median(&vec![0, i32::MIN, i32::MIN, i32::MIN]), None);
    assert_eq!(try_median(&vec![i32::MAX, i32::MAX, i32::MAX]), Some(i32::MAX));
    assert_eq!(try_median(&vec![i32::MAX, i32::MIN]), Some(0));
    assert_eq!(try_median(&vec![i32::MAX, 0, i32::MIN, 5]), Some(2));
}
