use door_player::player::names::{
    bytes_less, find_name, greatest_below, insert_name, insert_parts, least_above, next_file,
    pre_file,
};

fn b(s: &str) -> Vec<u8> {
    s.as_bytes().to_vec()
}

fn names(list: &[&str]) -> Vec<Vec<u8>> {
    list.iter().map(|n| b(n)).collect()
}

#[test]
fn byte_strings_are_ordered_as_in_a_dictionary() {
    assert!(bytes_less(&b("a"), &b("b")));
    assert!(!bytes_less(&b("b"), &b("a")));
    assert!(!bytes_less(&b("a"), &b("a")));
    assert!(bytes_less(&b(""), &b("a")));
    assert!(!bytes_less(&b("a"), &b("")));
    assert!(!bytes_less(&b(""), &b("")));
    assert!(bytes_less(&b("ab"), &b("abc")));
    assert!(!bytes_less(&b("abc"), &b("ab")));
    assert!(bytes_less(&b("abc"), &b("abd")));
    assert!(bytes_less(&b("Z"), &b("a")));
    assert!(bytes_less(&b("a10"), &b("a9")));
    assert!(bytes_less(&vec![0x7f], &vec![0x80]));
    for (x, y) in [("movie1.mkv", "movie2.mkv"), ("a", "aa"), ("", "x"), ("B", "a")] {
        assert_eq!(bytes_less(&b(x), &b(y)), x.as_bytes() < y.as_bytes());
        assert_eq!(bytes_less(&b(y), &b(x)), y.as_bytes() < x.as_bytes());
    }
}

#[test]
fn a_name_is_put_in_its_place() {
    let mut list = names(&["b", "d"]);
    insert_name(&mut list, b("c"));
    assert_eq!(list, names(&["b", "c", "d"]));
    insert_name(&mut list, b("a"));
    assert_eq!(list, names(&["a", "b", "c", "d"]));
    insert_name(&mut list, b("e"));
    assert_eq!(list, names(&["a", "b", "c", "d", "e"]));
    insert_name(&mut list, b("c"));
    insert_name(&mut list, b("a"));
    insert_name(&mut list, b("e"));
    assert_eq!(list, names(&["a", "b", "c", "d", "e"]));
    let mut empty: Vec<Vec<u8>> = Vec::new();
    insert_name(&mut empty, b("x"));
    assert_eq!(empty, names(&["x"]));
}

#[test]
fn the_names_of_a_list_are_put_in_their_places() {
    let mut list = names(&["avi"]);
    insert_parts(&mut list, &b("mov,mp4,avi,3gp"));
    assert_eq!(list, names(&["3gp", "avi", "mov", "mp4"]));
    insert_parts(&mut list, &b("webm"));
    assert_eq!(list, names(&["3gp", "avi", "mov", "mp4", "webm"]));
}

#[test]
fn a_name_is_found_where_it_stands() {
    let list = names(&["b.mp4", "a.mp4", "c.mp4"]);
    assert_eq!(find_name(&list, &b("a.mp4")), Some(1));
    assert_eq!(find_name(&list, &b("c.mp4")), Some(2));
    assert_eq!(find_name(&list, &b("d.mp4")), None);
    assert_eq!(find_name(&names(&[]), &b("a")), None);
}

#[test]
fn the_first_above_and_the_last_below_a_bound() {
    let list = names(&["m", "c", "x", "a", "q"]);
    assert_eq!(least_above(&list, None), Some(3));
    assert_eq!(least_above(&list, Some(&b("c"))), Some(0));
    assert_eq!(least_above(&list, Some(&b("d"))), Some(0));
    assert_eq!(least_above(&list, Some(&b("q"))), Some(2));
    assert_eq!(least_above(&list, Some(&b("x"))), None);
    assert_eq!(greatest_below(&list, None), Some(2));
    assert_eq!(greatest_below(&list, Some(&b("m"))), Some(1));
    assert_eq!(greatest_below(&list, Some(&b("b"))), Some(3));
    assert_eq!(greatest_below(&list, Some(&b("a"))), None);
    assert_eq!(least_above(&names(&[]), None), None);
    assert_eq!(greatest_below(&names(&[]), None), None);
}

#[test]
fn the_next_file_follows_in_dictionary_order() {
    let dir = names(&["b.mkv", "notes.txt", "a.mkv", "c.mkv"]);
    assert_eq!(next_file(&dir, &b("a.mkv")), Some(0));
    assert_eq!(next_file(&dir, &b("b.mkv")), Some(3));
    assert_eq!(next_file(&dir, &b("c.mkv")), Some(1));
    // after the last file comes the first
    assert_eq!(next_file(&dir, &b("notes.txt")), Some(2));
}

#[test]
fn the_file_before_comes_before_in_dictionary_order() {
    let dir = names(&["b.mkv", "notes.txt", "a.mkv", "c.mkv"]);
    assert_eq!(pre_file(&dir, &b("notes.txt")), Some(3));
    assert_eq!(pre_file(&dir, &b("c.mkv")), Some(0));
    assert_eq!(pre_file(&dir, &b("b.mkv")), Some(2));
    // before the first file comes the last
    assert_eq!(pre_file(&dir, &b("a.mkv")), Some(1));
}

#[test]
fn a_file_that_is_not_listed_has_no_neighbours() {
    let dir = names(&["b.mkv", "a.mkv"]);
    assert_eq!(next_file(&dir, &b("z.mkv")), None);
    assert_eq!(pre_file(&dir, &b("z.mkv")), None);
    assert_eq!(next_file(&names(&[]), &b("a")), None);
    assert_eq!(pre_file(&names(&[]), &b("a")), None);
}

#[test]
fn a_file_alone_is_its_own_neighbour() {
    let dir = names(&["only.mp4"]);
    assert_eq!(next_file(&dir, &b("only.mp4")), Some(0));
    assert_eq!(pre_file(&dir, &b("only.mp4")), Some(0));
}
