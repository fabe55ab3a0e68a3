use kitowall_bridge::order::{last_in_order, sort_texts, sorted_distinct, text_le};
use kitowall_bridge::path::{expand_tilde, extension, file_name, join, leads, path_segments};

fn strings(items: &[&str]) -> Vec<String> {
    items.iter().map(|s| s.to_string()).collect()
}

#[test]
fn segments_are_the_pieces_between_slashes() {
    assert_eq!(path_segments("/home/u/Pictures"), vec!["home", "u", "Pictures"]);
    assert_eq!(path_segments("a//b/"), vec!["a", "b"]);
    assert!(path_segments("/").is_empty());
    assert!(path_segments("").is_empty());
}

#[test]
fn file_name_is_the_last_segment() {
    assert_eq!(file_name("/home/u/x.png"), "x.png");
    assert_eq!(file_name("x.png"), "x.png");
    assert_eq!(file_name("/home/u/dir/"), "dir");
    assert_eq!(file_name("/"), "");
}

#[test]
fn extension_follows_the_last_dot() {
    assert_eq!(extension("x.png"), Some("png".to_string()));
    assert_eq!(extension("archive.tar.gz"), Some("gz".to_string()));
    assert_eq!(extension("x."), Some("".to_string()));
    assert_eq!(extension("x"), None);
    assert_eq!(extension(".hidden"), None);
    assert_eq!(extension(".hidden.png"), Some("png".to_string()));
    assert_eq!(extension("..png"), Some("png".to_string()));
    assert_eq!(extension(".."), None);
    assert_eq!(extension(""), None);
}

#[test]
fn join_puts_one_slash_between() {
    assert_eq!(join("/home/u", "Pictures"), "/home/u/Pictures");
    assert_eq!(join("/home/u/", "Pictures"), "/home/u/Pictures");
    assert_eq!(join("", "Pictures"), "Pictures");
    assert_eq!(join("/home/u", "/etc"), "/etc");
    assert_eq!(join("/home/u", ""), "/home/u/");
    assert_eq!(join("/build", "../../dist/cli.js"), "/build/../../dist/cli.js");
}

#[test]
fn tilde_stands_for_the_home_folder() {
    assert_eq!(expand_tilde("/home/u", "~"), "/home/u");
    assert_eq!(expand_tilde("/home/u", "~/Pictures/Wallpapers"), "/home/u/Pictures/Wallpapers");
    assert_eq!(expand_tilde("/home/u", "/srv/walls"), "/srv/walls");
    assert_eq!(expand_tilde("/home/u", "~other/x"), "~other/x");
    assert_eq!(expand_tilde("/home/u", "relative/x"), "relative/x");
    assert_eq!(expand_tilde("/home/u", ""), "");
    assert_eq!(expand_tilde("/home/u", "~/"), "/home/u/");
}

#[test]
fn leads_tells_a_prefix_of_segments() {
    assert!(leads(&strings(&["a", "b"]), &strings(&["a", "b", "c"])));
    assert!(leads(&strings(&[]), &strings(&["a"])));
    assert!(leads(&strings(&["a"]), &strings(&["a"])));
    assert!(!leads(&strings(&["a", "x"]), &strings(&["a", "b", "c"])));
    assert!(!leads(&strings(&["a", "b"]), &strings(&["a"])));
}

#[test]
fn texts_are_ordered_like_strings() {
    let samples = ["", "a", "ab", "b", "B", "v1", "v1.2", "v10", "v9", "é", "z"];
    for a in samples {
        for b in samples {
            assert_eq!(text_le(a, b), a <= b, "{a:?} <= {b:?}");
        }
    }
}

#[test]
fn last_in_order_finds_the_greatest() {
    assert_eq!(last_in_order(&strings(&[])), None);
    let versions = strings(&["v18.2.0", "v20.1.0", "v9.0.0"]);
    assert_eq!(last_in_order(&versions), Some(2));
    let same = strings(&["b", "a", "b"]);
    let at = last_in_order(&same).unwrap();
    assert_eq!(same[at], "b");
}

#[test]
fn sort_texts_orders_and_keeps_repeats() {
    let mut names = strings(&["pear", "apple", "fig", "apple", "Zed"]);
    sort_texts(&mut names);
    assert_eq!(names, vec!["Zed", "apple", "apple", "fig", "pear"]);
    let mut none: Vec<String> = vec![];
    sort_texts(&mut none);
    assert!(none.is_empty());
}

#[test]
fn sorted_distinct_orders_and_drops_repeats() {
    let names = strings(&["run", "help", "run", "apply", "help"]);
    assert_eq!(sorted_distinct(&names), vec!["apply", "help", "run"]);
    assert!(sorted_distinct(&strings(&[])).is_empty());
}
