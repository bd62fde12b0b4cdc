use layout_synonyms::{create_layouts, find_layout, Translator};

fn keys(name: &str) -> Vec<char> {
    let layouts = create_layouts();
    let i = find_layout(&layouts, &name.to_string()).unwrap();
    layouts[i].keys.clone()
}

#[test]
fn translator_pairs_keys_by_position() {
    let from = keys("qwerty");
    let to = keys("dvorak");
    let tr = Translator::new(&from, &to);
    for i in 0..from.len() {
        assert_eq!(tr.translate_char(from[i]), Some(to[i]));
    }
    assert_eq!(tr.translate_char('q'), Some('\''));
    assert_eq!(tr.translate_char('c'), Some('j'));
    assert_eq!(tr.translate_char('/'), Some('z'));
}

#[test]
fn translator_is_reproducible() {
    let a = Translator::new(&keys("colemak"), &keys("workman"));
    let b = Translator::new(&keys("colemak"), &keys("workman"));
    for c in "abcdefghijklmnopqrstuvwxyz;',./-".chars() {
        assert_eq!(a.translate_char(c), b.translate_char(c));
    }
}

#[test]
fn translator_has_no_entry_outside_the_layout() {
    let tr = Translator::new(&keys("qwerty"), &keys("dvorak"));
    assert_eq!(tr.translate_char('A'), None);
    assert_eq!(tr.translate_char('-'), None);
    assert_eq!(tr.translate_char('1'), None);
}

#[test]
fn translator_stops_at_the_shorter_layout() {
    let from = vec!['a', 'b', 'c'];
    let to = vec!['x', 'y'];
    let tr = Translator::new(&from, &to);
    assert_eq!(tr.translate_char('a'), Some('x'));
    assert_eq!(tr.translate_char('b'), Some('y'));
    assert_eq!(tr.translate_char('c'), None);
    let back = Translator::new(&to, &from);
    assert_eq!(back.translate_char('y'), Some('b'));
}

#[test]
fn translator_last_position_wins_for_a_repeated_key() {
    let tr = Translator::new(&vec!['a', 'a'], &vec!['x', 'y']);
    assert_eq!(tr.translate_char('a'), Some('y'));
}

#[test]
fn translator_of_empty_layouts_is_empty() {
    let tr = Translator::new(&Vec::new(), &vec!['x']);
    assert_eq!(tr.translate_char('x'), None);
}

#[test]
fn translate_word_cat_from_qwerty_to_dvorak() {
    let tr = Translator::new(&keys("qwerty"), &keys("dvorak"));
    assert_eq!(tr.translate_word("cat"), Some("jay".to_string()));
    assert_eq!(tr.translate_word(""), Some(String::new()));
}

#[test]
fn translate_word_with_unknown_character() {
    let tr = Translator::new(&keys("qwerty"), &keys("dvorak"));
    assert_eq!(tr.translate_word("c4t"), None);
    assert_eq!(tr.translate_word("Cat"), None);
}

#[test]
fn round_trip_returns_the_word() {
    let names = ["dvorak", "qwerty", "colemak", "workman"];
    let words = ["cat", "hello", "layout", "keyboard", "z;x,c.v/"];
    for a in names.iter() {
        for b in names.iter() {
            let there = Translator::new(&keys(a), &keys(b));
            let back = Translator::new(&keys(b), &keys(a));
            for w in words.iter() {
                if w.chars().all(|c| keys(a).contains(&c)) {
                    let t = there.translate_word(w).unwrap();
                    assert_eq!(back.translate_word(&t), Some(w.to_string()));
                }
            }
        }
    }
}

#[test]
fn round_trip_fails_outside_the_domain() {
    let there = Translator::new(&keys("qwerty"), &keys("dvorak"));
    assert_eq!(there.translate_word("a-b"), None);
}
