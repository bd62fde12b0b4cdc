use layout_synonyms::{create_layouts, find_layout, KbdLayout, LAYOUT_KEY_COUNT};

#[test]
fn test_layout_length() {
    let layouts = create_layouts();

    for layout in layouts.iter() {
        assert_eq!(layout.keys.len(), 31);
    }
}

#[test]
fn every_layout_has_the_same_key_count() {
    let layouts = create_layouts();
    assert_eq!(layouts.len(), 4);
    for layout in layouts.iter() {
        assert_eq!(layout.keys.len(), LAYOUT_KEY_COUNT);
    }
}

#[test]
fn registry_holds_the_four_layouts_in_order() {
    let layouts = create_layouts();
    let names: Vec<&str> = layouts.iter().map(|l: &KbdLayout| l.name.as_str()).collect();
    assert_eq!(names, vec!["dvorak", "qwerty", "colemak", "workman"]);
}

#[test]
fn layout_keys_are_all_different() {
    let layouts = create_layouts();
    for layout in layouts.iter() {
        for i in 0..layout.keys.len() {
            for j in (i + 1)..layout.keys.len() {
                assert_ne!(layout.keys[i], layout.keys[j]);
            }
        }
    }
}

#[test]
fn layout_tables_match_the_key_order() {
    let layouts = create_layouts();
    let qwerty = &layouts[1].keys;
    assert_eq!(&qwerty[0..6], &['q', 'w', 'e', 'r', 't', 'y']);
    let dvorak = &layouts[0].keys;
    assert_eq!(&dvorak[0..8], &['\'', ',', '.', 'p', 'y', 'f', 'g', 'c']);
    assert_eq!(dvorak[30], 'z');
}

#[test]
fn find_layout_by_name() {
    let layouts = create_layouts();
    assert_eq!(find_layout(&layouts, &"dvorak".to_string()), Some(0));
    assert_eq!(find_layout(&layouts, &"qwerty".to_string()), Some(1));
    assert_eq!(find_layout(&layouts, &"colemak".to_string()), Some(2));
    assert_eq!(find_layout(&layouts, &"workman".to_string()), Some(3));
}

#[test]
fn find_layout_unknown_name() {
    let layouts = create_layouts();
    assert_eq!(find_layout(&layouts, &"azerty".to_string()), None);
    assert_eq!(find_layout(&layouts, &"Dvorak".to_string()), None);
    assert_eq!(find_layout(&layouts, &String::new()), None);
}
