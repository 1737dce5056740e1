use prompt_scan::text::{chars_le, chars_of, text_le};

#[test]
fn chars_of_gives_each_character_in_order() {
    assert_eq!(chars_of("a/é"), vec!['a', '/', 'é']);
    assert_eq!(chars_of(""), Vec::<char>::new());
}

#[test]
fn a_text_comes_before_or_equals_itself() {
    assert!(text_le("src/main.rs", "src/main.rs"));
    assert!(text_le("", ""));
}

#[test]
fn the_first_differing_character_decides() {
    assert!(text_le("a.txt", "b.txt"));
    assert!(!text_le("b.txt", "a.txt"));
    assert!(text_le("src/a", "src/b"));
    assert!(!text_le("src/b", "src/a"));
}

#[test]
fn a_prefix_comes_before_its_extensions() {
    assert!(text_le("", "a"));
    assert!(!text_le("a", ""));
    assert!(text_le("src", "src/main.rs"));
    assert!(!text_le("src/main.rs", "src"));
}

#[test]
fn characters_compare_by_scalar_value() {
    assert!(text_le("B", "a"));
    assert!(!text_le("a", "B"));
    assert!(text_le("a-b", "a/b"));
    assert!(text_le("z", "é"));
    assert!(!text_le("é", "z"));
}

#[test]
fn chars_le_agrees_with_text_le() {
    let a = chars_of("lib/x");
    let b = chars_of("lib/y");
    assert!(chars_le(&a, &b));
    assert!(!chars_le(&b, &a));
    assert!(chars_le(&a, &a));
}

#[test]
fn any_two_texts_are_comparable() {
    let texts = ["", "a", "a/b", "ab", "b", "B", "é"];
    for x in texts {
        for y in texts {
            assert!(text_le(x, y) || text_le(y, x));
            if text_le(x, y) && text_le(y, x) {
                assert_eq!(x, y);
            }
            for z in texts {
                if text_le(x, y) && text_le(y, z) {
                    assert!(text_le(x, z));
                }
            }
        }
    }
}
