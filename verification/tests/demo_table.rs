use snobol4_runner::demos::{default_demo_index, demos, same_text, DEFAULT_DEMO, INPUT_DATA};

#[test]
fn demo_names_in_menu_order() {
    let names: Vec<&str> = demos().iter().map(|d| d.name).collect();
    assert_eq!(
        names,
        vec![
            "array", "break", "concat", "count", "fizzbuzz", "hello", "hello-goto", "input",
            "multiply", "span", "span-fail"
        ]
    );
}

#[test]
fn demos_sorted_alphabetically() {
    let table = demos();
    for w in table.windows(2) {
        assert!(w[0].name < w[1].name);
    }
}

#[test]
fn default_demo_is_hello() {
    let idx = default_demo_index();
    assert_eq!(idx, 5);
    assert_eq!(demos()[idx].name, DEFAULT_DEMO);
    assert_eq!(DEFAULT_DEMO, "hello");
}

#[test]
fn only_input_demo_has_data() {
    for d in demos() {
        if d.name == "input" {
            assert_eq!(d.data, Some(INPUT_DATA));
            assert_eq!(d.data, Some("Hello\nWorld\nGoodbye\n"));
        } else {
            assert_eq!(d.data, None);
        }
    }
}

#[test]
fn every_demo_source_ends_with_end() {
    for d in demos() {
        assert!(d.source.ends_with("END\n"), "{}", d.name);
    }
    let hello = &demos()[5];
    assert_eq!(hello.source, "        OUTPUT = 'Hello, World!'\nEND\n");
}

#[test]
fn same_text_compares_characters() {
    assert!(same_text("hello", "hello"));
    assert!(!same_text("hello", "hello-goto"));
    assert!(!same_text("hellp", "hello"));
    assert!(same_text("", ""));
}

#[test]
fn demo_sources_keep_their_columns() {
    let array = &demos()[0];
    assert!(array.source.starts_with("        NAMES = ARRAY('1:50')\n        NAMES<1> = 'Alice'\n"));
    let input = &demos()[7];
    assert!(input.source.starts_with("READ   LINE = INPUT"));
}
