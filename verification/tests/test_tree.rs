use dsa_sport::datastruct::tree_code::{parse_count, split_fields};
use dsa_sport::datastruct::tree_struct::Tree;
use dsa_sport::datastruct::strings::str_eq;
use dsa_sport::datastruct::tree_text::{BLANK, CORNER, EDGE, LINE};

#[test]
fn strokes() {
    assert_eq!(EDGE, "╠═");
    assert_eq!(LINE, "║ ");
    assert_eq!(CORNER, "╚═");
    assert_eq!(BLANK, "  ");
}

#[test]
fn new_tree_has_no_members() {
    let tree = Tree::new();
    assert_eq!(tree.to_text(), "");
    assert_eq!(tree.to_debug_text(), "--");
}

#[test]
fn plants() {
    let mut tree = Tree::new();
    let tree_code = "Plants;2;no seed;seed;3;algae;Mosses;ferns;2;Conifers;sunflower";
    tree.init_tree(tree_code);
    assert_eq!(
        tree.to_text(),
        "╚═Plants\n\
         \x20 ╠═no seed\n\
         \x20 ║ ╠═algae\n\
         \x20 ║ ╠═Mosses\n\
         \x20 ║ ╚═ferns\n\
         \x20 ╚═seed\n\
         \x20   ╠═Conifers\n\
         \x20   ╚═sunflower\n"
    );
    assert_eq!(
        tree.to_debug_text(),
        "Plants:no seed,seed,\n\
         no seed:algae,Mosses,ferns,\n\
         algae:\n\
         Mosses:\n\
         ferns:\n\
         seed:Conifers,sunflower,\n\
         Conifers:\n\
         sunflower:\n"
    );
}

#[test]
fn level_order_code() {
    let mut tree = Tree::new();
    tree.init_tree("root;3;A;B;C;2;D;E;2;F;G;0;0;0;0;1;H;0");
    assert_eq!(
        tree.to_debug_text(),
        "root:A,B,C,\nA:D,E,\nD:\nE:\nB:F,G,\nF:\nG:H,\nH:\nC:\n"
    );
    assert_eq!(
        tree.to_text(),
        "╚═root\n\
         \x20 ╠═A\n\
         \x20 ║ ╠═D\n\
         \x20 ║ ╚═E\n\
         \x20 ╠═B\n\
         \x20 ║ ╠═F\n\
         \x20 ║ ╚═G\n\
         \x20 ║   ╚═H\n\
         \x20 ╚═C\n"
    );
}

#[test]
fn root_alone() {
    let mut tree = Tree::new();
    tree.init_tree("solo");
    assert_eq!(tree.to_text(), "╚═solo\n");
    assert_eq!(tree.to_debug_text(), "solo:\n");
    tree.init_tree("solo;0");
    assert_eq!(tree.to_text(), "╚═solo\n");
    assert_eq!(tree.to_debug_text(), "solo:\n");
}

#[test]
fn empty_code_is_a_root_without_label() {
    let mut tree = Tree::new();
    tree.init_tree("");
    assert_eq!(tree.to_text(), "╚═\n");
    assert_eq!(tree.to_debug_text(), ":\n");
}

#[test]
fn empty_fields_are_labels() {
    let mut tree = Tree::new();
    tree.init_tree(";2;;");
    assert_eq!(tree.to_debug_text(), ":,,\n:\n:\n");
    assert_eq!(tree.to_text(), "╚═\n  ╠═\n  ╚═\n");
}

#[test]
fn a_field_that_is_no_count_gives_no_children() {
    let mut tree = Tree::new();
    tree.init_tree("r;two;a;b");
    assert_eq!(tree.to_debug_text(), "r:\n");
    tree.init_tree("r;2;a;b;x;1;c");
    assert_eq!(tree.to_debug_text(), "r:a,b,\na:\nb:c,\nc:\n");
    tree.init_tree("r;-1;a");
    assert_eq!(tree.to_debug_text(), "r:\n");
    tree.init_tree("r; 1;a");
    assert_eq!(tree.to_debug_text(), "r:\n");
    tree.init_tree("r;;a");
    assert_eq!(tree.to_debug_text(), "r:\n");
}

#[test]
fn a_count_may_carry_a_plus_sign_and_leading_zeros() {
    let mut tree = Tree::new();
    tree.init_tree("r;+2;a;b;001;c");
    assert_eq!(tree.to_debug_text(), "r:a,b,\na:c,\nc:\nb:\n");
}

#[test]
fn a_count_past_the_end_takes_what_is_left() {
    let mut tree = Tree::new();
    tree.init_tree("r;5;a;b");
    assert_eq!(tree.to_debug_text(), "r:a,b,\na:\nb:\n");
    tree.init_tree("r;18446744073709551615;a;b;c");
    assert_eq!(tree.to_debug_text(), "r:a,b,c,\na:\nb:\nc:\n");
    tree.init_tree("r;3");
    assert_eq!(tree.to_debug_text(), "r:\n");
}

#[test]
fn a_count_that_does_not_fit_is_no_count() {
    let mut tree = Tree::new();
    tree.init_tree("r;340282366920938463463374607431768211456;a;b");
    assert_eq!(tree.to_debug_text(), "r:\n");
}

#[test]
fn fields_behind_the_last_count_are_ignored() {
    let mut tree = Tree::new();
    tree.init_tree("r;1;a;0;b;c;d");
    assert_eq!(tree.to_debug_text(), "r:a,\na:\n");
    assert_eq!(tree.to_text(), "╚═r\n  ╚═a\n");
}

#[test]
fn init_tree_replaces_the_tree() {
    let mut tree = Tree::new();
    tree.init_tree("one;2;a;b");
    tree.init_tree("two;1;c");
    assert_eq!(tree.to_debug_text(), "two:c,\nc:\n");
    assert_eq!(tree.to_text(), "╚═two\n  ╚═c\n");
}

#[test]
fn deep_chain() {
    let mut code = String::from("n0");
    for i in 1..40 {
        code.push_str(&format!(";1;n{}", i));
    }
    let mut tree = Tree::new();
    tree.init_tree(&code);
    let mut expected = String::new();
    for i in 0..40 {
        expected.push_str(&"  ".repeat(i));
        expected.push_str(&format!("╚═n{}\n", i));
    }
    assert_eq!(tree.to_text(), expected);
}

#[test]
fn wide_level() {
    let mut code = String::from("top;30");
    for i in 0..30 {
        code.push_str(&format!(";c{}", i));
    }
    let mut tree = Tree::new();
    tree.init_tree(&code);
    let mut expected = String::from("╚═top\n");
    let mut debug = String::from("top:");
    for i in 0..30 {
        expected.push_str(&format!("  {}c{}\n", if i == 29 { "╚═" } else { "╠═" }, i));
        debug.push_str(&format!("c{},", i));
    }
    debug.push('\n');
    for i in 0..30 {
        debug.push_str(&format!("c{}:\n", i));
    }
    assert_eq!(tree.to_text(), expected);
    assert_eq!(tree.to_debug_text(), debug);
}

#[test]
fn labels_may_hold_any_characters() {
    let mut tree = Tree::new();
    tree.init_tree("Bäume ╚═;1;松 🌲");
    assert_eq!(tree.to_text(), "╚═Bäume ╚═\n  ╚═松 🌲\n");
    assert_eq!(tree.to_debug_text(), "Bäume ╚═:松 🌲,\n松 🌲:\n");
}

#[test]
fn split_fields_splits_at_every_separator() {
    for code in ["", ";", "a", "a;", ";a", "a;b", "a;;b", ";;", "Plants;2;no seed;seed", "é;ü;;ß;"] {
        let expected: Vec<String> = code.split(";").map(|field| field.to_string()).collect();
        assert_eq!(split_fields(code), expected);
    }
    assert_eq!(split_fields("a;b;;c"), vec!["a", "b", "", "c"]);
    assert_eq!(split_fields(""), vec![""]);
}

#[test]
fn parse_count_reads_what_the_standard_parser_reads() {
    let fields = [
        "", "0", "7", "10", "007", "+5", "+", "-", "-0", "-3", "++1", "+-1", "1+", "1 ", " 1", "1_0",
        "0x10", "12a", "a12", "١٢", "４", "4294967295", "4294967296", "18446744073709551615",
        "18446744073709551616", "18446744073709551620", "99999999999999999999999999",
        "000000000000000000000000000001", "+18446744073709551615", "1.5", "1e3",
    ];
    for field in fields {
        assert_eq!(parse_count(field), field.parse::<usize>().ok(), "{:?}", field);
    }
    for n in 0..3000usize {
        assert_eq!(parse_count(&n.to_string()), Some(n));
    }
    assert_eq!(parse_count("42"), Some(42));
    assert_eq!(parse_count("+0"), Some(0));
    assert_eq!(parse_count("forty"), None);
}

#[test]
fn str_eq_compares_texts() {
    assert!(str_eq("", ""));
    assert!(str_eq("╚═", CORNER));
    assert!(!str_eq("╚═", EDGE));
    assert!(!str_eq(LINE, BLANK));
    assert!(!str_eq("ab", "abc"));
    assert!(!str_eq("abc", "ab"));
    assert!(!str_eq("abc", "abd"));
    assert!(str_eq("abc", "abc"));
}
