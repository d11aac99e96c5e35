use dsa_sport::datastruct::vec_struct::Vector;
use dsa_sport::datastruct::vec_text::{decimal_text, render_cells, LEFT, PHI, RIGHT};

#[test]
fn cell_marks() {
    assert_eq!(LEFT, "⎩");
    assert_eq!(PHI, "▅");
    assert_eq!(RIGHT, "⎭");
}

#[test]
fn new_vector_is_shown_as_a_placeholder() {
    let v: Vector<char> = Vector::new();
    assert_eq!(v.to_text(), "▅");
    assert_eq!(v.to_debug_text(), "▅");
}

#[test]
fn three_elements_and_a_free_slot() {
    let mut v: Vector<char> = Vector::new();
    v.push_back('A');
    v.push_back('B');
    v.push_back('C');
    assert_eq!(v.to_text(), "⎩A⎭⎩B⎭⎩C⎭⎩▅⎭");
}

#[test]
fn text_matches_display_of_each_element() {
    let mut v: Vector<i32> = Vector::new();
    let mut expected = String::new();
    for x in [-5, 0, 17, 2048, -99999] {
        v.push_back(x);
        expected.push_str(&format!("{}{}{}", LEFT, x, RIGHT));
    }
    for _ in 5..8 {
        expected.push_str(&format!("{}{}{}", LEFT, PHI, RIGHT));
    }
    assert_eq!(v.to_text(), expected);
}

#[test]
fn drained_vector_shows_only_placeholders() {
    let mut v: Vector<char> = Vector::new();
    v.push_back('A');
    v.push_back('B');
    v.pop_front();
    v.pop_front();
    assert_eq!(v.to_text(), "⎩▅⎭⎩▅⎭⎩▅⎭⎩▅⎭");
    assert_eq!(v.to_debug_text(), "Length = 0 Capacity = 4 -> ⎩▅⎭⎩▅⎭⎩▅⎭⎩▅⎭");
}

#[test]
fn wrapped_window_is_shown_in_logical_order() {
    let mut v: Vector<char> = Vector::new();
    for c in ['A', 'B', 'C', 'D'] {
        v.push_back(c);
    }
    v.pop_front();
    v.pop_front();
    v.push_back('E');
    assert_eq!(v.to_text(), "⎩C⎭⎩D⎭⎩E⎭⎩▅⎭");
}

#[test]
fn debug_text_shows_length_capacity_and_debug_of_each_element() {
    let mut v: Vector<char> = Vector::new();
    v.push_back('A');
    v.push_back('B');
    v.push_back('C');
    assert_eq!(v.to_debug_text(), "Length = 3 Capacity = 4 -> ⎩'A'⎭⎩'B'⎭⎩'C'⎭⎩▅⎭");
}

#[test]
fn debug_text_of_strings_is_quoted() {
    let mut v: Vector<String> = Vector::new();
    for word in ["a", "b\"c", "", "d", "e"] {
        v.push_back(word.to_string());
    }
    assert_eq!(
        v.to_debug_text(),
        "Length = 5 Capacity = 8 -> ⎩\"a\"⎭⎩\"b\\\"c\"⎭⎩\"\"⎭⎩\"d\"⎭⎩\"e\"⎭⎩▅⎭⎩▅⎭⎩▅⎭"
    );
    assert_eq!(v.to_text(), "⎩a⎭⎩b\"c⎭⎩⎭⎩d⎭⎩e⎭⎩▅⎭⎩▅⎭⎩▅⎭");
}

#[test]
fn debug_text_with_two_digit_numbers() {
    let mut v: Vector<u8> = Vector::new();
    for x in 0..12 {
        v.push_back(x);
    }
    let mut expected = String::from("Length = 12 Capacity = 16 -> ");
    for x in 0..12 {
        expected.push_str(&format!("⎩{:?}⎭", x));
    }
    expected.push_str("⎩▅⎭⎩▅⎭⎩▅⎭⎩▅⎭");
    assert_eq!(v.to_debug_text(), expected);
}

#[test]
fn pretty_print_and_vec_debug_append_to_what_is_there() {
    let mut v: Vector<u8> = Vector::new();
    v.push_back(1);
    let mut out = String::from("v = ");
    v.pretty_print(&mut out);
    assert_eq!(out, "v = ⎩1⎭⎩▅⎭⎩▅⎭⎩▅⎭");
    let mut out = String::from("v: ");
    v.vec_debug(&mut out);
    assert_eq!(out, "v: Length = 1 Capacity = 4 -> ⎩1⎭⎩▅⎭⎩▅⎭⎩▅⎭");
}

#[test]
fn element_texts_in_logical_order() {
    let mut v: Vector<i16> = Vector::new();
    for x in [7, -8, 9, 10, 11] {
        v.push_back(x);
    }
    v.pop_front();
    assert_eq!(v.display_texts(), vec!["-8", "9", "10", "11"]);
    assert_eq!(v.debug_texts(), vec!["-8", "9", "10", "11"]);
    let mut w: Vector<&str> = Vector::new();
    w.push_back("x");
    assert_eq!(w.display_texts(), vec!["x"]);
    assert_eq!(w.debug_texts(), vec!["\"x\""]);
}

#[test]
fn render_cells_of_given_texts() {
    let texts = vec!["one".to_string(), "".to_string(), "⎩".to_string()];
    let mut out = String::new();
    render_cells(&texts, 5, &mut out);
    assert_eq!(out, "⎩one⎭⎩⎭⎩⎩⎭⎩▅⎭⎩▅⎭");
    let mut out = String::from(">");
    render_cells(&texts, 3, &mut out);
    assert_eq!(out, ">⎩one⎭⎩⎭⎩⎩⎭");
    let mut out = String::new();
    render_cells(&Vec::new(), 0, &mut out);
    assert_eq!(out, "");
    render_cells(&Vec::new(), 2, &mut out);
    assert_eq!(out, "⎩▅⎭⎩▅⎭");
}

#[test]
fn decimal_text_of_numbers() {
    assert_eq!(decimal_text(0), "0");
    assert_eq!(decimal_text(7), "7");
    assert_eq!(decimal_text(9), "9");
    assert_eq!(decimal_text(10), "10");
    assert_eq!(decimal_text(99), "99");
    assert_eq!(decimal_text(100), "100");
    assert_eq!(decimal_text(1234567890), "1234567890");
    assert_eq!(decimal_text(usize::MAX), format!("{}", usize::MAX));
    for n in 0..2000usize {
        assert_eq!(decimal_text(n), n.to_string());
    }
}
