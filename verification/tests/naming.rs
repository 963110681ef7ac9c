use wrld::naming::{const_into_name, mutate_name, packed_type_name, snake_case, to_lower};

#[test]
fn capital_letters_become_underscores_and_small_letters() {
    assert_eq!(snake_case("VertexData"), "vertex_data");
    assert_eq!(snake_case("Vertex"), "vertex");
    assert_eq!(snake_case("VertexDBD"), "vertex_d_b_d");
    assert_eq!(snake_case("VertexDIBD"), "vertex_d_i_b_d");
    assert_eq!(snake_case("aB"), "a_b");
    assert_eq!(snake_case("ABC"), "a_b_c");
}

#[test]
fn names_without_capital_letters_stay() {
    assert_eq!(snake_case("vertex"), "vertex");
    assert_eq!(snake_case("vertex_data2"), "vertex_data2");
    assert_eq!(snake_case(""), "");
}

#[test]
fn one_leading_underscore_is_dropped() {
    assert_eq!(snake_case("_vertex"), "vertex");
    assert_eq!(snake_case("_Vertex"), "_vertex");
    assert_eq!(snake_case("__x"), "_x");
    assert_eq!(snake_case("_"), "");
    assert_eq!(snake_case("A"), "a");
}

#[test]
fn only_the_letters_a_to_z_count_as_capital() {
    assert_eq!(snake_case("\u{c9}cole"), "\u{c9}cole");
    assert_eq!(snake_case("a\u{c9}B"), "a\u{c9}_b");
    assert_eq!(snake_case("V3rtexZ"), "v3rtex_z");
}

#[test]
fn small_letters_of_capital_letters() {
    assert_eq!(to_lower('A'), 'a');
    assert_eq!(to_lower('Z'), 'z');
    assert_eq!(to_lower('M'), 'm');
    assert_eq!(to_lower('a'), 'a');
    assert_eq!(to_lower('@'), '@');
    assert_eq!(to_lower('['), '[');
    assert_eq!(to_lower('\u{c9}'), '\u{c9}');
    for ch in 'A'..='Z' {
        assert_eq!(to_lower(ch), ch.to_ascii_lowercase());
    }
}

#[test]
fn snake_case_agrees_with_letter_by_letter_rewriting() {
    for name in ["Vertex", "HTTPServer", "x", "fooBarBaz", "Z9Z", "_A_B", "a__B"] {
        let mut expected = String::new();
        for ch in name.chars() {
            if ch.is_ascii_uppercase() {
                expected.push('_');
            }
            expected.push(ch.to_ascii_lowercase());
        }
        if expected.starts_with('_') {
            expected.remove(0);
        }
        assert_eq!(snake_case(name), expected, "{}", name);
    }
}

#[test]
fn derived_names() {
    assert_eq!(packed_type_name("Vertex"), "VertexPackedData");
    assert_eq!(packed_type_name(""), "PackedData");
    assert_eq!(const_into_name("VertexData"), "vertex_data_const_into");
    assert_eq!(mutate_name("VertexData"), "mutate_vertex_data");
    assert_eq!(const_into_name("VertexDBD"), "vertex_d_b_d_const_into");
    assert_eq!(mutate_name("actor"), "mutate_actor");
}
