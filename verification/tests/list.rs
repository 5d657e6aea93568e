use rstu::ast::NodeClass;
use rstu::parse;

fn list_types(input: &str) -> Vec<String> {
    let document = parse(input).unwrap();
    document
        .children
        .iter()
        .filter(|child| child.class == NodeClass::EnumeratedList)
        .map(|child| {
            child
                .attributes
                .get("enumtype")
                .and_then(|value| value.as_str())
                .unwrap()
                .to_owned()
        })
        .collect()
}

#[test]
fn ambiguous_i_starts_a_roman_list() {
    assert_eq!(list_types("I. first\nII. second\n"), ["upperroman"]);
}

#[test]
fn ambiguous_c_starts_an_alpha_list() {
    assert_eq!(list_types("C. first\nD. second\n"), ["upperalpha"]);
}

#[test]
fn ambiguous_markers_use_the_existing_list_style() {
    assert_eq!(list_types("H. first\nI. second\n"), ["upperalpha"]);
    assert_eq!(list_types("I. first\nC. second\n"), ["upperroman"]);
}
