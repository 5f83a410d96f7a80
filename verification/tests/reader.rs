use lander::access::{
    get_focused_element_text_value, get_selected_text, is_text_input_role, read_focused_text,
    search_for_focused_element, AxNode,
};

fn leaf(focused: bool, role: &str, selected: Option<&str>, value: Option<&str>) -> AxNode {
    AxNode {
        focused,
        role: Some(String::from(role)),
        selected_text: selected.map(String::from),
        value: value.map(String::from),
        children: Vec::new(),
    }
}

fn branch(focused: bool, children: Vec<AxNode>) -> AxNode {
    AxNode {
        focused,
        role: None,
        selected_text: None,
        value: None,
        children,
    }
}

#[test]
fn traversal_finds_the_preorder_first_focused_element() {
    // two focused elements; pre-order reaches the deeper-left one first
    let first = leaf(true, "AXTextField", Some("left"), Some("left value"));
    let second = leaf(true, "AXTextArea", Some("right"), Some("right value"));
    let tree = branch(
        false,
        vec![
            branch(false, vec![leaf(false, "AXGroup", None, None), first]),
            second,
        ],
    );
    let found = search_for_focused_element(&tree).expect("a focused element exists");
    assert_eq!(found.selected_text.as_deref(), Some("left"));
}

#[test]
fn fallback_agrees_with_direct_lookup() {
    // exactly one focused element — the case where the platform's direct
    // lookup succeeds; the fallback traversal returns that very element
    let only = leaf(true, "AXComboBox", Some("choice"), Some("entry"));
    let tree = branch(
        false,
        vec![
            leaf(false, "AXGroup", None, None),
            branch(false, vec![only]),
            leaf(false, "AXButton", None, None),
        ],
    );
    let found = search_for_focused_element(&tree).expect("a focused element exists");
    assert_eq!(found.selected_text.as_deref(), Some("choice"));
    assert_eq!(found.value.as_deref(), Some("entry"));
    assert!(found.focused);
}

#[test]
fn no_focused_element_yields_nothing() {
    let tree = branch(
        false,
        vec![leaf(false, "AXTextField", Some("sel"), Some("val"))],
    );
    assert!(search_for_focused_element(&tree).is_none());
    let texts = read_focused_text(&tree);
    assert!(texts.selected_text.is_none());
    assert!(texts.focused_text.is_none());
}

#[test]
fn focused_text_follows_the_role() {
    // populated exactly for text-field, text-area and combo-box roles
    for role in ["AXTextField", "AXTextArea", "AXComboBox"] {
        let node = leaf(true, role, None, Some("typed"));
        assert_eq!(
            get_focused_element_text_value(&node).as_deref(),
            Some("typed"),
            "role {}",
            role
        );
    }
    for role in ["AXButton", "AXGroup", "AXWindow", "axtextfield", ""] {
        let node = leaf(true, role, None, Some("typed"));
        assert!(
            get_focused_element_text_value(&node).is_none(),
            "role {}",
            role
        );
    }
}

#[test]
fn role_predicate_matches_the_three_text_roles() {
    assert!(is_text_input_role(&String::from("AXTextField")));
    assert!(is_text_input_role(&String::from("AXTextArea")));
    assert!(is_text_input_role(&String::from("AXComboBox")));
    assert!(!is_text_input_role(&String::from("AXButton")));
}

#[test]
fn empty_selection_normalizes_to_absence() {
    let with_empty = leaf(true, "AXTextField", Some(""), Some("v"));
    assert!(get_selected_text(&with_empty).is_none());
    let with_text = leaf(true, "AXTextField", Some("picked"), Some("v"));
    assert_eq!(get_selected_text(&with_text).as_deref(), Some("picked"));
    let without = leaf(true, "AXTextField", None, Some("v"));
    assert!(get_selected_text(&without).is_none());
}

#[test]
fn missing_role_or_value_yields_no_focused_text() {
    let no_role = AxNode {
        focused: true,
        role: None,
        selected_text: None,
        value: Some(String::from("v")),
        children: Vec::new(),
    };
    assert!(get_focused_element_text_value(&no_role).is_none());
    let no_value = leaf(true, "AXTextField", None, None);
    assert!(get_focused_element_text_value(&no_value).is_none());
}

#[test]
fn reader_reports_both_texts_of_the_focused_element() {
    let tree = branch(
        false,
        vec![branch(
            false,
            vec![leaf(true, "AXTextArea", Some("selection"), Some("document"))],
        )],
    );
    let texts = read_focused_text(&tree);
    assert_eq!(texts.selected_text.as_deref(), Some("selection"));
    assert_eq!(texts.focused_text.as_deref(), Some("document"));
}

#[test]
fn enhancement_applies_to_regular_applications_only() {
    // policy 0 is regular activation; accessory and prohibited policies
    // get no enhancement attempt
    assert!(lander::access::should_enhance_accessibility(0));
    assert!(!lander::access::should_enhance_accessibility(1));
    assert!(!lander::access::should_enhance_accessibility(2));
    let attrs = lander::access::accessibility_enhancement_attributes();
    assert_eq!(
        attrs,
        vec![
            String::from("AXEnhancedUserInterface"),
            String::from("AXManualAccessibility"),
        ]
    );
}

#[test]
fn focused_root_is_found_first() {
    let mut tree = branch(true, vec![leaf(true, "AXTextField", Some("inner"), None)]);
    tree.role = Some(String::from("AXWindow"));
    let found = search_for_focused_element(&tree).expect("the root is focused");
    // pre-order: the root itself comes before any focused descendant
    assert_eq!(found.role.as_deref(), Some("AXWindow"));
}

#[test]
fn single_unfocused_node_yields_nothing() {
    let tree = leaf(false, "AXWindow", None, None);
    assert!(search_for_focused_element(&tree).is_none());
}

#[test]
fn deep_chain_is_traversed_to_the_bottom() {
    let mut node = leaf(true, "AXTextArea", None, Some("deep"));
    for _ in 0..200 {
        node = branch(false, vec![node]);
    }
    let found = search_for_focused_element(&node).expect("the leaf is focused");
    assert_eq!(found.value.as_deref(), Some("deep"));
}
