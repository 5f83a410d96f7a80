//! Cross-process accessibility-tree reading.
//!
//! The reader works on a snapshot of another process's accessibility tree:
//! each element carries its focus flag, its role, and its text attributes,
//! with the children in order.  An attribute the process refused to report
//! is absent, not empty.  The traversal that finds the focused element is
//! iterative, over an explicit stack, and visits elements in pre-order; the
//! snapshot is an owned tree, so it is finite and free of cycles by
//! construction, and the walk is proved to terminate on every input.

use vstd::prelude::*;

verus! {

/// One element of the accessibility-tree snapshot.  A `None` attribute
/// means the owning process did not report it.
pub struct AxNode {
    pub focused: bool,
    pub role: Option<String>,
    pub selected_text: Option<String>,
    pub value: Option<String>,
    pub children: Vec<AxNode>,
}

/// The pre-order first focused element of the subtree at `n`: `n` itself if
/// it is focused, else the first match among its children's subtrees, left
/// to right.  This is also what the platform's direct focused-element
/// lookup answers, so it is the one specification both paths meet.
pub open spec fn spec_focused_in(n: AxNode) -> Option<AxNode>
    decreases n, 1int, 0int,
{
    if n.focused {
        Some(n)
    } else {
        spec_focused_in_list(n, 0)
    }
}

/// The first focused element among the subtrees of `n`'s children from
/// index `i` on.
pub open spec fn spec_focused_in_list(n: AxNode, i: int) -> Option<AxNode>
    decreases n, 0int, n.children.len() - i,
{
    if i < 0 || i >= n.children.len() {
        None
    } else {
        match spec_focused_in(n.children[i]) {
            Some(found) => Some(found),
            None => spec_focused_in_list(n, i + 1),
        }
    }
}

/// Whether `x` occurs in the subtree at `n`.
pub open spec fn spec_in_tree(n: AxNode, x: AxNode) -> bool
    decreases n, 1int, 0int,
{
    n == x || spec_in_tree_list(n, 0, x)
}

/// Whether `x` occurs in a subtree of `n`'s children from index `i` on.
pub open spec fn spec_in_tree_list(n: AxNode, i: int, x: AxNode) -> bool
    decreases n, 0int, n.children.len() - i,
{
    if i < 0 || i >= n.children.len() {
        false
    } else {
        spec_in_tree(n.children[i], x) || spec_in_tree_list(n, i + 1, x)
    }
}

/// What the pre-order search returns is a focused element of the tree.
pub proof fn lemma_focused_in_sound(n: AxNode)
    ensures
        spec_focused_in(n) matches Some(f) ==> spec_in_tree(n, f) && f.focused,
    decreases n, 1int, 0int,
{
    if !n.focused {
        lemma_focused_in_list_sound(n, 0);
    }
}

proof fn lemma_focused_in_list_sound(n: AxNode, i: int)
    ensures
        spec_focused_in_list(n, i) matches Some(f) ==> spec_in_tree_list(n, i, f) && f.focused,
    decreases n, 0int, n.children.len() - i,
{
    if 0 <= i < n.children.len() {
        lemma_focused_in_sound(n.children[i]);
        lemma_focused_in_list_sound(n, i + 1);
    }
}

/// If any element of the tree is focused, the pre-order search finds one.
pub proof fn lemma_focused_in_complete(n: AxNode, x: AxNode)
    requires
        spec_in_tree(n, x),
        x.focused,
    ensures
        spec_focused_in(n) is Some,
    decreases n, 1int, 0int,
{
    if n == x {
    } else {
        lemma_focused_in_list_complete(n, 0, x);
    }
}

proof fn lemma_focused_in_list_complete(n: AxNode, i: int, x: AxNode)
    requires
        spec_in_tree_list(n, i, x),
        x.focused,
    ensures
        spec_focused_in_list(n, i) is Some,
    decreases n, 0int, n.children.len() - i,
{
    if 0 <= i < n.children.len() {
        if spec_in_tree(n.children[i], x) {
            lemma_focused_in_complete(n.children[i], x);
        } else {
            lemma_focused_in_list_complete(n, i + 1, x);
        }
    }
}

/// Fallback equivalence: when the tree holds exactly one focused element —
/// the situation the platform guarantees when its direct focused-element
/// lookup would succeed — the fallback pre-order traversal returns that
/// very element, so the two paths agree.
pub proof fn lemma_fallback_matches_direct(root: AxNode, x: AxNode)
    requires
        spec_in_tree(root, x),
        x.focused,
        forall|y: AxNode| spec_in_tree(root, y) && y.focused ==> y == x,
    ensures
        spec_focused_in(root) == Some(x),
{
    lemma_focused_in_complete(root, x);
    lemma_focused_in_sound(root);
}

/// The number of elements in the subtree at `n`; the traversal's measure.
pub open spec fn spec_size(n: AxNode) -> nat
    decreases n, 1int, 0int,
{
    1 + spec_size_list(n, 0)
}

/// The number of elements in the subtrees of `n`'s children from `i` on.
pub open spec fn spec_size_list(n: AxNode, i: int) -> nat
    decreases n, 0int, n.children.len() - i,
{
    if i < 0 || i >= n.children.len() {
        0
    } else {
        spec_size(n.children[i]) + spec_size_list(n, i + 1)
    }
}

/// The nodes an explicit traversal stack holds, topmost last.
pub open spec fn stack_nodes(s: Seq<&AxNode>) -> Seq<AxNode> {
    s.map(|i: int, r: &AxNode| *r)
}

/// The first focused element the stack will yield, popping from the back.
pub open spec fn spec_stack_result(s: Seq<AxNode>) -> Option<AxNode>
    decreases s.len(),
{
    if s.len() == 0 {
        None
    } else {
        match spec_focused_in(s.last()) {
            Some(f) => Some(f),
            None => spec_stack_result(s.drop_last()),
        }
    }
}

/// The total number of elements still below the stack; strictly shrinks at
/// every step of the traversal.
pub open spec fn spec_stack_size(s: Seq<AxNode>) -> nat
    decreases s.len(),
{
    if s.len() == 0 {
        0
    } else {
        spec_size(s.last()) + spec_stack_size(s.drop_last())
    }
}

proof fn lemma_stack_push(s: Seq<AxNode>, x: AxNode)
    ensures
        spec_stack_result(s.push(x)) == (match spec_focused_in(x) {
            Some(f) => Some(f),
            None => spec_stack_result(s),
        }),
        spec_stack_size(s.push(x)) == spec_stack_size(s) + spec_size(x),
{
    assert(s.push(x).last() == x);
    assert(s.push(x).drop_last() =~= s);
}

/// Depth-first pre-order search for the focused element, with an explicit
/// stack in place of recursion.  Returns the pre-order first focused
/// element, or nothing when no element of the tree is focused.
pub fn search_for_focused_element<'a>(root: &'a AxNode) -> (r: Option<&'a AxNode>)
    ensures
        match r {
            Some(f) => spec_focused_in(*root) == Some(*f),
            None => spec_focused_in(*root) is None,
        },
{
    let mut stack: Vec<&'a AxNode> = Vec::new();
    stack.push(root);
    proof {
        assert(stack_nodes(stack@) =~= Seq::<AxNode>::empty().push(*root));
        lemma_stack_push(Seq::<AxNode>::empty(), *root);
    }
    while stack.len() > 0
        invariant
            spec_stack_result(stack_nodes(stack@)) == spec_focused_in(*root),
        decreases spec_stack_size(stack_nodes(stack@)),
    {
        let ghost nodes_before = stack_nodes(stack@);
        let top = match stack.pop() {
            Some(t) => t,
            None => {
                proof {
                    assert(false);
                }
                root
            },
        };
        proof {
            assert(stack_nodes(stack@) =~= nodes_before.drop_last());
            assert(nodes_before.last() == *top);
        }
        if top.focused {
            proof {
                assert(spec_focused_in(*top) == Some(*top));
            }
            return Some(top);
        }
        let ghost base = stack_nodes(stack@);
        let mut idx: usize = top.children.len();
        while idx > 0
            invariant
                idx <= top.children.len(),
                spec_stack_result(stack_nodes(stack@)) == (match spec_focused_in_list(
                    *top,
                    idx as int,
                ) {
                    Some(f) => Some(f),
                    None => spec_stack_result(base),
                }),
                spec_stack_size(stack_nodes(stack@)) == spec_stack_size(base) + spec_size_list(
                    *top,
                    idx as int,
                ),
            decreases idx,
        {
            idx = idx - 1;
            let ghost before = stack_nodes(stack@);
            stack.push(&top.children[idx]);
            proof {
                assert(stack_nodes(stack@) =~= before.push(top.children@[idx as int]));
                lemma_stack_push(before, top.children@[idx as int]);
            }
        }
        proof {
            // popping an unfocused element and pushing its children keeps
            // the stack's answer and shrinks its measure by one
            assert(spec_focused_in(*top) == spec_focused_in_list(*top, 0));
            assert(spec_size(*top) == 1 + spec_size_list(*top, 0));
            assert(spec_stack_size(nodes_before) == spec_stack_size(base) + spec_size(*top));
            assert(spec_stack_result(nodes_before) == spec_stack_result(stack_nodes(stack@)));
        }
    }
    proof {
        assert(stack_nodes(stack@).len() == 0);
    }
    None
}

/// The three roles whose value is edited text: text field, text area,
/// combo box.  Only these yield a `focused_text`.
pub open spec fn spec_is_text_input_role(role: Seq<char>) -> bool {
    ||| role == "AXTextField"@
    ||| role == "AXTextArea"@
    ||| role == "AXComboBox"@
}

/// Whether a role's value is edited text.
pub fn is_text_input_role(role: &String) -> (r: bool)
    ensures
        r == spec_is_text_input_role(role@),
{
    let text_field = String::from_str("AXTextField");
    let text_area = String::from_str("AXTextArea");
    let combo_box = String::from_str("AXComboBox");
    *role == text_field || *role == text_area || *role == combo_box
}

/// The view of an optional text attribute.
pub open spec fn opt_text_view(t: Option<String>) -> Option<Seq<char>> {
    match t {
        Some(s) => Some(s@),
        None => None,
    }
}

/// The selected text of a focused element, with an empty selection
/// normalized to absence: selection-state and no-selection are
/// intentionally indistinguishable.
pub open spec fn spec_selected_text_of(f: AxNode) -> Option<Seq<char>> {
    match f.selected_text {
        Some(s) => if s@.len() == 0 {
            None
        } else {
            Some(s@)
        },
        None => None,
    }
}

/// The edited text of a focused element: its value, but only when its role
/// is a text input; any other role, a missing role or a missing value
/// yields absence.
pub open spec fn spec_focused_text_of(f: AxNode) -> Option<Seq<char>> {
    match f.role {
        Some(role) => if spec_is_text_input_role(role@) {
            opt_text_view(f.value)
        } else {
            None
        },
        None => None,
    }
}

/// Role filtering: for an element that reports a role and a value, the
/// edited text is present exactly when the role is a text field, text area
/// or combo box.
pub proof fn lemma_role_filtering(f: AxNode)
    requires
        f.role is Some,
        f.value is Some,
    ensures
        spec_focused_text_of(f) is Some <==> spec_is_text_input_role(f.role->Some_0@),
{
}

/// The selected text of the focused element, empty normalized to absent.
pub fn get_selected_text(f: &AxNode) -> (t: Option<String>)
    ensures
        opt_text_view(t) == spec_selected_text_of(*f),
{
    match &f.selected_text {
        Some(s) => {
            if s.as_str().is_empty() {
                None
            } else {
                Some(s.clone())
            }
        },
        None => None,
    }
}

/// The focused element's value, but only for text-input roles.
pub fn get_focused_element_text_value(f: &AxNode) -> (t: Option<String>)
    ensures
        opt_text_view(t) == spec_focused_text_of(*f),
{
    match &f.role {
        Some(role) => {
            if is_text_input_role(role) {
                match &f.value {
                    Some(v) => Some(v.clone()),
                    None => None,
                }
            } else {
                None
            }
        },
        None => None,
    }
}

/// The activation policy of an ordinary, dock-visible application.
pub const ACTIVATION_POLICY_REGULAR: i64 = 0;

/// Whether a running or newly launched application should receive the
/// accessibility enhancement attributes.  Some toolkits expose their
/// internal tree only once these are set; the attempt is made for every
/// regular-activation application, best effort, and failures are
/// swallowed by the caller.
pub fn should_enhance_accessibility(activation_policy: i64) -> (r: bool)
    ensures
        r == (activation_policy == ACTIVATION_POLICY_REGULAR),
{
    activation_policy == ACTIVATION_POLICY_REGULAR
}

/// The two enhancement attributes to set on a process so its toolkit
/// publishes the full accessibility tree.
pub fn accessibility_enhancement_attributes() -> (attrs: Vec<String>)
    ensures
        attrs@.len() == 2,
        attrs@[0]@ == "AXEnhancedUserInterface"@,
        attrs@[1]@ == "AXManualAccessibility"@,
{
    let mut attrs: Vec<String> = Vec::new();
    attrs.push(String::from_str("AXEnhancedUserInterface"));
    attrs.push(String::from_str("AXManualAccessibility"));
    attrs
}

/// What a read of the focused text yields.
pub struct FocusedText {
    pub selected_text: Option<String>,
    pub focused_text: Option<String>,
}

/// Both texts of the tree's focused element; fully absent when no element
/// is focused.
pub open spec fn spec_read_focused_text(root: AxNode) -> (Option<Seq<char>>, Option<Seq<char>>) {
    match spec_focused_in(root) {
        Some(f) => (spec_selected_text_of(f), spec_focused_text_of(f)),
        None => (None, None),
    }
}

/// Reads the focused element's selected and edited text from a snapshot of
/// a process's accessibility tree.  A tree with no focused element — and,
/// upstream, a denied permission or a dead process, which yield an empty
/// snapshot — gives fully absent text, never an error.
pub fn read_focused_text(root: &AxNode) -> (r: FocusedText)
    ensures
        (opt_text_view(r.selected_text), opt_text_view(r.focused_text)) == spec_read_focused_text(
            *root,
        ),
{
    match search_for_focused_element(root) {
        Some(f) => FocusedText {
            selected_text: get_selected_text(f),
            focused_text: get_focused_element_text_value(f),
        },
        None => FocusedText { selected_text: None, focused_text: None },
    }
}

} // verus!
