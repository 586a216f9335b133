use vstd::prelude::*;

verus! {

/// One node of a configuration document tree: an element with its
/// attributes and ordered children, a text run, a comment, or a processing
/// instruction. The tree owns its subtrees, so content the synchronizer does
/// not understand is carried through verbatim.
#[derive(Debug, PartialEq)]
pub enum Node {
    Element { name: String, attributes: Vec<(String, String)>, children: Vec<Node> },
    Text { text: String },
    Comment { text: String },
    ProcessingInstruction { target: String, value: Option<String> },
}

impl Node {
    /// The node is an element whose tag is `name`.
    pub open spec fn is_element_named(self, name: Seq<char>) -> bool {
        match self {
            Node::Element { name: n, .. } => n@ == name,
            _ => false,
        }
    }

    /// The text of a comment node; the empty sequence otherwise.
    pub open spec fn spec_comment_text(self) -> Seq<char> {
        match self {
            Node::Comment { text } => text@,
            _ => Seq::empty(),
        }
    }
}

/// The tag of an element node; the empty sequence otherwise.
pub open spec fn spec_node_name(n: Node) -> Seq<char> {
    match n {
        Node::Element { name, .. } => name@,
        _ => Seq::empty(),
    }
}

/// The children of an element node; empty otherwise.
pub open spec fn spec_node_children(n: Node) -> Seq<Node> {
    match n {
        Node::Element { children, .. } => children@,
        _ => Seq::empty(),
    }
}

/// The attributes of an element node; empty otherwise.
pub open spec fn spec_node_attrs(n: Node) -> Seq<(String, String)> {
    match n {
        Node::Element { attributes, .. } => attributes@,
        _ => Seq::empty(),
    }
}

/// A found child is itself an element of the requested name.
pub proof fn lemma_child_element_named(children: Seq<Node>, name: Seq<char>, i: int)
    ensures
        spec_child_element_from(children, name, i) matches Some(c) ==> c.is_element_named(name),
    decreases children.len() - i,
{
    if 0 <= i < children.len() && !children[i].is_element_named(name) {
        lemma_child_element_named(children, name, i + 1);
    }
}

/// Every collected child is itself an element of the requested name.
pub proof fn lemma_children_elements_named(children: Seq<Node>, name: Seq<char>, i: int)
    ensures
        forall|k: int|
            0 <= k < spec_children_elements_from(children, name, i).len()
                ==> (#[trigger] spec_children_elements_from(children, name, i)[k]).is_element_named(
                name,
            ),
    decreases children.len() - i,
{
    if 0 <= i < children.len() {
        lemma_children_elements_named(children, name, i + 1);
        if children[i].is_element_named(name) {
            let rest = spec_children_elements_from(children, name, i + 1);
            assert(spec_children_elements_from(children, name, i) == seq![children[i]] + rest);
            assert forall|k: int|
                0 <= k < spec_children_elements_from(children, name, i).len() implies (
            #[trigger] spec_children_elements_from(children, name, i)[k]).is_element_named(
                name,
            ) by {
                if k > 0 {
                    assert((seq![children[i]] + rest)[k] == rest[k - 1]);
                } else {
                    assert((seq![children[i]] + rest)[0] == children[i]);
                }
            }
        }
    }
}

/// The first element child named `name` at or after position `i`.
pub open spec fn spec_child_element_from(children: Seq<Node>, name: Seq<char>, i: int) -> Option<
    Node,
>
    decreases children.len() - i,
{
    if i < 0 || i >= children.len() {
        None
    } else if children[i].is_element_named(name) {
        Some(children[i])
    } else {
        spec_child_element_from(children, name, i + 1)
    }
}

/// The first element child named `name`.
pub open spec fn spec_child_element(children: Seq<Node>, name: Seq<char>) -> Option<Node> {
    spec_child_element_from(children, name, 0)
}

/// Every element child named `name`, in document order, from position `i` on.
pub open spec fn spec_children_elements_from(
    children: Seq<Node>,
    name: Seq<char>,
    i: int,
) -> Seq<Node>
    decreases children.len() - i,
{
    if i < 0 || i >= children.len() {
        Seq::empty()
    } else if children[i].is_element_named(name) {
        seq![children[i]] + spec_children_elements_from(children, name, i + 1)
    } else {
        spec_children_elements_from(children, name, i + 1)
    }
}

/// Every element child named `name`, in document order.
pub open spec fn spec_children_elements(children: Seq<Node>, name: Seq<char>) -> Seq<Node> {
    spec_children_elements_from(children, name, 0)
}

/// The string of the first text child at or after position `i`.
pub open spec fn spec_text_from(children: Seq<Node>, i: int) -> Option<String>
    decreases children.len() - i,
{
    if i < 0 || i >= children.len() {
        None
    } else if children[i] matches Node::Text { .. } {
        match children[i] {
            Node::Text { text } => Some(text),
            _ => None,
        }
    } else {
        spec_text_from(children, i + 1)
    }
}

/// The string of the first text child, if any.
pub open spec fn spec_text(children: Seq<Node>) -> Option<String> {
    spec_text_from(children, 0)
}

/// The value of the first attribute named `name` at or after position `i`.
pub open spec fn spec_attr_from(attrs: Seq<(String, String)>, name: Seq<char>, i: int) -> Option<
    String,
>
    decreases attrs.len() - i,
{
    if i < 0 || i >= attrs.len() {
        None
    } else if attrs[i].0@ == name {
        Some(attrs[i].1)
    } else {
        spec_attr_from(attrs, name, i + 1)
    }
}

/// The value of the first attribute named `name`, if any.
pub open spec fn spec_attr(attrs: Seq<(String, String)>, name: Seq<char>) -> Option<String> {
    spec_attr_from(attrs, name, 0)
}

/// Finds the first element child named `name`.
pub fn child_element<'a>(name: &str, children: &'a Vec<Node>) -> (r: Option<&'a Node>)
    ensures
        match r {
            Some(c) => spec_child_element(children@, name@) == Some(*c),
            None => spec_child_element(children@, name@) is None,
        },
{
    let n = children.len();
    let mut i: usize = 0;
    while i < n
        invariant
            i <= n,
            n == children@.len(),
            spec_child_element(children@, name@) == spec_child_element_from(
                children@,
                name@,
                i as int,
            ),
        decreases n - i,
    {
        match &children[i] {
            Node::Element { name: tag, .. } => {
                if crate::strutil::str_eq(tag.as_str(), name) {
                    return Some(&children[i]);
                }
            },
            _ => {},
        }
        i += 1;
    }
    None
}

/// Collects every element child named `name`, in document order.
pub fn children_element<'a>(name: &str, children: &'a Vec<Node>) -> (r: Vec<&'a Node>)
    ensures
        r@.map_values(|c: &Node| *c) == spec_children_elements(children@, name@),
{
    let n = children.len();
    let mut out: Vec<&'a Node> = Vec::new();
    let mut i: usize = 0;
    proof {
        assert(out@.map_values(|c: &Node| *c) =~= Seq::<Node>::empty());
    }
    while i < n
        invariant
            i <= n,
            n == children@.len(),
            out@.map_values(|c: &Node| *c) + spec_children_elements_from(children@, name@, i as int)
                == spec_children_elements(children@, name@),
        decreases n - i,
    {
        let mut matched: bool = false;
        match &children[i] {
            Node::Element { name: tag, .. } => {
                if crate::strutil::str_eq(tag.as_str(), name) {
                    matched = true;
                }
            },
            _ => {},
        }
        if matched {
            proof {
                assert(out@.push(&children@[i as int]).map_values(|c: &Node| *c) =~= out@.map_values(
                    |c: &Node| *c,
                ).push(children@[i as int]));
                assert(out@.map_values(|c: &Node| *c).push(children@[i as int]) + spec_children_elements_from(
                    children@,
                    name@,
                    i as int + 1,
                ) =~= out@.map_values(|c: &Node| *c) + (seq![children@[i as int]]
                    + spec_children_elements_from(children@, name@, i as int + 1)));
            }
            out.push(&children[i]);
        }
        i += 1;
    }
    out
}

/// Finds the first text child.
pub fn text<'a>(children: &'a Vec<Node>) -> (r: Option<&'a String>)
    ensures
        match r {
            Some(t) => spec_text(children@) == Some(*t),
            None => spec_text(children@) is None,
        },
{
    let n = children.len();
    let mut i: usize = 0;
    while i < n
        invariant
            i <= n,
            n == children@.len(),
            spec_text(children@) == spec_text_from(children@, i as int),
        decreases n - i,
    {
        match &children[i] {
            Node::Text { text: t } => {
                return Some(t);
            },
            _ => {},
        }
        i += 1;
    }
    None
}

/// Finds the value of the first attribute named `name`.
pub fn attr_value<'a>(attrs: &'a Vec<(String, String)>, name: &str) -> (r: Option<&'a String>)
    ensures
        match r {
            Some(v) => spec_attr(attrs@, name@) == Some(*v),
            None => spec_attr(attrs@, name@) is None,
        },
{
    let n = attrs.len();
    let mut i: usize = 0;
    while i < n
        invariant
            i <= n,
            n == attrs@.len(),
            spec_attr(attrs@, name@) == spec_attr_from(attrs@, name@, i as int),
        decreases n - i,
    {
        if crate::strutil::str_eq(attrs[i].0.as_str(), name) {
            return Some(&attrs[i].1);
        }
        i += 1;
    }
    None
}

} // verus!
