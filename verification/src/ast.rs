//! The abstract syntax tree: nodes with a class, attributes, text and
//! children, and the operations that grow a document tree.

use vstd::prelude::*;

verus! {

/// The classes of nodes.
#[derive(Debug, Clone, Copy, PartialEq, Eq, Structural)]
pub enum NodeClass {
    BlankLine,
    Block,
    BulletList,
    BulletListItem,
    Comment,
    Directive,
    Document,
    EnumeratedList,
    EnumeratedListItem,
    FieldList,
    FieldListItem,
    IndentedBlock,
    IndentedBlockHanging,
    InlineMarkup,
    List,
    LiteralBlock,
    Paragraph,
    PlainText,
    Reference,
    Section,
    Strong,
    Title,
}

/// The value of an attribute.
#[derive(Debug, PartialEq)]
pub enum AttributeType {
    Integer(i32),
    String(String),
    Usize(usize),
}

/// The mathematical value of an attribute.
pub enum AttrView {
    Integer(i32),
    Str(Seq<char>),
    Usize(usize),
}

impl View for AttributeType {
    type V = AttrView;

    open spec fn view(&self) -> AttrView {
        match self {
            AttributeType::Integer(i) => AttrView::Integer(*i),
            AttributeType::String(s) => AttrView::Str(s@),
            AttributeType::Usize(u) => AttrView::Usize(*u),
        }
    }
}

impl Clone for AttributeType {
    fn clone(&self) -> (r: Self)
        ensures
            r@ == self@,
    {
        match self {
            AttributeType::Integer(i) => AttributeType::Integer(*i),
            AttributeType::String(s) => AttributeType::String(s.clone()),
            AttributeType::Usize(u) => AttributeType::Usize(*u),
        }
    }
}

impl AttributeType {
    /// The text of a string attribute.
    pub fn as_str(&self) -> (r: Option<&str>)
        ensures
            match self@ {
                AttrView::Str(s) => r matches Some(t) && t@ == s,
                _ => r is None,
            },
    {
        match self {
            AttributeType::String(value) => Some(value.as_str()),
            _ => None,
        }
    }

    /// A string attribute with the text `s`.
    pub fn from_str(s: &str) -> (r: AttributeType)
        ensures
            r@ == AttrView::Str(s@),
    {
        AttributeType::String(s.to_owned())
    }
}

/// The map that a list of key/value entries stands for.
pub open spec fn map_of(entries: Seq<(String, AttributeType)>) -> Map<Seq<char>, AttrView>
    decreases entries.len(),
{
    if entries.len() == 0 {
        Map::empty()
    } else {
        map_of(entries.drop_last()).insert(entries.last().0@, entries.last().1@)
    }
}

/// Whether no key occurs twice.
pub open spec fn keys_distinct(entries: Seq<(String, AttributeType)>) -> bool {
    forall|i: int, j: int| 0 <= i < j < entries.len() ==> entries[i].0@ != entries[j].0@
}

/// The attributes of a node: a map from names to values.
pub struct Attributes {
    entries: Vec<(String, AttributeType)>,
}

impl View for Attributes {
    type V = Map<Seq<char>, AttrView>;

    closed spec fn view(&self) -> Map<Seq<char>, AttrView> {
        map_of(self.entries@)
    }
}

proof fn lemma_map_of_dom(entries: Seq<(String, AttributeType)>)
    requires
        keys_distinct(entries),
    ensures
        map_of(entries).dom().finite(),
        map_of(entries).dom().len() == entries.len(),
        forall|k: Seq<char>| #[trigger] map_of(entries).dom().contains(k) <==> exists|i: int|
            0 <= i < entries.len() && entries[i].0@ == k,
    decreases entries.len(),
{
    if entries.len() > 0 {
        let p = entries.drop_last();
        assert(keys_distinct(p));
        lemma_map_of_dom(p);
        let k = entries.last().0@;
        assert(!map_of(p).dom().contains(k)) by {
            if map_of(p).dom().contains(k) {
                let i = choose|i: int| 0 <= i < p.len() && p[i].0@ == k;
                assert(entries[i].0@ == entries[entries.len() - 1].0@);
            }
        }
        assert forall|q: Seq<char>| #[trigger] map_of(entries).dom().contains(q) <==> exists|i: int|
            0 <= i < entries.len() && entries[i].0@ == q by {
            if map_of(entries).dom().contains(q) && q != k {
                let i = choose|i: int| 0 <= i < p.len() && p[i].0@ == q;
                assert(entries[i] == p[i]);
            }
            if exists|i: int| 0 <= i < entries.len() && entries[i].0@ == q {
                let i = choose|i: int| 0 <= i < entries.len() && entries[i].0@ == q;
                if i < entries.len() - 1 {
                    assert(p[i] == entries[i]);
                }
            }
        }
    }
}

proof fn lemma_map_of_lookup(entries: Seq<(String, AttributeType)>, i: int)
    requires
        keys_distinct(entries),
        0 <= i < entries.len(),
    ensures
        map_of(entries).dom().contains(entries[i].0@),
        map_of(entries)[entries[i].0@] == entries[i].1@,
    decreases entries.len(),
{
    let p = entries.drop_last();
    if i < entries.len() - 1 {
        assert(keys_distinct(p));
        assert(p[i] == entries[i]);
        lemma_map_of_lookup(p, i);
    }
}

proof fn lemma_map_of_update(entries: Seq<(String, AttributeType)>, i: int, v: AttributeType)
    requires
        keys_distinct(entries),
        0 <= i < entries.len(),
    ensures
        map_of(entries.update(i, (entries[i].0, v))) == map_of(entries).insert(entries[i].0@, v@),
        keys_distinct(entries.update(i, (entries[i].0, v))),
    decreases entries.len(),
{
    let u = entries.update(i, (entries[i].0, v));
    let p = entries.drop_last();
    assert(keys_distinct(p));
    if i == entries.len() - 1 {
        assert(u.drop_last() =~= p);
        assert(map_of(u) =~= map_of(entries).insert(entries[i].0@, v@));
    } else {
        lemma_map_of_update(p, i, v);
        assert(u.drop_last() =~= p.update(i, (p[i].0, v)));
        assert(entries.last().0@ != entries[i].0@);
        assert(map_of(u) =~= map_of(entries).insert(entries[i].0@, v@));
    }
}

impl Attributes {
    /// Keys are distinct in the entries.
    #[verifier::type_invariant]
    spec fn wf(&self) -> bool {
        keys_distinct(self.entries@)
    }

    /// No attributes.
    pub fn new() -> (a: Attributes)
        ensures
            a@ == Map::<Seq<char>, AttrView>::empty(),
    {
        Attributes { entries: Vec::new() }
    }

    /// Sets the attribute `key` to `value`, handing back the value it had.
    pub fn insert(&mut self, key: &str, value: AttributeType) -> (prev: Option<AttributeType>)
        ensures
            final(self)@ == old(self)@.insert(key@, value@),
            match prev {
                Some(p) => old(self)@.contains_key(key@) && p@ == old(self)@[key@],
                None => !old(self)@.contains_key(key@),
            },
    {
        proof {
            use_type_invariant(&*self);
        }
        let mut entries = Vec::new();
        std::mem::swap(&mut entries, &mut self.entries);
        let prev = Self::insert_entry(&mut entries, key, value);
        self.entries = entries;
        prev
    }

    fn insert_entry(entries: &mut Vec<(String, AttributeType)>, key: &str, value: AttributeType) -> (prev: Option<AttributeType>)
        requires
            keys_distinct(old(entries)@),
        ensures
            keys_distinct(final(entries)@),
            map_of(final(entries)@) == map_of(old(entries)@).insert(key@, value@),
            match prev {
                Some(p) => map_of(old(entries)@).contains_key(key@) && p@ == map_of(old(entries)@)[key@],
                None => !map_of(old(entries)@).contains_key(key@),
            },
    {
        let mut i: usize = 0;
        while i < entries.len()
            invariant
                i <= entries@.len(),
                keys_distinct(entries@),
                entries@ == old(entries)@,
                forall|j: int| 0 <= j < i ==> entries@[j].0@ != key@,
            decreases entries@.len() - i,
        {
            if crate::text::str_eq(entries[i].0.as_str(), key) {
                let ghost before = entries@;
                proof {
                    lemma_map_of_lookup(before, i as int);
                    lemma_map_of_update(before, i as int, value);
                }
                let k = entries[i].0.clone();
                let mut pair = (k, value);
                std::mem::swap(&mut entries[i], &mut pair);
                assert(entries@ =~= before.update(i as int, (before[i as int].0, value)));
                return Some(pair.1);
            }
            i = i + 1;
        }
        proof {
            lemma_map_of_dom(entries@);
        }
        let ghost before = entries@;
        entries.push((key.to_owned(), value));
        assert(entries@.drop_last() =~= before);
        None
    }

    /// The value of the attribute `key`.
    pub fn get(&self, key: &str) -> (r: Option<&AttributeType>)
        ensures
            match r {
                Some(v) => self@.contains_key(key@) && v@ == self@[key@],
                None => !self@.contains_key(key@),
            },
    {
        proof {
            use_type_invariant(self);
            lemma_map_of_dom(self.entries@);
        }
        let mut i: usize = 0;
        while i < self.entries.len()
            invariant
                i <= self.entries@.len(),
                keys_distinct(self.entries@),
                forall|j: int| 0 <= j < i ==> self.entries@[j].0@ != key@,
            decreases self.entries@.len() - i,
        {
            if crate::text::str_eq(self.entries[i].0.as_str(), key) {
                proof {
                    lemma_map_of_lookup(self.entries@, i as int);
                }
                return Some(&self.entries[i].1);
            }
            i = i + 1;
        }
        None
    }

    /// The keys in the order they were first set.
    pub closed spec fn keys(&self) -> Seq<Seq<char>> {
        self.entries@.map_values(|e: (String, AttributeType)| e.0@)
    }

    /// The number of attributes; each key of the map stands once in
    /// `keys()`, in the order the keys were first set.
    pub fn len(&self) -> (n: usize)
        ensures
            n == self@.dom().len(),
            n == self.keys().len(),
            self.keys().no_duplicates(),
            forall|k: Seq<char>| self@.contains_key(k) <==> self.keys().contains(k),
    {
        proof {
            use_type_invariant(self);
            lemma_map_of_dom(self.entries@);
            let ks = self.keys();
            assert forall|k: Seq<char>| self@.contains_key(k) <==> ks.contains(k) by {
                if self@.contains_key(k) {
                    let i = choose|i: int| 0 <= i < self.entries@.len() && self.entries@[i].0@ == k;
                    assert(ks[i] == k);
                }
                if ks.contains(k) {
                    let i = choose|i: int| 0 <= i < ks.len() && ks[i] == k;
                    assert(self.entries@[i].0@ == k);
                }
            }
            assert forall|i: int, j: int| 0 <= i < ks.len() && 0 <= j < ks.len() && i != j implies ks[i] != ks[j] by {
                if i < j {
                    assert(self.entries@[i].0@ != self.entries@[j].0@);
                } else {
                    assert(self.entries@[j].0@ != self.entries@[i].0@);
                }
            }
        }
        self.entries.len()
    }

    /// The name and value of the `i`-th attribute in the order the keys were
    /// first set.
    pub fn entry(&self, i: usize) -> (r: Option<(&str, &AttributeType)>)
        ensures
            match r {
                Some((k, v)) => i < self.keys().len() && k@ == self.keys()[i as int] && self@.contains_key(k@)
                    && self@[k@] == v@,
                None => i >= self@.dom().len() && i >= self.keys().len(),
            },
    {
        proof {
            use_type_invariant(self);
            lemma_map_of_dom(self.entries@);
        }
        if i < self.entries.len() {
            proof {
                lemma_map_of_lookup(self.entries@, i as int);
            }
            Some((self.entries[i].0.as_str(), &self.entries[i].1))
        } else {
            None
        }
    }
}


/// A node of the tree.
pub struct AstNode {
    pub class: NodeClass,
    pub attributes: Attributes,
    pub text: Option<String>,
    pub children: Vec<AstNode>,
}

/// The mathematical value of a node and its subtree.
pub struct NodeView {
    pub class: NodeClass,
    pub attributes: Map<Seq<char>, AttrView>,
    pub text: Option<Seq<char>>,
    pub children: Seq<NodeView>,
}

pub open spec fn opt_text_view(t: Option<String>) -> Option<Seq<char>> {
    match t {
        Some(s) => Some(s@),
        None => None,
    }
}

/// The value of a node.
pub open spec fn node_view(n: AstNode) -> NodeView
    decreases n, 1int,
{
    NodeView {
        class: n.class,
        attributes: n.attributes@,
        text: opt_text_view(n.text),
        children: nodes_view(n.children@),
    }
}

/// The values of a sequence of nodes.
pub open spec fn nodes_view(s: Seq<AstNode>) -> Seq<NodeView>
    decreases s, 0int,
{
    if s.len() == 0 {
        Seq::empty()
    } else {
        nodes_view(s.drop_last()).push(node_view(s.last()))
    }
}

impl View for AstNode {
    type V = NodeView;

    open spec fn view(&self) -> NodeView {
        node_view(*self)
    }
}

pub proof fn lemma_nodes_view(s: Seq<AstNode>)
    ensures
        nodes_view(s).len() == s.len(),
        forall|i: int| 0 <= i < s.len() ==> nodes_view(s)[i] == node_view(#[trigger] s[i]),
    decreases s.len(),
{
    if s.len() > 0 {
        let p = s.drop_last();
        lemma_nodes_view(p);
        assert forall|i: int| 0 <= i < s.len() implies nodes_view(s)[i] == node_view(#[trigger] s[i]) by {
            if i < s.len() - 1 {
                assert(s[i] == p[i]);
            }
        }
    }
}

proof fn lemma_nodes_view_update(s: Seq<AstNode>, i: int, c: AstNode)
    requires
        0 <= i < s.len(),
    ensures
        nodes_view(s.update(i, c)) == nodes_view(s).update(i, node_view(c)),
{
    let u = s.update(i, c);
    lemma_nodes_view(s);
    lemma_nodes_view(u);
    assert forall|k: int| 0 <= k < s.len() implies nodes_view(u)[k] == nodes_view(s).update(i, node_view(c))[k] by {
        assert(nodes_view(u)[k] == node_view(u[k]));
        if k != i {
            assert(u[k] == s[k]);
            assert(nodes_view(s)[k] == node_view(s[k]));
        }
    }
    assert(nodes_view(u) =~= nodes_view(s).update(i, node_view(c)));
}

/// A node of class `class` with no attributes, text or children.
pub open spec fn empty_node(class: NodeClass) -> NodeView {
    NodeView { class, attributes: Map::empty(), text: None, children: Seq::empty() }
}

/// `n` with `c` appended to its children.
pub open spec fn with_child(n: NodeView, c: NodeView) -> NodeView {
    NodeView { children: n.children.push(c), ..n }
}

/// The node that `path` leads to from `t`, child index by child index.
pub open spec fn node_at(t: NodeView, path: Seq<usize>) -> Option<NodeView>
    decreases path.len(),
{
    if path.len() == 0 {
        Some(t)
    } else if path[0] < t.children.len() {
        node_at(t.children[path[0] as int], path.drop_first())
    } else {
        None
    }
}

/// `t` with `c` appended to the children of the node that `path` leads to.
pub open spec fn push_at(t: NodeView, path: Seq<usize>, c: NodeView) -> NodeView
    decreases path.len(),
{
    if path.len() == 0 {
        with_child(t, c)
    } else if path[0] < t.children.len() {
        NodeView {
            children: t.children.update(path[0] as int, push_at(t.children[path[0] as int], path.drop_first(), c)),
            ..t
        }
    } else {
        t
    }
}

/// The section marker of a node: its `section_marker` attribute where that
/// is text.
pub open spec fn section_marker(n: NodeView) -> Option<Seq<char>> {
    if n.attributes.contains_key("section_marker"@) {
        match n.attributes["section_marker"@] {
            AttrView::Str(s) => Some(s),
            _ => None,
        }
    } else {
        None
    }
}

/// Whether `n` is a section with the marker `marker`, or any section where no
/// marker is asked for.
pub open spec fn is_section_with(n: NodeView, marker: Option<Seq<char>>) -> bool {
    n.class == NodeClass::Section && (marker is None || section_marker(n) == marker)
}

/// The deepest node among the first `k` + 1 nodes on `path` (the root and
/// the nodes that the first `k` steps lead to) that is a section with the
/// marker, by its path.
pub open spec fn closest_section_within(t: NodeView, path: Seq<usize>, marker: Option<Seq<char>>, k: int) -> Option<
    Seq<usize>,
>
    decreases k,
{
    if k < 0 {
        None
    } else if node_at(t, path.take(k)) matches Some(n) && is_section_with(n, marker) {
        Some(path.take(k))
    } else if k == 0 {
        None
    } else {
        closest_section_within(t, path, marker, k - 1)
    }
}

/// The closest section with the marker (any section where none is asked
/// for) on the way from the node at `path` up to the root, by its path.
pub open spec fn closest_section(t: NodeView, path: Seq<usize>, marker: Option<Seq<char>>) -> Option<Seq<usize>> {
    closest_section_within(t, path, marker, path.len() as int)
}

/// Where a new section goes when the current node is at `path`: beside the
/// current node where that is a section with the same marker; beside the
/// closest section above with the same marker; otherwise under the closest
/// section above; otherwise under the root. At the root it goes under the
/// root.
pub open spec fn section_parent(t: NodeView, path: Seq<usize>, marker: Option<Seq<char>>) -> Seq<usize> {
    if path.len() == 0 {
        path
    } else if node_at(t, path) matches Some(n) && section_marker(n) == marker {
        path.drop_last()
    } else {
        match closest_section(t, path, marker) {
            Some(p) => p.drop_last(),
            None => match closest_section(t, path, None) {
                Some(p) => p,
                None => Seq::empty(),
            },
        }
    }
}

/// Where a body element goes when the current node is at `path`: under the
/// current node where that is the document or a section, otherwise under its
/// parent (under the root, at the root).
pub open spec fn body_parent(t: NodeView, path: Seq<usize>) -> Seq<usize> {
    if node_at(t, path) matches Some(n) && (n.class == NodeClass::Document || n.class == NodeClass::Section) {
        path
    } else if path.len() > 0 {
        path.drop_last()
    } else {
        path
    }
}

proof fn lemma_node_at_prefix(t: NodeView, path: Seq<usize>, k: int)
    requires
        node_at(t, path) is Some,
        0 <= k <= path.len(),
    ensures
        node_at(t, path.take(k)) is Some,
    decreases path.len(),
{
    if k > 0 {
        let c = t.children[path[0] as int];
        lemma_node_at_prefix(c, path.drop_first(), k - 1);
        assert(path.take(k).drop_first() =~= path.drop_first().take(k - 1));
    }
}

/// A read of an attribute gives back what the last write of it wrote, and a
/// write leaves the other attributes as they were.
pub proof fn law_attribute_read_after_write(
    attributes: Map<Seq<char>, AttrView>,
    key: Seq<char>,
    value: AttrView,
    other: Seq<char>,
)
    ensures
        attributes.insert(key, value).contains_key(key),
        attributes.insert(key, value)[key] == value,
        other != key ==> attributes.insert(key, value).contains_key(other) == attributes.contains_key(other),
        other != key && attributes.contains_key(other) ==> attributes.insert(key, value)[other] == attributes[other],
{
}

/// Adding a node anywhere in a tree keeps the class of its root.
pub proof fn lemma_push_at_class(t: NodeView, path: Seq<usize>, c: NodeView)
    ensures
        push_at(t, path, c).class == t.class,
{
}

proof fn lemma_push_at_node(t: NodeView, path: Seq<usize>, c: NodeView)
    requires
        node_at(t, path) is Some,
    ensures
        node_at(push_at(t, path, c), path) == Some(with_child(node_at(t, path).unwrap(), c)),
        push_at(t, path, c).children.len() == t.children.len() + (if path.len() == 0 { 1int } else { 0 }),
    decreases path.len(),
{
    if path.len() > 0 {
        lemma_push_at_node(t.children[path[0] as int], path.drop_first(), c);
    }
}

impl AstNode {
    /// A node of class `class` with no attributes, text or children.
    pub fn new_ref(class: NodeClass) -> (n: AstNode)
        ensures
            n@ == empty_node(class),
    {
        let n = AstNode { class, attributes: Attributes::new(), text: None, children: Vec::new() };
        assert(n@.children =~= Seq::<NodeView>::empty());
        n
    }

    /// Appends `child` to the children of `parent`.
    pub fn push_child(parent: &mut AstNode, child: AstNode)
        ensures
            final(parent)@ == with_child(old(parent)@, child@),
    {
        let ghost before = parent.children@;
        parent.children.push(child);
        assert(parent.children@.drop_last() =~= before);
    }

    /// Sets the text of the node.
    pub fn with_text(&mut self, text: &str)
        ensures
            final(self)@ == (NodeView { text: Some(text@), ..old(self)@ }),
    {
        self.text = Some(text.to_owned());
    }

    /// Sets the attribute `key` of the node to `value`.
    pub fn with_attr(&mut self, key: &str, value: AttributeType)
        ensures
            final(self)@ == (NodeView { attributes: old(self)@.attributes.insert(key@, value@), ..old(self)@ }),
    {
        self.attributes.insert(key, value);
    }

    /// Appends `child` to the children of the node that `path[from..]` leads to.
    fn push_child_at(node: &mut AstNode, path: &[usize], from: usize, child: AstNode)
        requires
            from <= path@.len(),
            node_at(old(node)@, path@.subrange(from as int, path@.len() as int)) is Some,
        ensures
            final(node)@ == push_at(old(node)@, path@.subrange(from as int, path@.len() as int), child@),
        decreases path@.len() - from,
    {
        let ghost p = path@.subrange(from as int, path@.len() as int);
        if from == path.len() {
            AstNode::push_child(node, child);
        } else {
            let i = path[from];
            proof {
                lemma_nodes_view(node.children@);
                assert(p.drop_first() =~= path@.subrange(from + 1, path@.len() as int));
            }
            let ghost before = node.children@;
            AstNode::push_child_at(&mut node.children[i], path, from + 1, child);
            proof {
                lemma_nodes_view_update(before, i as int, node.children@[i as int]);
                assert(node.children@ == before.update(i as int, node.children@[i as int]));
            }
        }
    }

    /// The closest section above the node at `path` (the node included) with
    /// the marker `section_marker`, any section where none is given, by its
    /// path from `root`.
    pub fn closest_ancestor_section(root: &AstNode, path: &[usize], section_marker: Option<&str>) -> (r: Option<Vec<usize>>)
        requires
            node_at(root@, path@) is Some,
        ensures
            match r {
                Some(p) => closest_section(root@, path@, opt_str_view(section_marker)) == Some(p@),
                None => closest_section(root@, path@, opt_str_view(section_marker)) is None,
            },
    {
        let mut k: usize = path.len();
        loop
            invariant
                k <= path@.len(),
                node_at(root@, path@) is Some,
                closest_section(root@, path@, opt_str_view(section_marker)) == closest_section_within(
                    root@,
                    path@,
                    opt_str_view(section_marker),
                    k as int,
                ),
            decreases k,
        {
            proof {
                lemma_node_at_prefix(root@, path@, k as int);
            }
            let node = Self::node_at_path(root, path, k);
            if Self::matches_section(node, section_marker) {
                let mut p: Vec<usize> = Vec::new();
                let mut j: usize = 0;
                while j < k
                    invariant
                        j <= k <= path@.len(),
                        p@ == path@.take(j as int),
                    decreases k - j,
                {
                    p.push(path[j]);
                    assert(p@ =~= path@.take(j + 1));
                    j = j + 1;
                }
                return Some(p);
            }
            if k == 0 {
                return None;
            }
            k = k - 1;
        }
    }

    /// The node that the first `k` steps of `path` lead to.
    fn node_at_path<'a>(root: &'a AstNode, path: &[usize], k: usize) -> (n: &'a AstNode)
        requires
            k <= path@.len(),
            node_at(root@, path@.take(k as int)) is Some,
        ensures
            node_at(root@, path@.take(k as int)) == Some(n@),
    {
        let mut node = root;
        let mut j: usize = 0;
        while j < k
            invariant
                j <= k <= path@.len(),
                node_at(root@, path@.take(k as int)) is Some,
                node_at(root@, path@.take(k as int)) == node_at(node@, path@.subrange(j as int, k as int)),
            decreases k - j,
        {
            proof {
                lemma_nodes_view(node.children@);
                assert(path@.subrange(j as int, k as int).drop_first() =~= path@.subrange(j + 1, k as int));
                assert(path@.subrange(j as int, k as int)[0] == path@[j as int]);
                assert(node@.children[path@[j as int] as int] == node_view(node.children@[path@[j as int] as int]));
            }
            node = &node.children[path[j]];
            j = j + 1;
        }
        assert(path@.subrange(k as int, k as int) =~= Seq::<usize>::empty());
        node
    }

    fn matches_section(node: &AstNode, marker: Option<&str>) -> (r: bool)
        ensures
            r == is_section_with(node@, opt_str_view(marker)),
    {
        if node.class != NodeClass::Section {
            return false;
        }
        match marker {
            None => true,
            Some(m) => match node.attributes.get("section_marker") {
                Some(v) => match v.as_str() {
                    Some(s) => crate::text::str_eq(s, m),
                    None => false,
                },
                None => false,
            },
        }
    }
}

/// Whether `path` leads to a section with the marker.
pub open spec fn section_node_at(t: NodeView, path: Seq<usize>, marker: Option<Seq<char>>) -> bool {
    node_at(t, path) matches Some(n) && is_section_with(n, marker)
}

proof fn lemma_closest_section_within(t: NodeView, path: Seq<usize>, marker: Option<Seq<char>>, k: int)
    requires
        k <= path.len(),
    ensures
        closest_section_within(t, path, marker, k) matches Some(p) ==> exists|j: int|
            0 <= j <= k && p == path.take(j) && section_node_at(t, p, marker),
    decreases k,
{
    if k >= 0 {
        if !(node_at(t, path.take(k)) matches Some(n) && is_section_with(n, marker)) && k > 0 {
            lemma_closest_section_within(t, path, marker, k - 1);
        }
    }
}

proof fn lemma_closest_section_first(t: NodeView, path: Seq<usize>, marker: Option<Seq<char>>, k: int)
    requires
        0 <= k <= path.len(),
    ensures
        match closest_section_within(t, path, marker, k) {
            Some(p) => exists|j: int|
                0 <= j <= k && p == path.take(j) && section_node_at(t, p, marker) && forall|h: int|
                    j < h <= k ==> !#[trigger] section_node_at(t, path.take(h), marker),
            None => forall|h: int| 0 <= h <= k ==> !#[trigger] section_node_at(t, path.take(h), marker),
        },
    decreases k,
{
    if section_node_at(t, path.take(k), marker) {
        assert(forall|h: int| k < h <= k ==> !#[trigger] section_node_at(t, path.take(h), marker));
    } else if k > 0 {
        lemma_closest_section_first(t, path, marker, k - 1);
        match closest_section_within(t, path, marker, k - 1) {
            Some(p) => {
                let j = choose|j: int|
                    0 <= j <= k - 1 && p == path.take(j) && section_node_at(t, p, marker) && forall|h: int|
                        j < h <= k - 1 ==> !#[trigger] section_node_at(t, path.take(h), marker);
                assert forall|h: int| j < h <= k implies !#[trigger] section_node_at(t, path.take(h), marker) by {
                    if h < k {
                        assert(j < h <= k - 1);
                    }
                }
            },
            None => {},
        }
    }
}

/// The closest section is the first on the way up: walking from the node at
/// `path` through its ancestors to the root, it is the first section with
/// the marker (any section where none is asked for), and there is none
/// exactly where no node on that way is one.
pub proof fn law_closest_section_is_first_on_the_way_up(t: NodeView, path: Seq<usize>, marker: Option<Seq<char>>)
    ensures
        match closest_section(t, path, marker) {
            Some(p) => exists|j: int|
                0 <= j <= path.len() && p == path.take(j) && section_node_at(t, p, marker) && forall|h: int|
                    j < h <= path.len() ==> !#[trigger] section_node_at(t, path.take(h), marker),
            None => forall|h: int| 0 <= h <= path.len() ==> !#[trigger] section_node_at(t, path.take(h), marker),
        },
{
    lemma_closest_section_first(t, path, marker, path.len() as int);
}

/// The number of children of the node at `path`.
pub open spec fn child_count_at(t: NodeView, path: Seq<usize>) -> nat {
    match node_at(t, path) {
        Some(n) => n.children.len(),
        None => 0,
    }
}

proof fn lemma_node_at_push_child(t: NodeView, path: Seq<usize>, c: NodeView)
    requires
        node_at(t, path) is Some,
        child_count_at(t, path) <= usize::MAX,
    ensures
        node_at(push_at(t, path, c), path.push(child_count_at(t, path) as usize)) == Some(c),
    decreases path.len(),
{
    let k = child_count_at(t, path) as usize;
    let q = path.push(k);
    if path.len() == 0 {
        let w = with_child(t, c);
        assert(q =~= seq![k]);
        assert(q[0] == t.children.len());
        assert(w.children[k as int] == c);
        assert(q.drop_first() =~= Seq::<usize>::empty());
        assert(node_at(w.children[k as int], q.drop_first()) == Some(c));
        assert(push_at(t, path, c) == w);
        assert(node_at(w, q) == Some(c));
    } else {
        let i = path[0] as int;
        let ti = t.children[i];
        assert(node_at(t, path) == node_at(ti, path.drop_first()));
        lemma_node_at_push_child(ti, path.drop_first(), c);
        assert(q.drop_first() =~= path.drop_first().push(k));
        assert(q[0] == path[0]);
        let pt = push_at(t, path, c);
        assert(pt.children[i] == push_at(ti, path.drop_first(), c));
        assert(child_count_at(ti, path.drop_first()) == child_count_at(t, path));
        assert(node_at(pt, q) == node_at(pt.children[i], q.drop_first()));
    }
}

impl AstNode {
    /// The section marker of the node.
    fn marker_of(node: &AstNode) -> (r: Option<&str>)
        ensures
            opt_str_view(r) == section_marker(node@),
    {
        match node.attributes.get("section_marker") {
            Some(v) => v.as_str(),
            None => None,
        }
    }

    fn prefix(path: &[usize], k: usize) -> (p: Vec<usize>)
        requires
            k <= path@.len(),
        ensures
            p@ == path@.take(k as int),
    {
        let mut p: Vec<usize> = Vec::new();
        let mut j: usize = 0;
        while j < k
            invariant
                j <= k <= path@.len(),
                p@ == path@.take(j as int),
            decreases k - j,
        {
            p.push(path[j]);
            assert(p@ =~= path@.take(j + 1));
            j = j + 1;
        }
        p
    }

    /// Appends `child` under the node at `parent` and hands back its path.
    fn push_child_under(root: &mut AstNode, mut parent: Vec<usize>, child: AstNode) -> (p: Vec<usize>)
        requires
            node_at(old(root)@, parent@) is Some,
        ensures
            final(root)@ == push_at(old(root)@, parent@, child@),
            p@ == parent@.push(child_count_at(old(root)@, parent@) as usize),
            node_at(final(root)@, p@) == Some(child@),
    {
        let n = parent.len();
        proof {
            assert(parent@.take(n as int) =~= parent@);
        }
        let node = Self::node_at_path(root, parent.as_slice(), n);
        let count = node.children.len();
        proof {
            lemma_nodes_view(node.children@);
            lemma_node_at_push_child(root@, parent@, child@);
        }
        assert(parent@.subrange(0, parent@.len() as int) =~= parent@);
        Self::push_child_at(root, parent.as_slice(), 0, child);
        parent.push(count);
        parent
    }

    /// Appends `child` to the children of the node at `parent`.
    pub fn push_child_at_path(root: &mut AstNode, parent: &[usize], child: AstNode)
        requires
            node_at(old(root)@, parent@) is Some,
        ensures
            final(root)@ == push_at(old(root)@, parent@, child@),
            node_at(final(root)@, parent@) is Some,
            final(root)@.class == old(root)@.class,
    {
        let n = parent.len();
        let p = Self::prefix(parent, n);
        proof {
            assert(parent@.take(n as int) =~= parent@);
            lemma_push_at_node(root@, parent@, child@);
        }
        let _ = Self::push_child_under(root, p, child);
    }

    /// Appends a body element where it belongs when the current node is at
    /// `current`: under the current node where that is the document or a
    /// section, otherwise under its parent; hands back its path.
    pub fn push_body_element(root: &mut AstNode, current: &[usize], body: AstNode) -> (p: Vec<usize>)
        requires
            node_at(old(root)@, current@) is Some,
        ensures
            final(root)@ == push_at(old(root)@, body_parent(old(root)@, current@), body@),
            p@ == body_parent(old(root)@, current@).push(
                child_count_at(old(root)@, body_parent(old(root)@, current@)) as usize,
            ),
            node_at(final(root)@, p@) == Some(body@),
    {
        let n = current.len();
        proof {
            assert(current@.take(n as int) =~= current@);
        }
        let cur = Self::node_at_path(root, current, n);
        let target = if cur.class == NodeClass::Document || cur.class == NodeClass::Section {
            Self::prefix(current, n)
        } else if n > 0 {
            proof {
                lemma_node_at_prefix(root@, current@, n - 1);
                assert(current@.take(n - 1) =~= current@.drop_last());
            }
            Self::prefix(current, n - 1)
        } else {
            Self::prefix(current, n)
        };
        proof {
            assert(current@.take(n as int) =~= current@);
            assert(n > 0 ==> current@.take(n - 1) =~= current@.drop_last());
        }
        Self::push_child_under(root, target, body)
    }

    /// Appends a section where it belongs in the section hierarchy when the
    /// current node is at `current`, and hands back its path: a section with
    /// the same marker as the current section becomes its sibling, one with
    /// the marker of a section further up becomes that section's sibling, and
    /// one with a new marker goes under the closest section.
    pub fn push_section_ref(root: &mut AstNode, current: &[usize], section: AstNode) -> (p: Vec<usize>)
        requires
            node_at(old(root)@, current@) is Some,
            has_section_parent(old(root)@, current@, section_marker(section@)),
            section@.class == NodeClass::Section,
        ensures
            final(root)@ == push_at(old(root)@, section_parent(old(root)@, current@, section_marker(section@)), section@),
            p@ == section_parent(old(root)@, current@, section_marker(section@)).push(
                child_count_at(old(root)@, section_parent(old(root)@, current@, section_marker(section@))) as usize,
            ),
            node_at(final(root)@, p@) == Some(section@),
            final(root)@.class == old(root)@.class,
    {
        let ghost t = root@;
        let ghost marker = section_marker(section@);
        let n = current.len();
        proof {
            assert(current@.take(n as int) =~= current@);
            assert(current@.take(0) =~= Seq::<usize>::empty());
        }
        let target = if n == 0 {
            Self::prefix(current, 0)
        } else {
            let cur = Self::node_at_path(root, current, n);
            let self_marker = Self::marker_of(cur);
            let section_marker_text = Self::marker_of(&section);
            let same = match (self_marker, section_marker_text) {
                (Some(a), Some(b)) => crate::text::str_eq(a, b),
                (None, None) => true,
                _ => false,
            };
            if same {
                proof {
                    lemma_node_at_prefix(root@, current@, n - 1);
                    assert(current@.take(n - 1) =~= current@.drop_last());
                }
                Self::prefix(current, n - 1)
            } else {
                match Self::closest_ancestor_section(root, current, section_marker_text) {
                    Some(mut a) => {
                        proof {
                            lemma_closest_section_within(t, current@, marker, n as int);
                            let j = choose|j: int|
                                0 <= j <= n && a@ == current@.take(j) && section_node_at(t, a@, marker);
                            assert(j > 0) by {
                                if j == 0 {
                                    assert(current@.take(0) =~= Seq::<usize>::empty());
                                    assert(closest_section(t, current@, marker) == Some(Seq::<usize>::empty()));
                                }
                            }
                            lemma_node_at_prefix(t, current@, j - 1);
                            assert(current@.take(j - 1) =~= a@.drop_last());
                        }
                        a.pop();
                        a
                    },
                    None => match Self::closest_ancestor_section(root, current, None) {
                        Some(c) => {
                            proof {
                                lemma_closest_section_within(t, current@, None, n as int);
                            }
                            c
                        },
                        None => Self::prefix(current, 0),
                    },
                }
            }
        };
        Self::push_child_under(root, target, section)
    }
}


/// Whether a section with the marker has somewhere to go when the current
/// node is at `path`: at the root, beside a current node with the same
/// marker, or where the closest section above with the marker is not the
/// root itself (the root has no parent to put a sibling under).
pub open spec fn has_section_parent(t: NodeView, path: Seq<usize>, marker: Option<Seq<char>>) -> bool {
    ||| path.len() == 0
    ||| (node_at(t, path) matches Some(n) && section_marker(n) == marker)
    ||| closest_section(t, path, marker) != Some(Seq::<usize>::empty())
}

/// In a tree whose root is no section, a section always has somewhere to go.
pub proof fn lemma_section_parent_exists(t: NodeView, path: Seq<usize>, marker: Option<Seq<char>>)
    requires
        t.class != NodeClass::Section,
    ensures
        has_section_parent(t, path, marker),
{
    lemma_closest_section_within(t, path, marker, path.len() as int);
    if closest_section(t, path, marker) == Some(Seq::<usize>::empty()) {
        let j = choose|j: int| 0 <= j <= path.len() && Seq::<usize>::empty() == path.take(j) && section_node_at(
            t,
            Seq::<usize>::empty(),
            marker,
        );
        assert(node_at(t, Seq::<usize>::empty()) == Some(t));
    }
}

/// Whether `q` leads through the child at index `k` of the node that `path`
/// leads to.
pub open spec fn passes_through(path: Seq<usize>, k: nat, q: Seq<usize>) -> bool {
    q.len() > path.len() && q.take(path.len() as int) == path && q[path.len() as int] == k
}

/// Whether two optional nodes are both absent, or both present with the same
/// class and attributes.
pub open spec fn same_label(a: Option<NodeView>, b: Option<NodeView>) -> bool {
    match (a, b) {
        (Some(x), Some(y)) => x.class == y.class && x.attributes == y.attributes,
        (None, None) => true,
        _ => false,
    }
}

proof fn lemma_node_at_push_at(t: NodeView, path: Seq<usize>, c: NodeView, q: Seq<usize>)
    requires
        node_at(t, path) is Some,
    ensures
        passes_through(path, child_count_at(t, path), q) ==> node_at(push_at(t, path, c), q) == node_at(
            c,
            q.skip(path.len() + 1int),
        ),
        !passes_through(path, child_count_at(t, path), q) ==> same_label(node_at(push_at(t, path, c), q), node_at(t, q)),
    decreases path.len(),
{
    let t2 = push_at(t, path, c);
    let k = child_count_at(t, path);
    if q.len() == 0 {
        assert(!passes_through(path, k, q));
    } else if path.len() == 0 {
        assert(t2 == with_child(t, c));
        assert(q.take(0) =~= path);
        if q[0] < t.children.len() {
            assert(t2.children[q[0] as int] == t.children[q[0] as int]);
        } else if q[0] == t.children.len() {
            assert(t2.children[q[0] as int] == c);
            assert(q.skip(1) =~= q.drop_first());
        }
    } else {
        let i = path[0] as int;
        let ti = t.children[i];
        let rest = path.drop_first();
        if q[0] != path[0] {
            if q.len() > path.len() {
                assert(q.take(path.len() as int)[0] != path[0]);
            }
            assert(!passes_through(path, k, q));
            if q[0] < t.children.len() {
                assert(t2.children[q[0] as int] == t.children[q[0] as int]);
            }
        } else {
            let q2 = q.drop_first();
            lemma_node_at_push_at(ti, rest, c, q2);
            assert(child_count_at(ti, rest) == k);
            assert(t2.children[i] == push_at(ti, rest, c));
            assert(node_at(t2, q) == node_at(push_at(ti, rest, c), q2));
            assert(node_at(t, q) == node_at(ti, q2));
            if q.len() > path.len() {
                assert(q.take(path.len() as int) == path <==> q2.take(rest.len() as int) == rest) by {
                    if q.take(path.len() as int) == path {
                        assert(q2.take(rest.len() as int) =~= rest);
                    }
                    if q2.take(rest.len() as int) == rest {
                        assert forall|j: int| 0 <= j < path.len() implies q.take(path.len() as int)[j] == path[j] by {
                            if j > 0 {
                                assert(q.take(path.len() as int)[j] == q2.take(rest.len() as int)[j - 1]);
                            }
                        }
                        assert(q.take(path.len() as int) =~= path);
                    }
                }
                assert(q[path.len() as int] == q2[rest.len() as int]);
                assert(q.skip(path.len() + 1int) =~= q2.skip(rest.len() + 1int));
            }
            assert(passes_through(path, k, q) == passes_through(rest, k, q2));
        }
    }
}

/// Whether the node that `path` leads to is a section with the marker `m`.
pub open spec fn marked_section_at(t: NodeView, path: Seq<usize>, m: Seq<char>) -> bool {
    node_at(t, path) matches Some(n) && n.class == NodeClass::Section && section_marker(n) == Some(m)
}

/// No section lies inside a section with the same marker.
pub open spec fn sections_unnested(t: NodeView) -> bool {
    forall|p: Seq<usize>, q: Seq<usize>, m: Seq<char>|
        p.len() < q.len() && q.take(p.len() as int) == p && #[trigger] marked_section_at(t, p, m)
            ==> !#[trigger] marked_section_at(t, q, m)
}

/// Only sections carry a section marker.
pub open spec fn markers_on_sections(t: NodeView) -> bool {
    forall|q: Seq<usize>|
        match #[trigger] node_at(t, q) {
            Some(n) => section_marker(n) is Some ==> n.class == NodeClass::Section,
            None => true,
        }
}

/// No node below `c` carries a section marker.
pub open spec fn descendants_unmarked(c: NodeView) -> bool {
    forall|r: Seq<usize>|
        r.len() > 0 ==> match #[trigger] node_at(c, r) {
            Some(n) => section_marker(n) is None,
            None => true,
        }
}

/// Whether no node among the first `k` + 1 on `path` is a section with the
/// marker `m`.
pub open spec fn no_marked_section_on(t: NodeView, path: Seq<usize>, m: Seq<char>, k: int) -> bool {
    forall|j: int| 0 <= j <= k ==> !#[trigger] marked_section_at(t, path.take(j), m)
}

pub proof fn lemma_push_keeps_unnested(t: NodeView, path: Seq<usize>, c: NodeView)
    requires
        node_at(t, path) is Some,
        sections_unnested(t),
        markers_on_sections(t),
        descendants_unmarked(c),
        section_marker(c) is Some ==> c.class == NodeClass::Section,
        (section_marker(c) matches Some(m) ==> no_marked_section_on(t, path, m, path.len() as int)),
    ensures
        sections_unnested(push_at(t, path, c)),
        markers_on_sections(push_at(t, path, c)),
{
    let t2 = push_at(t, path, c);
    let k = child_count_at(t, path);
    assert forall|q: Seq<usize>|
        match #[trigger] node_at(t2, q) {
            Some(n) => section_marker(n) is Some ==> n.class == NodeClass::Section,
            None => true,
        } by {
        lemma_node_at_push_at(t, path, c, q);
        if passes_through(path, k, q) {
            let r = q.skip(path.len() + 1int);
            if r.len() == 0 {
                assert(r =~= Seq::<usize>::empty());
            } else {
                assert(node_at(c, r) == node_at(t2, q));
            }
        } else {
            assert(same_label(node_at(t2, q), node_at(t, q)));
            if node_at(t2, q) is Some {
                assert(node_at(t, q) is Some);
            }
        }
    }
    assert forall|p: Seq<usize>, q: Seq<usize>, m: Seq<char>|
        p.len() < q.len() && q.take(p.len() as int) == p && #[trigger] marked_section_at(t2, p, m) implies
        !#[trigger] marked_section_at(t2, q, m) by {
        lemma_node_at_push_at(t, path, c, q);
        lemma_node_at_push_at(t, path, c, p);
        if marked_section_at(t2, q, m) {
            if passes_through(path, k, q) {
                let r = q.skip(path.len() + 1int);
                if r.len() == 0 {
                    assert(r =~= Seq::<usize>::empty());
                    assert(node_at(t2, q) == Some(c));
                    assert(p.len() <= path.len());
                    assert(p =~= path.take(p.len() as int));
                    assert(!passes_through(path, k, p));
                    assert(marked_section_at(t, path.take(p.len() as int), m));
                } else {
                    assert(node_at(c, r) == node_at(t2, q));
                }
            } else {
                if passes_through(path, k, p) {
                    assert(q.take(path.len() as int) =~= p.take(path.len() as int));
                    assert(q[path.len() as int] == p[path.len() as int]);
                }
                assert(marked_section_at(t, p, m));
                assert(marked_section_at(t, q, m));
            }
        }
    }
}


proof fn lemma_no_closest_section(t: NodeView, path: Seq<usize>, m: Seq<char>, k: int)
    requires
        closest_section_within(t, path, Some(m), k) is None,
    ensures
        no_marked_section_on(t, path, m, k),
    decreases k,
{
    if k > 0 {
        lemma_no_closest_section(t, path, m, k - 1);
    }
    assert forall|j: int| 0 <= j <= k implies !#[trigger] marked_section_at(t, path.take(j), m) by {
        if j < k {
            assert(!marked_section_at(t, path.take(j), m));
        }
    }
}

/// Where a section goes when the current node is at `current`, no section
/// above it carries its marker, in a tree whose root is no section.
pub proof fn lemma_section_parent_unmarked_above(t: NodeView, current: Seq<usize>, section: NodeView)
    requires
        t.class != NodeClass::Section,
        sections_unnested(t),
        markers_on_sections(t),
    ensures
        node_at(t, section_parent(t, current, section_marker(section))) is Some,
        section_marker(section) matches Some(m) ==> no_marked_section_on(
            t,
            section_parent(t, current, section_marker(section)),
            m,
            section_parent(t, current, section_marker(section)).len() as int,
        ),
{
    let mo = section_marker(section);
    let target = section_parent(t, current, mo);
    let n = current.len() as int;
    if n == 0 {
        assert(target.len() == 0);
        if let Some(m) = mo {
            assert forall|j: int| 0 <= j <= 0 implies !#[trigger] marked_section_at(t, target.take(j), m) by {
                assert(target.take(j) =~= Seq::<usize>::empty());
            }
        }
    } else if node_at(t, current) is Some && section_marker(node_at(t, current).unwrap()) == mo {
        let cn = node_at(t, current).unwrap();
        lemma_node_at_prefix(t, current, n - 1);
        assert(current.take(n - 1) =~= current.drop_last());
        assert(target == current.take(n - 1));
        if let Some(m) = mo {
            assert(cn.class == NodeClass::Section);
            assert(marked_section_at(t, current, m));
            assert forall|j: int| 0 <= j <= n - 1 implies !#[trigger] marked_section_at(t, target.take(j), m) by {
                assert(target.take(j) =~= current.take(j));
                assert(current.take(j as int).len() < current.len());
                if marked_section_at(t, current.take(j), m) {
                    assert(!marked_section_at(t, current, m));
                }
            }
        }
    } else {
        match closest_section(t, current, mo) {
            Some(a) => {
                lemma_closest_section_within(t, current, mo, n);
                let j0 = choose|j: int| 0 <= j <= n && a == current.take(j) && section_node_at(t, a, mo);
                assert(j0 > 0) by {
                    if j0 == 0 {
                        assert(current.take(0) =~= Seq::<usize>::empty());
                    }
                }
                lemma_node_at_prefix(t, a, j0 - 1);
                assert(a.take(j0 - 1) =~= current.take(j0 - 1));
                assert(a.drop_last() =~= current.take(j0 - 1));
                assert(target == current.take(j0 - 1));
                if let Some(m) = mo {
                    assert(marked_section_at(t, a, m));
                    assert forall|j: int| 0 <= j <= j0 - 1 implies !#[trigger] marked_section_at(t, target.take(j), m) by {
                        assert(target.take(j) =~= a.take(j));
                        if marked_section_at(t, a.take(j), m) {
                            assert(!marked_section_at(t, a, m));
                        }
                    }
                }
            },
            None => {
                if let Some(m) = mo {
                    lemma_no_closest_section(t, current, m, n);
                }
                match closest_section(t, current, None) {
                    Some(c0) => {
                        lemma_closest_section_within(t, current, None, n);
                        let j1 = choose|j: int| 0 <= j <= n && c0 == current.take(j) && section_node_at(t, c0, None);
                        assert(target == current.take(j1));
                        if let Some(m) = mo {
                            assert forall|j: int| 0 <= j <= j1 implies !#[trigger] marked_section_at(t, target.take(j), m) by {
                                assert(target.take(j) =~= current.take(j));
                                assert(!marked_section_at(t, current.take(j), m));
                            }
                        }
                    },
                    None => {
                        assert(target.len() == 0);
                        if let Some(m) = mo {
                            assert forall|j: int| 0 <= j <= 0 implies !#[trigger] marked_section_at(t, target.take(j), m) by {
                                assert(target.take(j) =~= Seq::<usize>::empty());
                            }
                        }
                    },
                }
            },
        }
    }
}

/// Placing a section keeps sections of one marker from nesting: in a
/// document tree where no section lies inside a section with the same marker
/// and only sections carry markers, the tree that `push_section_ref` builds
/// keeps both, for a new section with no marked node below it.
pub proof fn law_section_placement_keeps_sections_unnested(t: NodeView, current: Seq<usize>, section: NodeView)
    requires
        node_at(t, current) is Some,
        t.class != NodeClass::Section,
        section.class == NodeClass::Section,
        descendants_unmarked(section),
        sections_unnested(t),
        markers_on_sections(t),
    ensures
        sections_unnested(push_at(t, section_parent(t, current, section_marker(section)), section)),
        markers_on_sections(push_at(t, section_parent(t, current, section_marker(section)), section)),
{
    lemma_section_parent_unmarked_above(t, current, section);
    lemma_push_keeps_unnested(t, section_parent(t, current, section_marker(section)), section);
}

/// Placing a body element keeps sections of one marker from nesting: in a
/// tree where no section lies inside a section with the same marker and only
/// sections carry markers, the tree that `push_body_element` builds keeps
/// both, for a body element that carries no marker anywhere.
pub proof fn law_body_placement_keeps_sections_unnested(t: NodeView, current: Seq<usize>, body: NodeView)
    requires
        node_at(t, current) is Some,
        section_marker(body) is None,
        descendants_unmarked(body),
        sections_unnested(t),
        markers_on_sections(t),
    ensures
        sections_unnested(push_at(t, body_parent(t, current), body)),
        markers_on_sections(push_at(t, body_parent(t, current), body)),
{
    let n = current.len() as int;
    if n > 0 {
        lemma_node_at_prefix(t, current, n - 1);
        assert(current.take(n - 1) =~= current.drop_last());
    }
    lemma_push_keeps_unnested(t, body_parent(t, current), body);
}


/// Whether neither `n` nor any node below it carries a section marker.
pub open spec fn unmarked(n: NodeView) -> bool
    decreases n,
{
    section_marker(n) is None && forall|i: int| 0 <= i < n.children.len() ==> unmarked(#[trigger] n.children[i])
}


proof fn lemma_unmarked_path(n: NodeView, r: Seq<usize>)
    requires
        unmarked(n),
    ensures
        match node_at(n, r) {
            Some(x) => section_marker(x) is None,
            None => true,
        },
    decreases r.len(),
{
    if r.len() > 0 && r[0] < n.children.len() {
        assert(unmarked(n.children[r[0] as int]));
        lemma_unmarked_path(n.children[r[0] as int], r.drop_first());
    }
}

/// An unmarked node has no marked node below it.
pub proof fn lemma_unmarked_descendants(n: NodeView)
    requires
        unmarked(n),
    ensures
        section_marker(n) is None,
        descendants_unmarked(n),
{
    assert forall|r: Seq<usize>| r.len() > 0 implies match #[trigger] node_at(n, r) {
        Some(x) => section_marker(x) is None,
        None => true,
    } by {
        lemma_unmarked_path(n, r);
    }
}

/// A node whose children are all unmarked has no marked node below it.
pub proof fn lemma_children_unmarked(n: NodeView)
    requires
        forall|i: int| 0 <= i < n.children.len() ==> unmarked(#[trigger] n.children[i]),
    ensures
        descendants_unmarked(n),
{
    assert forall|r: Seq<usize>| r.len() > 0 implies match #[trigger] node_at(n, r) {
        Some(x) => section_marker(x) is None,
        None => true,
    } by {
        if r[0] < n.children.len() {
            lemma_unmarked_path(n.children[r[0] as int], r.drop_first());
        }
    }
}

/// Appending an unmarked child to an unmarked node leaves it unmarked.
pub proof fn lemma_unmarked_with_child(n: NodeView, c: NodeView)
    requires
        unmarked(n),
        unmarked(c),
    ensures
        unmarked(with_child(n, c)),
{
    let w = with_child(n, c);
    assert forall|i: int| 0 <= i < w.children.len() implies unmarked(#[trigger] w.children[i]) by {
        if i < n.children.len() {
            assert(w.children[i] == n.children[i]);
        }
    }
}

/// The attribute keys that the parsers write are not the section marker's.
pub proof fn lemma_attribute_keys()
    ensures
        "indent"@ != "section_marker"@,
        "text"@ != "section_marker"@,
        "type"@ != "section_marker"@,
        "markup"@ != "section_marker"@,
        "marker"@ != "section_marker"@,
        "directive_type"@ != "section_marker"@,
        "directive_arguments"@ != "section_marker"@,
        "enumtype"@ != "section_marker"@,
        "prefix"@ != "section_marker"@,
        "suffix"@ != "section_marker"@,
        "raw_value"@ != "section_marker"@,
        "number"@ != "section_marker"@,
        "fieldname"@ != "section_marker"@,
        "xml:space"@ != "section_marker"@,
{
    reveal_strlit("section_marker");
    reveal_strlit("indent");
    reveal_strlit("text");
    reveal_strlit("type");
    reveal_strlit("markup");
    reveal_strlit("marker");
    reveal_strlit("directive_type");
    reveal_strlit("directive_arguments");
    reveal_strlit("enumtype");
    reveal_strlit("prefix");
    reveal_strlit("suffix");
    reveal_strlit("raw_value");
    reveal_strlit("number");
    reveal_strlit("fieldname");
    reveal_strlit("xml:space");
    assert("directive_type"@[0] != "section_marker"@[0]);
    assert("suffix"@.len() != "section_marker"@.len());
}

/// Adding a node under a path that leads nowhere leaves the tree as it was.
pub proof fn lemma_push_at_nowhere(t: NodeView, path: Seq<usize>, c: NodeView)
    requires
        node_at(t, path) is None,
    ensures
        push_at(t, path, c) == t,
    decreases path.len(),
{
    if path.len() > 0 && path[0] < t.children.len() {
        let i = path[0] as int;
        lemma_push_at_nowhere(t.children[i], path.drop_first(), c);
        assert(t.children.update(i, t.children[i]) =~= t.children);
    }
}

/// A node with no children, no marker and no section class keeps sections
/// unnested and markers on sections.
pub proof fn lemma_childless_unnested(n: NodeView)
    requires
        n.children.len() == 0,
        n.class != NodeClass::Section,
        section_marker(n) is None,
    ensures
        sections_unnested(n),
        markers_on_sections(n),
{
    assert forall|q: Seq<usize>| match #[trigger] node_at(n, q) {
        Some(x) => section_marker(x) is Some ==> x.class == NodeClass::Section,
        None => true,
    } by {
        if q.len() > 0 {
            assert(node_at(n, q) is None);
        }
    }
    assert forall|p: Seq<usize>, q: Seq<usize>, m: Seq<char>|
        p.len() < q.len() && q.take(p.len() as int) == p && #[trigger] marked_section_at(n, p, m) implies
        !#[trigger] marked_section_at(n, q, m) by {
        if p.len() > 0 {
            assert(node_at(n, p) is None);
        }
    }
}

/// The text of an optional string.
pub open spec fn opt_str_view(s: Option<&str>) -> Option<Seq<char>> {
    match s {
        Some(t) => Some(t@),
        None => None,
    }
}

} // verus!
