//! The document tree that a conversion builds and a serializer writes out.

use vstd::prelude::*;
use crate::object::distinct_keys;

verus! {

/// One node of a document: a scalar, an array of nodes, or an object, which
/// maps keys to nodes and keeps its keys in the order in which they came.
#[derive(Debug, PartialEq, Eq)]
pub enum Node {
    Null,
    Bool(bool),
    Number(i64),
    String(String),
    Array(Vec<Node>),
    Object(Vec<Entry>),
}

/// One entry of an object: a key and the node that it maps to.
#[derive(Debug, PartialEq, Eq)]
pub struct Entry {
    pub key: String,
    pub value: Node,
}

/// The mathematical value of a `Node`. An object is the sequence of its
/// entries, each a key and a value.
pub enum Tree {
    Null,
    Bool(bool),
    Number(int),
    String(Seq<char>),
    Array(Seq<Tree>),
    Object(Seq<(Seq<char>, Tree)>),
}

/// The value of a node.
pub open spec fn tree_of(node: Node) -> Tree
    decreases node,
{
    match node {
        Node::Null => Tree::Null,
        Node::Bool(b) => Tree::Bool(b),
        Node::Number(n) => Tree::Number(n as int),
        Node::String(s) => Tree::String(s@),
        Node::Array(items) => Tree::Array(
            Seq::new(
                items.len() as nat,
                |i: int|
                    if 0 <= i < items.len() {
                        tree_of(items[i])
                    } else {
                        Tree::Null
                    },
            ),
        ),
        Node::Object(entries) => Tree::Object(
            Seq::new(
                entries.len() as nat,
                |i: int|
                    if 0 <= i < entries.len() {
                        (entries[i].key@, tree_of(entries[i].value))
                    } else {
                        (Seq::empty(), Tree::Null)
                    },
            ),
        ),
    }
}

impl View for Node {
    type V = Tree;

    open spec fn view(&self) -> Tree {
        tree_of(*self)
    }
}

impl View for Entry {
    type V = (Seq<char>, Tree);

    open spec fn view(&self) -> (Seq<char>, Tree) {
        (self.key@, self.value@)
    }
}

/// The values of a vector of nodes, in its order.
pub open spec fn items_view(items: Vec<Node>) -> Seq<Tree> {
    Seq::new(items.len() as nat, |i: int| items[i]@)
}

/// The values of a vector of entries, in its order.
pub open spec fn entries_view(entries: Vec<Entry>) -> Seq<(Seq<char>, Tree)> {
    Seq::new(entries.len() as nat, |i: int| entries[i]@)
}

impl Tree {
    /// Every object in the tree is a mapping: none has a key twice.
    pub open spec fn wf(self) -> bool
        decreases self,
    {
        match self {
            Tree::Array(items) => forall|i: int|
                0 <= i < items.len() ==> (#[trigger] items[i]).wf(),
            Tree::Object(entries) => distinct_keys(entries) && forall|i: int|
                0 <= i < entries.len() ==> (#[trigger] entries[i]).1.wf(),
            _ => true,
        }
    }
}

impl Node {
    /// Every object in the document is a mapping: none has a key twice.
    pub open spec fn wf(&self) -> bool {
        self@.wf()
    }

    /// Tells whether every object in the document is a mapping.
    pub fn check(&self) -> (ok: bool)
        ensures
            ok == self.wf(),
        decreases self,
    {
        match self {
            Node::Array(items) => {
                proof {
                    Node::lemma_array_view(*items);
                }
                let mut i: usize = 0;
                while i < items.len()
                    invariant
                        i <= items.len(),
                        self == Node::Array(*items),
                        self@ == Tree::Array(items_view(*items)),
                        forall|j: int| 0 <= j < i ==> (#[trigger] items_view(*items)[j]).wf(),
                    decreases items.len() - i,
                {
                    if !items[i].check() {
                        assert(self@->Array_0[i as int] == items[i as int]@);
                        return false;
                    }
                    i += 1;
                }
                true
            },
            Node::Object(entries) => {
                proof {
                    Node::lemma_object_view(*entries);
                }
                let ghost model = entries_view(*entries);
                let mut i: usize = 0;
                while i < entries.len()
                    invariant
                        i <= entries.len(),
                        self == Node::Object(*entries),
                        self@ == Tree::Object(model),
                        model == entries_view(*entries),
                        forall|j: int| 0 <= j < i ==> (#[trigger] model[j]).1.wf(),
                        forall|j: int, k: int|
                            0 <= j < k < model.len() && k < i ==> (#[trigger] model[j]).0 != (
                            #[trigger] model[k]).0,
                    decreases entries.len() - i,
                {
                    if !entries[i].value.check() {
                        assert(model[i as int].1 == entries[i as int].value@);
                        return false;
                    }
                    let mut j: usize = 0;
                    while j < i
                        invariant
                            j <= i < entries.len(),
                            self@ == Tree::Object(model),
                            model == entries_view(*entries),
                            forall|k: int|
                                0 <= k < j ==> (#[trigger] model[k]).0 != model[i as int].0,
                        decreases i - j,
                    {
                        if entries[j].key == entries[i].key {
                            assert(model[j as int].0 == model[i as int].0);
                            return false;
                        }
                        j += 1;
                    }
                    i += 1;
                }
                true
            },
            _ => true,
        }
    }

    /// The value of an array node is the array of its items' values.
    pub proof fn lemma_array_view(items: Vec<Node>)
        ensures
            Node::Array(items)@ == Tree::Array(items_view(items)),
    {
        assert(Node::Array(items)@->Array_0 =~= items_view(items));
    }

    /// The value of an object node is the object of its entries' values.
    pub proof fn lemma_object_view(entries: Vec<Entry>)
        ensures
            Node::Object(entries)@ == Tree::Object(entries_view(entries)),
    {
        assert(Node::Object(entries)@->Object_0 =~= entries_view(entries));
    }
}

} // verus!
