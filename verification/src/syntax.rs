//! Model of the externally owned syntax-tree store.
//!
//! The resolver only ever asks the store three structural questions about a
//! node: "get the child under a field name", "get the i-th element of the
//! ordered child list", and "get the leaf token with a declared role". A
//! syntax tree here is the materialized answer table for those questions:
//! each node carries its text range, its named children, its ordered child
//! list and its named tokens. The store owns the text; nodes hold coordinates
//! only.

use vstd::prelude::*;

verus! {

/// A concrete source-text range: half-open offsets `[start, end)` within one
/// file's text.
#[derive(Clone, Copy, Debug, PartialEq, Eq, Structural)]
pub struct Span {
    pub file: usize,
    pub start: u32,
    pub end: u32,
}

/// The closed set of field names the node family addresses.
#[derive(Clone, Copy, Debug, PartialEq, Eq, Structural)]
pub enum FieldName {
    Path,
    Fields,
}

/// The closed set of token roles the node family addresses.
#[derive(Clone, Copy, Debug, PartialEq, Eq, Structural)]
pub enum TokenName {
    Name,
}

/// A named child edge: the field name and the index of the target node in
/// the owning tree.
#[derive(Clone, Copy, Debug, PartialEq, Eq, Structural)]
pub struct SyntaxField {
    pub name: FieldName,
    pub node: usize,
}

/// A leaf token of a node, under its declared role, with its text range.
#[derive(Clone, Copy, Debug, PartialEq, Eq, Structural)]
pub struct SyntaxToken {
    pub name: TokenName,
    pub start: u32,
    pub end: u32,
}

/// One syntax node: its own range plus the three answer tables the resolver
/// consults.
pub struct SyntaxNode {
    pub start: u32,
    pub end: u32,
    pub fields: Vec<SyntaxField>,
    pub children: Vec<usize>,
    pub tokens: Vec<SyntaxToken>,
}

/// The syntax tree of one file: nodes addressed by index.
pub struct SyntaxTree {
    pub nodes: Vec<SyntaxNode>,
}

/// The first field of `fields` named `name`, searching from position `i`.
pub open spec fn spec_find_field_from(fields: Seq<SyntaxField>, name: FieldName, i: int) -> Option<usize>
    decreases fields.len() - i,
{
    if i < 0 || i >= fields.len() {
        None
    } else if fields[i].name == name {
        Some(fields[i].node)
    } else {
        spec_find_field_from(fields, name, i + 1)
    }
}

/// The node index under the first field named `name`, if any.
pub open spec fn spec_find_field(fields: Seq<SyntaxField>, name: FieldName) -> Option<usize> {
    spec_find_field_from(fields, name, 0)
}

/// The first token of `tokens` with role `name`, searching from position `i`.
pub open spec fn spec_find_token_from(tokens: Seq<SyntaxToken>, name: TokenName, i: int) -> Option<SyntaxToken>
    decreases tokens.len() - i,
{
    if i < 0 || i >= tokens.len() {
        None
    } else if tokens[i].name == name {
        Some(tokens[i])
    } else {
        spec_find_token_from(tokens, name, i + 1)
    }
}

/// The first token with role `name`, if any.
pub open spec fn spec_find_token(tokens: Seq<SyntaxToken>, name: TokenName) -> Option<SyntaxToken> {
    spec_find_token_from(tokens, name, 0)
}

impl SyntaxNode {
    /// Fetch the child node under the first field named `name`.
    pub fn find_field(&self, name: FieldName) -> (r: Option<usize>)
        ensures
            r == spec_find_field(self.fields@, name),
    {
        let mut i: usize = 0;
        while i < self.fields.len()
            invariant
                i <= self.fields@.len(),
                spec_find_field(self.fields@, name) == spec_find_field_from(self.fields@, name, i as int),
            decreases self.fields@.len() - i,
        {
            if self.fields[i].name == name {
                return Some(self.fields[i].node);
            }
            i = i + 1;
        }
        None
    }

    /// Fetch the leaf token with role `name`.
    pub fn find_token(&self, name: TokenName) -> (r: Option<SyntaxToken>)
        ensures
            r == spec_find_token(self.tokens@, name),
    {
        let mut i: usize = 0;
        while i < self.tokens.len()
            invariant
                i <= self.tokens@.len(),
                spec_find_token(self.tokens@, name) == spec_find_token_from(self.tokens@, name, i as int),
            decreases self.tokens@.len() - i,
        {
            if self.tokens[i].name == name {
                return Some(self.tokens[i]);
            }
            i = i + 1;
        }
        None
    }
}

/// A named child edge is well formed when its target exists and the target's
/// range lies within the parent's range.
pub open spec fn field_wf(t: SyntaxTree, n: SyntaxNode, f: SyntaxField) -> bool {
    &&& (f.node as int) < t.nodes@.len()
    &&& n.start <= t.nodes@[f.node as int].start
    &&& t.nodes@[f.node as int].end <= n.end
}

/// An ordered-list child is well formed when it exists and lies within the
/// parent's range.
pub open spec fn child_wf(t: SyntaxTree, n: SyntaxNode, c: usize) -> bool {
    &&& (c as int) < t.nodes@.len()
    &&& n.start <= t.nodes@[c as int].start
    &&& t.nodes@[c as int].end <= n.end
}

/// A token is well formed when its range is ordered and lies within its
/// node's range.
pub open spec fn token_wf(n: SyntaxNode, tok: SyntaxToken) -> bool {
    &&& n.start <= tok.start
    &&& tok.start <= tok.end
    &&& tok.end <= n.end
}

/// A node is well formed when its range is ordered and everything it hands
/// out stays within that range.
pub open spec fn node_wf(t: SyntaxTree, n: SyntaxNode) -> bool {
    &&& n.start <= n.end
    &&& forall|j: int| 0 <= j < n.fields@.len() ==> field_wf(t, n, #[trigger] n.fields@[j])
    &&& forall|j: int| 0 <= j < n.children@.len() ==> child_wf(t, n, #[trigger] n.children@[j])
    &&& forall|j: int| 0 <= j < n.tokens@.len() ==> token_wf(n, #[trigger] n.tokens@[j])
}

/// A tree is well formed when each of its nodes is.
pub open spec fn tree_wf(t: SyntaxTree) -> bool {
    forall|i: int| 0 <= i < t.nodes@.len() ==> node_wf(t, #[trigger] t.nodes@[i])
}

impl SyntaxNode {
    /// Decide whether this node of `t` is well formed.
    fn well_formed_in(&self, t: &SyntaxTree) -> (r: bool)
        ensures
            r == node_wf(*t, *self),
    {
        if self.start > self.end {
            return false;
        }
        let mut i: usize = 0;
        while i < self.fields.len()
            invariant
                i <= self.fields@.len(),
                self.start <= self.end,
                forall|j: int| 0 <= j < i ==> field_wf(*t, *self, #[trigger] self.fields@[j]),
            decreases self.fields@.len() - i,
        {
            let f = self.fields[i];
            if f.node >= t.nodes.len() || self.start > t.nodes[f.node].start || t.nodes[f.node].end
                > self.end {
                assert(!field_wf(*t, *self, self.fields@[i as int]));
                return false;
            }
            i = i + 1;
        }
        let mut i: usize = 0;
        while i < self.children.len()
            invariant
                i <= self.children@.len(),
                forall|j: int| 0 <= j < i ==> child_wf(*t, *self, #[trigger] self.children@[j]),
            decreases self.children@.len() - i,
        {
            let c = self.children[i];
            if c >= t.nodes.len() || self.start > t.nodes[c].start || t.nodes[c].end > self.end {
                assert(!child_wf(*t, *self, self.children@[i as int]));
                return false;
            }
            i = i + 1;
        }
        let mut i: usize = 0;
        while i < self.tokens.len()
            invariant
                i <= self.tokens@.len(),
                forall|j: int| 0 <= j < i ==> token_wf(*self, #[trigger] self.tokens@[j]),
            decreases self.tokens@.len() - i,
        {
            let tok = self.tokens[i];
            if self.start > tok.start || tok.start > tok.end || tok.end > self.end {
                assert(!token_wf(*self, self.tokens@[i as int]));
                return false;
            }
            i = i + 1;
        }
        true
    }
}

impl SyntaxTree {
    /// Decide whether every node of this tree is well formed, so that a
    /// narrowing step can never land outside the range it started from.
    pub fn well_formed(&self) -> (r: bool)
        ensures
            r == tree_wf(*self),
    {
        let mut i: usize = 0;
        while i < self.nodes.len()
            invariant
                i <= self.nodes@.len(),
                forall|j: int| 0 <= j < i ==> node_wf(*self, #[trigger] self.nodes@[j]),
            decreases self.nodes@.len() - i,
        {
            if !self.nodes[i].well_formed_in(self) {
                return false;
            }
            i = i + 1;
        }
        true
    }
}

/// A found field comes from some entry of the field table.
pub proof fn lemma_find_field_from_found(fields: Seq<SyntaxField>, name: FieldName, i: int)
    ensures
        (spec_find_field_from(fields, name, i) matches Some(nd) ==> exists|j: int|
            i <= j < fields.len() && (#[trigger] fields[j]).name == name && fields[j].node == nd),
    decreases fields.len() - i,
{
    if i < 0 || i >= fields.len() {
    } else if fields[i].name == name {
        assert(fields[i].name == name && fields[i].node == fields[i].node);
    } else {
        lemma_find_field_from_found(fields, name, i + 1);
    }
}

/// A found token comes from some entry of the token table.
pub proof fn lemma_find_token_from_found(tokens: Seq<SyntaxToken>, name: TokenName, i: int)
    ensures
        (spec_find_token_from(tokens, name, i) matches Some(tok) ==> exists|j: int|
            i <= j < tokens.len() && #[trigger] tokens[j] == tok),
    decreases tokens.len() - i,
{
    if i < 0 || i >= tokens.len() {
    } else if tokens[i].name == name {
        assert(tokens[i].name == name && tokens[i] == tokens[i]);
    } else {
        lemma_find_token_from_found(tokens, name, i + 1);
    }
}

} // verus!
