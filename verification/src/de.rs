//! The decode engine: an explicit frame stack over the grouped document,
//! advanced by type-directed requests. A fresh stack is seeded with the root
//! scope for each decode call; fields and sequence elements replace the top
//! frame when advancing among siblings and push a new frame when genuinely
//! entering one more nesting level, so that every push has exactly one
//! matching pop.

use vstd::prelude::*;
use std::rc::Rc;
use vstd::string::StrSliceExecFns;
use crate::config::{Group, Node};
use crate::errors::{DeError, DeResult, ScalarKind};

verus! {

/// One level of traversal state.
pub enum Frame {
    /// One key's occurrence nodes, bound while one field is decoded.
    Item(Group),
    /// A grouped scope together with the index of the field being visited.
    Struct { fields: Rc<Vec<Group>>, index: usize },
    /// One key's occurrence nodes, visited as the elements of a sequence.
    Sequence { elements: Rc<Vec<Node>>, index: usize },
}

/// The cursor of one decode call. Its abstract value is the frame stack,
/// bottom first.
pub struct Deserializer {
    depth: Vec<Frame>,
}

impl View for Deserializer {
    type V = Seq<Frame>;

    closed spec fn view(&self) -> Seq<Frame> {
        self.depth@
    }
}

impl Deserializer {
    /// The frame the engine currently works in.
    pub open spec fn top(self) -> Frame
        recommends
            self@.len() > 0,
    {
        self@.last()
    }

    /// The node a scalar request resolves to, or the error it fails with:
    /// the single node of the bound occurrence list, or the current sequence
    /// element.
    pub open spec fn scalar_target(self) -> DeResult<Node> {
        if self@.len() == 0 {
            Err(DeError::NoFramesLeft)
        } else {
            match self.top() {
                Frame::Item(g) => if g.nodes@.len() == 1 {
                    Ok(g.nodes@[0])
                } else {
                    Err(DeError::ExpectedSingleValue)
                },
                Frame::Sequence { elements, index } => Ok(elements@[index as int]),
                Frame::Struct { .. } => Err(DeError::ExpectedSingleValue),
            }
        }
    }

    /// A sequence frame on top of the stack points at one of its elements.
    /// The decode protocol maintains this; scalar reads rely on it.
    pub open spec fn top_in_bounds(self) -> bool {
        self@.len() > 0 ==> (self.top() matches Frame::Sequence { elements, index } ==> (
        index as int) < elements@.len())
    }

    /// The stack after an `ascend`: one frame shorter, or unchanged when
    /// already empty.
    pub open spec fn spec_pop(d: Seq<Frame>) -> Seq<Frame> {
        if d.len() > 0 {
            d.drop_last()
        } else {
            d
        }
    }

    /// The stack after binding the field at `pos` of the owning scope: the
    /// first field of a scope pushes an item frame, a later field replaces
    /// the previous field's frame in place, and a stack that offers no such
    /// scope (or no such field) stays unchanged.
    pub open spec fn spec_push_field(d: Seq<Frame>, pos: usize) -> Seq<Frame> {
        let cur: int = if pos == 0 {
            1
        } else {
            2
        };
        if d.len() >= cur {
            match d[d.len() - cur] {
                Frame::Struct { fields, .. } => if (pos as int) < fields@.len() {
                    let f = Frame::Item(fields@[pos as int]);
                    if pos == 0 {
                        d.push(f)
                    } else {
                        d.update(d.len() - 1, f)
                    }
                } else {
                    d
                },
                _ => d,
            }
        } else {
            d
        }
    }

    /// The stack after turning the bound occurrence list into a sequence
    /// frame positioned at element `pos`: pushed for the first element,
    /// replacing the previous element's frame for a later one, unchanged
    /// when no occurrence list is bound.
    pub open spec fn spec_push_element(d: Seq<Frame>, pos: usize) -> Seq<Frame> {
        let cur: int = if pos == 0 {
            1
        } else {
            2
        };
        if d.len() >= cur {
            match d[d.len() - cur] {
                Frame::Item(g) => {
                    let f = Frame::Sequence { elements: g.nodes, index: pos };
                    if pos == 0 {
                        d.push(f)
                    } else {
                        d.update(d.len() - 1, f)
                    }
                },
                _ => d,
            }
        } else {
            d
        }
    }

    /// Seeds the cursor for one decode call with the grouped root scope.
    pub fn from_collectd(input: Vec<Group>) -> (de: Self)
        ensures
            de@.len() == 1,
            de@[0] matches Frame::Struct { fields, index } && fields@ == input@ && index == 0,
    {
        let mut depth: Vec<Frame> = Vec::new();
        depth.push(Frame::Struct { fields: Rc::new(input), index: 0 });
        Deserializer { depth }
    }

    /// The top frame, or `NoFramesLeft` on an empty stack (a protocol
    /// violation by the driving framework, not a data error).
    pub fn current(&self) -> (r: DeResult<&Frame>)
        ensures
            match r {
                Ok(f) => self@.len() > 0 && *f == self.top(),
                Err(e) => self@.len() == 0 && e == DeError::NoFramesLeft,
            },
    {
        if self.depth.len() == 0 {
            return Err(DeError::NoFramesLeft);
        }
        Ok(&self.depth[self.depth.len() - 1])
    }

    /// Extracts the one node a scalar request may read: the single node of
    /// the bound occurrence list, or the current sequence element. Fails
    /// with `ExpectedSingleValue` when the occurrence list does not hold
    /// exactly one node.
    pub fn grab_val(&self) -> (r: DeResult<&Node>)
        requires
            self.top_in_bounds(),
        ensures
            match (r, self.scalar_target()) {
                (Ok(n), Ok(m)) => *n == m,
                (Err(a), Err(b)) => a == b,
                _ => false,
            },
    {
        let f = match self.current() {
            Ok(f) => f,
            Err(e) => {
                return Err(e);
            },
        };
        match f {
            Frame::Item(g) => {
                if (*g.nodes).len() != 1 {
                    return Err(DeError::ExpectedSingleValue);
                }
                Ok(&(*g.nodes)[0])
            },
            Frame::Sequence { elements, index } => Ok(&(**elements)[*index]),
            Frame::Struct { .. } => Err(DeError::ExpectedSingleValue),
        }
    }

    /// Reads the current scalar as text, borrowed from the document's
    /// grouped form. Fails with `WrongScalarKind` on any other scalar.
    pub fn grab_string(&self) -> (r: DeResult<&str>)
        requires
            self.top_in_bounds(),
        ensures
            match self.scalar_target() {
                Ok(n) => match n {
                    Node::Str(s) => r matches Ok(rs) && rs@ == s@,
                    _ => r matches Err(e) && e == DeError::WrongScalarKind(ScalarKind::Text),
                },
                Err(e0) => r matches Err(e) && e == e0,
            },
    {
        let n = match self.grab_val() {
            Ok(n) => n,
            Err(e) => {
                return Err(e);
            },
        };
        match n {
            Node::Str(s) => Ok(s.as_str()),
            _ => Err(DeError::WrongScalarKind(ScalarKind::Text)),
        }
    }

    /// Reads the current scalar as a flag. Fails with `WrongScalarKind` on
    /// any other scalar.
    pub fn grab_bool(&self) -> (r: DeResult<bool>)
        requires
            self.top_in_bounds(),
        ensures
            match self.scalar_target() {
                Ok(n) => match n {
                    Node::Boolean(b) => r matches Ok(rb) && rb == b,
                    _ => r matches Err(e) && e == DeError::WrongScalarKind(ScalarKind::Boolean),
                },
                Err(e0) => r matches Err(e) && e == e0,
            },
    {
        let n = match self.grab_val() {
            Ok(n) => n,
            Err(e) => {
                return Err(e);
            },
        };
        match n {
            Node::Boolean(b) => Ok(*b),
            _ => Err(DeError::WrongScalarKind(ScalarKind::Boolean)),
        }
    }

    /// Reads the current scalar as a number, handed out as the document
    /// value's raw 64-bit floating-point bit pattern. Fails with
    /// `WrongScalarKind` on any other scalar.
    pub fn grab_number(&self) -> (r: DeResult<u64>)
        requires
            self.top_in_bounds(),
        ensures
            match self.scalar_target() {
                Ok(n) => match n {
                    Node::Number(bits) => r matches Ok(rb) && rb == bits,
                    _ => r matches Err(e) && e == DeError::WrongScalarKind(ScalarKind::Number),
                },
                Err(e0) => r matches Err(e) && e == e0,
            },
    {
        let n = match self.grab_val() {
            Ok(n) => n,
            Err(e) => {
                return Err(e);
            },
        };
        match n {
            Node::Number(bits) => Ok(*bits),
            _ => Err(DeError::WrongScalarKind(ScalarKind::Number)),
        }
    }

    /// Reads the current scalar as one character: the stored text must be
    /// exactly one character long, else the call fails with
    /// `InvalidCharLength` carrying that text.
    pub fn grab_char(&self) -> (r: DeResult<char>)
        requires
            self.top_in_bounds(),
        ensures
            match self.scalar_target() {
                Ok(n) => match n {
                    Node::Str(s) => if s@.len() == 1 {
                        r matches Ok(c) && c == s@[0]
                    } else {
                        r matches Err(e) && (e matches DeError::InvalidCharLength(t) && t@ == s@)
                    },
                    _ => r matches Err(e) && e == DeError::WrongScalarKind(ScalarKind::Text),
                },
                Err(e0) => r matches Err(e) && e == e0,
            },
    {
        let s = match self.grab_string() {
            Ok(s) => s,
            Err(e) => {
                return Err(e);
            },
        };
        if s.unicode_len() != 1 {
            return Err(DeError::InvalidCharLength(s.to_owned()));
        }
        Ok(s.get_char(0))
    }

    /// The key the current field is bound to. Fails with
    /// `ExpectedKeyContext` when not positioned on a bound field.
    pub fn identifier(&self) -> (r: DeResult<&str>)
        ensures
            if self@.len() == 0 {
                r matches Err(e) && e == DeError::NoFramesLeft
            } else {
                match self.top() {
                    Frame::Item(g) => r matches Ok(k) && k@ == g.key@,
                    _ => r matches Err(e) && e == DeError::ExpectedKeyContext,
                }
            },
    {
        let f = match self.current() {
            Ok(f) => f,
            Err(e) => {
                return Err(e);
            },
        };
        match f {
            Frame::Item(g) => Ok(g.key.as_str()),
            _ => Err(DeError::ExpectedKeyContext),
        }
    }

    /// How many elements a sequence read of the bound field will yield: one
    /// per node of the bound occurrence list. Fails with
    /// `ExpectedStructContext` when no field is bound.
    pub fn seq_len(&self) -> (r: DeResult<usize>)
        ensures
            if self@.len() == 0 {
                r matches Err(e) && e == DeError::NoFramesLeft
            } else {
                match self.top() {
                    Frame::Item(g) => r matches Ok(n) && n == g.nodes@.len(),
                    _ => r matches Err(e) && e == DeError::ExpectedStructContext,
                }
            },
    {
        let f = match self.current() {
            Ok(f) => f,
            Err(e) => {
                return Err(e);
            },
        };
        match f {
            Frame::Item(g) => Ok((*g.nodes).len()),
            _ => Err(DeError::ExpectedStructContext),
        }
    }

    /// Begins a struct read. From a scope's own frame this is the scope
    /// itself (nothing pushed); from a sequence element carrying children,
    /// the children's scope is pushed and the caller owes one matching
    /// `pop`; a sequence element without children is refused with
    /// `ExpectedObjectChildren`; a bound field without a surrounding
    /// request yields an empty field list. Returns the field count and
    /// whether a frame was pushed.
    pub fn enter_struct(&mut self) -> (r: DeResult<(usize, bool)>)
        requires
            old(self).top_in_bounds(),
        ensures
            ({
                let d = old(self)@;
                if d.len() == 0 {
                    r matches Err(e) && e == DeError::NoFramesLeft && final(self)@ == d
                } else {
                    match d.last() {
                        Frame::Struct { fields, .. } => r matches Ok(c) && c.0 == fields@.len()
                            && c.1 == false && final(self)@ == d,
                        Frame::Item(_) => r matches Ok(c) && c.0 == 0 && c.1 == false
                            && final(self)@ == d,
                        Frame::Sequence { elements, index } => match elements@[index as int] {
                            Node::Object(gs) => r matches Ok(c) && c.0 == gs@.len() && c.1 == true
                                && final(self)@ == d.push(
                                Frame::Struct { fields: gs, index: 0 },
                            ),
                            _ => r matches Err(e) && e == DeError::ExpectedObjectChildren
                                && final(self)@ == d,
                        },
                    }
                }
            }),
    {
        let n = self.depth.len();
        if n == 0 {
            return Err(DeError::NoFramesLeft);
        }
        let gs: Rc<Vec<Group>> = match &self.depth[n - 1] {
            Frame::Struct { fields, .. } => {
                return Ok(((**fields).len(), false));
            },
            Frame::Item(_) => {
                return Ok((0, false));
            },
            Frame::Sequence { elements, index } => match &(**elements)[*index] {
                Node::Object(gs) => gs.clone(),
                _ => {
                    return Err(DeError::ExpectedObjectChildren);
                },
            },
        };
        let count = (*gs).len();
        self.depth.push(Frame::Struct { fields: gs, index: 0 });
        Ok((count, true))
    }

    /// Ascends one level: pops the top frame, or leaves an already empty
    /// stack unchanged.
    pub fn pop(&mut self)
        ensures
            final(self)@ == Self::spec_pop(old(self)@),
    {
        self.depth.pop();
        proof {
            if old(self)@.len() > 0 {
                assert(self@ =~= old(self)@.drop_last());
            }
        }
    }

    /// Binds the field at `pos` of the owning scope: pushes an item frame
    /// for a scope's first field and replaces the top frame in place for a
    /// later one, so iterating sibling fields does not grow the stack. A
    /// stack that offers no such scope, or no field at `pos`, stays
    /// unchanged.
    pub fn push(&mut self, pos: usize)
        ensures
            final(self)@ == Self::spec_push_field(old(self)@, pos),
    {
        let cur: usize = if pos == 0 {
            1
        } else {
            2
        };
        if self.depth.len() < cur {
            return ;
        }
        let end = self.depth.len() - cur;
        let mut t: Option<Group> = None;
        if let Frame::Struct { fields, .. } = &self.depth[end] {
            if pos < (**fields).len() {
                t = Some((**fields)[pos].clone());
            }
        }
        match t {
            Some(g) => {
                if pos == 0 {
                    self.depth.push(Frame::Item(g));
                } else {
                    let last = self.depth.len() - 1;
                    self.depth[last] = Frame::Item(g);
                }
                proof {
                    assert(self@ =~= Self::spec_push_field(old(self)@, pos));
                }
            },
            None => {
                proof {
                    assert(self@ =~= Self::spec_push_field(old(self)@, pos));
                }
            },
        }
    }

    /// Turns the bound occurrence list into a sequence frame positioned at
    /// element `pos`: pushed for the first element, replacing the previous
    /// element's frame for a later one. A stack that offers no bound
    /// occurrence list stays unchanged.
    pub fn push_seq(&mut self, pos: usize)
        ensures
            final(self)@ == Self::spec_push_element(old(self)@, pos),
    {
        let cur: usize = if pos == 0 {
            1
        } else {
            2
        };
        if self.depth.len() < cur {
            return ;
        }
        let end = self.depth.len() - cur;
        let mut t: Option<Rc<Vec<Node>>> = None;
        if let Frame::Item(g) = &self.depth[end] {
            t = Some(g.nodes.clone());
        }
        match t {
            Some(elements) => {
                if pos == 0 {
                    self.depth.push(Frame::Sequence { elements, index: pos });
                } else {
                    let last = self.depth.len() - 1;
                    self.depth[last] = Frame::Sequence { elements, index: pos };
                }
                proof {
                    assert(self@ =~= Self::spec_push_element(old(self)@, pos));
                }
            },
            None => {
                proof {
                    assert(self@ =~= Self::spec_push_element(old(self)@, pos));
                }
            },
        }
    }

    /// Every request for a shape the document model cannot carry (a map, an
    /// enum, a tuple, bytes, a unit) is answered with this error, whatever
    /// the document holds.
    pub fn unsupported(&self) -> (e: DeError)
        ensures
            e == DeError::UnsupportedShape,
    {
        DeError::UnsupportedShape
    }
}

/// Field iteration over one struct read: hands out one bound field per step
/// and, once the count is exhausted, ascends out of the last field's frame
/// (only a scope that presented at least one field ever grew the stack).
pub struct FieldSeparated {
    pub item_count: usize,
    pub item_pos: usize,
}

impl FieldSeparated {
    /// Starts iterating a scope that presents `item_count` fields.
    pub fn new(item_count: usize) -> (a: Self)
        ensures
            a.item_count == item_count,
            a.item_pos == 0,
    {
        FieldSeparated { item_count, item_pos: 0 }
    }

    /// One step of field iteration: binds the next field and reports `true`,
    /// or reports `false` once all fields were presented, ascending out of
    /// the last field's frame if one was ever bound.
    pub fn next_key(&mut self, de: &mut Deserializer) -> (more: bool)
        requires
            old(self).item_pos <= old(self).item_count,
        ensures
            final(self).item_count == old(self).item_count,
            if old(self).item_pos == old(self).item_count {
                &&& !more
                &&& final(self).item_pos == old(self).item_pos
                &&& final(de)@ == if old(self).item_count != 0 {
                    Deserializer::spec_pop(old(de)@)
                } else {
                    old(de)@
                }
            } else {
                &&& more
                &&& final(self).item_pos == old(self).item_pos + 1
                &&& final(de)@ == Deserializer::spec_push_field(old(de)@, old(self).item_pos)
            },
    {
        if self.item_pos == self.item_count {
            if self.item_count != 0 {
                de.pop();
            }
            return false;
        }
        de.push(self.item_pos);
        self.item_pos = self.item_pos + 1;
        true
    }
}

/// Element iteration over one sequence read: positions the cursor on one
/// occurrence per step and, once the count is exhausted, ascends out of the
/// sequence frame (only a sequence that presented at least one element ever
/// grew the stack).
pub struct SeqSeparated {
    pub item_count: usize,
    pub item_pos: usize,
}

impl SeqSeparated {
    /// Starts iterating a bound occurrence list of `item_count` elements.
    pub fn new(item_count: usize) -> (a: Self)
        ensures
            a.item_count == item_count,
            a.item_pos == 0,
    {
        SeqSeparated { item_count, item_pos: 0 }
    }

    /// One step of element iteration: positions the cursor on the next
    /// element and reports `true`, or reports `false` once all elements
    /// were presented, ascending out of the sequence frame if one was ever
    /// entered.
    pub fn next_element(&mut self, de: &mut Deserializer) -> (more: bool)
        requires
            old(self).item_pos <= old(self).item_count,
        ensures
            final(self).item_count == old(self).item_count,
            if old(self).item_pos == old(self).item_count {
                &&& !more
                &&& final(self).item_pos == old(self).item_pos
                &&& final(de)@ == if old(self).item_count != 0 {
                    Deserializer::spec_pop(old(de)@)
                } else {
                    old(de)@
                }
            } else {
                &&& more
                &&& final(self).item_pos == old(self).item_pos + 1
                &&& final(de)@ == Deserializer::spec_push_element(old(de)@, old(self).item_pos)
            },
    {
        if self.item_pos == self.item_count {
            if self.item_count != 0 {
                de.pop();
            }
            return false;
        }
        de.push_seq(self.item_pos);
        self.item_pos = self.item_pos + 1;
        true
    }
}

} // verus!
