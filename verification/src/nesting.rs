//! How deep a YAML text nests, found from the events of its parser.
//!
//! The parser of a YAML text can be asked for one event at a time, which
//! takes no recursion. The events say where a collection begins and ends and
//! where an alias stands for a node that was read before, so they show how
//! deep the text nests as it is loaded, and how deep its values are once each
//! alias was replaced by a copy of its node.

use vstd::prelude::*;

verus! {

/// The most collections that may be open at once while a YAML text is read.
pub const MAX_YAML_NESTING: usize = 128;

/// The deepest that a YAML value may be after its aliases were replaced.
pub const MAX_YAML_DEPTH: usize = 512;

/// One event of the parser of a YAML text. Where a node can carry an anchor,
/// the event holds the number of the anchor, or zero if there is none.
#[derive(Debug, Clone, Copy, PartialEq, Eq, Structural)]
pub enum Step {
    Nothing,
    StreamStart,
    StreamEnd,
    DocumentStart,
    DocumentEnd,
    /// An alias, with the number of the anchor that it names.
    Alias(usize),
    Scalar(usize),
    SequenceStart(usize),
    SequenceEnd,
    MappingStart(usize),
    MappingEnd,
}

/// What is known of the nesting after some events.
pub struct Walk {
    /// The collections that are open, outermost first: for each the number of
    /// its anchor and the depth of the deepest node in it so far.
    pub open: Vec<(usize, usize)>,
    /// The collections with an anchor that are complete, each with its depth.
    pub anchors: Vec<(usize, usize)>,
    /// Whether the text nests deeper than is read.
    pub too_deep: bool,
}

/// The content of a [`Walk`].
pub struct WalkView {
    pub open: Seq<(usize, usize)>,
    pub anchors: Seq<(usize, usize)>,
    pub too_deep: bool,
}

impl View for Walk {
    type V = WalkView;

    open spec fn view(&self) -> WalkView {
        WalkView { open: self.open@, anchors: self.anchors@, too_deep: self.too_deep }
    }
}

/// The state before any event.
pub open spec fn walk_start() -> WalkView {
    WalkView { open: Seq::empty(), anchors: Seq::empty(), too_deep: false }
}

/// The depth of the node that the anchor `id` names among the first `n`
/// anchors: that of the last collection that was completed with this anchor,
/// and none if there is no such collection, as for the anchor of a scalar.
pub open spec fn anchored_depth(anchors: Seq<(usize, usize)>, id: usize, n: nat) -> usize
    decreases n,
{
    if n == 0 || n > anchors.len() {
        0
    } else if anchors[n - 1].0 == id {
        anchors[n - 1].1
    } else {
        anchored_depth(anchors, id, (n - 1) as nat)
    }
}

/// The open collections after a node of depth `depth` was put into the
/// innermost of them.
pub open spec fn with_child(open: Seq<(usize, usize)>, depth: usize) -> Seq<(usize, usize)> {
    if open.len() > 0 && open.last().1 < depth {
        open.update(open.len() - 1, (open.last().0, depth))
    } else {
        open
    }
}

/// The state after one more event.
///
/// * A collection that begins is open until it ends. More than
///   `MAX_YAML_NESTING` open collections are too deep.
/// * A collection that ends is one level deeper than the deepest node in it.
///   A depth of more than `MAX_YAML_DEPTH` is too deep.
/// * An alias is as deep as the collection that its anchor names.
/// * Once the text is too deep, it stays so.
pub open spec fn walk_step(walk: WalkView, step: Step) -> WalkView {
    if walk.too_deep {
        walk
    } else {
        match step {
            Step::SequenceStart(anchor) | Step::MappingStart(anchor) => {
                if walk.open.len() >= MAX_YAML_NESTING {
                    WalkView { too_deep: true, ..walk }
                } else {
                    WalkView { open: walk.open.push((anchor, 0)), ..walk }
                }
            },
            Step::SequenceEnd | Step::MappingEnd => {
                if walk.open.len() == 0 {
                    walk
                } else if walk.open.last().1 >= MAX_YAML_DEPTH {
                    WalkView { too_deep: true, ..walk }
                } else {
                    let anchor = walk.open.last().0;
                    let depth = (walk.open.last().1 + 1) as usize;
                    WalkView {
                        open: with_child(walk.open.drop_last(), depth),
                        anchors: if anchor == 0 {
                            walk.anchors
                        } else {
                            walk.anchors.push((anchor, depth))
                        },
                        too_deep: false,
                    }
                }
            },
            Step::Alias(id) => WalkView {
                open: with_child(
                    walk.open,
                    anchored_depth(walk.anchors, id, walk.anchors.len()),
                ),
                ..walk
            },
            _ => walk,
        }
    }
}

/// The state after the first `n` of the events; an error among them is the
/// end of the text and changes nothing.
pub open spec fn walk(steps: Seq<Result<Step, Seq<char>>>, n: nat) -> WalkView
    decreases n,
{
    if n == 0 || n > steps.len() {
        walk_start()
    } else {
        match steps[n - 1] {
            Ok(step) => walk_step(walk(steps, (n - 1) as nat), step),
            Err(_) => walk(steps, (n - 1) as nat),
        }
    }
}

/// Whether a text with these events nests no deeper than is read.
pub open spec fn steps_fit(steps: Seq<Result<Step, Seq<char>>>) -> bool {
    !walk(steps, steps.len()).too_deep
}

/// Once a text is too deep, more events do not change that.
pub proof fn lemma_too_deep_stays(steps: Seq<Result<Step, Seq<char>>>, n: nat, m: nat)
    requires
        n <= m <= steps.len(),
        walk(steps, n).too_deep,
    ensures
        walk(steps, m).too_deep,
    decreases m,
{
    if n < m {
        lemma_too_deep_stays(steps, n, (m - 1) as nat);
    }
}

impl Walk {
    /// The state before any event.
    pub fn new() -> (walk: Walk)
        ensures
            walk@ == walk_start(),
    {
        Walk { open: Vec::new(), anchors: Vec::new(), too_deep: false }
    }

    /// The depth of the node that the anchor `id` names.
    fn anchored(&self, id: usize) -> (depth: usize)
        ensures
            depth == anchored_depth(self.anchors@, id, self.anchors@.len()),
    {
        let mut n = self.anchors.len();
        while n > 0
            invariant
                n <= self.anchors@.len(),
                anchored_depth(self.anchors@, id, self.anchors@.len()) == anchored_depth(
                    self.anchors@,
                    id,
                    n as nat,
                ),
            decreases n,
        {
            if self.anchors[n - 1].0 == id {
                return self.anchors[n - 1].1;
            }
            n -= 1;
        }
        0
    }

    /// Puts a node of depth `depth` into the innermost open collection.
    fn put_child(&mut self, depth: usize)
        ensures
            final(self).open@ == with_child(old(self).open@, depth),
            final(self).anchors == old(self).anchors,
            final(self).too_deep == old(self).too_deep,
    {
        let n = self.open.len();
        if n > 0 && self.open[n - 1].1 < depth {
            let anchor = self.open[n - 1].0;
            self.open.set(n - 1, (anchor, depth));
        }
    }

    /// Takes one more event.
    pub fn step(&mut self, step: Step)
        ensures
            final(self)@ == walk_step(old(self)@, step),
    {
        if self.too_deep {
            return ;
        }
        match step {
            Step::SequenceStart(anchor) | Step::MappingStart(anchor) => {
                if self.open.len() >= MAX_YAML_NESTING {
                    self.too_deep = true;
                } else {
                    self.open.push((anchor, 0));
                }
            },
            Step::SequenceEnd | Step::MappingEnd => {
                let n = self.open.len();
                if n == 0 {
                } else if self.open[n - 1].1 >= MAX_YAML_DEPTH {
                    self.too_deep = true;
                } else {
                    let anchor = self.open[n - 1].0;
                    let depth = self.open[n - 1].1 + 1;
                    self.open.pop();
                    self.put_child(depth);
                    if anchor != 0 {
                        self.anchors.push((anchor, depth));
                    }
                }
            },
            Step::Alias(id) => {
                let depth = self.anchored(id);
                self.put_child(depth);
            },
            _ => {},
        }
    }
}

} // verus!
