//! The render-pass graph: an ordered list of passes rebuilt each frame,
//! with a two-phase prepare / execute lifecycle.
//!
//! `prepare` runs on every pass before any `execute`, gathering frame
//! data (the visible sprites) without touching the command stream;
//! `execute` then emits the draw commands of every pass in registration
//! order.

use vstd::prelude::*;
use crate::sprite::Sprite;

verus! {

/// The pixel size of the frame target.
#[derive(Clone, Copy, PartialEq, Eq, Structural, Debug)]
pub struct WindowSize {
    pub width: u32,
    pub height: u32,
}

/// One registered render pass.
#[derive(Clone, Copy, PartialEq, Eq, Structural, Debug)]
pub enum RenderPass {
    /// Clears the frame target.
    Clear,
    /// Draws every prepared sprite.
    DrawSprites,
}

/// One command emitted towards the frame's command stream.
#[derive(Clone, Copy, PartialEq, Eq, Structural, Debug)]
pub enum DrawCommand {
    ClearTarget,
    DrawSprite(Sprite),
}

/// The commands one pass emits, given the prepared sprite list.
pub open spec fn pass_commands(pass: RenderPass, sprites: Seq<Sprite>) -> Seq<DrawCommand> {
    match pass {
        RenderPass::Clear => seq![DrawCommand::ClearTarget],
        RenderPass::DrawSprites => sprites.map_values(|s: Sprite| DrawCommand::DrawSprite(s)),
    }
}

/// The commands a pass list emits: each pass's commands in list order.
pub open spec fn graph_commands(passes: Seq<RenderPass>, sprites: Seq<Sprite>) -> Seq<DrawCommand>
    decreases passes.len(),
{
    if passes.len() == 0 {
        Seq::empty()
    } else {
        graph_commands(passes.drop_last(), sprites) + pass_commands(passes.last(), sprites)
    }
}

/// An ordered render-pass list plus the frame data gathered by the last
/// `prepare`.
#[derive(Clone, PartialEq, Eq, Debug)]
pub struct RenderGraph {
    pub passes: Vec<RenderPass>,
    pub prepared_sprites: Vec<Sprite>,
}

impl RenderGraph {
    /// An empty graph with no prepared data.
    pub fn new() -> (r: RenderGraph)
        ensures
            r.passes@.len() == 0,
            r.prepared_sprites@.len() == 0,
    {
        RenderGraph { passes: Vec::new(), prepared_sprites: Vec::new() }
    }

    /// Appends a pass; passes execute in the order they were added.
    pub fn add_pass(&mut self, pass: RenderPass)
        ensures
            final(self).passes@ == old(self).passes@.push(pass),
            final(self).prepared_sprites@ == old(self).prepared_sprites@,
    {
        self.passes.push(pass);
    }

    /// Drops every pass and the prepared data; the graph is rebuilt
    /// from scratch each frame.
    pub fn clear(&mut self)
        ensures
            final(self).passes@.len() == 0,
            final(self).prepared_sprites@.len() == 0,
    {
        self.passes = Vec::new();
        self.prepared_sprites = Vec::new();
    }

    /// The prepare phase: records the gathered sprite list for every
    /// pass to read, leaving the pass list untouched.
    pub fn prepare(&mut self, sprites: Vec<Sprite>)
        ensures
            *final(self) == (RenderGraph { passes: old(self).passes, prepared_sprites: sprites }),
            final(self).passes@ == old(self).passes@,
            final(self).prepared_sprites@ == sprites@,
    {
        self.prepared_sprites = sprites;
    }

    /// The execute phase: the commands of every pass, in registration
    /// order, over the prepared data.
    pub fn execute(&self) -> (r: Vec<DrawCommand>)
        ensures
            r@ == graph_commands(self.passes@, self.prepared_sprites@),
    {
        let mut out: Vec<DrawCommand> = Vec::new();
        let mut i: usize = 0;
        proof {
            assert(self.passes@.subrange(0, 0) =~= Seq::<RenderPass>::empty());
        }
        while i < self.passes.len()
            invariant
                i <= self.passes@.len(),
                out@ == graph_commands(self.passes@.subrange(0, i as int), self.prepared_sprites@),
            decreases self.passes@.len() - i,
        {
            proof {
                assert(self.passes@.subrange(0, i + 1).drop_last() =~= self.passes@.subrange(
                    0,
                    i as int,
                ));
                assert(self.passes@.subrange(0, i + 1).last() == self.passes@[i as int]);
            }
            match self.passes[i] {
                RenderPass::Clear => {
                    out.push(DrawCommand::ClearTarget);
                    proof {
                        assert(out@ =~= graph_commands(
                            self.passes@.subrange(0, i + 1),
                            self.prepared_sprites@,
                        ));
                    }
                },
                RenderPass::DrawSprites => {
                    let mut k: usize = 0;
                    let ghost out_before = out@;
                    while k < self.prepared_sprites.len()
                        invariant
                            k <= self.prepared_sprites@.len(),
                            out@ == out_before + self.prepared_sprites@.subrange(
                                0,
                                k as int,
                            ).map_values(|s: Sprite| DrawCommand::DrawSprite(s)),
                        decreases self.prepared_sprites@.len() - k,
                    {
                        out.push(DrawCommand::DrawSprite(self.prepared_sprites[k]));
                        proof {
                            assert(out@ =~= out_before + self.prepared_sprites@.subrange(
                                0,
                                k + 1,
                            ).map_values(|s: Sprite| DrawCommand::DrawSprite(s)));
                        }
                        k += 1;
                    }
                    proof {
                        assert(self.prepared_sprites@.subrange(
                            0,
                            self.prepared_sprites@.len() as int,
                        ) =~= self.prepared_sprites@);
                        assert(out@ =~= graph_commands(
                            self.passes@.subrange(0, i + 1),
                            self.prepared_sprites@,
                        ));
                    }
                },
            }
            i += 1;
        }
        proof {
            assert(self.passes@.subrange(0, self.passes@.len() as int) =~= self.passes@);
        }
        out
    }
}

impl Default for RenderGraph {
    /// An empty graph.
    fn default() -> (r: Self)
        ensures
            r.passes@.len() == 0,
            r.prepared_sprites@.len() == 0,
    {
        RenderGraph::new()
    }
}

/// The graph after some number of prepare phases, each handing its own
/// sprite list: the last prepared data wins, the pass list never moves.
pub open spec fn after_prepares(g: RenderGraph, sprite_sets: Seq<Vec<Sprite>>) -> RenderGraph
    decreases sprite_sets.len(),
{
    if sprite_sets.len() == 0 {
        g
    } else {
        RenderGraph {
            passes: after_prepares(g, sprite_sets.drop_last()).passes,
            prepared_sprites: sprite_sets.last(),
        }
    }
}

/// Preparing never reorders, adds or drops a pass: however many times
/// the prepare phase runs before execution, and whatever each run
/// gathered, the commands an execute emits follow the registered pass
/// list in registration order.
pub proof fn lemma_prepare_preserves_order(g: RenderGraph, sprite_sets: Seq<Vec<Sprite>>)
    ensures
        after_prepares(g, sprite_sets).passes == g.passes,
        forall|s: Seq<Sprite>|
            graph_commands(#[trigger] after_prepares(g, sprite_sets).passes@, s)
                == graph_commands(g.passes@, s),
    decreases sprite_sets.len(),
{
    if sprite_sets.len() > 0 {
        lemma_prepare_preserves_order(g, sprite_sets.drop_last());
    }
}

/// A pass list `[Clear, DrawSprites]` always executes the clear first
/// and then every sprite draw, whatever was prepared.
pub proof fn lemma_clear_then_sprites(sprites: Seq<Sprite>)
    ensures
        graph_commands(seq![RenderPass::Clear, RenderPass::DrawSprites], sprites) == seq![
            DrawCommand::ClearTarget,
        ] + sprites.map_values(|s: Sprite| DrawCommand::DrawSprite(s)),
{
    let ps = seq![RenderPass::Clear, RenderPass::DrawSprites];
    let one = ps.drop_last();
    assert(one =~= seq![RenderPass::Clear]);
    assert(one.drop_last() =~= Seq::<RenderPass>::empty());
    assert(one.last() == RenderPass::Clear);
    assert(graph_commands(one.drop_last(), sprites) == Seq::<DrawCommand>::empty());
    assert(graph_commands(one, sprites) =~= seq![DrawCommand::ClearTarget]);
    assert(ps.last() == RenderPass::DrawSprites);
    assert(graph_commands(ps, sprites) == graph_commands(one, sprites) + pass_commands(
        RenderPass::DrawSprites,
        sprites,
    ));
}

} // verus!
