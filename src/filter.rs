//! Full-screen filter passes, their binding layout, and the pass
//! sequences that make up each effect.
//!
//! A pass reads its source textures through one sampler and draws a
//! procedurally generated quad over the whole destination.
use vstd::prelude::*;

verus! {

/// Index of a texture in the pool that the application threads through
/// a frame.
pub type TextureId = usize;

/// The shader program that a full-screen pass runs.
#[derive(Clone, Copy, Debug, PartialEq, Eq, Structural)]
pub enum Stage {
    /// Copies the source, resampling it to the destination's size.
    Sample,
    /// Quantizes each colour.
    RoundColor,
    /// The horizontal half of the separable blur.
    BlurHorizontal,
    /// The vertical half of the separable blur.
    BlurVertical,
    /// Keeps the pixels brighter than the bloom threshold.
    BloomThreshold,
    /// Adds two sources.
    Add,
}

impl Stage {
    /// Number of source textures the stage reads.
    pub open spec fn arity(self) -> nat {
        match self {
            Stage::Add => 2,
            _ => 1,
        }
    }

    /// Number of source textures the stage reads.
    pub fn input_count(&self) -> (r: usize)
        ensures
            r == self.arity(),
    {
        match self {
            Stage::Add => 2,
            _ => 1,
        }
    }
}

/// The kind of a bind-group slot in a filter's pipeline layout.
#[derive(Clone, Copy, Debug, PartialEq, Eq, Structural)]
pub enum SlotKind {
    /// A group laid out as the shared single-texture layout.
    Texture,
    /// The group that holds the filter's sampler.
    Sampler,
}

/// What a pass binds at one slot.
#[derive(Clone, Copy, Debug, PartialEq, Eq, Structural)]
pub enum Binding {
    /// The sampling group of a pool texture.
    Texture(TextureId),
    /// The filter's own sampler group.
    Sampler,
}

/// The slots of the pipeline layout of a filter with `n` sources: one
/// texture slot per source, then the sampler slot.
pub open spec fn layout_of(n: nat) -> Seq<SlotKind> {
    Seq::new(
        n + 1,
        |i: int|
            if i < n {
                SlotKind::Texture
            } else {
                SlotKind::Sampler
            },
    )
}

/// The kind of slot that a binding fills.
pub open spec fn kind_of(b: Binding) -> SlotKind {
    match b {
        Binding::Texture(_) => SlotKind::Texture,
        Binding::Sampler => SlotKind::Sampler,
    }
}

/// The slots of the pipeline layout of a filter with `input_count`
/// sources: one texture slot per source, then the sampler slot.
pub fn layout_slots(input_count: usize) -> (r: Vec<SlotKind>)
    requires
        input_count < usize::MAX,
    ensures
        r@ == layout_of(input_count as nat),
{
    let mut r: Vec<SlotKind> = Vec::new();
    for i in 0..input_count
        invariant
            r@.len() == i,
            forall|j: int| 0 <= j < i ==> r@[j] == SlotKind::Texture,
    {
        r.push(SlotKind::Texture);
    }
    r.push(SlotKind::Sampler);
    assert(r@ =~= layout_of(input_count as nat));
    r
}

/// A pass as a mathematical value.
pub struct PassView {
    pub stage: Stage,
    pub sources: Seq<TextureId>,
    pub dst: TextureId,
}

impl PassView {
    /// The pass writes a texture that it also reads.
    pub open spec fn aliased(self) -> bool {
        self.sources.contains(self.dst)
    }

    /// The bind groups of the pass, by slot: each source's texture group
    /// at its own index, then the sampler group.
    pub open spec fn bindings(self) -> Seq<Binding> {
        Seq::new(
            self.sources.len() + 1,
            |i: int|
                if i < self.sources.len() {
                    Binding::Texture(self.sources[i])
                } else {
                    Binding::Sampler
                },
        )
    }
}

/// A pass with as many sources as its stage reads binds, slot by slot,
/// what the pipeline layout of its stage's filter expects.
pub proof fn lemma_bindings_fit_layout(p: PassView)
    requires
        p.sources.len() == p.stage.arity(),
    ensures
        p.bindings().map_values(|b: Binding| kind_of(b)) == layout_of(p.stage.arity()),
{
    assert(p.bindings().map_values(|b: Binding| kind_of(b)) =~= layout_of(p.stage.arity()));
}

/// One full-screen pass: `stage` reads `sources` and overwrites `dst`.
#[derive(Clone, Debug)]
pub struct Pass {
    pub stage: Stage,
    pub sources: Vec<TextureId>,
    pub dst: TextureId,
}

impl View for Pass {
    type V = PassView;

    open spec fn view(&self) -> PassView {
        PassView { stage: self.stage, sources: self.sources@, dst: self.dst }
    }
}

/// The views of a sequence of passes.
pub open spec fn views(ps: Seq<Pass>) -> Seq<PassView> {
    ps.map_values(|p: Pass| p@)
}

/// A pass with one source.
pub open spec fn single(stage: Stage, src: TextureId, dst: TextureId) -> PassView {
    PassView { stage, sources: seq![src], dst }
}

/// The separable blur: horizontally from `src` into `tmp`, then
/// vertically from `tmp` into `dst`.
pub open spec fn blur_plan(src: TextureId, dst: TextureId, tmp: TextureId) -> Seq<PassView> {
    seq![single(Stage::BlurHorizontal, src, tmp), single(Stage::BlurVertical, tmp, dst)]
}

/// Bloom: threshold `src` into `tmp1`, blur `tmp1` into `tmp2` with `dst`
/// as the blur's scratch, then add `src` and `tmp2` into `dst`.
pub open spec fn bloom_plan(
    src: TextureId,
    dst: TextureId,
    tmp1: TextureId,
    tmp2: TextureId,
) -> Seq<PassView> {
    seq![single(Stage::BloomThreshold, src, tmp1)] + blur_plan(tmp1, tmp2, dst) + seq![
        PassView { stage: Stage::Add, sources: seq![src, tmp2], dst },
    ]
}

/// The post-processing of a frame whose geometry was drawn into
/// `scene`: colour rounding into `adjusted`, bloom back into `scene`
/// with `scratch1` and `scratch2`, and the blit of `scene` to `surface`.
pub open spec fn frame_plan(
    scene: TextureId,
    adjusted: TextureId,
    scratch1: TextureId,
    scratch2: TextureId,
    surface: TextureId,
) -> Seq<PassView> {
    seq![single(Stage::RoundColor, scene, adjusted)] + bloom_plan(
        adjusted,
        scene,
        scratch1,
        scratch2,
    ) + seq![single(Stage::Sample, scene, surface)]
}

impl Pass {
    /// A pass of `stage` from `src` into `dst`.
    pub fn one(stage: Stage, src: TextureId, dst: TextureId) -> (r: Pass)
        ensures
            r@ == single(stage, src, dst),
    {
        let r = Pass { stage, sources: vec![src], dst };
        assert(r@.sources =~= seq![src]);
        r
    }

    /// The bind groups of the pass, by slot: each source's texture group
    /// at its own index, then the sampler group.
    pub fn bindings(&self) -> (r: Vec<Binding>)
        requires
            self.sources@.len() < usize::MAX,
        ensures
            r@ == self@.bindings(),
    {
        let mut r: Vec<Binding> = Vec::new();
        let n = self.sources.len();
        for i in 0..n
            invariant
                n == self.sources@.len(),
                r@.len() == i,
                forall|j: int| 0 <= j < i ==> r@[j] == Binding::Texture(self.sources@[j]),
        {
            r.push(Binding::Texture(self.sources[i]));
        }
        r.push(Binding::Sampler);
        assert(r@ =~= self@.bindings());
        r
    }

    /// Whether the pass writes a texture that it also reads.
    pub fn is_aliased(&self) -> (r: bool)
        ensures
            r == self@.aliased(),
    {
        let n = self.sources.len();
        for i in 0..n
            invariant
                n == self.sources@.len(),
                forall|j: int| 0 <= j < i ==> self.sources@[j] != self.dst,
        {
            if self.sources[i] == self.dst {
                return true;
            }
        }
        false
    }
}

/// The pass of the magnifying blit from `src` into `dst`.
pub fn mag_filter_pass(src: TextureId, dst: TextureId) -> (r: Pass)
    ensures
        r@ == single(Stage::Sample, src, dst),
{
    Pass::one(Stage::Sample, src, dst)
}

/// The pass of colour rounding from `src` into `dst`.
pub fn round_color_pass(src: TextureId, dst: TextureId) -> (r: Pass)
    ensures
        r@ == single(Stage::RoundColor, src, dst),
{
    Pass::one(Stage::RoundColor, src, dst)
}

/// The two passes of the blur of `src` into `dst` through `tmp`.
pub fn blur_passes(src: TextureId, dst: TextureId, tmp: TextureId) -> (r: Vec<Pass>)
    ensures
        views(r@) == blur_plan(src, dst, tmp),
{
    let r = vec![Pass::one(Stage::BlurHorizontal, src, tmp), Pass::one(Stage::BlurVertical, tmp, dst)];
    assert(views(r@) =~= blur_plan(src, dst, tmp));
    r
}

/// The four passes of the bloom of `src` into `dst` through `tmp1` and
/// `tmp2`.
pub fn bloom_passes(src: TextureId, dst: TextureId, tmp1: TextureId, tmp2: TextureId) -> (r: Vec<
    Pass,
>)
    ensures
        views(r@) == bloom_plan(src, dst, tmp1, tmp2),
{
    let mut r = vec![Pass::one(Stage::BloomThreshold, src, tmp1)];
    let mut blur = blur_passes(tmp1, tmp2, dst);
    r.append(&mut blur);
    let add = Pass { stage: Stage::Add, sources: vec![src, tmp2], dst };
    assert(add@.sources =~= seq![src, tmp2]);
    r.push(add);
    assert(views(r@) =~= bloom_plan(src, dst, tmp1, tmp2));
    r
}

/// The post-processing passes of one frame (see [`frame_plan`]).
pub fn frame_passes(
    scene: TextureId,
    adjusted: TextureId,
    scratch1: TextureId,
    scratch2: TextureId,
    surface: TextureId,
) -> (r: Vec<Pass>)
    ensures
        views(r@) == frame_plan(scene, adjusted, scratch1, scratch2, surface),
{
    let mut r = vec![round_color_pass(scene, adjusted)];
    let mut bloom = bloom_passes(adjusted, scene, scratch1, scratch2);
    r.append(&mut bloom);
    r.push(mag_filter_pass(scene, surface));
    assert(views(r@) =~= frame_plan(scene, adjusted, scratch1, scratch2, surface));
    r
}

/// The index of the first pass that writes a texture it reads, if any.
pub fn find_aliased(passes: &Vec<Pass>) -> (r: Option<usize>)
    ensures
        r matches Some(i) ==> {
            &&& i < passes@.len()
            &&& views(passes@)[i as int].aliased()
            &&& forall|j: int| 0 <= j < i ==> !#[trigger] views(passes@)[j].aliased()
        },
        r is None ==> forall|j: int|
            0 <= j < passes@.len() ==> !#[trigger] views(passes@)[j].aliased(),
{
    let ghost ps = views(passes@);
    let n = passes.len();
    for i in 0..n
        invariant
            n == passes@.len(),
            ps == views(passes@),
            forall|j: int| 0 <= j < i ==> !#[trigger] ps[j].aliased(),
    {
        if passes[i].is_aliased() {
            return Some(i);
        }
    }
    None
}

} // verus!
