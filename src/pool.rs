//! What a sequence of passes leaves in a pool of textures.
//!
//! Each texture holds an [`Image`]: a term that records which stages
//! produced it from which initial contents. Running passes on such a pool
//! stands in for the GPU when checking how a frame is wired.
use crate::filter::{
    blur_plan, bloom_plan, frame_plan, single, views, Pass, PassView, Stage, TextureId,
};
use vstd::prelude::*;

verus! {

/// The contents of a texture, as the stages that produced it.
#[derive(Debug, PartialEq, Eq)]
pub enum Image {
    /// What texture `id` held before the passes ran.
    Initial(TextureId),
    /// The output of a stage with one source.
    Filtered(Stage, Box<Image>),
    /// The output of a stage with two sources.
    Combined(Stage, Box<Image>, Box<Image>),
    /// The undefined result of a pass that wrote a texture it read.
    Hazard,
}

/// The pass can run on a pool of `n` textures: it names only textures of
/// the pool, and as many sources as its stage reads.
pub open spec fn fits(p: PassView, n: nat) -> bool {
    &&& p.sources.len() == p.stage.arity()
    &&& p.dst < n
    &&& forall|i: int| 0 <= i < p.sources.len() ==> #[trigger] p.sources[i] < n
}

/// Every pass of `ps` can run on a pool of `n` textures.
pub open spec fn all_fit(ps: Seq<PassView>, n: nat) -> bool {
    forall|i: int| 0 <= i < ps.len() ==> fits(#[trigger] ps[i], n)
}

/// What pass `p` writes, given the pool `m` before it.
pub open spec fn output(p: PassView, m: Seq<Image>) -> Image {
    if p.aliased() {
        Image::Hazard
    } else if p.sources.len() == 1 {
        Image::Filtered(p.stage, Box::new(m[p.sources[0] as int]))
    } else {
        Image::Combined(p.stage, Box::new(m[p.sources[0] as int]), Box::new(m[p.sources[1] as int]))
    }
}

/// The pool after pass `p`: its destination is overwritten, nothing else
/// changes. A pass whose destination lies outside the pool changes
/// nothing.
pub open spec fn apply(m: Seq<Image>, p: PassView) -> Seq<Image> {
    if p.dst < m.len() {
        m.update(p.dst as int, output(p, m))
    } else {
        m
    }
}

/// The pool after the passes `ps`, in order.
pub open spec fn run(m: Seq<Image>, ps: Seq<PassView>) -> Seq<Image>
    decreases ps.len(),
{
    if ps.len() == 0 {
        m
    } else {
        apply(run(m, ps.drop_last()), ps.last())
    }
}

/// The image holds no hazard anywhere in its history.
pub open spec fn hazard_free(img: Image) -> bool
    decreases img,
{
    match img {
        Image::Initial(_) => true,
        Image::Filtered(_, a) => hazard_free(*a),
        Image::Combined(_, a, b) => hazard_free(*a) && hazard_free(*b),
        Image::Hazard => false,
    }
}

/// A pool whose texture `i` holds `Initial(i)`, for `i < n`.
pub open spec fn initial_pool(n: nat) -> Seq<Image> {
    Seq::new(n, |i: int| Image::Initial(i as TextureId))
}

impl Image {
    /// A copy of the image.
    pub fn duplicate(&self) -> (r: Image)
        ensures
            r == *self,
        decreases self,
    {
        match self {
            Image::Initial(id) => Image::Initial(*id),
            Image::Filtered(s, a) => Image::Filtered(*s, Box::new(a.duplicate())),
            Image::Combined(s, a, b) => Image::Combined(
                *s,
                Box::new(a.duplicate()),
                Box::new(b.duplicate()),
            ),
            Image::Hazard => Image::Hazard,
        }
    }
}

/// A pool of `n` textures, each holding its own initial contents.
pub fn initial_images(n: usize) -> (r: Vec<Image>)
    ensures
        r@ == initial_pool(n as nat),
{
    let mut r: Vec<Image> = Vec::new();
    for i in 0..n
        invariant
            r@ =~= initial_pool(i as nat),
    {
        r.push(Image::Initial(i));
        assert(r@ =~= initial_pool((i + 1) as nat));
    }
    r
}

/// Runs pass `p` on the pool `images`.
pub fn apply_pass(images: &mut Vec<Image>, p: &Pass)
    requires
        fits(p@, old(images)@.len()),
    ensures
        final(images)@ == apply(old(images)@, p@),
{
    let out = if p.is_aliased() {
        Image::Hazard
    } else if p.sources.len() == 1 {
        Image::Filtered(p.stage, Box::new(images[p.sources[0]].duplicate()))
    } else {
        Image::Combined(
            p.stage,
            Box::new(images[p.sources[0]].duplicate()),
            Box::new(images[p.sources[1]].duplicate()),
        )
    };
    images.set(p.dst, out);
}

/// Runs the passes in order on the pool `images`.
pub fn run_passes(images: &mut Vec<Image>, passes: &Vec<Pass>)
    requires
        all_fit(views(passes@), old(images)@.len()),
    ensures
        final(images)@ == run(old(images)@, views(passes@)),
{
    let ghost m = images@;
    let ghost ps = views(passes@);
    let n = passes.len();
    for i in 0..n
        invariant
            n == passes@.len(),
            ps == views(passes@),
            all_fit(ps, m.len()),
            images@.len() == m.len(),
            images@ == run(m, ps.take(i as int)),
    {
        assert(fits(ps[i as int], m.len()));
        apply_pass(images, &passes[i]);
        assert(ps.take(i + 1).drop_last() =~= ps.take(i as int));
    }
    assert(ps.take(n as int) =~= ps);
}

/// The separable blur of `x`: horizontal, then vertical.
pub open spec fn blurred(x: Image) -> Image {
    Image::Filtered(Stage::BlurVertical, Box::new(Image::Filtered(Stage::BlurHorizontal, Box::new(x))))
}

/// The bloom of `x`: `x` plus the blur of its bright part.
pub open spec fn bloomed(x: Image) -> Image {
    Image::Combined(
        Stage::Add,
        Box::new(x),
        Box::new(blurred(Image::Filtered(Stage::BloomThreshold, Box::new(x)))),
    )
}

/// Running two sequences of passes one after the other is running their
/// concatenation.
pub proof fn lemma_run_concat(m: Seq<Image>, a: Seq<PassView>, b: Seq<PassView>)
    ensures
        run(m, a + b) == run(run(m, a), b),
    decreases b.len(),
{
    if b.len() == 0 {
        assert(a + b =~= a);
    } else {
        assert((a + b).drop_last() =~= a + b.drop_last());
        assert((a + b).last() == b.last());
        lemma_run_concat(m, a, b.drop_last());
    }
}

/// Running passes keeps the size of the pool.
pub proof fn lemma_run_len(m: Seq<Image>, ps: Seq<PassView>)
    ensures
        run(m, ps).len() == m.len(),
    decreases ps.len(),
{
    if ps.len() > 0 {
        lemma_run_len(m, ps.drop_last());
    }
}

proof fn lemma_run_one(m: Seq<Image>, p: PassView)
    ensures
        run(m, seq![p]) == apply(m, p),
{
    assert(seq![p].drop_last() =~= Seq::<PassView>::empty());
    assert(seq![p].last() == p);
    assert(run(m, Seq::<PassView>::empty()) == m);
}

proof fn lemma_single_output(m: Seq<Image>, stage: Stage, src: TextureId, dst: TextureId)
    requires
        src != dst,
    ensures
        output(single(stage, src, dst), m) == Image::Filtered(stage, Box::new(m[src as int])),
{
    let p = single(stage, src, dst);
    assert(p.sources[0] == src);
    assert(!p.aliased()) by {
        if p.sources.contains(dst) {
            let i = choose|i: int| 0 <= i < p.sources.len() && p.sources[i] == dst;
            assert(i == 0);
        }
    }
}

/// The blur of `src` into `dst` through a scratch texture `tmp` distinct
/// from both leaves in `dst` the vertical pass of the horizontal pass of
/// what `src` held, leaves the horizontal pass in `tmp`, and changes no
/// other texture.
pub proof fn lemma_blur_is_separable(m: Seq<Image>, src: TextureId, dst: TextureId, tmp: TextureId)
    requires
        src < m.len(),
        dst < m.len(),
        tmp < m.len(),
        tmp != src,
        tmp != dst,
    ensures
        ({
            let r = run(m, blur_plan(src, dst, tmp));
            &&& r.len() == m.len()
            &&& r[dst as int] == blurred(m[src as int])
            &&& r[tmp as int] == Image::Filtered(Stage::BlurHorizontal, Box::new(m[src as int]))
            &&& forall|k: int| 0 <= k < m.len() && k != dst && k != tmp ==> r[k] == m[k]
        }),
{
    let h = single(Stage::BlurHorizontal, src, tmp);
    let v = single(Stage::BlurVertical, tmp, dst);
    assert(blur_plan(src, dst, tmp) =~= seq![h] + seq![v]);
    lemma_run_concat(m, seq![h], seq![v]);
    lemma_run_one(m, h);
    lemma_single_output(m, Stage::BlurHorizontal, src, tmp);
    let m1 = apply(m, h);
    lemma_run_one(m1, v);
    lemma_single_output(m1, Stage::BlurVertical, tmp, dst);
}

/// The bloom of `src` into `dst` through scratch textures `tmp1` and
/// `tmp2`, all four distinct, leaves in `dst` the sum of what `src` held
/// and the blur of its thresholded copy, and leaves `src` as it was.
pub proof fn lemma_bloom_composition(
    m: Seq<Image>,
    src: TextureId,
    dst: TextureId,
    tmp1: TextureId,
    tmp2: TextureId,
)
    requires
        src < m.len(),
        dst < m.len(),
        tmp1 < m.len(),
        tmp2 < m.len(),
        src != dst,
        src != tmp1,
        src != tmp2,
        dst != tmp1,
        dst != tmp2,
        tmp1 != tmp2,
    ensures
        ({
            let r = run(m, bloom_plan(src, dst, tmp1, tmp2));
            &&& r.len() == m.len()
            &&& r[dst as int] == bloomed(m[src as int])
            &&& r[src as int] == m[src as int]
            &&& forall|k: int|
                0 <= k < m.len() && k != dst && k != tmp1 && k != tmp2 ==> r[k] == m[k]
        }),
{
    let t = single(Stage::BloomThreshold, src, tmp1);
    let b = blur_plan(tmp1, tmp2, dst);
    let add = PassView { stage: Stage::Add, sources: seq![src, tmp2], dst };
    assert(bloom_plan(src, dst, tmp1, tmp2) == seq![t] + b + seq![add]);
    lemma_run_concat(m, seq![t] + b, seq![add]);
    lemma_run_concat(m, seq![t], b);
    lemma_run_one(m, t);
    lemma_single_output(m, Stage::BloomThreshold, src, tmp1);
    let m1 = apply(m, t);
    lemma_blur_is_separable(m1, tmp1, tmp2, dst);
    let m2 = run(m1, b);
    lemma_run_one(m2, add);
    assert(!add.aliased()) by {
        if add.sources.contains(dst) {
            let i = choose|i: int| 0 <= i < add.sources.len() && add.sources[i] == dst;
            assert(i == 0 || i == 1);
        }
    }
    assert(add.sources[0] == src && add.sources[1] == tmp2);
}

/// Post-processing a frame on five distinct textures leaves on `surface`
/// the blit of the bloom of the colour-rounded scene.
pub proof fn lemma_frame_result(
    m: Seq<Image>,
    scene: TextureId,
    adjusted: TextureId,
    scratch1: TextureId,
    scratch2: TextureId,
    surface: TextureId,
)
    requires
        scene < m.len(),
        adjusted < m.len(),
        scratch1 < m.len(),
        scratch2 < m.len(),
        surface < m.len(),
        scene != adjusted,
        scene != scratch1,
        scene != scratch2,
        scene != surface,
        adjusted != scratch1,
        adjusted != scratch2,
        adjusted != surface,
        scratch1 != scratch2,
        scratch1 != surface,
        scratch2 != surface,
    ensures
        run(m, frame_plan(scene, adjusted, scratch1, scratch2, surface))[surface as int]
            == Image::Filtered(
            Stage::Sample,
            Box::new(bloomed(Image::Filtered(Stage::RoundColor, Box::new(m[scene as int])))),
        ),
{
    let rc = single(Stage::RoundColor, scene, adjusted);
    let bl = bloom_plan(adjusted, scene, scratch1, scratch2);
    let blit = single(Stage::Sample, scene, surface);
    assert(frame_plan(scene, adjusted, scratch1, scratch2, surface) == seq![rc] + bl + seq![blit]);
    lemma_run_concat(m, seq![rc] + bl, seq![blit]);
    lemma_run_concat(m, seq![rc], bl);
    lemma_run_one(m, rc);
    lemma_single_output(m, Stage::RoundColor, scene, adjusted);
    let m1 = apply(m, rc);
    lemma_bloom_composition(m1, adjusted, scene, scratch1, scratch2);
    let m2 = run(m1, bl);
    lemma_run_one(m2, blit);
    lemma_single_output(m2, Stage::Sample, scene, surface);
}

/// A pass that writes a texture it reads leaves a hazard there, so a
/// chain with such a pass cannot yield what the same chain on separate
/// textures yields.
pub proof fn lemma_aliasing_leaves_hazard(m: Seq<Image>, ps: Seq<PassView>, i: int)
    requires
        all_fit(ps, m.len()),
        0 <= i < ps.len(),
        ps[i].aliased(),
    ensures
        run(m, ps.take(i + 1))[ps[i].dst as int] == Image::Hazard,
{
    assert(ps.take(i + 1).drop_last() =~= ps.take(i));
    assert(ps.take(i + 1).last() == ps[i]);
    lemma_run_len(m, ps.take(i));
    assert(fits(ps[i], m.len()));
}

/// A chain with no aliased pass, run on hazard-free contents, leaves every
/// texture hazard-free.
pub proof fn lemma_unaliased_chain_is_hazard_free(m: Seq<Image>, ps: Seq<PassView>)
    requires
        all_fit(ps, m.len()),
        forall|i: int| 0 <= i < ps.len() ==> !#[trigger] ps[i].aliased(),
        forall|k: int| 0 <= k < m.len() ==> hazard_free(#[trigger] m[k]),
    ensures
        forall|k: int| 0 <= k < m.len() ==> hazard_free(#[trigger] run(m, ps)[k]),
    decreases ps.len(),
{
    if ps.len() > 0 {
        let init = ps.drop_last();
        assert forall|i: int| 0 <= i < init.len() implies !#[trigger] init[i].aliased() by {
            assert(!ps[i].aliased());
        }
        assert(all_fit(init, m.len())) by {
            assert forall|i: int| 0 <= i < init.len() implies fits(#[trigger] init[i], m.len()) by {
                assert(fits(ps[i], m.len()));
            }
        }
        lemma_unaliased_chain_is_hazard_free(m, init);
        lemma_run_len(m, init);
        let p = ps.last();
        assert(fits(ps[ps.len() - 1], m.len()));
        assert(!p.aliased()) by {
            if p.aliased() {
                assert(ps[ps.len() - 1].aliased());
            }
        }
        let prev = run(m, init);
        assert(p.sources[0] < m.len());
        assert(hazard_free(prev[p.sources[0] as int]));
        if p.sources.len() == 2 {
            assert(p.sources[1] < m.len());
            assert(hazard_free(prev[p.sources[1] as int]));
        }
        assert(hazard_free(output(p, prev)));
    }
}

} // verus!
