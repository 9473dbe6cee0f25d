//! Draw calls, batches and the per-frame batch list.
//!
//! Every draw call names a shader program, a mesh and a texture. Draw calls
//! that agree on all three are gathered into a `Batch`, a fixed-capacity
//! buffer of per-instance records that is drawn with one instanced call. The
//! `BatchList` routes each incoming draw call to the first batch that takes
//! it, or starts a new batch.
use vstd::prelude::*;

use crate::graphics::mesh::Mesh;
use crate::graphics::shaders::Program;
use crate::graphics::textures::TextureID;

verus! {

/// Largest number of objects that one batch holds.
pub const MAX_BATCH_SIZE: usize = 256;

/// Number of 32-bit words in one instance record: the texture region
/// (4 words) followed by the matrix (16 words, column by column).
pub const BATCH_INSTANCE_SIZE: usize = 20;

/// The IEEE-754 bit pattern of an `f32`.
///
/// Batching only copies these words, so no floating-point arithmetic is
/// involved and round trips are exact.
pub type FloatBits = u32;

/// One request to render an object.
#[derive(Copy, Clone, Debug)]
pub struct DrawCall {
    /// Shader program to render with.
    pub program: Program,
    /// Mesh to render.
    pub mesh: Mesh,
    /// Handle of the texture to sample.
    pub texture: TextureID,
    /// Region of the texture: offset x, offset y, size x, size y.
    pub tex_position: [FloatBits; 4],
    /// Model-view-projection matrix, as four columns of four rows.
    pub matrix: [[FloatBits; 4]; 4],
}

impl DrawCall {
    /// The matrix flattened column by column.
    pub open spec fn matrix_words(self) -> Seq<FloatBits> {
        Seq::new(16, |i: int| self.matrix@[i / 4]@[i % 4])
    }

    /// The instance record that a batch stores for this draw call.
    pub open spec fn record(self) -> Seq<FloatBits> {
        self.tex_position@ + self.matrix_words()
    }
}

/// What a batch holds, as mathematical values.
pub struct BatchView {
    pub program: Program,
    pub mesh: Mesh,
    pub texture: TextureID,
    /// The instance records, one after the other.
    pub data: Seq<FloatBits>,
    /// Number of objects in the batch.
    pub count: nat,
}

impl BatchView {
    /// Records fill exactly `count` slots, and there are at most
    /// `MAX_BATCH_SIZE` of them.
    pub open spec fn wf(self) -> bool {
        &&& self.count <= MAX_BATCH_SIZE
        &&& self.data.len() == self.count * BATCH_INSTANCE_SIZE
    }

    /// The draw call shares this batch's program, mesh and texture.
    pub open spec fn matches(self, dc: DrawCall) -> bool {
        &&& dc.program == self.program
        &&& dc.mesh == self.mesh
        &&& dc.texture == self.texture
    }

    /// `add` takes the draw call.
    pub open spec fn accepts(self, dc: DrawCall) -> bool {
        self.matches(dc) && self.count < MAX_BATCH_SIZE
    }

    /// The batch after the draw call's record has been appended.
    pub open spec fn added(self, dc: DrawCall) -> BatchView {
        BatchView { data: self.data + dc.record(), count: self.count + 1, ..self }
    }

    /// The batch that `new` builds from a draw call.
    pub open spec fn started(dc: DrawCall) -> BatchView {
        BatchView {
            program: dc.program,
            mesh: dc.mesh,
            texture: dc.texture,
            data: dc.record(),
            count: 1,
        }
    }

    /// Texture region stored for object `i`.
    pub open spec fn instance_region(self, i: int) -> Seq<FloatBits> {
        self.data.subrange(i * BATCH_INSTANCE_SIZE, i * BATCH_INSTANCE_SIZE + 4)
    }

    /// Matrix stored for object `i`, column by column.
    pub open spec fn instance_matrix(self, i: int) -> Seq<FloatBits> {
        self.data.subrange(i * BATCH_INSTANCE_SIZE + 4, (i + 1) * BATCH_INSTANCE_SIZE)
    }
}

/// Draw calls that share a program, a mesh and a texture, gathered for one
/// instanced draw.
pub struct Batch {
    /// Shader program to use to render.
    program: Program,
    /// Mesh to be rendered.
    mesh: Mesh,
    /// Texture to be rendered.
    texture: TextureID,
    /// The objects' records, before they are handed to the GPU.
    buffer: Vec<FloatBits>,
    /// Current number of objects in the batch.
    obj_count: usize,
}

impl View for Batch {
    type V = BatchView;

    closed spec fn view(&self) -> BatchView {
        BatchView {
            program: self.program,
            mesh: self.mesh,
            texture: self.texture,
            data: self.buffer@,
            count: self.obj_count as nat,
        }
    }
}

impl Batch {
    pub open spec fn wf(&self) -> bool {
        self@.wf()
    }

    pub fn program(&self) -> (r: Program)
        ensures
            r == self@.program,
    {
        self.program
    }

    pub fn mesh(&self) -> (r: Mesh)
        ensures
            r == self@.mesh,
    {
        self.mesh
    }

    pub fn texture(&self) -> (r: TextureID)
        ensures
            r == self@.texture,
    {
        self.texture
    }

    pub fn obj_count(&self) -> (r: usize)
        ensures
            r == self@.count,
    {
        self.obj_count
    }

    /// Creates a batch keyed by the draw call's program, mesh and texture,
    /// holding that draw call as its only object.
    pub fn new(drawcall: &DrawCall) -> (r: Batch)
        ensures
            r.wf(),
            r@ == BatchView::started(*drawcall),
            r@.instance_region(0) == drawcall.tex_position@,
            r@.instance_matrix(0) == drawcall.matrix_words(),
    {
        let mut batch = Batch {
            program: drawcall.program,
            mesh: drawcall.mesh,
            texture: drawcall.texture,
            buffer: Vec::with_capacity(BATCH_INSTANCE_SIZE * MAX_BATCH_SIZE),
            obj_count: 0,
        };
        let added = batch.add(drawcall);
        assert(added);
        proof {
            let r = drawcall.record();
            assert(batch@.data =~= r);
            assert(batch@.instance_region(0) =~= drawcall.tex_position@);
            assert(batch@.instance_matrix(0) =~= drawcall.matrix_words());
        }
        batch
    }

    /// Appends the draw call's record. Returns false, and changes nothing,
    /// when the draw call's program, mesh or texture differs from the
    /// batch's, or when the batch is full.
    pub fn add(&mut self, drawcall: &DrawCall) -> (r: bool)
        requires
            old(self).wf(),
        ensures
            final(self).wf(),
            r == old(self)@.accepts(*drawcall),
            r ==> final(self)@ == old(self)@.added(*drawcall),
            !r ==> final(self)@ == old(self)@,
    {
        if drawcall.program != self.program || drawcall.mesh != self.mesh
            || drawcall.texture != self.texture {
            return false;
        }
        if self.obj_count >= MAX_BATCH_SIZE {
            return false;
        }
        let ghost before = self.buffer@;
        let mut i: usize = 0;
        while i < 4
            invariant
                0 <= i <= 4,
                self.obj_count == old(self).obj_count,
                self.obj_count < MAX_BATCH_SIZE,
                self.program == old(self).program,
                self.mesh == old(self).mesh,
                self.texture == old(self).texture,
                before == old(self).buffer@,
                self.buffer@ == before + drawcall.tex_position@.subrange(0, i as int),
            decreases 4 - i,
        {
            self.buffer.push(drawcall.tex_position[i]);
            proof {
                let region = drawcall.tex_position@;
                assert(region.subrange(0, i + 1) =~= region.subrange(0, i as int).push(region[i as int]));
            }
            i = i + 1;
        }
        assert(drawcall.tex_position@.subrange(0, 4) =~= drawcall.tex_position@);
        let mut j: usize = 0;
        while j < 16
            invariant
                0 <= j <= 16,
                self.obj_count == old(self).obj_count,
                self.obj_count < MAX_BATCH_SIZE,
                self.program == old(self).program,
                self.mesh == old(self).mesh,
                self.texture == old(self).texture,
                before == old(self).buffer@,
                self.buffer@ == before + drawcall.tex_position@ + drawcall.matrix_words().subrange(0, j as int),
            decreases 16 - j,
        {
            self.buffer.push(drawcall.matrix[j / 4][j % 4]);
            proof {
                let words = drawcall.matrix_words();
                assert(words.subrange(0, j + 1) =~= words.subrange(0, j as int).push(words[j as int]));
            }
            j = j + 1;
        }
        proof {
            assert(drawcall.matrix_words().subrange(0, 16) =~= drawcall.matrix_words());
            assert(before + drawcall.tex_position@ + drawcall.matrix_words() =~= before + drawcall.record());
            assert(self.obj_count * BATCH_INSTANCE_SIZE + BATCH_INSTANCE_SIZE
                == (self.obj_count + 1) * BATCH_INSTANCE_SIZE) by (nonlinear_arith);
        }
        self.obj_count = self.obj_count + 1;
        true
    }

    /// The words to upload to the GPU: exactly the records of the objects
    /// held, `obj_count * BATCH_INSTANCE_SIZE` of them.
    pub fn buffer_data(&self) -> (r: &[FloatBits])
        requires
            self.wf(),
        ensures
            r@ == self@.data,
            r@.len() == self@.count * BATCH_INSTANCE_SIZE,
    {
        self.buffer.as_slice()
    }
}

/// Index of the first batch that accepts the draw call, or the number of
/// batches when none does.
pub open spec fn placement(bs: Seq<BatchView>, dc: DrawCall) -> nat
    decreases bs.len(),
{
    if bs.len() == 0 {
        0
    } else if bs[0].accepts(dc) {
        0
    } else {
        1 + placement(bs.drop_first(), dc)
    }
}

/// The batches after one draw call has been routed: the first batch that
/// accepts it takes it, else a new batch is appended.
pub open spec fn inserted(bs: Seq<BatchView>, dc: DrawCall) -> Seq<BatchView> {
    let p = placement(bs, dc);
    if p < bs.len() {
        bs.update(p as int, bs[p as int].added(dc))
    } else {
        bs.push(BatchView::started(dc))
    }
}

/// The batches after routing each draw call in order.
pub open spec fn inserted_all(bs: Seq<BatchView>, dcs: Seq<DrawCall>) -> Seq<BatchView>
    decreases dcs.len(),
{
    if dcs.len() == 0 {
        bs
    } else {
        inserted(inserted_all(bs, dcs.drop_last()), dcs.last())
    }
}

/// Number of objects held over all batches.
pub open spec fn total_count(bs: Seq<BatchView>) -> nat
    decreases bs.len(),
{
    if bs.len() == 0 {
        0
    } else {
        total_count(bs.drop_last()) + bs.last().count
    }
}

/// Every batch is well formed.
pub open spec fn all_wf(bs: Seq<BatchView>) -> bool {
    forall|i: int| 0 <= i < bs.len() ==> #[trigger] bs[i].wf()
}

/// `placement` is the first batch that accepts the draw call.
pub proof fn lemma_placement(bs: Seq<BatchView>, dc: DrawCall)
    ensures
        placement(bs, dc) <= bs.len(),
        forall|j: int| 0 <= j < placement(bs, dc) ==> !(#[trigger] bs[j]).accepts(dc),
        placement(bs, dc) < bs.len() ==> bs[placement(bs, dc) as int].accepts(dc),
    decreases bs.len(),
{
    if bs.len() > 0 && !bs[0].accepts(dc) {
        lemma_placement(bs.drop_first(), dc);
        assert forall|j: int| 0 <= j < placement(bs, dc) implies !(#[trigger] bs[j]).accepts(dc) by {
            if j > 0 {
                assert(bs[j] == bs.drop_first()[j - 1]);
            }
        }
    }
}

/// The first index that accepts is the placement.
proof fn lemma_placement_is(bs: Seq<BatchView>, dc: DrawCall, k: int)
    requires
        0 <= k <= bs.len(),
        forall|j: int| 0 <= j < k ==> !(#[trigger] bs[j]).accepts(dc),
        k < bs.len() ==> bs[k].accepts(dc),
    ensures
        placement(bs, dc) == k,
{
    lemma_placement(bs, dc);
    let p = placement(bs, dc) as int;
    if p < k {
        assert(!bs[p].accepts(dc));
    } else if p > k {
        assert(!bs[k].accepts(dc));
    }
}

/// Routing keeps every well-formed batch well formed.
proof fn lemma_inserted_wf(bs: Seq<BatchView>, dc: DrawCall)
    requires
        all_wf(bs),
    ensures
        all_wf(inserted(bs, dc)),
        inserted(bs, dc).len() >= bs.len(),
        forall|k: int|
            0 <= k < bs.len() ==> {
                &&& (#[trigger] inserted(bs, dc)[k]).program == bs[k].program
                &&& inserted(bs, dc)[k].mesh == bs[k].mesh
                &&& inserted(bs, dc)[k].texture == bs[k].texture
            },
        placement(bs, dc) < inserted(bs, dc).len(),
        inserted(bs, dc)[placement(bs, dc) as int].matches(dc),
{
    lemma_placement(bs, dc);
    let p = placement(bs, dc) as int;
    let r = inserted(bs, dc);
    if p < bs.len() {
        let b = bs[p];
        assert(b.wf());
        assert(b.data.len() + BATCH_INSTANCE_SIZE == (b.count + 1) * BATCH_INSTANCE_SIZE) by (nonlinear_arith)
            requires b.data.len() == b.count * BATCH_INSTANCE_SIZE;
        assert(r[p].wf());
    } else {
        assert(r[p].wf());
    }
    assert forall|i: int| 0 <= i < r.len() implies #[trigger] r[i].wf() by {
        if i != p {
            assert(r[i] == bs[i]);
        }
    }
}

/// The batches queued for one frame, in the order they were started.
pub struct BatchList {
    batches: Vec<Batch>,
}

impl View for BatchList {
    type V = Seq<BatchView>;

    closed spec fn view(&self) -> Seq<BatchView> {
        self.batches@.map_values(|b: Batch| b@)
    }
}

impl BatchList {
    pub open spec fn wf(&self) -> bool {
        all_wf(self@)
    }

    /// An empty list.
    pub fn new() -> (r: BatchList)
        ensures
            r.wf(),
            r@ == Seq::<BatchView>::empty(),
    {
        let r = BatchList { batches: Vec::new() };
        assert(r@ =~= Seq::<BatchView>::empty());
        r
    }

    /// Number of batches.
    pub fn len(&self) -> (r: usize)
        ensures
            r == self@.len(),
    {
        self.batches.len()
    }

    /// The batch at position `i`.
    pub fn get(&self, i: usize) -> (r: &Batch)
        requires
            i < self@.len(),
        ensures
            r@ == self@[i as int],
    {
        &self.batches[i]
    }

    /// All batches, in the order they were started.
    pub fn batches(&self) -> (r: &[Batch])
        ensures
            r@.len() == self@.len(),
            forall|i: int| 0 <= i < r@.len() ==> (#[trigger] r@[i])@ == self@[i],
    {
        self.batches.as_slice()
    }

    /// Routes a draw call: the first batch, in order, that accepts it takes
    /// it; when none does, a new batch is started from it.
    pub fn insert(&mut self, drawcall: &DrawCall)
        requires
            old(self).wf(),
        ensures
            final(self).wf(),
            final(self)@ == inserted(old(self)@, *drawcall),
    {
        proof {
            lemma_inserted_wf(self@, *drawcall);
        }
        let n = self.batches.len();
        let mut i: usize = 0;
        while i < n
            invariant
                n == self.batches.len(),
                0 <= i <= n,
                self@ == old(self)@,
                all_wf(old(self)@),
                all_wf(inserted(old(self)@, *drawcall)),
                forall|j: int| 0 <= j < i ==> !(#[trigger] old(self)@[j]).accepts(*drawcall),
            decreases n - i,
        {
            assert(self@[i as int] == self.batches@[i as int]@);
            assert(self@[i as int].wf());
            if self.batches[i].add(drawcall) {
                proof {
                    lemma_placement_is(old(self)@, *drawcall, i as int);
                    assert(self@ =~= inserted(old(self)@, *drawcall));
                }
                return;
            }
            assert(self@ =~= old(self)@);
            i = i + 1;
        }
        proof {
            lemma_placement_is(old(self)@, *drawcall, n as int);
        }
        self.batches.push(Batch::new(drawcall));
        assert(self@ =~= inserted(old(self)@, *drawcall));
    }

    /// Drops every batch; called once a frame has been rendered.
    pub fn clear(&mut self)
        ensures
            final(self).wf(),
            final(self)@ == Seq::<BatchView>::empty(),
    {
        self.batches.clear();
        assert(self@ =~= Seq::<BatchView>::empty());
    }
}

/// The two draw calls name the same program, mesh and texture.
pub open spec fn same_key(a: DrawCall, b: DrawCall) -> bool {
    &&& a.program == b.program
    &&& a.mesh == b.mesh
    &&& a.texture == b.texture
}

/// Routing draw calls of one key into an empty list fills batches one after
/// the other: all are full but the last, which holds at least one object.
proof fn lemma_same_key_packed(dcs: Seq<DrawCall>)
    requires
        forall|i: int| 0 <= i < dcs.len() ==> same_key(#[trigger] dcs[i], dcs[0]),
    ensures
        ({
            let bs = inserted_all(Seq::<BatchView>::empty(), dcs);
            &&& all_wf(bs)
            &&& total_count(bs) == dcs.len()
            &&& dcs.len() == 0 ==> bs.len() == 0
            &&& dcs.len() > 0 ==> {
                &&& bs.len() >= 1
                &&& dcs.len() == (bs.len() - 1) * MAX_BATCH_SIZE + bs.last().count
                &&& forall|k: int|
                    0 <= k < bs.len() ==> {
                        &&& (#[trigger] bs[k]).matches(dcs[0])
                        &&& bs[k].count >= 1
                        &&& k < bs.len() - 1 ==> bs[k].count == MAX_BATCH_SIZE
                    }
            }
        }),
    decreases dcs.len(),
{
    if dcs.len() == 0 {
        return;
    }
    let prev = dcs.drop_last();
    let dc = dcs.last();
    assert forall|i: int| 0 <= i < prev.len() implies same_key(#[trigger] prev[i], prev[0]) by {
        assert(prev[i] == dcs[i]);
    }
    lemma_same_key_packed(prev);
    let pb = inserted_all(Seq::<BatchView>::empty(), prev);
    let bs = inserted_all(Seq::<BatchView>::empty(), dcs);
    assert(bs == inserted(pb, dc));
    assert(same_key(dc, dcs[0]));
    lemma_inserted_wf(pb, dc);
    if prev.len() == 0 {
        lemma_placement_is(pb, dc, 0);
        assert(bs =~= seq![BatchView::started(dc)]);
        assert(bs.drop_last() =~= Seq::<BatchView>::empty());
    } else {
        assert(prev[0] == dcs[0]);
        let last = pb.len() - 1;
        let c = pb[last].count;
        assert(pb[last].matches(dcs[0]));
        assert(pb[last].wf());
        if c < MAX_BATCH_SIZE {
            assert forall|j: int| 0 <= j < last implies !(#[trigger] pb[j]).accepts(dc) by {
                assert(pb[j].count == MAX_BATCH_SIZE);
            }
            lemma_placement_is(pb, dc, last);
            assert(bs.drop_last() =~= pb.drop_last());
            assert forall|k: int| 0 <= k < bs.len() implies {
                &&& (#[trigger] bs[k]).matches(dcs[0])
                &&& bs[k].count >= 1
                &&& k < bs.len() - 1 ==> bs[k].count == MAX_BATCH_SIZE
            } by {
                assert(pb[k].matches(dcs[0]));
            }
        } else {
            assert forall|j: int| 0 <= j < pb.len() implies !(#[trigger] pb[j]).accepts(dc) by {
                assert(pb[j].count == MAX_BATCH_SIZE);
            }
            lemma_placement_is(pb, dc, pb.len() as int);
            assert(bs.drop_last() =~= pb);
            assert forall|k: int| 0 <= k < bs.len() implies {
                &&& (#[trigger] bs[k]).matches(dcs[0])
                &&& bs[k].count >= 1
                &&& k < bs.len() - 1 ==> bs[k].count == MAX_BATCH_SIZE
            } by {
                if k < pb.len() {
                    assert(bs[k] == pb[k]);
                    assert(pb[k].matches(dcs[0]));
                }
            }
        }
    }
}

/// Routing `n` draw calls that share one program, mesh and texture into an
/// empty list gives `ceil(n / MAX_BATCH_SIZE)` batches, none holding more
/// than `MAX_BATCH_SIZE` objects, and `n` objects over all of them.
pub proof fn lemma_same_key_batch_count(dcs: Seq<DrawCall>)
    requires
        forall|i: int| 0 <= i < dcs.len() ==> same_key(#[trigger] dcs[i], dcs[0]),
    ensures
        inserted_all(Seq::<BatchView>::empty(), dcs).len()
            == (dcs.len() + MAX_BATCH_SIZE - 1) / (MAX_BATCH_SIZE as int),
        forall|k: int|
            0 <= k < inserted_all(Seq::<BatchView>::empty(), dcs).len()
                ==> (#[trigger] inserted_all(Seq::<BatchView>::empty(), dcs)[k]).count
                <= MAX_BATCH_SIZE,
        total_count(inserted_all(Seq::<BatchView>::empty(), dcs)) == dcs.len(),
{
    lemma_same_key_packed(dcs);
    let bs = inserted_all(Seq::<BatchView>::empty(), dcs);
    assert forall|k: int| 0 <= k < bs.len() implies (#[trigger] bs[k]).count <= MAX_BATCH_SIZE by {
        assert(bs[k].wf());
    }
    if dcs.len() > 0 {
        let len = bs.len() as int;
        let c = bs.last().count as int;
        assert(bs[len - 1].wf());
        assert(1 <= c <= 256);
        assert((dcs.len() + 255) / 256 == len) by (nonlinear_arith)
            requires
                dcs.len() == (len - 1) * 256 + c,
                1 <= c <= 256,
                len >= 1,
        ;
    }
}

/// The batch that the `i`-th of `dcs` lands in when they are routed in order
/// into `bs`.
pub open spec fn placed_at(bs: Seq<BatchView>, dcs: Seq<DrawCall>, i: int) -> nat {
    placement(inserted_all(bs, dcs.take(i)), dcs[i])
}

/// Routing more draw calls never removes a batch nor changes a batch's key.
proof fn lemma_keys_persist(bs: Seq<BatchView>, dcs: Seq<DrawCall>, a: int, b: int)
    requires
        all_wf(bs),
        0 <= a <= b <= dcs.len(),
    ensures
        all_wf(inserted_all(bs, dcs.take(b))),
        inserted_all(bs, dcs.take(b)).len() >= inserted_all(bs, dcs.take(a)).len(),
        forall|k: int|
            0 <= k < inserted_all(bs, dcs.take(a)).len() ==> (#[trigger] inserted_all(
                bs,
                dcs.take(b),
            )[k]).texture == inserted_all(bs, dcs.take(a))[k].texture,
    decreases b,
{
    if b == 0 {
        assert(dcs.take(0) =~= Seq::<DrawCall>::empty());
        return;
    }
    let prev = inserted_all(bs, dcs.take(b - 1));
    assert(dcs.take(b).drop_last() =~= dcs.take(b - 1));
    assert(inserted_all(bs, dcs.take(b)) == inserted(prev, dcs[b - 1]));
    lemma_keys_persist(bs, dcs, if a < b { a } else { b - 1 }, b - 1);
    lemma_inserted_wf(prev, dcs[b - 1]);
}

/// Two draw calls with different textures never land in the same batch.
pub proof fn lemma_distinct_textures_apart(bs: Seq<BatchView>, dcs: Seq<DrawCall>, i: int, j: int)
    requires
        all_wf(bs),
        0 <= i < j < dcs.len(),
        dcs[i].texture != dcs[j].texture,
    ensures
        placed_at(bs, dcs, i) != placed_at(bs, dcs, j),
{
    let li = inserted_all(bs, dcs.take(i));
    let li1 = inserted_all(bs, dcs.take(i + 1));
    let lj = inserted_all(bs, dcs.take(j));
    lemma_keys_persist(bs, dcs, 0, i);
    assert(dcs.take(i + 1).drop_last() =~= dcs.take(i));
    assert(li1 == inserted(li, dcs[i]));
    lemma_inserted_wf(li, dcs[i]);
    let p = placement(li, dcs[i]) as int;
    lemma_keys_persist(bs, dcs, i + 1, j);
    assert(lj[p].texture == dcs[i].texture);
    lemma_placement(lj, dcs[j]);
}

} // verus!
