//! The store of accepted blocks: a DAG keyed by digest, with head
//! tracking, config resolution "as of" a chain position, and
//! ancestor-path queries.

use vstd::prelude::*;
use crate::protocol::{Block, Digest, SignSettings, bytes_eq, digest_eq, digest_eq_spec};
use crate::codec::{block_bytes, block_bytes_spec};
use crate::ChainError;

verus! {

/// The digests a block references as its predecessors.
pub open spec fn parent_refs(b: Block) -> Seq<Digest> {
    match b {
        Block::Genesis { .. } => Seq::empty(),
        Block::Regular { prev, .. } => seq![prev],
        Block::Upgrade { prev, .. } => seq![prev],
        Block::Merge { parents, .. } => parents@,
        Block::Snapshot { prev, at, .. } => seq![prev, at],
    }
}

/// Some block in the sequence carries the digest as its id.
pub open spec fn has_digest(blocks: Seq<Block>, d: Digest) -> bool {
    exists|j: int| 0 <= j < blocks.len() && digest_eq_spec(blocks[j].spec_id(), d)
}

/// Some block before position `i` carries the digest as its id.
pub open spec fn has_digest_before(blocks: Seq<Block>, i: int, d: Digest) -> bool {
    exists|j: int| 0 <= j < i && digest_eq_spec(blocks[j].spec_id(), d)
}

/// Every predecessor the block references has its id among the
/// blocks before position `i`.
pub open spec fn parents_before(blocks: Seq<Block>, i: int) -> bool {
    forall|k: int|
        0 <= k < parent_refs(blocks[i]).len() ==> has_digest_before(
            blocks,
            i,
            #[trigger] parent_refs(blocks[i])[k],
        )
}

/// Every predecessor the block references is present in the store.
pub open spec fn parents_present(blocks: Seq<Block>, b: Block) -> bool {
    forall|k: int|
        0 <= k < parent_refs(b).len() ==> has_digest(blocks, #[trigger] parent_refs(b)[k])
}

/// Well-formedness of the store: ids are pairwise distinct, every
/// block's predecessors stand before it, and the one genesis block
/// is the first block and the only one.
pub open spec fn store_wf(blocks: Seq<Block>) -> bool {
    &&& forall|i: int, j: int|
        0 <= i < j < blocks.len() ==> !digest_eq_spec(blocks[i].spec_id(), blocks[j].spec_id())
    &&& forall|i: int| 0 <= i < blocks.len() ==> parents_before(blocks, i)
    &&& forall|i: int| 0 <= i < blocks.len() ==> ((blocks[i] is Genesis) <==> i == 0)
}

/// The first position at or after `i` whose block carries `d`, or -1.
pub open spec fn find_from(blocks: Seq<Block>, d: Digest, i: int) -> int
    decreases blocks.len() - i,
{
    if 0 <= i < blocks.len() {
        if digest_eq_spec(blocks[i].spec_id(), d) {
            i
        } else {
            find_from(blocks, d, i + 1)
        }
    } else {
        -1
    }
}

/// The position of the block that carries `d`, or -1.
pub open spec fn find_idx(blocks: Seq<Block>, d: Digest) -> int {
    find_from(blocks, d, 0)
}

/// The configuration active at position `i`: the config the block
/// itself installs, or the one inherited from its predecessor.
pub open spec fn config_at_pos(blocks: Seq<Block>, i: int) -> Option<SignSettings>
    decreases i,
{
    if 0 <= i < blocks.len() {
        match blocks[i] {
            Block::Genesis { config, .. } => Option::Some(config),
            Block::Upgrade { config, .. } => Option::Some(config),
            Block::Regular { prev, .. } => {
                let j = find_idx(blocks, prev);
                if 0 <= j < i {
                    config_at_pos(blocks, j)
                } else {
                    Option::None
                }
            },
            Block::Merge { parents, config, .. } => match config {
                Option::Some(c) => Option::Some(c),
                Option::None => {
                    if parents@.len() > 0 {
                        let j = find_idx(blocks, parents@[0]);
                        if 0 <= j < i {
                            config_at_pos(blocks, j)
                        } else {
                            Option::None
                        }
                    } else {
                        Option::None
                    }
                },
            },
            Block::Snapshot { at, config, .. } => match config {
                Option::Some(c) => Option::Some(c),
                Option::None => {
                    let j = find_idx(blocks, at);
                    if 0 <= j < i {
                        config_at_pos(blocks, j)
                    } else {
                        Option::None
                    }
                },
            },
        }
    } else {
        Option::None
    }
}

/// The configuration active at the block with digest `d`.
pub open spec fn config_at_spec(blocks: Seq<Block>, d: Digest) -> Option<SignSettings> {
    config_at_pos(blocks, find_idx(blocks, d))
}

/// The block at position `i` is, or descends from, the block with
/// digest `d`: some chain of predecessor references leads there.
pub open spec fn reaches(blocks: Seq<Block>, i: int, d: Digest) -> bool
    decreases i, 1int,
{
    if 0 <= i < blocks.len() {
        digest_eq_spec(blocks[i].spec_id(), d) || exists|k: int|
            0 <= k < parent_refs(blocks[i]).len() && reaches_via(
                blocks,
                i,
                parent_refs(blocks[i])[k],
                d,
            )
    } else {
        false
    }
}

/// A step of `reaches`: the parent digest `p` resolves to an earlier
/// position from which `d` is reached.
pub open spec fn reaches_via(blocks: Seq<Block>, i: int, p: Digest, d: Digest) -> bool
    decreases i, 0int,
{
    let j = find_idx(blocks, p);
    0 <= j < i && reaches(blocks, j, d)
}

/// The block with digest `a` is an ancestor of (or the same as) the
/// block with digest `b`.
pub open spec fn is_ancestor_spec(blocks: Seq<Block>, a: Digest, b: Digest) -> bool {
    let i = find_idx(blocks, b);
    0 <= i < blocks.len() && reaches(blocks, i, a)
}

/// Some block in the store references `d` as a predecessor: `d` is
/// not a head.
pub open spec fn is_referenced(blocks: Seq<Block>, d: Digest) -> bool {
    exists|i: int, k: int|
        0 <= i < blocks.len() && 0 <= k < parent_refs(blocks[i]).len() && digest_eq_spec(
            parent_refs(blocks[i])[k],
            d,
        )
}

/// What `put_if_absent` decides for a candidate against the current
/// store, in order: a resubmission of stored bytes is a no-op, the
/// same digest over different bytes is a collision, a malformed
/// shape (a merge with fewer than two parents, a second distinct
/// genesis) is refused, a missing predecessor is refused, and
/// otherwise the block enters.
pub open spec fn put_decision(blocks: Seq<Block>, b: Block) -> Result<bool, ChainError> {
    if has_digest(blocks, b.spec_id()) {
        if exists|j: int|
            0 <= j < blocks.len() && digest_eq_spec(blocks[j].spec_id(), b.spec_id())
                && block_bytes_spec(blocks[j]) == block_bytes_spec(b) {
            Result::Ok(false)
        } else {
            Result::Err(ChainError::DuplicateBlock)
        }
    } else if (b is Merge && parent_refs(b).len() < 2) || (b is Genesis && blocks.len() > 0) || (!(b
        is Genesis) && blocks.len() == 0) {
        Result::Err(ChainError::MalformedBlock)
    } else if !parents_present(blocks, b) {
        Result::Err(ChainError::UnknownParent)
    } else {
        Result::Ok(true)
    }
}

/// Appending a fresh block whose predecessors are present, and
/// which is a genesis exactly when the store is empty, keeps the
/// store well-formed.
proof fn lemma_push_preserves_wf(blocks: Seq<Block>, b: Block)
    requires
        store_wf(blocks),
        !has_digest(blocks, b.spec_id()),
        parents_present(blocks, b),
        (b is Genesis) <==> blocks.len() == 0,
    ensures
        store_wf(blocks.push(b)),
{
    let news = blocks.push(b);
    assert(forall|x: int| 0 <= x < blocks.len() ==> news[x] == blocks[x]);
    assert(news[blocks.len() as int] == b);
    assert forall|i: int, j: int|
        0 <= i < j < news.len() implies !digest_eq_spec(news[i].spec_id(), news[j].spec_id()) by {
        if j == blocks.len() {
            assert(!digest_eq_spec(blocks[i].spec_id(), b.spec_id()));
        }
    }
    assert forall|i: int| 0 <= i < news.len() implies parents_before(news, i) by {
        if i < blocks.len() {
            assert(parents_before(blocks, i));
            assert forall|k: int|
                0 <= k < parent_refs(news[i]).len() implies has_digest_before(
                news,
                i,
                #[trigger] parent_refs(news[i])[k],
            ) by {
                assert(has_digest_before(blocks, i, parent_refs(blocks[i])[k]));
                let j = choose|j: int|
                    0 <= j < i && digest_eq_spec(blocks[j].spec_id(), parent_refs(blocks[i])[k]);
                assert(news[j] == blocks[j]);
                assert(digest_eq_spec(news[j].spec_id(), parent_refs(news[i])[k]));
            }
        } else {
            assert(news[i] == b);
            assert forall|k: int|
                0 <= k < parent_refs(news[i]).len() implies has_digest_before(
                news,
                i,
                #[trigger] parent_refs(news[i])[k],
            ) by {
                assert(has_digest(blocks, parent_refs(b)[k]));
                let j = choose|j: int|
                    0 <= j < blocks.len() && digest_eq_spec(
                        blocks[j].spec_id(),
                        parent_refs(b)[k],
                    );
                assert(news[j] == blocks[j]);
                assert(digest_eq_spec(news[j].spec_id(), parent_refs(news[i])[k]));
            }
        }
    }
}

/// The DAG of accepted blocks, keyed by digest, in admission order.
pub struct ChainStore {
    /// The accepted blocks; every predecessor stands before its
    /// children.
    pub blocks: Vec<Block>,
}

impl ChainStore {
    /// An empty store.
    pub fn new() -> (r: ChainStore)
        ensures
            r.blocks@.len() == 0,
            store_wf(r.blocks@),
    {
        ChainStore { blocks: Vec::new() }
    }

    /// The position of the block with digest `d`, if present.
    pub fn find(&self, d: &Digest) -> (r: Option<usize>)
        ensures
            match r {
                Option::Some(i) => find_idx(self.blocks@, *d) == i as int && i < self.blocks@.len()
                    && digest_eq_spec(self.blocks@[i as int].spec_id(), *d) && has_digest(
                    self.blocks@,
                    *d,
                ),
                Option::None => find_idx(self.blocks@, *d) == -1 && !has_digest(self.blocks@, *d),
            },
    {
        let mut i: usize = 0;
        while i < self.blocks.len()
            invariant
                0 <= i <= self.blocks@.len(),
                find_from(self.blocks@, *d, 0) == find_from(self.blocks@, *d, i as int),
                forall|j: int|
                    0 <= j < i ==> !digest_eq_spec(self.blocks@[j].spec_id(), *d),
            decreases self.blocks@.len() - i,
        {
            if digest_eq(self.blocks[i].id(), d) {
                return Option::Some(i);
            }
            i += 1;
        }
        Option::None
    }

    /// Retrieves the block with digest `d`, if present.
    pub fn get(&self, d: &Digest) -> (r: Option<&Block>)
        ensures
            match r {
                Option::Some(b) => has_digest(self.blocks@, *d) && *b == self.blocks@[find_idx(
                    self.blocks@,
                    *d,
                )],
                Option::None => !has_digest(self.blocks@, *d),
            },
    {
        match self.find(d) {
            Option::Some(i) => Option::Some(&self.blocks[i]),
            Option::None => Option::None,
        }
    }

    /// The configuration active at position `i`.
    fn config_at_pos_x(&self, i: usize) -> (r: Option<&SignSettings>)
        requires
            i < self.blocks@.len(),
        ensures
            match r {
                Option::Some(c) => config_at_pos(self.blocks@, i as int) == Option::Some(*c),
                Option::None => config_at_pos(self.blocks@, i as int) is None,
            },
        decreases i,
    {
        match &self.blocks[i] {
            Block::Genesis { config, .. } => Option::Some(config),
            Block::Upgrade { config, .. } => Option::Some(config),
            Block::Regular { prev, .. } => {
                match self.find(prev) {
                    Option::Some(j) => {
                        if j < i {
                            self.config_at_pos_x(j)
                        } else {
                            Option::None
                        }
                    },
                    Option::None => Option::None,
                }
            },
            Block::Merge { parents, config, .. } => match config {
                Option::Some(c) => Option::Some(c),
                Option::None => {
                    if parents.len() > 0 {
                        match self.find(&parents[0]) {
                            Option::Some(j) => {
                                if j < i {
                                    self.config_at_pos_x(j)
                                } else {
                                    Option::None
                                }
                            },
                            Option::None => Option::None,
                        }
                    } else {
                        Option::None
                    }
                },
            },
            Block::Snapshot { at, config, .. } => match config {
                Option::Some(c) => Option::Some(c),
                Option::None => {
                    match self.find(at) {
                        Option::Some(j) => {
                            if j < i {
                                self.config_at_pos_x(j)
                            } else {
                                Option::None
                            }
                        },
                        Option::None => Option::None,
                    }
                },
            },
        }
    }

    /// The configuration active at the block with digest `d`: the
    /// config that governs blocks extending `d`, found by walking
    /// back to the nearest block that installs one.
    pub fn config_at(&self, d: &Digest) -> (r: Option<&SignSettings>)
        ensures
            match r {
                Option::Some(c) => config_at_spec(self.blocks@, *d) == Option::Some(*c),
                Option::None => config_at_spec(self.blocks@, *d) is None,
            },
    {
        match self.find(d) {
            Option::Some(i) => self.config_at_pos_x(i),
            Option::None => Option::None,
        }
    }

    /// Whether some stored block references `d` as a predecessor.
    fn referenced(&self, d: &Digest) -> (r: bool)
        ensures
            r == is_referenced(self.blocks@, *d),
    {
        let mut i: usize = 0;
        while i < self.blocks.len()
            invariant
                0 <= i <= self.blocks@.len(),
                forall|x: int, k: int|
                    0 <= x < i && 0 <= k < parent_refs(self.blocks@[x]).len()
                        ==> !digest_eq_spec(parent_refs(self.blocks@[x])[k], *d),
            decreases self.blocks@.len() - i,
        {
            let ghost refs = parent_refs(self.blocks@[i as int]);
            let hit = match &self.blocks[i] {
                Block::Genesis { .. } => false,
                Block::Regular { prev, .. } => digest_eq(prev, d),
                Block::Upgrade { prev, .. } => digest_eq(prev, d),
                Block::Merge { parents, .. } => {
                    let mut k: usize = 0;
                    let mut found = false;
                    while k < parents.len()
                        invariant
                            0 <= k <= parents@.len(),
                            parents@ == parent_refs(self.blocks@[i as int]),
                            i < self.blocks@.len(),
                            found ==> exists|x: int|
                                0 <= x < parents@.len() && digest_eq_spec(parents@[x], *d),
                            !found ==> forall|x: int|
                                0 <= x < k ==> !digest_eq_spec(parents@[x], *d),
                        decreases parents@.len() - k,
                    {
                        if digest_eq(&parents[k], d) {
                            found = true;
                        }
                        k += 1;
                    }
                    found
                },
                Block::Snapshot { prev, at, .. } => digest_eq(prev, d) || digest_eq(at, d),
            };
            if hit {
                proof {
                    assert(exists|k: int|
                        0 <= k < refs.len() && digest_eq_spec(refs[k], *d)) by {
                        if digest_eq_spec(refs[0], *d) {
                            assert(0 <= 0 < refs.len() && digest_eq_spec(refs[0], *d));
                        } else if refs.len() > 1 && digest_eq_spec(refs[1], *d) {
                            assert(0 <= 1 < refs.len() && digest_eq_spec(refs[1], *d));
                        } else {
                            let x = choose|x: int|
                                0 <= x < refs.len() && digest_eq_spec(refs[x], *d);
                            assert(0 <= x < refs.len() && digest_eq_spec(refs[x], *d));
                        }
                    }
                }
                return true;
            }
            i += 1;
        }
        false
    }

    /// The digests with no known child yet: the chain tips. Every
    /// returned digest belongs to an unreferenced stored block, and
    /// every unreferenced stored block is returned.
    pub fn heads(&self) -> (r: Vec<Digest>)
        ensures
            forall|k: int|
                0 <= k < r@.len() ==> has_digest(self.blocks@, r@[k]) && !is_referenced(
                    self.blocks@,
                    r@[k],
                ),
            forall|i: int|
                0 <= i < self.blocks@.len() && !is_referenced(self.blocks@, self.blocks@[i].spec_id())
                    ==> exists|k: int|
                    0 <= k < r@.len() && digest_eq_spec(r@[k], self.blocks@[i].spec_id()),
    {
        let mut out: Vec<Digest> = Vec::new();
        let mut i: usize = 0;
        while i < self.blocks.len()
            invariant
                0 <= i <= self.blocks@.len(),
                forall|k: int|
                    0 <= k < out@.len() ==> has_digest(self.blocks@, out@[k]) && !is_referenced(
                        self.blocks@,
                        out@[k],
                    ),
                forall|x: int|
                    0 <= x < i && !is_referenced(self.blocks@, self.blocks@[x].spec_id())
                        ==> exists|k: int|
                        0 <= k < out@.len() && digest_eq_spec(out@[k], self.blocks@[x].spec_id()),
            decreases self.blocks@.len() - i,
        {
            if !self.referenced(self.blocks[i].id()) {
                let ghost old_out = out@;
                out.push(Digest { bytes: clone_bytes(&self.blocks[i].id().bytes) });
                proof {
                    assert(digest_eq_spec(out@[out@.len() - 1], self.blocks@[i as int].spec_id()));
                    assert(has_digest(self.blocks@, out@[out@.len() - 1]));
                    assert(forall|k: int|
                        0 <= k < old_out.len() ==> out@[k] == old_out[k]);
                }
            }
            i += 1;
        }
        out
    }

    /// Whether the block with digest `a` is an ancestor of, or the
    /// same as, the block with digest `b`.
    pub fn is_ancestor(&self, a: &Digest, b: &Digest) -> (r: bool)
        ensures
            r == is_ancestor_spec(self.blocks@, *a, *b),
    {
        match self.find(b) {
            Option::Some(i) => self.reaches_x(i, a),
            Option::None => false,
        }
    }

    /// Whether position `i` is, or descends from, the block with
    /// digest `d`.
    fn reaches_x(&self, i: usize, d: &Digest) -> (r: bool)
        requires
            i < self.blocks@.len(),
        ensures
            r == reaches(self.blocks@, i as int, *d),
        decreases i,
    {
        if digest_eq(self.blocks[i].id(), d) {
            return true;
        }
        let ghost refs = parent_refs(self.blocks@[i as int]);
        let found = match &self.blocks[i] {
            Block::Genesis { .. } => false,
            Block::Regular { prev, .. } => self.step_via(i, prev, d),
            Block::Upgrade { prev, .. } => self.step_via(i, prev, d),
            Block::Merge { parents, .. } => {
                let mut k: usize = 0;
                let mut hit = false;
                while k < parents.len()
                    invariant
                        0 <= k <= parents@.len(),
                        i < self.blocks@.len(),
                        parents@ == parent_refs(self.blocks@[i as int]),
                        hit ==> exists|x: int|
                            0 <= x < parents@.len() && reaches_via(
                                self.blocks@,
                                i as int,
                                parents@[x],
                                *d,
                            ),
                        !hit ==> forall|x: int|
                            0 <= x < k ==> !reaches_via(self.blocks@, i as int, parents@[x], *d),
                    decreases parents@.len() - k,
                {
                    if !hit {
                        if self.step_via(i, &parents[k], d) {
                            hit = true;
                        }
                    }
                    k += 1;
                }
                hit
            },
            Block::Snapshot { prev, at, .. } => {
                self.step_via(i, prev, d) || self.step_via(i, at, d)
            },
        };
        proof {
            if found {
                assert(exists|k: int|
                    0 <= k < refs.len() && reaches_via(self.blocks@, i as int, refs[k], *d)) by {
                    if reaches_via(self.blocks@, i as int, refs[0], *d) {
                        assert(0 <= 0 < refs.len() && reaches_via(
                            self.blocks@,
                            i as int,
                            refs[0],
                            *d,
                        ));
                    } else if refs.len() > 1 && reaches_via(self.blocks@, i as int, refs[1], *d) {
                        assert(0 <= 1 < refs.len() && reaches_via(
                            self.blocks@,
                            i as int,
                            refs[1],
                            *d,
                        ));
                    } else {
                        let x = choose|x: int|
                            0 <= x < refs.len() && reaches_via(self.blocks@, i as int, refs[x], *d);
                        assert(0 <= x < refs.len() && reaches_via(
                            self.blocks@,
                            i as int,
                            refs[x],
                            *d,
                        ));
                    }
                }
            }
        }
        found
    }

    /// One step of the ancestry walk through parent digest `p`.
    fn step_via(&self, i: usize, p: &Digest, d: &Digest) -> (r: bool)
        requires
            i < self.blocks@.len(),
        ensures
            r == reaches_via(self.blocks@, i as int, *p, *d),
        decreases i, 0int,
    {
        match self.find(p) {
            Option::Some(j) => {
                if j < i {
                    self.reaches_x(j, d)
                } else {
                    false
                }
            },
            Option::None => false,
        }
    }

    /// Inserts the block if its digest is absent. A resubmission of
    /// byte-identical content succeeds as a no-op; the same digest
    /// over different bytes is a collision and is refused; a block
    /// whose shape or predecessors the store cannot hold is refused.
    /// Signature checking is the validator's business, not this
    /// method's.
    #[verifier::rlimit(100)]
    #[verifier::spinoff_prover]
    pub fn put_if_absent(&mut self, b: Block) -> (r: Result<bool, ChainError>)
        requires
            store_wf(old(self).blocks@),
        ensures
            r == put_decision(old(self).blocks@, b),
            final(self).blocks@ == if r == Result::<bool, ChainError>::Ok(true) {
                old(self).blocks@.push(b)
            } else {
                old(self).blocks@
            },
            store_wf(final(self).blocks@),
    {
        match self.find(b.id()) {
            Option::Some(j) => {
                let stored = block_bytes(&self.blocks[j]);
                let fresh = block_bytes(&b);
                if bytes_eq(&stored, &fresh) {
                    proof {
                        assert(digest_eq_spec(self.blocks@[j as int].spec_id(), b.spec_id())
                            && block_bytes_spec(self.blocks@[j as int]) == block_bytes_spec(b));
                    }
                    Result::Ok(false)
                } else {
                    proof {
                        assert forall|x: int|
                            0 <= x < self.blocks@.len() && digest_eq_spec(
                                self.blocks@[x].spec_id(),
                                b.spec_id(),
                            ) implies x == j as int by {
                            if x != j as int {
                                assert(self.blocks@[x].spec_id().bytes@ == b.spec_id().bytes@);
                                assert(self.blocks@[j as int].spec_id().bytes@
                                    == b.spec_id().bytes@);
                                assert(digest_eq_spec(
                                    self.blocks@[x].spec_id(),
                                    self.blocks@[j as int].spec_id(),
                                ));
                                assert(digest_eq_spec(
                                    self.blocks@[j as int].spec_id(),
                                    self.blocks@[x].spec_id(),
                                ));
                                assert(store_wf(self.blocks@));
                            }
                        }
                    }
                    Result::Err(ChainError::DuplicateBlock)
                }
            },
            Option::None => {
                let malformed = match &b {
                    Block::Merge { parents, .. } => {
                        proof {
                            assert(parents@ == parent_refs(b));
                        }
                        parents.len() < 2 || self.blocks.len() == 0
                    },
                    Block::Genesis { .. } => self.blocks.len() > 0,
                    _ => self.blocks.len() == 0,
                };
                if malformed {
                    return Result::Err(ChainError::MalformedBlock);
                }
                if !self.check_parents(&b) {
                    return Result::Err(ChainError::UnknownParent);
                }
                proof {
                    lemma_push_preserves_wf(self.blocks@, b);
                }
                self.blocks.push(b);
                Result::Ok(true)
            },
        }
    }

    /// Whether every predecessor the block references is stored.
    fn check_parents(&self, b: &Block) -> (r: bool)
        ensures
            r == parents_present(self.blocks@, *b),
    {
        match b {
            Block::Genesis { .. } => {
                proof {
                    assert(parent_refs(*b).len() == 0);
                }
                true
            },
            Block::Regular { prev, .. } => {
                proof {
                    assert(parent_refs(*b) =~= seq![*prev]);
                }
                let r = self.find(prev).is_some();
                proof {
                    if r {
                        assert forall|k: int|
                            0 <= k < parent_refs(*b).len() implies has_digest(
                            self.blocks@,
                            #[trigger] parent_refs(*b)[k],
                        ) by {
                            assert(parent_refs(*b)[k] == *prev);
                        }
                    } else {
                        assert(!has_digest(self.blocks@, parent_refs(*b)[0]));
                    }
                }
                r
            },
            Block::Upgrade { prev, .. } => {
                proof {
                    assert(parent_refs(*b) =~= seq![*prev]);
                }
                let r = self.find(prev).is_some();
                proof {
                    if r {
                        assert forall|k: int|
                            0 <= k < parent_refs(*b).len() implies has_digest(
                            self.blocks@,
                            #[trigger] parent_refs(*b)[k],
                        ) by {
                            assert(parent_refs(*b)[k] == *prev);
                        }
                    } else {
                        assert(!has_digest(self.blocks@, parent_refs(*b)[0]));
                    }
                }
                r
            },
            Block::Merge { parents, .. } => {
                let mut k: usize = 0;
                while k < parents.len()
                    invariant
                        0 <= k <= parents@.len(),
                        parents@ == parent_refs(*b),
                        forall|x: int| 0 <= x < k ==> has_digest(self.blocks@, parents@[x]),
                    decreases parents@.len() - k,
                {
                    if self.find(&parents[k]).is_none() {
                        return false;
                    }
                    k += 1;
                }
                true
            },
            Block::Snapshot { prev, at, .. } => {
                proof {
                    assert(parent_refs(*b) =~= seq![*prev, *at]);
                }
                let r1 = self.find(prev).is_some();
                let r2 = self.find(at).is_some();
                proof {
                    if r1 && r2 {
                        assert forall|k: int|
                            0 <= k < parent_refs(*b).len() implies has_digest(
                            self.blocks@,
                            #[trigger] parent_refs(*b)[k],
                        ) by {
                            if k == 0 {
                                assert(parent_refs(*b)[k] == *prev);
                            } else {
                                assert(parent_refs(*b)[k] == *at);
                            }
                        }
                    } else if !r1 {
                        assert(!has_digest(self.blocks@, parent_refs(*b)[0]));
                    } else {
                        assert(!has_digest(self.blocks@, parent_refs(*b)[1]));
                    }
                }
                r1 && r2
            },
        }
    }
}

/// A copy of a byte vector, element by element.
pub fn clone_bytes(v: &Vec<u8>) -> (r: Vec<u8>)
    ensures
        r@ == v@,
{
    let mut out: Vec<u8> = Vec::new();
    let mut i: usize = 0;
    while i < v.len()
        invariant
            0 <= i <= v@.len(),
            out@ == v@.take(i as int),
        decreases v@.len() - i,
    {
        out.push(v[i]);
        proof {
            assert(out@ =~= v@.take(i as int + 1));
        }
        i += 1;
    }
    proof {
        assert(v@.take(v@.len() as int) =~= v@);
    }
    out
}

} // verus!
