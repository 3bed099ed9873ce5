use vstd::prelude::*;
use crate::layout::concat;

verus! {

/// An entry of a source tree, found by walking it: its path relative to the
/// tree's root, with `/` between components, and whether it is a directory.
/// A directory comes before the entries inside it.
pub struct TreeEntry {
    pub path: String,
    pub is_dir: bool,
}

/// One step of a merge.
pub enum MergeOp {
    CreateDir(String),
    CopyFile { from: String, to: String },
}

/// A step of a merge, over paths.
pub enum MergeOpView {
    CreateDir(Seq<char>),
    CopyFile { from: Seq<char>, to: Seq<char> },
}

impl View for MergeOp {
    type V = MergeOpView;

    open spec fn view(&self) -> MergeOpView {
        match self {
            MergeOp::CreateDir(p) => MergeOpView::CreateDir(p@),
            MergeOp::CopyFile { from, to } => MergeOpView::CopyFile { from: from@, to: to@ },
        }
    }
}

pub open spec fn ops_view(ops: Seq<MergeOp>) -> Seq<MergeOpView> {
    ops.map_values(|o: MergeOp| o@)
}

/// `rel` inside the directory `dir`.
pub open spec fn join_spec(dir: Seq<char>, rel: Seq<char>) -> Seq<char> {
    if dir.len() > 0 && dir.last() == '/' {
        dir + rel
    } else {
        dir + "/"@ + rel
    }
}

pub fn join(dir: &str, rel: &str) -> (r: String)
    ensures
        r@ == join_spec(dir@, rel@),
{
    let n = dir.unicode_len();
    if n > 0 && dir.get_char(n - 1) == '/' {
        concat(dir, rel)
    } else {
        let d = concat(dir, "/");
        concat(d.as_str(), rel)
    }
}

/// The step that merges one entry of the source tree.
pub open spec fn entry_op(from: Seq<char>, to: Seq<char>, e: (Seq<char>, bool)) -> MergeOpView {
    if e.1 {
        MergeOpView::CreateDir(join_spec(to, e.0))
    } else {
        MergeOpView::CopyFile { from: join_spec(from, e.0), to: join_spec(to, e.0) }
    }
}

pub open spec fn listing_view(l: Seq<TreeEntry>) -> Seq<(Seq<char>, bool)> {
    l.map_values(|e: TreeEntry| (e.path@, e.is_dir))
}

/// The plan of a merge: create the destination, then each directory of the
/// source under it and copy each file of the source to the same relative
/// path, in the order of the walk.
pub open spec fn plan_spec(from: Seq<char>, to: Seq<char>, l: Seq<(Seq<char>, bool)>) -> Seq<
    MergeOpView,
> {
    seq![MergeOpView::CreateDir(to)] + l.map_values(|e: (Seq<char>, bool)| entry_op(from, to, e))
}

/// The steps that merge the tree at `from` into the directory `to`. Nothing
/// is removed from the destination; a file of the same name is overwritten.
/// The program performs the steps in order, and a step that fails is reported
/// and skipped.
pub fn copy_files(from: &str, to: &str, listing: &Vec<TreeEntry>) -> (r: Vec<MergeOp>)
    ensures
        ops_view(r@) == plan_spec(from@, to@, listing_view(listing@)),
{
    let ghost lv = listing_view(listing@);
    let mut r: Vec<MergeOp> = Vec::new();
    r.push(MergeOp::CreateDir(String::from_str(to)));
    let mut i: usize = 0;
    while i < listing.len()
        invariant
            i <= listing@.len(),
            lv == listing_view(listing@),
            ops_view(r@) =~= seq![MergeOpView::CreateDir(to@)] + lv.take(i as int).map_values(
                |e: (Seq<char>, bool)| entry_op(from@, to@, e),
            ),
        decreases listing@.len() - i,
    {
        let e = &listing[i];
        assert(lv[i as int] == (e.path@, e.is_dir));
        let ghost before = r@;
        if e.is_dir {
            r.push(MergeOp::CreateDir(join(to, e.path.as_str())));
        } else {
            r.push(MergeOp::CopyFile { from: join(from, e.path.as_str()), to: join(to, e.path.as_str()) });
        }
        proof {
            assert(r@ =~= before.push(r@.last()));
            assert(ops_view(r@) =~= ops_view(before).push(entry_op(from@, to@, lv[i as int])));
            assert(lv.take(i as int + 1) =~= lv.take(i as int).push(lv[i as int]));
            assert(lv.take(i as int + 1).map_values(|e: (Seq<char>, bool)| entry_op(from@, to@, e))
                =~= lv.take(i as int).map_values(|e: (Seq<char>, bool)| entry_op(from@, to@, e)).push(
                entry_op(from@, to@, lv[i as int]),
            ));
        }
        i = i + 1;
    }
    assert(lv.take(i as int) =~= lv);
    r
}

/// The files of a file system, by path.
pub type Files = Map<Seq<char>, Seq<u8>>;

/// The effect of a step on the files: a copy whose source exists writes the
/// source's contents at the target; a copy that fails, and creating a
/// directory, change no file.
pub open spec fn apply_op(fs: Files, op: MergeOpView) -> Files {
    match op {
        MergeOpView::CreateDir(_) => fs,
        MergeOpView::CopyFile { from, to } => if fs.contains_key(from) {
            fs.insert(to, fs[from])
        } else {
            fs
        },
    }
}

/// The effect of the steps, in order.
pub open spec fn apply_ops(fs: Files, ops: Seq<MergeOpView>) -> Files
    decreases ops.len(),
{
    if ops.len() == 0 {
        fs
    } else {
        apply_op(apply_ops(fs, ops.drop_last()), ops.last())
    }
}

/// Whether a step writes the path.
pub open spec fn writes(op: MergeOpView, p: Seq<char>) -> bool {
    op is CopyFile && op->to == p
}

/// No step reads a path that a step writes: the source tree does not lie
/// inside the destination.
pub open spec fn sources_apart(ops: Seq<MergeOpView>) -> bool {
    forall|i: int, j: int|
        0 <= i < ops.len() && 0 <= j < ops.len() && (#[trigger] ops[i]) is CopyFile ==> !writes(
            #[trigger] ops[j],
            ops[i]->from,
        )
}

/// The writes of the steps when the sources hold what they hold in `fs`.
pub open spec fn written(fs: Files, ops: Seq<MergeOpView>) -> Files
    decreases ops.len(),
{
    if ops.len() == 0 {
        Map::empty()
    } else {
        let w = written(fs, ops.drop_last());
        let op = ops.last();
        if op is CopyFile && fs.contains_key(op->from) {
            w.insert(op->to, fs[op->from])
        } else {
            w
        }
    }
}

proof fn lemma_written_dom(fs: Files, ops: Seq<MergeOpView>, p: Seq<char>)
    requires
        written(fs, ops).contains_key(p),
    ensures
        exists|j: int| 0 <= j < ops.len() && writes(#[trigger] ops[j], p),
    decreases ops.len(),
{
    let init = ops.drop_last();
    let op = ops.last();
    if op is CopyFile && fs.contains_key(op->from) && op->to == p {
        assert(writes(ops[ops.len() - 1], p));
    } else {
        lemma_written_dom(fs, init, p);
        let j = choose|j: int| 0 <= j < init.len() && writes(#[trigger] init[j], p);
        assert(ops[j] == init[j]);
    }
}

proof fn lemma_apply_written(fs: Files, g: Files, ops: Seq<MergeOpView>)
    requires
        sources_apart(ops),
        forall|i: int| 0 <= i < ops.len() && (#[trigger] ops[i]) is CopyFile ==> (g.contains_key(
            ops[i]->from,
        ) == fs.contains_key(ops[i]->from) && (fs.contains_key(ops[i]->from) ==> g[ops[i]->from]
            == fs[ops[i]->from])),
    ensures
        apply_ops(g, ops) == g.union_prefer_right(written(fs, ops)),
    decreases ops.len(),
{
    if ops.len() == 0 {
        assert(g.union_prefer_right(Map::empty()) =~= g);
    } else {
        let init = ops.drop_last();
        let op = ops.last();
        assert forall|i: int, j: int|
            0 <= i < init.len() && 0 <= j < init.len() && (#[trigger] init[i]) is CopyFile implies !writes(
            #[trigger] init[j],
            init[i]->from,
        ) by {
            assert(init[i] == ops[i] && init[j] == ops[j]);
        }
        assert forall|i: int| 0 <= i < init.len() && (#[trigger] init[i]) is CopyFile implies (g.contains_key(
            init[i]->from,
        ) == fs.contains_key(init[i]->from) && (fs.contains_key(init[i]->from) ==> g[init[i]->from]
            == fs[init[i]->from])) by {
            assert(init[i] == ops[i]);
        }
        lemma_apply_written(fs, g, init);
        let w = written(fs, init);
        let before = g.union_prefer_right(w);
        if op is CopyFile {
            let k = ops.len() - 1;
            assert(ops[k] == op);
            if w.contains_key(op->from) {
                lemma_written_dom(fs, init, op->from);
                let j = choose|j: int| 0 <= j < init.len() && writes(#[trigger] init[j], op->from);
                assert(ops[j] == init[j]);
                assert(!writes(ops[j], ops[k]->from));
            }
            if fs.contains_key(op->from) {
                assert(apply_ops(g, ops) =~= g.union_prefer_right(written(fs, ops)));
            } else {
                assert(apply_ops(g, ops) =~= g.union_prefer_right(written(fs, ops)));
            }
        } else {
            assert(apply_ops(g, ops) =~= g.union_prefer_right(written(fs, ops)));
        }
    }
}

/// A merge is idempotent: merging the same source into the same destination
/// a second time changes nothing, where the source does not lie inside the
/// destination.
pub proof fn lemma_merge_idempotent(fs: Files, from: Seq<char>, to: Seq<char>, listing: Seq<(Seq<char>, bool)>)
    requires
        sources_apart(plan_spec(from, to, listing)),
    ensures
        apply_ops(apply_ops(fs, plan_spec(from, to, listing)), plan_spec(from, to, listing))
            == apply_ops(fs, plan_spec(from, to, listing)),
{
    let ops = plan_spec(from, to, listing);
    lemma_apply_written(fs, fs, ops);
    let w = written(fs, ops);
    let once = fs.union_prefer_right(w);
    assert forall|i: int| 0 <= i < ops.len() && (#[trigger] ops[i]) is CopyFile implies (once.contains_key(
        ops[i]->from,
    ) == fs.contains_key(ops[i]->from) && (fs.contains_key(ops[i]->from) ==> once[ops[i]->from]
        == fs[ops[i]->from])) by {
        if w.contains_key(ops[i]->from) {
            lemma_written_dom(fs, ops, ops[i]->from);
            let j = choose|j: int| 0 <= j < ops.len() && writes(#[trigger] ops[j], ops[i]->from);
        }
    }
    lemma_apply_written(fs, once, ops);
    assert(once.union_prefer_right(w) =~= once);
}

proof fn lemma_apply_keeps(fs: Files, ops: Seq<MergeOpView>)
    ensures
        forall|p: Seq<char>| fs.contains_key(p) ==> #[trigger] apply_ops(fs, ops).contains_key(p),
        forall|p: Seq<char>|
            fs.contains_key(p) && (forall|j: int| 0 <= j < ops.len() ==> !writes(#[trigger] ops[j], p))
                ==> #[trigger] apply_ops(fs, ops)[p] == fs[p],
    decreases ops.len(),
{
    if ops.len() > 0 {
        let init = ops.drop_last();
        lemma_apply_keeps(fs, init);
        let prev = apply_ops(fs, init);
        assert(apply_ops(fs, ops) == apply_op(prev, ops.last()));
        assert forall|p: Seq<char>| fs.contains_key(p) implies #[trigger] apply_ops(fs, ops).contains_key(p) by {
            assert(prev.contains_key(p));
        }
        assert forall|p: Seq<char>|
            fs.contains_key(p) && (forall|j: int| 0 <= j < ops.len() ==> !writes(#[trigger] ops[j], p))
                implies #[trigger] apply_ops(fs, ops)[p] == fs[p] by {
            assert forall|j: int| 0 <= j < init.len() implies !writes(#[trigger] init[j], p) by {
                assert(init[j] == ops[j]);
            }
            assert(!writes(ops[ops.len() - 1], p));
            assert(prev[p] == fs[p]);
        }
    }
}

/// A merge is not destructive: every file of the destination file system
/// is still there after it, and one that the merge does not overwrite keeps
/// its contents.
pub proof fn lemma_merge_keeps_files(fs: Files, from: Seq<char>, to: Seq<char>, listing: Seq<(Seq<char>, bool)>)
    ensures
        forall|p: Seq<char>|
            fs.contains_key(p) ==> #[trigger] apply_ops(fs, plan_spec(from, to, listing)).contains_key(p),
        forall|p: Seq<char>|
            fs.contains_key(p) && (forall|j: int|
                0 <= j < plan_spec(from, to, listing).len() ==> !writes(
                    #[trigger] plan_spec(from, to, listing)[j],
                    p,
                )) ==> #[trigger] apply_ops(fs, plan_spec(from, to, listing))[p] == fs[p],
{
    lemma_apply_keeps(fs, plan_spec(from, to, listing));
}

} // verus!
