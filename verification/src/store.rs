//! A model of the persisted vault state and the write operations an import
//! emits.
//!
//! Every write is an "insert unless the id is already present": reimporting
//! an already-imported id is a no-op, never an error, which is what makes a
//! client retry of the same batch safe. The safety is of the operation list:
//! re-applying the same operations stores nothing new. Re-submitting the
//! payload instead plans a fresh batch — reconciliation draws new
//! identities — so its records are inserted beside the old ones.

use vstd::prelude::*;

use crate::cipher::Cipher;
use crate::import::{Folder, ImportPlan};
use crate::json::key_is;

verus! {

/// One write operation of a persistence batch.
#[derive(Debug, PartialEq)]
pub enum WriteOp {
    PutFolder(Folder),
    PutCipher(Cipher),
}

/// The stored state: folder and item records, keyed by id.
#[derive(Debug, PartialEq)]
pub struct Store {
    pub folders: Vec<Folder>,
    pub ciphers: Vec<Cipher>,
}

/// The folder records as a map from id to record.
pub open spec fn seq_folder_map(s: Seq<Folder>) -> Map<Seq<char>, Folder>
    decreases s.len(),
{
    if s.len() == 0 {
        Map::empty()
    } else {
        seq_folder_map(s.drop_last()).insert(s.last().id@, s.last())
    }
}

/// The item records as a map from id to record.
pub open spec fn seq_cipher_map(s: Seq<Cipher>) -> Map<Seq<char>, Cipher>
    decreases s.len(),
{
    if s.len() == 0 {
        Map::empty()
    } else {
        seq_cipher_map(s.drop_last()).insert(s.last().id@, s.last())
    }
}

impl Store {
    /// The stored folders, by id.
    pub open spec fn folder_map(self) -> Map<Seq<char>, Folder> {
        seq_folder_map(self.folders@)
    }

    /// The stored items, by id.
    pub open spec fn cipher_map(self) -> Map<Seq<char>, Cipher> {
        seq_cipher_map(self.ciphers@)
    }

    /// Creates an empty store.
    pub fn new() -> (s: Store)
        ensures
            s.folder_map() == Map::<Seq<char>, Folder>::empty(),
            s.cipher_map() == Map::<Seq<char>, Cipher>::empty(),
    {
        Store { folders: Vec::new(), ciphers: Vec::new() }
    }
}

/// What one write does to the folder map: nothing when the id is present.
pub open spec fn apply_op_folders(m: Map<Seq<char>, Folder>, op: WriteOp) -> Map<Seq<char>, Folder> {
    match op {
        WriteOp::PutFolder(f) => if m.contains_key(f.id@) {
            m
        } else {
            m.insert(f.id@, f)
        },
        WriteOp::PutCipher(_) => m,
    }
}

/// What one write does to the item map: nothing when the id is present.
pub open spec fn apply_op_ciphers(m: Map<Seq<char>, Cipher>, op: WriteOp) -> Map<Seq<char>, Cipher> {
    match op {
        WriteOp::PutCipher(c) => if m.contains_key(c.id@) {
            m
        } else {
            m.insert(c.id@, c)
        },
        WriteOp::PutFolder(_) => m,
    }
}

/// What a sequence of writes, applied in order, does to the folder map.
pub open spec fn apply_ops_folders(m: Map<Seq<char>, Folder>, ops: Seq<WriteOp>) -> Map<
    Seq<char>,
    Folder,
>
    decreases ops.len(),
{
    if ops.len() == 0 {
        m
    } else {
        apply_ops_folders(apply_op_folders(m, ops[0]), ops.drop_first())
    }
}

/// What a sequence of writes, applied in order, does to the item map.
pub open spec fn apply_ops_ciphers(m: Map<Seq<char>, Cipher>, ops: Seq<WriteOp>) -> Map<
    Seq<char>,
    Cipher,
>
    decreases ops.len(),
{
    if ops.len() == 0 {
        m
    } else {
        apply_ops_ciphers(apply_op_ciphers(m, ops[0]), ops.drop_first())
    }
}

proof fn lemma_folder_map_contains(s: Seq<Folder>, k: Seq<char>)
    ensures
        seq_folder_map(s).contains_key(k) <==> exists|i: int|
            0 <= i < s.len() && (#[trigger] s[i]).id@ == k,
    decreases s.len(),
{
    if s.len() > 0 {
        lemma_folder_map_contains(s.drop_last(), k);
        if s.last().id@ == k {
            assert(s[s.len() - 1].id@ == k);
        } else if seq_folder_map(s).contains_key(k) {
            let i = choose|i: int| 0 <= i < s.len() - 1 && (#[trigger] s.drop_last()[i]).id@ == k;
            assert(s[i].id@ == k);
        } else {
            assert forall|i: int| 0 <= i < s.len() && (#[trigger] s[i]).id@ == k implies false by {
                if i < s.len() - 1 {
                    assert(s.drop_last()[i].id@ == k);
                }
            }
        }
    }
}

proof fn lemma_cipher_map_contains(s: Seq<Cipher>, k: Seq<char>)
    ensures
        seq_cipher_map(s).contains_key(k) <==> exists|i: int|
            0 <= i < s.len() && (#[trigger] s[i]).id@ == k,
    decreases s.len(),
{
    if s.len() > 0 {
        lemma_cipher_map_contains(s.drop_last(), k);
        if s.last().id@ == k {
            assert(s[s.len() - 1].id@ == k);
        } else if seq_cipher_map(s).contains_key(k) {
            let i = choose|i: int| 0 <= i < s.len() - 1 && (#[trigger] s.drop_last()[i]).id@ == k;
            assert(s[i].id@ == k);
        } else {
            assert forall|i: int| 0 <= i < s.len() && (#[trigger] s[i]).id@ == k implies false by {
                if i < s.len() - 1 {
                    assert(s.drop_last()[i].id@ == k);
                }
            }
        }
    }
}

fn store_has_folder(folders: &Vec<Folder>, id: &String) -> (b: bool)
    ensures
        b == seq_folder_map(folders@).contains_key(id@),
{
    proof {
        lemma_folder_map_contains(folders@, id@);
    }
    let n = folders.len();
    let mut i: usize = 0;
    while i < n
        invariant
            n == folders@.len(),
            i <= n,
            forall|j: int| 0 <= j < i ==> (#[trigger] folders@[j]).id@ != id@,
        decreases n - i,
    {
        if key_is(&folders[i].id, id.as_str()) {
            proof {
                lemma_folder_map_contains(folders@, id@);
            }
            return true;
        }
        i += 1;
    }
    false
}

fn store_has_cipher(ciphers: &Vec<Cipher>, id: &String) -> (b: bool)
    ensures
        b == seq_cipher_map(ciphers@).contains_key(id@),
{
    proof {
        lemma_cipher_map_contains(ciphers@, id@);
    }
    let n = ciphers.len();
    let mut i: usize = 0;
    while i < n
        invariant
            n == ciphers@.len(),
            i <= n,
            forall|j: int| 0 <= j < i ==> (#[trigger] ciphers@[j]).id@ != id@,
        decreases n - i,
    {
        if key_is(&ciphers[i].id, id.as_str()) {
            proof {
                lemma_cipher_map_contains(ciphers@, id@);
            }
            return true;
        }
        i += 1;
    }
    false
}

/// Applies one write to the store: the record is inserted unless a record
/// with its id is already stored.
pub fn apply_op(store: &mut Store, op: WriteOp)
    ensures
        final(store).folder_map() == apply_op_folders(old(store).folder_map(), op),
        final(store).cipher_map() == apply_op_ciphers(old(store).cipher_map(), op),
{
    match op {
        WriteOp::PutFolder(f) => {
            if !store_has_folder(&store.folders, &f.id) {
                let ghost before = store.folders@;
                store.folders.push(f);
                proof {
                    assert(store.folders@.drop_last() =~= before);
                }
            }
        },
        WriteOp::PutCipher(c) => {
            if !store_has_cipher(&store.ciphers, &c.id) {
                let ghost before = store.ciphers@;
                store.ciphers.push(c);
                proof {
                    assert(store.ciphers@.drop_last() =~= before);
                }
            }
        },
    }
}

/// Applies a sequence of writes, in order.
pub fn apply_ops(store: &mut Store, ops: Vec<WriteOp>)
    ensures
        final(store).folder_map() == apply_ops_folders(old(store).folder_map(), ops@),
        final(store).cipher_map() == apply_ops_ciphers(old(store).cipher_map(), ops@),
{
    let ghost ops0 = ops@;
    let ghost fm0 = store.folder_map();
    let ghost cm0 = store.cipher_map();
    let mut ops = ops;
    while ops.len() > 0
        invariant
            apply_ops_folders(fm0, ops0) == apply_ops_folders(store.folder_map(), ops@),
            apply_ops_ciphers(cm0, ops0) == apply_ops_ciphers(store.cipher_map(), ops@),
        decreases ops.len(),
    {
        let ghost prev = ops@;
        let op = ops.remove(0);
        proof {
            assert(ops@ =~= prev.drop_first());
            assert(op == prev[0]);
        }
        apply_op(store, op);
    }
    proof {
        assert(apply_ops_folders(store.folder_map(), ops@) == store.folder_map());
        assert(apply_ops_ciphers(store.cipher_map(), ops@) == store.cipher_map());
    }
}

/// The operations one reconciled plan asks the persistence layer to run:
/// every folder insert, in order, then every item insert, in order.
pub fn plan_ops(plan: ImportPlan) -> (ops: Vec<WriteOp>)
    ensures
        ops@ == plan.folders@.map_values(|f: Folder| WriteOp::PutFolder(f)) + plan.ciphers@
            .map_values(|c: Cipher| WriteOp::PutCipher(c)),
{
    let ImportPlan { folders, ciphers } = plan;
    let ghost folders0 = folders@;
    let ghost ciphers0 = ciphers@;
    let mut ops: Vec<WriteOp> = Vec::new();
    let mut folders = folders;
    while folders.len() > 0
        invariant
            folders@ =~= folders0.skip(folders0.len() - folders.len()),
            folders.len() <= folders0.len(),
            ops@ =~= folders0.take(folders0.len() - folders.len()).map_values(
                |f: Folder| WriteOp::PutFolder(f),
            ),
        decreases folders.len(),
    {
        let ghost k: int = folders0.len() - folders.len();
        let f = folders.remove(0);
        proof {
            assert(f == folders0.skip(k)[0]);
            assert(f == folders0[k]);
            assert(folders0.take(k + 1) =~= folders0.take(k).push(folders0[k]));
            assert(folders0.take(k + 1).map_values(|f: Folder| WriteOp::PutFolder(f))
                =~= folders0.take(k).map_values(|f: Folder| WriteOp::PutFolder(f)).push(
                WriteOp::PutFolder(folders0[k]),
            ));
        }
        ops.push(WriteOp::PutFolder(f));
    }
    proof {
        assert(folders0.take(folders0.len() as int) =~= folders0);
    }
    let mut ciphers = ciphers;
    while ciphers.len() > 0
        invariant
            ciphers@ =~= ciphers0.skip(ciphers0.len() - ciphers.len()),
            ciphers.len() <= ciphers0.len(),
            ops@ =~= folders0.map_values(|f: Folder| WriteOp::PutFolder(f)) + ciphers0.take(
                ciphers0.len() - ciphers.len(),
            ).map_values(|c: Cipher| WriteOp::PutCipher(c)),
        decreases ciphers.len(),
    {
        let ghost k: int = ciphers0.len() - ciphers.len();
        let c = ciphers.remove(0);
        proof {
            assert(c == ciphers0.skip(k)[0]);
            assert(c == ciphers0[k]);
            assert(ciphers0.take(k + 1) =~= ciphers0.take(k).push(ciphers0[k]));
            assert(ciphers0.take(k + 1).map_values(|c: Cipher| WriteOp::PutCipher(c))
                =~= ciphers0.take(k).map_values(|c: Cipher| WriteOp::PutCipher(c)).push(
                WriteOp::PutCipher(ciphers0[k]),
            ));
        }
        ops.push(WriteOp::PutCipher(c));
    }
    proof {
        assert(ciphers0.take(ciphers0.len() as int) =~= ciphers0);
    }
    ops
}

proof fn lemma_apply_ops_folders_monotone(m: Map<Seq<char>, Folder>, ops: Seq<WriteOp>, k: Seq<char>)
    requires
        m.contains_key(k),
    ensures
        apply_ops_folders(m, ops).contains_key(k),
    decreases ops.len(),
{
    if ops.len() > 0 {
        lemma_apply_ops_folders_monotone(apply_op_folders(m, ops[0]), ops.drop_first(), k);
    }
}

proof fn lemma_apply_ops_ciphers_monotone(m: Map<Seq<char>, Cipher>, ops: Seq<WriteOp>, k: Seq<char>)
    requires
        m.contains_key(k),
    ensures
        apply_ops_ciphers(m, ops).contains_key(k),
    decreases ops.len(),
{
    if ops.len() > 0 {
        lemma_apply_ops_ciphers_monotone(apply_op_ciphers(m, ops[0]), ops.drop_first(), k);
    }
}

proof fn lemma_apply_ops_folders_covers(m: Map<Seq<char>, Folder>, ops: Seq<WriteOp>, i: int)
    requires
        0 <= i < ops.len(),
        ops[i] is PutFolder,
    ensures
        apply_ops_folders(m, ops).contains_key(ops[i]->PutFolder_0.id@),
    decreases ops.len(),
{
    if i == 0 {
        let m1 = apply_op_folders(m, ops[0]);
        assert(m1.contains_key(ops[0]->PutFolder_0.id@));
        lemma_apply_ops_folders_monotone(m1, ops.drop_first(), ops[0]->PutFolder_0.id@);
    } else {
        lemma_apply_ops_folders_covers(apply_op_folders(m, ops[0]), ops.drop_first(), i - 1);
        assert(ops.drop_first()[i - 1] == ops[i]);
    }
}

proof fn lemma_apply_ops_ciphers_covers(m: Map<Seq<char>, Cipher>, ops: Seq<WriteOp>, i: int)
    requires
        0 <= i < ops.len(),
        ops[i] is PutCipher,
    ensures
        apply_ops_ciphers(m, ops).contains_key(ops[i]->PutCipher_0.id@),
    decreases ops.len(),
{
    if i == 0 {
        let m1 = apply_op_ciphers(m, ops[0]);
        assert(m1.contains_key(ops[0]->PutCipher_0.id@));
        lemma_apply_ops_ciphers_monotone(m1, ops.drop_first(), ops[0]->PutCipher_0.id@);
    } else {
        lemma_apply_ops_ciphers_covers(apply_op_ciphers(m, ops[0]), ops.drop_first(), i - 1);
        assert(ops.drop_first()[i - 1] == ops[i]);
    }
}

proof fn lemma_apply_ops_folders_noop(m: Map<Seq<char>, Folder>, ops: Seq<WriteOp>)
    requires
        forall|i: int|
            0 <= i < ops.len() && (#[trigger] ops[i]) is PutFolder ==> m.contains_key(
                ops[i]->PutFolder_0.id@,
            ),
    ensures
        apply_ops_folders(m, ops) == m,
    decreases ops.len(),
{
    if ops.len() > 0 {
        assert(apply_op_folders(m, ops[0]) == m);
        assert(forall|i: int|
            0 <= i < ops.drop_first().len() && (#[trigger] ops.drop_first()[i]) is PutFolder
                ==> ops.drop_first()[i] == ops[i + 1] && m.contains_key(
                ops.drop_first()[i]->PutFolder_0.id@,
            ));
        lemma_apply_ops_folders_noop(m, ops.drop_first());
    }
}

proof fn lemma_apply_ops_ciphers_noop(m: Map<Seq<char>, Cipher>, ops: Seq<WriteOp>)
    requires
        forall|i: int|
            0 <= i < ops.len() && (#[trigger] ops[i]) is PutCipher ==> m.contains_key(
                ops[i]->PutCipher_0.id@,
            ),
    ensures
        apply_ops_ciphers(m, ops) == m,
    decreases ops.len(),
{
    if ops.len() > 0 {
        assert(apply_op_ciphers(m, ops[0]) == m);
        assert(forall|i: int|
            0 <= i < ops.drop_first().len() && (#[trigger] ops.drop_first()[i]) is PutCipher
                ==> ops.drop_first()[i] == ops[i + 1] && m.contains_key(
                ops.drop_first()[i]->PutCipher_0.id@,
            ));
        lemma_apply_ops_ciphers_noop(m, ops.drop_first());
    }
}

/// Applying one batch of writes twice stores exactly what applying it once
/// stores: every insert of the second pass finds its id already present and
/// is ignored, so a client retry of the same operations is safe.
pub proof fn lemma_apply_ops_idempotent(
    fm: Map<Seq<char>, Folder>,
    cm: Map<Seq<char>, Cipher>,
    ops: Seq<WriteOp>,
)
    ensures
        apply_ops_folders(apply_ops_folders(fm, ops), ops) == apply_ops_folders(fm, ops),
        apply_ops_ciphers(apply_ops_ciphers(cm, ops), ops) == apply_ops_ciphers(cm, ops),
{
    let fm1 = apply_ops_folders(fm, ops);
    let cm1 = apply_ops_ciphers(cm, ops);
    assert forall|i: int| 0 <= i < ops.len() && (#[trigger] ops[i]) is PutFolder implies fm1
        .contains_key(ops[i]->PutFolder_0.id@) by {
        lemma_apply_ops_folders_covers(fm, ops, i);
    }
    assert forall|i: int| 0 <= i < ops.len() && (#[trigger] ops[i]) is PutCipher implies cm1
        .contains_key(ops[i]->PutCipher_0.id@) by {
        lemma_apply_ops_ciphers_covers(cm, ops, i);
    }
    lemma_apply_ops_folders_noop(fm1, ops);
    lemma_apply_ops_ciphers_noop(cm1, ops);
}

} // verus!
