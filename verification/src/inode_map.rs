//! The inode table: which path stands behind an inode number.

use std::collections::HashMap;
use vstd::prelude::*;

use crate::path;
use crate::path::{key_of, DOT};
use crate::path_index::PathIndex;

verus! {

broadcast use vstd::std_specs::hash::group_hash_axioms;

/// The inode number of the root directory of the mount.
pub const ROOT_INO: u64 = 1;

/// What an inode table holds: a path for each inode number, and an inode number for
/// each path it knows, filed under the path's key.
#[verifier::ext_equal]
pub struct InodeTable {
    pub paths: Map<u64, Seq<u8>>,
    pub inos: Map<Seq<u8>, u64>,
}

impl InodeTable {
    /// The table of a fresh mount: the root directory and nothing else.
    pub open spec fn fresh() -> InodeTable {
        InodeTable {
            paths: map![ROOT_INO => seq![DOT]],
            inos: map![path::path_key(seq![DOT]) => ROOT_INO],
        }
    }

    /// The path behind an inode number.
    pub open spec fn path_of(self, ino: u64) -> Option<Seq<u8>> {
        if self.paths.contains_key(ino) {
            Some(self.paths[ino])
        } else {
            None
        }
    }

    /// The inode number of a known path.
    pub open spec fn ino_of(self, path: Seq<u8>) -> Option<u64> {
        if self.inos.contains_key(path::path_key(path)) {
            Some(self.inos[path::path_key(path)])
        } else {
            None
        }
    }

    /// The table after `path` was seen with inode number `ino`: a path that is known
    /// keeps the number it has.
    pub open spec fn inserted(self, path: Seq<u8>, ino: u64) -> InodeTable {
        if self.ino_of(path) is Some {
            self
        } else {
            InodeTable {
                paths: self.paths.insert(ino, path),
                inos: self.inos.insert(path::path_key(path), ino),
            }
        }
    }

    /// The table after `path` was deleted.
    pub open spec fn removed(self, path: Seq<u8>) -> InodeTable {
        match self.ino_of(path) {
            Some(ino) => InodeTable {
                paths: self.paths.remove(ino),
                inos: self.inos.remove(path::path_key(path)),
            },
            None => self,
        }
    }

    /// The table after `old` was renamed to `new`: the inode number moves along.
    pub open spec fn renamed(self, old: Seq<u8>, new: Seq<u8>) -> InodeTable {
        match self.ino_of(old) {
            Some(ino) => InodeTable {
                paths: self.paths.insert(ino, new),
                inos: self.inos.remove(path::path_key(old)).insert(path::path_key(new), ino),
            },
            None => self,
        }
    }

    /// The table after `a` and `b` were exchanged: the inode number of each moves to the
    /// other path, as far as they are known.
    pub open spec fn exchanged(self, a: Seq<u8>, b: Seq<u8>) -> InodeTable {
        match (self.ino_of(a), self.ino_of(b)) {
            (Some(i), Some(j)) => InodeTable {
                paths: self.paths.insert(i, b).insert(j, a),
                inos: self.inos.insert(path::path_key(a), j).insert(path::path_key(b), i),
            },
            (Some(_), None) => self.renamed(a, b),
            (None, _) => self.renamed(b, a),
        }
    }
}

/// The inode table.
pub struct InodeMap {
    ino_to_path: HashMap<u64, Vec<u8>>,
    path_to_ino: PathIndex,
}

impl View for InodeMap {
    type V = InodeTable;

    closed spec fn view(&self) -> InodeTable {
        InodeTable {
            paths: self.ino_to_path@.map_values(|path: Vec<u8>| path@),
            inos: self.path_to_ino@,
        }
    }
}

impl InodeMap {
    /// The index of known paths is in order.
    pub closed spec fn wf(&self) -> bool {
        self.path_to_ino.wf()
    }

    /// A table that knows the root directory of the mount.
    pub fn new() -> (r: Self)
        ensures
            r.wf(),
            r@ == InodeTable::fresh(),
    {
        let mut map = InodeMap { ino_to_path: HashMap::new(), path_to_ino: PathIndex::new() };
        let mut dot: Vec<u8> = Vec::new();
        dot.push(DOT);
        assert(dot@ =~= seq![DOT]);
        let key = key_of(dot.as_slice());
        map.ino_to_path.insert(ROOT_INO, dot);
        map.path_to_ino.insert(key, ROOT_INO);
        assert(map@.paths =~= InodeTable::fresh().paths);
        assert(map@.inos =~= InodeTable::fresh().inos);
        map
    }

    /// Makes `path` known under `real_ino`, unless it is known already. Returns the
    /// number under which it is known.
    pub fn insert(&mut self, path: Vec<u8>, real_ino: u64) -> (r: u64)
        requires
            old(self).wf(),
        ensures
            final(self).wf(),
            final(self)@ == old(self)@.inserted(path@, real_ino),
            final(self)@.ino_of(path@) == Some(r),
            r == old(self)@.ino_of(path@).unwrap_or(real_ino),
    {
        let key = key_of(path.as_slice());
        if let Some(existing) = self.path_to_ino.get(key.as_slice()) {
            return existing;
        }
        let ghost p = path@;
        self.ino_to_path.insert(real_ino, path);
        self.path_to_ino.insert(key, real_ino);
        assert(self@.paths =~= old(self)@.inserted(p, real_ino).paths);
        real_ino
    }

    /// The path behind an inode number.
    pub fn get_path(&self, ino: u64) -> (r: Option<&[u8]>)
        ensures
            r is Some <==> self@.path_of(ino) is Some,
            r matches Some(path) ==> self@.path_of(ino) == Some(path@),
    {
        match self.ino_to_path.get(&ino) {
            Some(path) => Some(path.as_slice()),
            None => None,
        }
    }

    /// Forgets a path and the inode number that it is known under.
    pub fn remove_path(&mut self, path: &[u8])
        requires
            old(self).wf(),
        ensures
            final(self).wf(),
            final(self)@ == old(self)@.removed(path@),
    {
        let key = key_of(path);
        if let Some(ino) = self.path_to_ino.remove(key.as_slice()) {
            self.ino_to_path.remove(&ino);
            assert(self@.paths =~= old(self)@.removed(path@).paths);
        } else {
            assert(self@.inos =~= old(self)@.inos);
        }
    }

    /// Moves the inode number of `old` to `new_path`.
    pub fn rename(&mut self, old_path: &[u8], new_path: Vec<u8>)
        requires
            old(self).wf(),
        ensures
            final(self).wf(),
            final(self)@ == old(self)@.renamed(old_path@, new_path@),
    {
        let key = key_of(old_path);
        if let Some(ino) = self.path_to_ino.remove(key.as_slice()) {
            let new_key = key_of(new_path.as_slice());
            let ghost p = new_path@;
            self.ino_to_path.insert(ino, new_path);
            self.path_to_ino.insert(new_key, ino);
            assert(self@.paths =~= old(self)@.renamed(old_path@, p).paths);
        } else {
            assert(self@.inos =~= old(self)@.inos);
        }
    }

    /// Exchanges the inode numbers of `a` and `b`.
    pub fn exchange(&mut self, a: Vec<u8>, b: Vec<u8>)
        requires
            old(self).wf(),
        ensures
            final(self).wf(),
            final(self)@ == old(self)@.exchanged(a@, b@),
    {
        let a_key = key_of(a.as_slice());
        let b_key = key_of(b.as_slice());
        match (self.path_to_ino.get(a_key.as_slice()), self.path_to_ino.get(b_key.as_slice())) {
            (Some(i), Some(j)) => {
                let ghost p = a@;
                let ghost q = b@;
                self.ino_to_path.insert(i, b);
                self.ino_to_path.insert(j, a);
                self.path_to_ino.insert(a_key, j);
                self.path_to_ino.insert(b_key, i);
                assert(self@.paths =~= old(self)@.exchanged(p, q).paths);
            },
            (Some(_), None) => self.rename(a.as_slice(), b),
            (None, _) => self.rename(b.as_slice(), a),
        }
    }
}

/// A path that is seen for the first time is found behind its inode number, and its
/// inode number behind it.
pub proof fn law_inserted_path_is_found(t: InodeTable, p: Seq<u8>, ino: u64)
    requires
        t.ino_of(p) is None,
    ensures
        t.inserted(p, ino).path_of(ino) == Some(p),
        t.inserted(p, ino).ino_of(p) == Some(ino),
{
}

/// Seeing a path again changes nothing, whatever inode number it comes with.
pub proof fn law_insert_is_idempotent(t: InodeTable, p: Seq<u8>, ino: u64, again: u64)
    ensures
        t.inserted(p, ino).inserted(p, again) == t.inserted(p, ino),
        t.inserted(p, ino).ino_of(p) is Some,
{
}

/// Seeing a path bears on no other inode number and on no other path.
pub proof fn law_insert_keeps_the_others(
    t: InodeTable,
    p: Seq<u8>,
    ino: u64,
    other_ino: u64,
    other: Seq<u8>,
)
    requires
        other_ino != ino,
        path::components(other) != path::components(p),
    ensures
        t.inserted(p, ino).path_of(other_ino) == t.path_of(other_ino),
        t.inserted(p, ino).ino_of(other) == t.ino_of(other),
{
    path::law_path_key_is_path_identity(p, other);
}

/// A deleted path is unknown, and so is the inode number it was known under; every
/// other inode number and path stays as it was.
pub proof fn law_removed_path_is_forgotten(
    t: InodeTable,
    p: Seq<u8>,
    other_ino: u64,
    other: Seq<u8>,
)
    requires
        t.ino_of(p) != Some(other_ino),
        path::components(other) != path::components(p),
    ensures
        t.removed(p).ino_of(p) is None,
        t.ino_of(p) matches Some(ino) ==> t.removed(p).path_of(ino) is None,
        t.removed(p).path_of(other_ino) == t.path_of(other_ino),
        t.removed(p).ino_of(other) == t.ino_of(other),
{
    path::law_path_key_is_path_identity(p, other);
}

/// Deleting a path undoes its first appearance under a new inode number.
pub proof fn law_remove_undoes_insert(t: InodeTable, p: Seq<u8>, ino: u64)
    requires
        t.ino_of(p) is None,
        t.path_of(ino) is None,
    ensures
        t.inserted(p, ino).removed(p) == t,
{
    assert(t.inserted(p, ino).removed(p) =~= t);
}

/// After a rename the inode number leads to the new path and the new path to the
/// inode number, the old path is unknown, and nothing else has changed.
pub proof fn law_rename_moves_the_inode_number(
    t: InodeTable,
    from: Seq<u8>,
    to: Seq<u8>,
    ino: u64,
    other_ino: u64,
    other: Seq<u8>,
)
    requires
        t.ino_of(from) == Some(ino),
        other_ino != ino,
        path::components(other) != path::components(from),
        path::components(other) != path::components(to),
    ensures
        t.renamed(from, to).path_of(ino) == Some(to),
        t.renamed(from, to).ino_of(to) == Some(ino),
        path::components(from) != path::components(to) ==> t.renamed(from, to).ino_of(from) is None,
        t.renamed(from, to).path_of(other_ino) == t.path_of(other_ino),
        t.renamed(from, to).ino_of(other) == t.ino_of(other),
{
    path::law_path_key_is_path_identity(from, to);
    path::law_path_key_is_path_identity(from, other);
    path::law_path_key_is_path_identity(to, other);
}

/// Renaming to an unused path and back again restores the table.
pub proof fn law_rename_back_restores(t: InodeTable, from: Seq<u8>, to: Seq<u8>, ino: u64)
    requires
        t.ino_of(from) == Some(ino),
        t.path_of(ino) == Some(from),
        t.ino_of(to) is None,
    ensures
        t.renamed(from, to).renamed(to, from) == t,
{
    assert(t.renamed(from, to).renamed(to, from) =~= t);
}

/// After an exchange each of the two inode numbers leads to the path of the other and that
/// path to it, and nothing else has changed.
pub proof fn law_exchange_swaps_the_inode_numbers(
    t: InodeTable,
    a: Seq<u8>,
    b: Seq<u8>,
    i: u64,
    j: u64,
    other_ino: u64,
    other: Seq<u8>,
)
    requires
        t.ino_of(a) == Some(i),
        t.ino_of(b) == Some(j),
        i != j,
        other_ino != i,
        other_ino != j,
        path::components(other) != path::components(a),
        path::components(other) != path::components(b),
    ensures
        t.exchanged(a, b).path_of(i) == Some(b),
        t.exchanged(a, b).path_of(j) == Some(a),
        t.exchanged(a, b).ino_of(a) == Some(j),
        t.exchanged(a, b).ino_of(b) == Some(i),
        t.exchanged(a, b).path_of(other_ino) == t.path_of(other_ino),
        t.exchanged(a, b).ino_of(other) == t.ino_of(other),
{
    path::law_path_key_is_path_identity(a, other);
    path::law_path_key_is_path_identity(b, other);
}

/// Exchanging two known paths twice restores the table.
pub proof fn law_exchange_undoes_itself(
    t: InodeTable,
    a: Seq<u8>,
    b: Seq<u8>,
    i: u64,
    j: u64,
)
    requires
        t.ino_of(a) == Some(i),
        t.ino_of(b) == Some(j),
        t.path_of(i) == Some(a),
        t.path_of(j) == Some(b),
    ensures
        t.exchanged(a, b).exchanged(a, b) == t,
{
    assert(t.exchanged(a, b).exchanged(a, b) =~= t);
}

/// Each inode number leads to a path that leads back to it.
pub open spec fn is_consistent(t: InodeTable) -> bool {
    forall|ino: u64| #[trigger]
        t.paths.contains_key(ino) ==> t.ino_of(t.paths[ino]) == Some(ino)
}

/// The table of a fresh mount is consistent, and it stays so under every operation
/// but a rename onto a path that is known already.
pub proof fn law_consistency_is_kept(t: InodeTable, p: Seq<u8>, q: Seq<u8>, ino: u64)
    requires
        is_consistent(t),
    ensures
        is_consistent(InodeTable::fresh()),
        is_consistent(t.inserted(p, ino)),
        is_consistent(t.removed(p)),
        t.ino_of(q) is None || t.ino_of(q) == t.ino_of(p) ==> is_consistent(t.renamed(p, q)),
        is_consistent(t.exchanged(p, q)),
{
}

/// The root directory keeps its inode number: no operation on another inode number
/// takes it away.
pub proof fn law_root_keeps_its_inode_number(t: InodeTable, p: Seq<u8>, q: Seq<u8>, ino: u64)
    requires
        t.path_of(ROOT_INO) == Some(seq![DOT]),
        t.ino_of(p) != Some(ROOT_INO),
        ino != ROOT_INO,
    ensures
        InodeTable::fresh().path_of(ROOT_INO) == Some(seq![DOT]),
        t.inserted(p, ino).path_of(ROOT_INO) == Some(seq![DOT]),
        t.removed(p).path_of(ROOT_INO) == Some(seq![DOT]),
        t.renamed(p, q).path_of(ROOT_INO) == Some(seq![DOT]),
        t.ino_of(q) != Some(ROOT_INO) ==> t.exchanged(p, q).path_of(ROOT_INO) == Some(seq![DOT]),
{
}

/// A fresh table leads from the number 1 to the path `.` and back, and knows nothing else.
pub proof fn law_fresh_table_holds_the_root(ino: u64, q: Seq<u8>)
    ensures
        InodeTable::fresh().path_of(ino) == if ino == 1 {
            Some(seq![0x2eu8])
        } else {
            None
        },
        InodeTable::fresh().ino_of(q) == if path::components(q) == path::components(seq![0x2eu8]) {
            Some(1u64)
        } else {
            None
        },
{
    path::law_path_key_is_path_identity(q, seq![0x2eu8]);
}

/// The table answers with what it holds, for every number and every path. Paths with the
/// same components are the same to it.
pub proof fn law_table_answers_with_what_it_holds(t: InodeTable, ino: u64, p: Seq<u8>, q: Seq<u8>)
    ensures
        t.path_of(ino) is Some <==> t.paths.dom().contains(ino),
        t.path_of(ino) matches Some(held) ==> held == t.paths[ino],
        t.ino_of(p) is Some <==> t.inos.dom().contains(path::path_key(p)),
        t.ino_of(p) matches Some(held) ==> held == t.inos[path::path_key(p)],
        path::components(p) == path::components(q) ==> t.ino_of(p) == t.ino_of(q),
{
    path::law_path_key_is_path_identity(p, q);
}

/// What the table answers after a path was seen: for the path and the number it came with,
/// where the path was unknown, each other; else what it answered before.
pub proof fn law_answers_after_insert(t: InodeTable, p: Seq<u8>, ino: u64, k: u64, q: Seq<u8>)
    ensures
        t.inserted(p, ino).path_of(k) == if t.ino_of(p) is None && k == ino {
            Some(p)
        } else {
            t.path_of(k)
        },
        t.inserted(p, ino).ino_of(q) == if t.ino_of(p) is None && path::components(q)
            == path::components(p) {
            Some(ino)
        } else {
            t.ino_of(q)
        },
{
    path::law_path_key_is_path_identity(p, q);
}

/// What the table answers after a path was deleted: nothing for the path and for the number
/// it was known under; else what it answered before.
pub proof fn law_answers_after_remove(t: InodeTable, p: Seq<u8>, k: u64, q: Seq<u8>)
    ensures
        t.removed(p).path_of(k) == if t.ino_of(p) == Some(k) {
            None
        } else {
            t.path_of(k)
        },
        t.removed(p).ino_of(q) == if path::components(q) == path::components(p) {
            None
        } else {
            t.ino_of(q)
        },
{
    path::law_path_key_is_path_identity(p, q);
}

/// What the table answers after a rename: the number that `from` was known under and `to`
/// lead to each other, and `from` is unknown; else what it answered before. Where `from` was
/// unknown, nothing has changed.
pub proof fn law_answers_after_rename(
    t: InodeTable,
    from: Seq<u8>,
    to: Seq<u8>,
    k: u64,
    q: Seq<u8>,
)
    ensures
        t.ino_of(from) is None ==> t.renamed(from, to) == t,
        t.ino_of(from) matches Some(ino) ==> {
            &&& t.renamed(from, to).path_of(k) == if k == ino {
                Some(to)
            } else {
                t.path_of(k)
            }
            &&& t.renamed(from, to).ino_of(q) == if path::components(q) == path::components(to) {
                Some(ino)
            } else if path::components(q) == path::components(from) {
                None
            } else {
                t.ino_of(q)
            }
        },
{
    path::law_path_key_is_path_identity(from, to);
    path::law_path_key_is_path_identity(from, q);
    path::law_path_key_is_path_identity(to, q);
}

/// What the table answers after an exchange: the numbers of the two paths have changed
/// places. Where one of them was unknown, the other has moved there.
pub proof fn law_answers_after_exchange(t: InodeTable, a: Seq<u8>, b: Seq<u8>, k: u64, q: Seq<u8>)
    ensures
        t.ino_of(a) matches Some(i) ==> t.ino_of(b) matches Some(j) ==> {
            &&& t.exchanged(a, b).path_of(k) == if k == j {
                Some(a)
            } else if k == i {
                Some(b)
            } else {
                t.path_of(k)
            }
            &&& t.exchanged(a, b).ino_of(q) == if path::components(q) == path::components(a) {
                Some(j)
            } else if path::components(q) == path::components(b) {
                Some(i)
            } else {
                t.ino_of(q)
            }
        },
        t.ino_of(a) is Some && t.ino_of(b) is None ==> t.exchanged(a, b) == t.renamed(a, b),
        t.ino_of(a) is None && t.ino_of(b) is Some ==> t.exchanged(a, b) == t.renamed(b, a),
        t.ino_of(a) is None && t.ino_of(b) is None ==> t.exchanged(a, b) == t,
{
    path::law_path_key_is_path_identity(a, b);
    path::law_path_key_is_path_identity(a, q);
    path::law_path_key_is_path_identity(b, q);
}

} // verus!
