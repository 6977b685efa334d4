//! Unix paths as byte strings: components, joining, parents and file names.

use vstd::prelude::*;
use vstd::slice::{slice_subrange, slice_to_vec};

verus! {

/// The separator `/`.
pub const SEPARATOR: u8 = 0x2f;

/// The byte `.`.
pub const DOT: u8 = 0x2e;

/// Where the last segment of `p` starts: just behind the last separator, or at
/// the front where there is none.
pub open spec fn last_start(p: Seq<u8>) -> int
    decreases p.len(),
{
    if p.len() == 0 {
        0
    } else if p.last() == SEPARATOR {
        p.len() as int
    } else {
        last_start(p.drop_last())
    }
}

/// A segment that adds no component behind the first one: the empty segment
/// between two separators, and `.`.
pub open spec fn is_trivial(segment: Seq<u8>) -> bool {
    segment.len() == 0 || segment == seq![DOT]
}

/// The components of a path. The root directory of an absolute path is the empty
/// component in front. Repeated and trailing separators add nothing, nor does a
/// `.` anywhere but at the front of a relative path. Two paths name the same entry
/// of the inode table exactly if their components are equal.
pub open spec fn components(p: Seq<u8>) -> Seq<Seq<u8>>
    decreases p.len(),
{
    if p.len() == 0 {
        Seq::empty()
    } else {
        let k = last_start(p);
        let segment = p.skip(k);
        if k <= 0 {
            seq![segment]
        } else {
            let before = if k == 1 {
                seq![Seq::<u8>::empty()]
            } else {
                proof {
                    lemma_last_start(p);
                }
                components(p.take(k - 1))
            };
            if is_trivial(segment) {
                before
            } else {
                before.push(segment)
            }
        }
    }
}

/// The components that stand in front of the segment that starts at `k`.
pub open spec fn components_before(p: Seq<u8>, k: int) -> Seq<Seq<u8>> {
    if k <= 0 {
        Seq::empty()
    } else if k == 1 {
        seq![Seq::empty()]
    } else {
        components(p.take(k - 1))
    }
}

/// Components written one behind the other, each closed by a separator.
pub open spec fn encode(components: Seq<Seq<u8>>) -> Seq<u8>
    decreases components.len(),
{
    if components.len() == 0 {
        Seq::empty()
    } else {
        encode(components.drop_last()) + components.last().push(SEPARATOR)
    }
}

/// The key under which the inode table files a path.
pub open spec fn path_key(p: Seq<u8>) -> Seq<u8> {
    encode(components(p))
}

/// `p` followed by `name`: an absolute `name` replaces `p`, otherwise one separator
/// stands between the two unless `p` is empty or ends in one.
pub open spec fn joined(p: Seq<u8>, name: Seq<u8>) -> Seq<u8> {
    if name.len() > 0 && name[0] == SEPARATOR {
        name
    } else if p.len() > 0 && p.last() != SEPARATOR {
        p.push(SEPARATOR) + name
    } else {
        p + name
    }
}

/// The shortest prefix of `p` with the same components: `p` without trailing
/// separators and trailing `.` segments.
pub open spec fn trimmed(p: Seq<u8>) -> Seq<u8>
    decreases p.len(),
{
    let k = last_start(p);
    if p.len() == 0 || k <= 0 || !is_trivial(p.skip(k)) {
        p
    } else if k == 1 {
        p.take(1)
    } else {
        proof {
            lemma_last_start(p);
        }
        trimmed(p.take(k - 1))
    }
}

/// The path without its final component; `None` for the root directory and for the
/// empty path.
pub open spec fn parent_of(p: Seq<u8>) -> Option<Seq<u8>> {
    let t = trimmed(p);
    let k = last_start(t);
    if t.len() == 0 || t == seq![SEPARATOR] {
        None
    } else if k <= 0 {
        Some(Seq::empty())
    } else if k == 1 {
        Some(t.take(1))
    } else {
        Some(trimmed(t.take(k - 1)))
    }
}

/// The final component where that is a plain name; empty where the path ends in the
/// root directory, in `.` or in `..`, or has no component.
pub open spec fn file_name_of(p: Seq<u8>) -> Seq<u8> {
    let c = components(p);
    if c.len() == 0 || c.last() == seq![DOT] || c.last() == seq![DOT, DOT] {
        Seq::empty()
    } else {
        c.last()
    }
}

/// The path that is handed to the kernel: `p` itself, or `.` where `p` holds a NUL
/// byte and so cannot be a C string.
pub open spec fn c_path_of(p: Seq<u8>) -> Seq<u8> {
    if p.contains(0u8) {
        seq![DOT]
    } else {
        p
    }
}

/// `p` as seen from inside the mount: without the `./` that leads from the root
/// directory of the mount to its entries.
pub open spec fn mount_relative(p: Seq<u8>) -> Seq<u8> {
    if p.len() >= 2 && p[0] == DOT && p[1] == SEPARATOR {
        p.skip(2)
    } else {
        p
    }
}

pub proof fn lemma_last_start(p: Seq<u8>)
    ensures
        0 <= last_start(p) <= p.len(),
        last_start(p) > 0 ==> p[last_start(p) - 1] == SEPARATOR,
        forall|i: int| last_start(p) <= i < p.len() ==> p[i] != SEPARATOR,
    decreases p.len(),
{
    if p.len() > 0 && p.last() != SEPARATOR {
        lemma_last_start(p.drop_last());
        assert forall|i: int| last_start(p) <= i < p.len() implies p[i] != SEPARATOR by {
            if i < p.len() - 1 {
                assert(p.drop_last()[i] == p[i]);
            }
        }
    }
}

/// `last_start` is the only position with its two properties.
proof fn lemma_last_start_unique(p: Seq<u8>, k: int)
    requires
        0 <= k <= p.len(),
        k > 0 ==> p[k - 1] == SEPARATOR,
        forall|i: int| k <= i < p.len() ==> p[i] != SEPARATOR,
    ensures
        last_start(p) == k,
{
    lemma_last_start(p);
    if last_start(p) < k {
        assert(p[k - 1] != SEPARATOR);
    }
}

/// The components of the prefix of `p` that ends at `i`, with `k` the start of its
/// last segment.
proof fn lemma_components_of_prefix(p: Seq<u8>, k: int, i: int)
    requires
        0 <= k <= i <= p.len(),
        0 < i,
        k > 0 ==> p[k - 1] == SEPARATOR,
        forall|j: int| k <= j < i ==> p[j] != SEPARATOR,
    ensures
        components(p.take(i)) == if k == 0 {
            seq![p.subrange(k, i)]
        } else if is_trivial(p.subrange(k, i)) {
            components_before(p, k)
        } else {
            components_before(p, k).push(p.subrange(k, i))
        },
{
    let q = p.take(i);
    lemma_last_start_unique(q, k);
    assert(q.skip(k) =~= p.subrange(k, i));
    if k > 1 {
        assert(q.take(k - 1) =~= p.take(k - 1));
    }
}

/// No component holds a separator.
proof fn lemma_components_no_separator(p: Seq<u8>)
    ensures
        forall|i: int| 0 <= i < components(p).len() ==> !(#[trigger] components(p)[i]).contains(
            SEPARATOR,
        ),
    decreases p.len(),
{
    if p.len() > 0 {
        let k = last_start(p);
        lemma_last_start(p);
        let segment = p.skip(k);
        assert(!segment.contains(SEPARATOR)) by {
            if segment.contains(SEPARATOR) {
                let j = choose|j: int| 0 <= j < segment.len() && segment[j] == SEPARATOR;
                assert(p[k + j] == SEPARATOR);
            }
        }
        let before = components_before(p, k);
        if k > 1 {
            lemma_components_no_separator(p.take(k - 1));
        }
        assert forall|i: int| 0 <= i < components(p).len() implies !(#[trigger] components(
            p,
        )[i]).contains(SEPARATOR) by {
            if k > 0 && i < before.len() {
                assert(components(p)[i] == before[i]);
            } else {
                assert(components(p)[i] == segment);
            }
        }
    }
}

/// Separator-free components can be read back from their encoding.
proof fn lemma_encode_injective(a: Seq<Seq<u8>>, b: Seq<Seq<u8>>)
    requires
        forall|i: int| 0 <= i < a.len() ==> !(#[trigger] a[i]).contains(SEPARATOR),
        forall|i: int| 0 <= i < b.len() ==> !(#[trigger] b[i]).contains(SEPARATOR),
        encode(a) == encode(b),
    ensures
        a == b,
    decreases a.len(),
{
    if a.len() == 0 || b.len() == 0 {
        assert(a =~= b);
    } else {
        let x = a.last();
        let y = b.last();
        let ea = encode(a.drop_last());
        let eb = encode(b.drop_last());
        assert(encode(a) == ea + x.push(SEPARATOR));
        assert(encode(b) == eb + y.push(SEPARATOR));
        lemma_encode_end(a.drop_last());
        lemma_encode_end(b.drop_last());
        if x.len() > y.len() {
            assert(eb.len() > 0);
            let at = eb.len() - 1 - ea.len();
            assert(encode(b)[eb.len() - 1] == SEPARATOR);
            assert(encode(a)[eb.len() - 1] == x[at]);
            assert(a[a.len() - 1].contains(SEPARATOR));
        }
        if y.len() > x.len() {
            assert(ea.len() > 0);
            let at = ea.len() - 1 - eb.len();
            assert(encode(a)[ea.len() - 1] == SEPARATOR);
            assert(encode(b)[ea.len() - 1] == y[at]);
            assert(b[b.len() - 1].contains(SEPARATOR));
        }
        assert(ea =~= encode(a).take(ea.len() as int));
        assert(eb =~= encode(b).take(eb.len() as int));
        assert(x =~= encode(a).subrange(ea.len() as int, encode(a).len() - 1));
        assert(y =~= encode(b).subrange(eb.len() as int, encode(b).len() - 1));
        lemma_encode_injective(a.drop_last(), b.drop_last());
        assert(a =~= a.drop_last().push(x));
        assert(b =~= b.drop_last().push(y));
    }
}

proof fn lemma_encode_end(c: Seq<Seq<u8>>)
    ensures
        c.len() > 0 ==> encode(c).len() > 0 && encode(c).last() == SEPARATOR,
        c.len() == 0 ==> encode(c).len() == 0,
{
}

/// Two paths have the same key exactly if they have the same components.
pub proof fn law_path_key_is_path_identity(p: Seq<u8>, q: Seq<u8>)
    ensures
        path_key(p) == path_key(q) <==> components(p) == components(q),
{
    if path_key(p) == path_key(q) {
        lemma_components_no_separator(p);
        lemma_components_no_separator(q);
        lemma_encode_injective(components(p), components(q));
    }
}

/// Computes the key of a path.
pub fn key_of(p: &[u8]) -> (key: Vec<u8>)
    ensures
        key@ == path_key(p@),
{
    let mut key: Vec<u8> = Vec::new();
    let mut start: usize = 0;
    let mut i: usize = 0;
    let ghost path = p@;
    while i < p.len()
        invariant
            path == p@,
            start <= i <= p.len(),
            start > 0 ==> path[start - 1] == SEPARATOR,
            forall|j: int| start <= j < i ==> path[j] != SEPARATOR,
            key@ == encode(components_before(path, start as int)),
        decreases p.len() - i,
    {
        if p[i] == SEPARATOR {
            push_segment(&mut key, p, start, i);
            proof {
                assert(components_before(path, i + 1) == if i == 0 {
                    seq![Seq::<u8>::empty()]
                } else {
                    components(path.take(i as int))
                });
            }
            if i == 0 {
                key.push(SEPARATOR);
                proof {
                    let root = seq![Seq::<u8>::empty()];
                    assert(root.drop_last() =~= Seq::empty());
                    assert(encode(root) =~= seq![SEPARATOR]);
                }
            }
            start = i + 1;
        }
        i = i + 1;
    }
    push_segment(&mut key, p, start, i);
    proof {
        assert(path.take(path.len() as int) =~= path);
    }
    key
}

/// Adds the segment of `p` from `start` to `end` to a key that holds what stands in
/// front of it.
fn push_segment(key: &mut Vec<u8>, p: &[u8], start: usize, end: usize)
    requires
        start <= end <= p@.len(),
        start > 0 ==> p@[start - 1] == SEPARATOR,
        forall|j: int| start <= j < end ==> p@[j] != SEPARATOR,
        old(key)@ == encode(components_before(p@, start as int)),
    ensures
        final(key)@ == encode(components(p@.take(end as int))),
{
    let segment = slice_subrange(p, start, end);
    proof {
        if end > 0 {
            lemma_components_of_prefix(p@, start as int, end as int);
        }
    }
    if end > 0 && (start == 0 || !trivial(segment)) {
        let ghost before = components_before(p@, start as int);
        let ghost held = key@;
        key.extend_from_slice(segment);
        key.push(SEPARATOR);
        proof {
            let after = before.push(segment@);
            assert(after.drop_last() =~= before);
            assert(key@ =~= held + segment@.push(SEPARATOR));
            if start == 0 {
                assert(after =~= seq![segment@]);
            }
        }
    }
}

/// Whether a segment adds no component behind the first one.
fn trivial(segment: &[u8]) -> (r: bool)
    ensures
        r == is_trivial(segment@),
{
    let r = segment.len() == 0 || (segment.len() == 1 && segment[0] == DOT);
    proof {
        if r && segment@.len() == 1 {
            assert(segment@ =~= seq![DOT]);
        }
    }
    r
}

/// The components of a trimmed path are those of the path, and its last segment is
/// the last of them.
proof fn lemma_trimmed(p: Seq<u8>)
    ensures
        trimmed(p).len() <= p.len(),
        trimmed(p) == p.take(trimmed(p).len() as int),
        components(trimmed(p)) == components(p),
        trimmed(p).len() == 0 <==> components(p).len() == 0,
        trimmed(p).len() > 0 ==> components(p).last() == trimmed(p).skip(last_start(trimmed(p))),
        trimmed(p).len() > 0 && trimmed(p) != seq![SEPARATOR] ==> {
            ||| last_start(trimmed(p)) == 0
            ||| !is_trivial(trimmed(p).skip(last_start(trimmed(p))))
        },
    decreases p.len(),
{
    let k = last_start(p);
    lemma_last_start(p);
    if p.len() == 0 {
        assert(p.take(0) =~= p);
    } else if k <= 0 || !is_trivial(p.skip(k)) {
        assert(p.take(p.len() as int) =~= p);
    } else if k == 1 {
        let root = p.take(1);
        assert(root =~= seq![SEPARATOR]);
        lemma_last_start_unique(root, 1);
        assert(root.skip(1) =~= Seq::<u8>::empty());
    } else {
        let q = p.take(k - 1);
        lemma_trimmed(q);
        assert(q.take(trimmed(q).len() as int) =~= p.take(trimmed(q).len() as int));
    }
}

/// The parent of a path is a prefix of it that holds its components but the last.
/// Only the empty path and the root directory have none.
pub proof fn law_parent_drops_the_last_component(p: Seq<u8>)
    ensures
        parent_of(p) is None <==> components(p).len() == 0 || components(p) == seq![
            Seq::<u8>::empty(),
        ],
        parent_of(p) matches Some(q) ==> {
            &&& q.len() < p.len()
            &&& q == p.take(q.len() as int)
            &&& components(q) == components(p).drop_last()
        },
{
    let t = trimmed(p);
    let k = last_start(t);
    lemma_trimmed(p);
    lemma_last_start(t);
    if t.len() == 0 {
    } else if t == seq![SEPARATOR] {
        lemma_last_start_unique(t, 1);
        assert(components(t) =~= seq![Seq::<u8>::empty()]);
    } else {
        assert(components(p).last().len() > 0) by {
            if k == 0 {
                assert(t.skip(0) =~= t);
            }
        }
        if components(p) == seq![Seq::<u8>::empty()] {
            assert(components(p).last() == Seq::<u8>::empty());
        }
        if k <= 0 {
            assert(components(t).drop_last() =~= Seq::empty());
            assert(p.take(0) =~= Seq::empty());
        } else if k == 1 {
            let root = t.take(1);
            assert(root =~= seq![SEPARATOR]);
            lemma_last_start_unique(root, 1);
            assert(root.skip(1) =~= Seq::<u8>::empty());
            assert(components(t).drop_last() =~= seq![Seq::<u8>::empty()]);
            assert(root =~= p.take(1));
        } else {
            let q = t.take(k - 1);
            lemma_trimmed(q);
            assert(components(t).drop_last() =~= components(q));
            let n = trimmed(q).len() as int;
            assert(q.take(n) =~= p.take(n));
        }
    }
}

/// A name that is a plain directory entry: not empty, not `.`, and free of separators.
pub open spec fn is_entry_name(name: Seq<u8>) -> bool {
    !is_trivial(name) && !name.contains(SEPARATOR)
}

/// Joining an entry's name to the path of a directory adds that one component.
pub proof fn law_join_adds_one_component(p: Seq<u8>, name: Seq<u8>)
    requires
        p.len() > 0,
        is_entry_name(name),
    ensures
        components(joined(p, name)) == components(p).push(name),
{
    let j = joined(p, name);
    assert(name[0] != SEPARATOR) by {
        if name[0] == SEPARATOR {
            assert(name.contains(SEPARATOR));
        }
    }
    let k = j.len() - name.len();
    assert(j.skip(k) =~= name);
    assert forall|i: int| k <= i < j.len() implies j[i] != SEPARATOR by {
        assert(j[i] == name[i - k]);
    }
    lemma_last_start_unique(j, k);
    if p.last() != SEPARATOR {
        assert(j.take(k - 1) =~= p);
    } else {
        assert(last_start(p) == p.len());
        assert(p.skip(p.len() as int) =~= Seq::<u8>::empty());
        if k > 1 {
            assert(j.take(k - 1) =~= p.take(p.len() - 1));
        }
    }
}

/// The name under which an entry was joined to its directory is its file name, and
/// the directory has the components of its parent.
pub proof fn law_join_is_undone_by_parent_and_file_name(p: Seq<u8>, name: Seq<u8>)
    requires
        p.len() > 0,
        is_entry_name(name),
    ensures
        name != seq![DOT, DOT] ==> file_name_of(joined(p, name)) == name,
        parent_of(joined(p, name)) matches Some(q) && components(q) == components(p),
{
    let j = joined(p, name);
    law_join_adds_one_component(p, name);
    law_parent_drops_the_last_component(j);
    assert(components(j).drop_last() =~= components(p));
    if components(j) == seq![Seq::<u8>::empty()] {
        assert(components(j).last() == Seq::<u8>::empty());
    }
}

/// Appends `name` to the path `p`.
pub fn join(p: &[u8], name: &[u8]) -> (r: Vec<u8>)
    ensures
        r@ == joined(p@, name@),
{
    let mut r: Vec<u8> = Vec::new();
    if name.len() > 0 && name[0] == SEPARATOR {
        r.extend_from_slice(name);
        assert(r@ =~= name@);
    } else {
        r.extend_from_slice(p);
        assert(r@ =~= p@);
        if p.len() > 0 && p[p.len() - 1] != SEPARATOR {
            r.push(SEPARATOR);
        }
        let ghost front = r@;
        r.extend_from_slice(name);
        assert(r@ =~= front + name@);
    }
    r
}

/// Finds where the last segment of the first `end` bytes of `p` starts.
fn find_last_start(p: &[u8], end: usize) -> (k: usize)
    requires
        end <= p@.len(),
    ensures
        k == last_start(p@.take(end as int)),
        k <= end,
{
    let mut k: usize = end;
    while k > 0 && p[k - 1] != SEPARATOR
        invariant
            k <= end <= p@.len(),
            forall|i: int| k <= i < end ==> p@[i] != SEPARATOR,
        decreases k,
    {
        k = k - 1;
    }
    proof {
        lemma_last_start_unique(p@.take(end as int), k as int);
    }
    k
}

/// Finds where the trimmed form of the first `end` bytes of `p` ends.
fn find_trimmed(p: &[u8], end: usize) -> (n: usize)
    requires
        end <= p@.len(),
    ensures
        n <= end,
        p@.take(n as int) == trimmed(p@.take(end as int)),
{
    let mut n: usize = end;
    loop
        invariant
            n <= end <= p@.len(),
            trimmed(p@.take(n as int)) == trimmed(p@.take(end as int)),
        decreases n,
    {
        let k = find_last_start(p, n);
        let segment = slice_subrange(p, k, n);
        let ghost q = p@.take(n as int);
        assert(q.skip(k as int) =~= segment@);
        if n == 0 || k == 0 || !trivial(segment) {
            return n;
        }
        if k == 1 {
            assert(q.take(1) =~= p@.take(1));
            return 1;
        }
        assert(q.take(k - 1) =~= p@.take(k - 1));
        n = k - 1;
    }
}

/// The path without its final component.
pub fn parent(p: &[u8]) -> (r: Option<Vec<u8>>)
    ensures
        r is Some <==> parent_of(p@) is Some,
        r matches Some(q) ==> parent_of(p@) == Some(q@),
{
    let n = find_trimmed(p, p.len());
    let k = find_last_start(p, n);
    let ghost t = trimmed(p@);
    proof {
        assert(p@.take(p@.len() as int) =~= p@);
        assert(t == p@.take(n as int));
        if n == 1 && p@[0] == SEPARATOR {
            assert(t =~= seq![SEPARATOR]);
        }
        if t == seq![SEPARATOR] {
            assert(p@[0] == t[0]);
        }
    }
    if n == 0 || (n == 1 && p[0] == SEPARATOR) {
        return None;
    }
    if k == 0 {
        let empty: Vec<u8> = Vec::new();
        return Some(empty);
    }
    if k == 1 {
        assert(p@.subrange(0, 1) =~= t.take(1));
        return Some(slice_to_vec(slice_subrange(p, 0, 1)));
    }
    let m = find_trimmed(p, k - 1);
    proof {
        assert(t.take(k - 1) =~= p@.take(k - 1));
        assert(p@.subrange(0, m as int) =~= p@.take(m as int));
    }
    Some(slice_to_vec(slice_subrange(p, 0, m)))
}

/// The final component of a path, or nothing where that is no plain name.
pub fn file_name(p: &[u8]) -> (r: &[u8])
    ensures
        r@ == file_name_of(p@),
{
    let n = find_trimmed(p, p.len());
    let k = find_last_start(p, n);
    let last = slice_subrange(p, k, n);
    proof {
        lemma_trimmed(p@);
        assert(p@.take(p@.len() as int) =~= p@);
        assert(trimmed(p@).skip(k as int) =~= last@);
    }
    let dots = last.len() == 2 && last[0] == DOT && last[1] == DOT;
    proof {
        if dots {
            assert(last@ =~= seq![DOT, DOT]);
        }
    }
    if trivial(last) || dots {
        let nothing = slice_subrange(p, n, n);
        assert(nothing@ =~= Seq::empty());
        return nothing;
    }
    last
}

/// The bytes of the C string that names `p` to the kernel; `.` where `p` holds a NUL
/// byte.
pub fn path_to_cstring(p: &[u8]) -> (r: Vec<u8>)
    ensures
        r@ == c_path_of(p@),
        !r@.contains(0u8),
{
    if has_nul(p) {
        let mut r: Vec<u8> = Vec::new();
        r.push(DOT);
        assert(r@ =~= seq![DOT]);
        r
    } else {
        slice_to_vec(p)
    }
}

/// Whether a NUL byte occurs in `p`.
pub fn has_nul(p: &[u8]) -> (r: bool)
    ensures
        r == p@.contains(0u8),
{
    let mut i: usize = 0;
    while i < p.len()
        invariant
            i <= p@.len(),
            forall|j: int| 0 <= j < i ==> p@[j] != 0,
        decreases p@.len() - i,
    {
        if p[i] == 0 {
            return true;
        }
        i = i + 1;
    }
    false
}

/// The path of an entry as seen from inside the mount.
pub fn relative_to_mount(p: &[u8]) -> (r: &[u8])
    ensures
        r@ == mount_relative(p@),
{
    if p.len() >= 2 && p[0] == DOT && p[1] == SEPARATOR {
        slice_subrange(p, 2, p.len())
    } else {
        p
    }
}

/// The components of a path are its segments between the separators, but for those that are
/// empty or `.`; the first segment counts whatever it is, and an empty one in front of a
/// separator stands for the root directory.
pub proof fn law_components_are_the_segments(p: Seq<u8>, segment: Seq<u8>)
    requires
        !segment.contains(0x2f),
    ensures
        components(segment) == if segment.len() == 0 {
            Seq::<Seq<u8>>::empty()
        } else {
            seq![segment]
        },
        components(p.push(0x2f) + segment) == (if p.len() == 0 {
            seq![Seq::<u8>::empty()]
        } else {
            components(p)
        }) + (if segment.len() == 0 || segment == seq![0x2eu8] {
            Seq::<Seq<u8>>::empty()
        } else {
            seq![segment]
        }),
{
    assert forall|i: int| 0 <= i < segment.len() implies segment[i] != SEPARATOR by {
        assert(segment.contains(segment[i]));
    }
    lemma_last_start_unique(segment, 0);
    assert(segment.skip(0) =~= segment);
    let j = p.push(SEPARATOR) + segment;
    let k = p.len() as int + 1;
    assert forall|i: int| k <= i < j.len() implies j[i] != SEPARATOR by {
        assert(j[i] == segment[i - k]);
    }
    lemma_last_start_unique(j, k);
    assert(j.skip(k) =~= segment);
    assert(j.take(k - 1) =~= p);
    let front = if p.len() == 0 {
        seq![Seq::<u8>::empty()]
    } else {
        components(p)
    };
    assert(front + Seq::<Seq<u8>>::empty() =~= front);
    assert(front + seq![segment] =~= front.push(segment));
}

/// The file name of a path is its last segment, whatever stands in front of it. Separators
/// and `.` segments at the end do not count, and `..` is no name.
pub proof fn law_file_name_is_the_last_segment(p: Seq<u8>, segment: Seq<u8>)
    requires
        !segment.contains(0x2f),
    ensures
        file_name_of(segment) == if segment == seq![0x2eu8] || segment == seq![0x2eu8, 0x2eu8] {
            Seq::<u8>::empty()
        } else {
            segment
        },
        file_name_of(p.push(0x2f) + segment) == if segment.len() == 0 || segment == seq![0x2eu8] {
            file_name_of(p)
        } else if segment == seq![0x2eu8, 0x2eu8] {
            Seq::<u8>::empty()
        } else {
            segment
        },
{
    law_components_are_the_segments(p, segment);
    let front = if p.len() == 0 {
        seq![Seq::<u8>::empty()]
    } else {
        components(p)
    };
    assert(front + Seq::<Seq<u8>>::empty() =~= front);
    assert((front + seq![segment]).last() == segment);
}

/// A name is put behind a path with one separator between the two, where the path is not
/// empty and does not end in one; an absolute name takes the place of the path.
pub proof fn law_join_puts_one_separator_between(p: Seq<u8>, name: Seq<u8>)
    ensures
        name.len() > 0 && name[0] == 0x2f ==> joined(p, name) == name,
        !(name.len() > 0 && name[0] == 0x2f) ==> {
            let j = joined(p, name);
            let between = j.len() - p.len() - name.len();
            &&& between == if p.len() == 0 || p.last() == 0x2f {
                0int
            } else {
                1
            }
            &&& j.take(p.len() as int) == p
            &&& j.skip(p.len() + between) == name
            &&& between == 1 ==> j[p.len() as int] == 0x2f
        },
{
    if !(name.len() > 0 && name[0] == 0x2f) {
        let j = joined(p, name);
        assert(j.take(p.len() as int) =~= p);
        assert(j.skip(j.len() - name.len()) =~= name);
    }
}

/// The parent of a path ends neither in a separator, unless it is the root directory, nor in
/// a `.` segment behind a separator.
pub proof fn law_parent_has_nothing_trailing(p: Seq<u8>)
    ensures
        parent_of(p) matches Some(q) ==> {
            &&& q.len() > 1 ==> q.last() != 0x2f
            &&& q.len() > 1 && q.last() == 0x2e ==> q[q.len() - 2] != 0x2f
        },
{
    let t = trimmed(p);
    let k = last_start(t);
    if t.len() > 0 && t != seq![SEPARATOR] && k > 1 {
        let q = trimmed(t.take(k - 1));
        lemma_trimmed(t.take(k - 1));
        if q.len() > 1 {
            if q.last() == SEPARATOR {
                assert(q.skip(last_start(q)).len() == 0);
            }
            if q.last() == DOT && q[q.len() - 2] == SEPARATOR {
                lemma_last_start_unique(q, q.len() - 1);
                assert(q.skip(q.len() - 1) =~= seq![DOT]);
            }
        }
    }
}

/// The kernel is handed the path itself; `.` only where a byte of it is NUL.
pub proof fn law_paths_reach_the_kernel_unchanged(p: Seq<u8>)
    ensures
        (forall|i: int| 0 <= i < p.len() ==> p[i] != 0) ==> c_path_of(p) == p,
        (exists|i: int| 0 <= i < p.len() && p[i] == 0) ==> c_path_of(p) == seq![0x2eu8],
{
    if p.contains(0u8) {
        let i = choose|i: int| 0 <= i < p.len() && p[i] == 0u8;
        assert(p[i] == 0);
    }
    if exists|i: int| 0 <= i < p.len() && p[i] == 0 {
        let i = choose|i: int| 0 <= i < p.len() && p[i] == 0;
        assert(p.contains(p[i]));
    }
}

/// As seen from inside the mount, a path lacks the `./` in front, and nothing else.
pub proof fn law_mount_relative_drops_the_front(p: Seq<u8>)
    ensures
        mount_relative(seq![0x2eu8, 0x2fu8] + p) == p,
        !(p.len() >= 2 && p[0] == 0x2e && p[1] == 0x2f) ==> mount_relative(p) == p,
{
    assert((seq![0x2eu8, 0x2fu8] + p).skip(2) =~= p);
}

} // verus!
