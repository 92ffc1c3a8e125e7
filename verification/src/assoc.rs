//! Association vectors: small maps from stream ids to values, kept as
//! vectors of pairs in insertion order.
//!
//! The reader's side tables (stream infos, headers, footers, clock offsets,
//! sample chunks) are keyed by stream id.  A vector of pairs keeps the
//! arrival order, which the output's stream order follows; its mathematical
//! model is the [`Map`] where later entries win.

use vstd::prelude::*;

verus! {

/// The map an association sequence denotes; later entries win.
pub open spec fn map_of<T>(s: Seq<(u32, T)>) -> Map<u32, T>
    decreases s.len(),
{
    if s.len() == 0 {
        Map::empty()
    } else {
        map_of(s.drop_last()).insert(s.last().0, s.last().1)
    }
}

/// A key that no entry carries is not in the map.
pub proof fn lemma_map_of_absent<T>(s: Seq<(u32, T)>, k: u32)
    requires
        forall|i: int| 0 <= i < s.len() ==> (#[trigger] s[i]).0 != k,
    ensures
        !map_of(s).contains_key(k),
    decreases s.len(),
{
    if s.len() > 0 {
        lemma_map_of_absent(s.drop_last(), k);
    }
}

/// The map takes a key to the value of the key's last entry.
pub proof fn lemma_map_of_at<T>(s: Seq<(u32, T)>, k: u32, i: int)
    requires
        0 <= i < s.len(),
        s[i].0 == k,
        forall|j: int| i < j < s.len() ==> (#[trigger] s[j]).0 != k,
    ensures
        map_of(s).contains_key(k),
        map_of(s)[k] == s[i].1,
    decreases s.len(),
{
    if i < s.len() - 1 {
        lemma_map_of_at(s.drop_last(), k, i);
    }
}

/// Appending an entry inserts its pair into the map.
pub proof fn lemma_map_of_push<T>(s: Seq<(u32, T)>, k: u32, v: T)
    ensures
        map_of(s.push((k, v))) == map_of(s).insert(k, v),
    decreases s.len(),
{
    assert(s.push((k, v)).drop_last() =~= s);
}

/// Looks up the value of the last entry with the given key.
pub fn assoc_find<V: DeepView>(m: &Vec<(u32, V)>, k: u32) -> (r: Option<&V>)
    ensures
        match r {
            Some(v) => map_of(m.deep_view()).contains_key(k) && v.deep_view() == map_of(
                m.deep_view(),
            )[k],
            None => !map_of(m.deep_view()).contains_key(k),
        },
{
    let ghost dv = m.deep_view();
    let mut i: usize = m.len();
    proof {
        assert(dv.len() == m@.len());
    }
    while i > 0
        invariant
            0 <= i <= m@.len(),
            dv == m.deep_view(),
            dv.len() == m@.len(),
            forall|j: int| i <= j < dv.len() ==> (#[trigger] dv[j]).0 != k,
        decreases i,
    {
        i = i - 1;
        proof {
            assert(dv[i as int] == m@[i as int].deep_view());
            assert(dv[i as int].0 == m@[i as int].0);
        }
        if m[i].0 == k {
            proof {
                lemma_map_of_at(dv, k, i as int);
                assert(m@[i as int].1.deep_view() == dv[i as int].1);
            }
            return Some(&m[i].1);
        }
    }
    proof {
        lemma_map_of_absent(dv, k);
    }
    None
}

/// Removing the first entry with a key: the value found, if any, and the
/// remaining entries.
pub open spec fn spec_remove_first<T>(m: Seq<(u32, T)>, k: u32) -> (Option<T>, Seq<(u32, T)>)
    decreases m.len(),
{
    if m.len() == 0 {
        (Option::None, m)
    } else if m[0].0 == k {
        (Option::Some(m[0].1), m.drop_first())
    } else {
        let rec = spec_remove_first(m.drop_first(), k);
        (rec.0, seq![m[0]] + rec.1)
    }
}

proof fn lemma_remove_first_at<T>(m: Seq<(u32, T)>, k: u32, i: int)
    requires
        0 <= i < m.len(),
        m[i].0 == k,
        forall|j: int| 0 <= j < i ==> (#[trigger] m[j]).0 != k,
    ensures
        spec_remove_first(m, k) == (
            Option::Some(m[i].1),
            m.subrange(0, i) + m.subrange(i + 1, m.len() as int),
        ),
    decreases i,
{
    if i == 0 {
        assert(m.subrange(0, 0) + m.subrange(1, m.len() as int) =~= m.drop_first());
    } else {
        lemma_remove_first_at(m.drop_first(), k, i - 1);
        assert(m.drop_first().subrange(0, i - 1) =~= m.subrange(1, i));
        assert(m.drop_first().subrange(i, m.len() as int - 1) =~= m.subrange(
            i + 1,
            m.len() as int,
        ));
        assert(seq![m[0]] + (m.subrange(1, i) + m.subrange(i + 1, m.len() as int)) =~= m.subrange(
            0,
            i,
        ) + m.subrange(i + 1, m.len() as int));
    }
}

proof fn lemma_remove_first_absent<T>(m: Seq<(u32, T)>, k: u32)
    requires
        forall|j: int| 0 <= j < m.len() ==> (#[trigger] m[j]).0 != k,
    ensures
        spec_remove_first(m, k) == (Option::None::<T>, m),
    decreases m.len(),
{
    if m.len() > 0 {
        lemma_remove_first_absent(m.drop_first(), k);
        assert(seq![m[0]] + m.drop_first() =~= m);
    }
}

/// Removes and returns the value of the first entry with the given key.
pub fn assoc_remove<V: DeepView>(m: &mut Vec<(u32, V)>, k: u32) -> (r: Option<V>)
    ensures
        r.deep_view() == spec_remove_first((*old(m)).deep_view(), k).0,
        (*final(m)).deep_view() == spec_remove_first((*old(m)).deep_view(), k).1,
{
    let ghost dv = m.deep_view();
    let mut i: usize = 0;
    while i < m.len()
        invariant
            i <= m@.len(),
            dv == m.deep_view(),
            dv == (*old(m)).deep_view(),
            dv.len() == m@.len(),
            m@ == (*old(m))@,
            forall|j: int| 0 <= j < i ==> (#[trigger] dv[j]).0 != k,
        decreases m@.len() - i,
    {
        proof {
            assert(dv[i as int] == m@[i as int].deep_view());
        }
        if m[i].0 == k {
            let ghost m0 = m@;
            let e = m.remove(i);
            proof {
                lemma_remove_first_at(dv, k, i as int);
                assert(m.deep_view() =~= dv.subrange(0, i as int) + dv.subrange(
                    i as int + 1,
                    dv.len() as int,
                ));
            }
            return Option::Some(e.1);
        }
        i = i + 1;
    }
    proof {
        lemma_remove_first_absent(dv, k);
    }
    Option::None
}

/// Appending a value to a key's entry, creating the entry at the end when
/// the key is new.
pub open spec fn spec_multi_push<T>(m: Seq<(u32, Seq<T>)>, k: u32, v: T) -> Seq<(u32, Seq<T>)>
    decreases m.len(),
{
    if m.len() == 0 {
        seq![(k, seq![v])]
    } else if m[0].0 == k {
        seq![(m[0].0, m[0].1.push(v))] + m.drop_first()
    } else {
        seq![m[0]] + spec_multi_push(m.drop_first(), k, v)
    }
}

proof fn lemma_multi_push_at<T>(m: Seq<(u32, Seq<T>)>, k: u32, v: T, i: int)
    requires
        0 <= i < m.len(),
        m[i].0 == k,
        forall|j: int| 0 <= j < i ==> (#[trigger] m[j]).0 != k,
    ensures
        spec_multi_push(m, k, v) == m.update(i, (k, m[i].1.push(v))),
    decreases i,
{
    if i == 0 {
        assert(seq![(m[0].0, m[0].1.push(v))] + m.drop_first() =~= m.update(
            0,
            (k, m[0].1.push(v)),
        ));
    } else {
        lemma_multi_push_at(m.drop_first(), k, v, i - 1);
        assert(m.drop_first().update(i - 1, (k, m[i].1.push(v))) =~= m.update(
            i,
            (k, m[i].1.push(v)),
        ).drop_first());
        assert(seq![m[0]] + m.update(i, (k, m[i].1.push(v))).drop_first() =~= m.update(
            i,
            (k, m[i].1.push(v)),
        ));
    }
}

proof fn lemma_multi_push_absent<T>(m: Seq<(u32, Seq<T>)>, k: u32, v: T)
    requires
        forall|j: int| 0 <= j < m.len() ==> (#[trigger] m[j]).0 != k,
    ensures
        spec_multi_push(m, k, v) == m.push((k, seq![v])),
    decreases m.len(),
{
    if m.len() == 0 {
        assert(seq![(k, seq![v])] =~= m.push((k, seq![v])));
    } else {
        lemma_multi_push_absent(m.drop_first(), k, v);
        assert(seq![m[0]] + m.drop_first().push((k, seq![v])) =~= m.push((k, seq![v])));
    }
}

/// Appends a value to the first entry with the given key, or appends a new
/// entry at the end when the key is new.
pub fn assoc_multi_push<V: DeepView>(m: &mut Vec<(u32, Vec<V>)>, k: u32, v: V)
    ensures
        (*final(m)).deep_view() == spec_multi_push((*old(m)).deep_view(), k, v.deep_view()),
{
    let ghost dv = m.deep_view();
    let ghost vv = v.deep_view();
    let mut i: usize = 0;
    while i < m.len()
        invariant
            i <= m@.len(),
            dv == m.deep_view(),
            dv == (*old(m)).deep_view(),
            dv.len() == m@.len(),
            m@ == (*old(m))@,
            vv == v.deep_view(),
            forall|j: int| 0 <= j < i ==> (#[trigger] dv[j]).0 != k,
        decreases m@.len() - i,
    {
        proof {
            assert(dv[i as int] == m@[i as int].deep_view());
        }
        if m[i].0 == k {
            let ghost m0 = m@;
            let (ek, mut evec) = m.remove(i);
            let ghost m_mid = m@;
            proof {
                assert(ek == k);
                assert(evec@ == m0[i as int].1@);
                assert(evec.deep_view() == dv[i as int].1);
            }
            evec.push(v);
            let ghost elt_g = (ek, evec);
            m.insert(i, (ek, evec));
            proof {
                m0.remove_ensures(i as int);
                m_mid.insert_ensures(i as int, elt_g);
                assert(m@[i as int] == elt_g);
                lemma_multi_push_at(dv, k, vv, i as int);
                assert(dv[i as int].1 == m0[i as int].1.deep_view());
                assert(m@ =~= m0.update(i as int, m@[i as int]));
                assert(m@[i as int].0 == k);
                assert(m@[i as int].1@ == m0[i as int].1@.push(v));
                let b = m@[i as int].1;
                assert(b.deep_view().len() == b@.len());
                assert(dv[i as int].1.len() == m0[i as int].1@.len());
                assert forall|j: int| 0 <= j < b@.len() implies b.deep_view()[j] == dv[
                    i as int
                ].1.push(vv)[j] by {
                    assert(b.deep_view()[j] == b@[j].deep_view());
                    if j < m0[i as int].1@.len() {
                        assert(b@[j] == m0[i as int].1@[j]);
                        assert(dv[i as int].1[j] == m0[i as int].1.deep_view()[j]);
                        assert(m0[i as int].1.deep_view()[j] == m0[i as int].1@[j].deep_view());
                        assert(dv[i as int].1.push(vv)[j] == dv[i as int].1[j]);
                    } else {
                        assert(j == dv[i as int].1.len());
                        assert(b@[j].deep_view() == vv);
                        assert(dv[i as int].1.push(vv)[j] == vv);
                    }
                }
                assert(m@[i as int].deep_view().1 =~= dv[i as int].1.push(vv));
                assert(m@[i as int].deep_view() == (k, dv[i as int].1.push(vv)));
                assert(m.deep_view() =~= dv.update(i as int, (k, dv[i as int].1.push(vv))));
            }
            return ;
        }
        i = i + 1;
    }
    let mut nw: Vec<V> = Vec::new();
    nw.push(v);
    proof {
        assert(nw.deep_view() =~= seq![vv]);
    }
    let ghost nwv = nw.deep_view();
    m.push((k, nw));
    proof {
        lemma_multi_push_absent(dv, k, vv);
        assert(m.deep_view() =~= dv.push((k, seq![vv])));
    }
}

/// Replacing a key's value in place, or appending a new entry at the end
/// when the key is new.
pub open spec fn spec_upsert<T>(m: Seq<(u32, T)>, k: u32, v: T) -> Seq<(u32, T)>
    decreases m.len(),
{
    if m.len() == 0 {
        seq![(k, v)]
    } else if m[0].0 == k {
        seq![(k, v)] + m.drop_first()
    } else {
        seq![m[0]] + spec_upsert(m.drop_first(), k, v)
    }
}

proof fn lemma_upsert_at<T>(m: Seq<(u32, T)>, k: u32, v: T, i: int)
    requires
        0 <= i < m.len(),
        m[i].0 == k,
        forall|j: int| 0 <= j < i ==> (#[trigger] m[j]).0 != k,
    ensures
        spec_upsert(m, k, v) == m.update(i, (k, v)),
    decreases i,
{
    if i == 0 {
        assert(seq![(k, v)] + m.drop_first() =~= m.update(0, (k, v)));
    } else {
        lemma_upsert_at(m.drop_first(), k, v, i - 1);
        assert(m.drop_first().update(i - 1, (k, v)) =~= m.update(i, (k, v)).drop_first());
        assert(seq![m[0]] + m.update(i, (k, v)).drop_first() =~= m.update(i, (k, v)));
    }
}

proof fn lemma_upsert_absent<T>(m: Seq<(u32, T)>, k: u32, v: T)
    requires
        forall|j: int| 0 <= j < m.len() ==> (#[trigger] m[j]).0 != k,
    ensures
        spec_upsert(m, k, v) == m.push((k, v)),
    decreases m.len(),
{
    if m.len() == 0 {
        assert(seq![(k, v)] =~= m.push((k, v)));
    } else {
        lemma_upsert_absent(m.drop_first(), k, v);
        assert(seq![m[0]] + m.drop_first().push((k, v)) =~= m.push((k, v)));
    }
}

/// Replaces the first entry with the given key, or appends a new entry at
/// the end when the key is new.
pub fn assoc_upsert<V: DeepView>(m: &mut Vec<(u32, V)>, k: u32, v: V)
    ensures
        (*final(m)).deep_view() == spec_upsert((*old(m)).deep_view(), k, v.deep_view()),
{
    let ghost dv = m.deep_view();
    let ghost vv = v.deep_view();
    let mut i: usize = 0;
    while i < m.len()
        invariant
            i <= m@.len(),
            dv == m.deep_view(),
            dv == (*old(m)).deep_view(),
            dv.len() == m@.len(),
            m@ == (*old(m))@,
            vv == v.deep_view(),
            forall|j: int| 0 <= j < i ==> (#[trigger] dv[j]).0 != k,
        decreases m@.len() - i,
    {
        proof {
            assert(dv[i as int] == m@[i as int].deep_view());
        }
        if m[i].0 == k {
            let ghost m0 = m@;
            m.remove(i);
            let ghost m_mid = m@;
            let ghost elt_g = (k, v);
            m.insert(i, (k, v));
            proof {
                m0.remove_ensures(i as int);
                m_mid.insert_ensures(i as int, elt_g);
                assert(m@[i as int] == elt_g);
                lemma_upsert_at(dv, k, vv, i as int);
                assert(m@.len() == m0.len());
                assert forall|j: int| 0 <= j < m@.len() implies m@[j] == m0.update(
                    i as int,
                    elt_g,
                )[j] by {
                    if j < i as int {
                        assert(m@[j] == m_mid[j]);
                        assert(m_mid[j] == m0[j]);
                    } else if j > i as int {
                        assert(m@[j] == m_mid[j - 1]);
                        assert(m_mid[j - 1] == m0[j]);
                    }
                }
                assert(m@ =~= m0.update(i as int, elt_g));
                assert(elt_g.1.deep_view() == vv);
                assert(elt_g.deep_view() == (k, vv));
                assert(m.deep_view() =~= dv.update(i as int, (k, vv)));
            }
            return ;
        }
        i = i + 1;
    }
    m.push((k, v));
    proof {
        lemma_upsert_absent(dv, k, vv);
        assert(m.deep_view() =~= dv.push((k, vv)));
    }
}

/// Appends an entry, making its pair the key's current value.
pub fn assoc_push<V: DeepView>(m: &mut Vec<(u32, V)>, k: u32, v: V)
    ensures
        final(m).deep_view() == old(m).deep_view().push((k, v.deep_view())),
        map_of(final(m).deep_view()) == map_of(old(m).deep_view()).insert(k, v.deep_view()),
{
    let ghost old_dv = m.deep_view();
    let ghost vv = v.deep_view();
    m.push((k, v));
    proof {
        assert(m.deep_view() =~= old_dv.push((k, vv)));
        lemma_map_of_push(old_dv, k, vv);
    }
}

} // verus!
