//! Absolute paths as byte strings: splitting into components, joining
//! component lists, and the round-trip between the two.

use vstd::prelude::*;

verus! {

/// The path separator byte, `/`.
pub const SEP: u8 = 47;

/// Length of the leading component of `p`: the run of non-separator bytes at
/// its front.
pub open spec fn component_len(p: Seq<u8>) -> nat
    decreases p.len(),
{
    if p.len() == 0 || p[0] == SEP {
        0
    } else {
        1 + component_len(p.drop_first())
    }
}

/// The leading component run is within bounds, free of separators, and ends
/// at a separator or at the end of the path.
pub proof fn lemma_component_len_facts(p: Seq<u8>)
    ensures
        component_len(p) <= p.len(),
        forall|t: int| 0 <= t < component_len(p) ==> p[t] != SEP,
        component_len(p) < p.len() ==> p[component_len(p) as int] == SEP,
    decreases p.len(),
{
    if p.len() == 0 || p[0] == SEP {
    } else {
        lemma_component_len_facts(p.drop_first());
        let c = component_len(p);
        assert forall|t: int| 0 <= t < c implies p[t] != SEP by {
            if t > 0 {
                assert(p.drop_first()[t - 1] != SEP);
            }
        }
        if c < p.len() {
            assert(p.drop_first()[c - 1] == SEP);
        }
    }
}

/// The components of a path: maximal runs of non-separator bytes, in order,
/// empty runs discarded.
pub open spec fn split_path(p: Seq<u8>) -> Seq<Seq<u8>>
    decreases p.len(),
        via split_path_decreases
{
    if p.len() == 0 {
        Seq::<Seq<u8>>::empty()
    } else if p[0] == SEP {
        split_path(p.drop_first())
    } else {
        seq![p.take(component_len(p) as int)] + split_path(p.skip(component_len(p) as int))
    }
}

#[via_fn]
proof fn split_path_decreases(p: Seq<u8>) {
    lemma_component_len_facts(p);
}

/// A component list joined into an absolute path: a separator before each
/// component. The empty list joins to the empty sequence; `full_path` turns
/// that into the root path separately.
pub open spec fn join_path(names: Seq<Seq<u8>>) -> Seq<u8>
    decreases names.len(),
{
    if names.len() == 0 {
        Seq::<u8>::empty()
    } else {
        seq![SEP] + names.first() + join_path(names.drop_first())
    }
}

/// Joining distributes over appending one component at the back.
pub proof fn lemma_join_push(names: Seq<Seq<u8>>, x: Seq<u8>)
    ensures
        join_path(names.push(x)) == join_path(names) + seq![SEP] + x,
    decreases names.len(),
{
    if names.len() == 0 {
        assert(names.push(x).first() == x);
        assert(names.push(x).drop_first() =~= Seq::<Seq<u8>>::empty());
        assert(join_path(names.push(x)) == seq![SEP] + x + join_path(Seq::<Seq<u8>>::empty()));
        assert(join_path(Seq::<Seq<u8>>::empty()) == Seq::<u8>::empty());
        assert(seq![SEP] + x + Seq::<u8>::empty() =~= join_path(names) + seq![SEP] + x);
    } else {
        assert(names.push(x).first() == names.first());
        assert(names.push(x).drop_first() =~= names.drop_first().push(x));
        lemma_join_push(names.drop_first(), x);
        assert(join_path(names.push(x)) =~= seq![SEP] + names.first() + join_path(
            names.drop_first().push(x),
        ));
        assert(join_path(names.push(x)) =~= join_path(names) + seq![SEP] + x);
    }
}

/// A name a path component can carry: non-empty and free of separators.
pub open spec fn valid_component(name: Seq<u8>) -> bool {
    &&& name.len() > 0
    &&& forall|k: int| 0 <= k < name.len() ==> name[k] != SEP
}

/// The leading component run of `a + b` is exactly `a` when `a` is free of
/// separators and `b` starts with one (or is empty).
proof fn lemma_component_len_concat(a: Seq<u8>, b: Seq<u8>)
    requires
        forall|k: int| 0 <= k < a.len() ==> a[k] != SEP,
        b.len() == 0 || b[0] == SEP,
    ensures
        component_len(a + b) == a.len(),
    decreases a.len(),
{
    if a.len() == 0 {
        assert(a + b =~= b);
    } else {
        assert((a + b)[0] == a[0]);
        assert((a + b).drop_first() =~= a.drop_first() + b);
        lemma_component_len_concat(a.drop_first(), b);
    }
}

/// Splitting a joined component list of valid names yields the list back.
pub proof fn lemma_split_join(names: Seq<Seq<u8>>)
    requires
        forall|i: int| 0 <= i < names.len() ==> valid_component(#[trigger] names[i]),
    ensures
        split_path(join_path(names)) == names,
    decreases names.len(),
{
    if names.len() == 0 {
    } else {
        let first = names.first();
        let rest = names.drop_first();
        let tail = join_path(rest);
        let joined = join_path(names);
        assert(joined =~= seq![SEP] + first + tail);
        assert(joined[0] == SEP);
        assert(joined.drop_first() =~= first + tail);
        assert(tail.len() == 0 || tail[0] == SEP);
        lemma_component_len_concat(first, tail);
        assert(component_len(first + tail) == first.len());
        assert((first + tail)[0] == first[0]);
        assert((first + tail)[0] != SEP);
        assert(split_path(joined) == split_path(first + tail));
        assert(split_path(first + tail) == seq![(first + tail).take(
            component_len(first + tail) as int,
        )] + split_path((first + tail).skip(component_len(first + tail) as int)));
        assert((first + tail).take(first.len() as int) =~= first);
        assert((first + tail).skip(first.len() as int) =~= tail);
        lemma_split_join(rest);
        assert(split_path(joined) =~= seq![first] + rest);
        assert(seq![first] + rest =~= names);
    }
}

/// Whether two byte strings hold the same bytes.
pub fn bytes_eq(a: &[u8], b: &[u8]) -> (r: bool)
    ensures
        r == (a@ == b@),
{
    if a.len() != b.len() {
        return false;
    }
    let n = a.len();
    let mut i: usize = 0;
    while i < n
        invariant
            n == a@.len(),
            n == b@.len(),
            i <= n,
            forall|j: int| 0 <= j < i ==> a@[j] == b@[j],
        decreases n - i,
    {
        if a[i] != b[i] {
            return false;
        }
        i = i + 1;
    }
    proof {
        assert(a@ =~= b@);
    }
    true
}

/// Splits a path into its components, as `split_path` describes.
pub fn split_components(path: &[u8]) -> (r: Vec<Vec<u8>>)
    ensures
        r@.map_values(|v: Vec<u8>| v@) == split_path(path@),
{
    let n = path.len();
    let mut comps: Vec<Vec<u8>> = Vec::new();
    let mut i: usize = 0;
    proof {
        assert(comps@.map_values(|v: Vec<u8>| v@) =~= Seq::<Seq<u8>>::empty());
        assert(path@.skip(0) =~= path@);
        assert(comps@.map_values(|v: Vec<u8>| v@) + split_path(path@.skip(0)) =~= split_path(
            path@,
        ));
    }
    while i < n
        invariant
            n == path@.len(),
            i <= n,
            comps@.map_values(|v: Vec<u8>| v@) + split_path(path@.skip(i as int)) == split_path(
                path@,
            ),
        decreases n - i,
    {
        if path[i] == SEP {
            proof {
                assert(path@.skip(i as int).drop_first() =~= path@.skip(i + 1));
            }
            i = i + 1;
        } else {
            let ghost suffix = path@.skip(i as int);
            proof {
                lemma_component_len_facts(suffix);
            }
            let ghost clen = component_len(suffix);
            let mut comp: Vec<u8> = Vec::new();
            let start = i;
            let mut j = i;
            proof {
                assert(comp@ =~= suffix.take(0));
            }
            while j < n && path[j] != SEP
                invariant
                    n == path@.len(),
                    start <= j <= n,
                    start < n,
                    path@[start as int] != SEP,
                    suffix == path@.skip(start as int),
                    clen == component_len(suffix),
                    forall|t: int| 0 <= t < clen ==> suffix[t] != SEP,
                    clen < suffix.len() ==> suffix[clen as int] == SEP,
                    j - start <= clen,
                    comp@ == suffix.take(j - start),
                decreases n - j,
            {
                assert(suffix[j - start] != SEP);
                assert(j - start < clen) by {
                    if j - start == clen {
                        assert(clen < suffix.len());
                        assert(suffix[clen as int] == SEP);
                    }
                }
                comp.push(path[j]);
                proof {
                    assert(comp@ =~= suffix.take(j + 1 - start));
                }
                j = j + 1;
            }
            // The run ended at a separator or the end of the path, so it is
            // the whole leading component.
            proof {
                if j < n {
                    assert(suffix[j - start] == SEP);
                    assert(j - start == clen) by {
                        if j - start < clen {
                            assert(suffix[j - start] != SEP);
                        }
                    }
                } else {
                    assert(j - start == clen) by {
                        if j - start < clen {
                            assert(clen <= suffix.len());
                        }
                    }
                }
                assert(comp@ == suffix.take(clen as int));
            }
            let ghost pre_comps = comps@;
            comps.push(comp);
            proof {
                assert(split_path(suffix) == seq![suffix.take(clen as int)] + split_path(
                    suffix.skip(clen as int),
                ));
                assert(path@.skip(j as int) =~= suffix.skip(clen as int));
                assert(comps@.map_values(|v: Vec<u8>| v@) =~= pre_comps.map_values(
                    |v: Vec<u8>| v@,
                ).push(comp@));
                assert(comps@.map_values(|v: Vec<u8>| v@) + split_path(path@.skip(j as int))
                    =~= split_path(path@));
            }
            i = j;
        }
    }
    proof {
        assert(path@.skip(n as int) =~= Seq::<u8>::empty());
        assert(comps@.map_values(|v: Vec<u8>| v@) =~= split_path(path@));
    }
    comps
}

} // verus!
