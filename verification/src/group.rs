//! Keyed groups in insertion order: the association lists that the row
//! assemblers fold catalog rows into, and the lookup, upsert and removal
//! operations the tree builder joins them by.

use vstd::prelude::*;

use crate::text::str_eq;

verus! {

/// The first position whose key equals `key`, or -1 when no entry has it.
pub open spec fn find_key<T>(groups: Seq<(Seq<char>, T)>, key: Seq<char>) -> int
    decreases groups.len(),
{
    if groups.len() == 0 {
        -1
    } else if groups[0].0 == key {
        0
    } else {
        let r = find_key(groups.drop_first(), key);
        if r < 0 {
            -1
        } else {
            r + 1
        }
    }
}

/// The characterization of [`find_key`]: it yields the least position
/// holding `key`, or -1 when no position does.
pub proof fn lemma_find_key<T>(groups: Seq<(Seq<char>, T)>, key: Seq<char>)
    ensures
        find_key(groups, key) == -1 || 0 <= find_key(groups, key) < groups.len(),
        find_key(groups, key) == -1 ==> forall|i: int|
            0 <= i < groups.len() ==> (#[trigger] groups[i]).0 != key,
        find_key(groups, key) >= 0 ==> groups[find_key(groups, key)].0 == key && forall|i: int|
            0 <= i < find_key(groups, key) ==> (#[trigger] groups[i]).0 != key,
    decreases groups.len(),
{
    if groups.len() > 0 && groups[0].0 != key {
        lemma_find_key(groups.drop_first(), key);
        let r = find_key(groups.drop_first(), key);
        if r >= 0 {
            assert(groups[r + 1] == groups.drop_first()[r]);
            assert forall|i: int| 0 <= i < r + 1 implies (#[trigger] groups[i]).0 != key by {
                if i >= 1 {
                    assert(groups[i] == groups.drop_first()[i - 1]);
                    assert(groups.drop_first()[i - 1].0 != key);
                }
            }
        } else {
            assert forall|i: int| 0 <= i < groups.len() implies (#[trigger] groups[i]).0 != key by {
                if i >= 1 {
                    assert(groups[i] == groups.drop_first()[i - 1]);
                    assert(groups.drop_first()[i - 1].0 != key);
                }
            }
        }
    }
}

/// Append `v` to the group keyed `key`, creating the group at the end when
/// none exists yet.
pub open spec fn upsert_push<T>(groups: Seq<(Seq<char>, Seq<T>)>, key: Seq<char>, v: T) -> Seq<
    (Seq<char>, Seq<T>),
> {
    let k = find_key(groups, key);
    if k < 0 {
        groups.push((key, seq![v]))
    } else {
        groups.update(k, (key, groups[k].1.push(v)))
    }
}

/// Detach the payload keyed `key`: the payload (if any) and the remaining
/// groups, in their order.
pub open spec fn remove_key<T>(groups: Seq<(Seq<char>, T)>, key: Seq<char>) -> (
    Option<T>,
    Seq<(Seq<char>, T)>,
) {
    let k = find_key(groups, key);
    if k < 0 {
        (None, groups)
    } else {
        (Some(groups[k].1), groups.remove(k))
    }
}

/// One keyed group of items, in arrival order.
#[derive(Debug)]
pub struct Grouped<T> {
    pub key: String,
    pub items: Vec<T>,
}

impl<T: DeepView> View for Grouped<T> {
    type V = (Seq<char>, Seq<<T as DeepView>::V>);

    open spec fn view(&self) -> Self::V {
        (self.key@, self.items.deep_view())
    }
}

impl<T: DeepView> DeepView for Grouped<T> {
    type V = (Seq<char>, Seq<<T as DeepView>::V>);

    open spec fn deep_view(&self) -> Self::V {
        self.view()
    }
}

/// The position of the group keyed `key`, if one exists.
pub fn find_group<T: DeepView>(groups: &Vec<Grouped<T>>, key: &str) -> (r: Option<usize>)
    ensures
        r matches Some(i) ==> i < groups.len() && find_key(groups.deep_view(), key@) == i as int,
        r is None ==> find_key(groups.deep_view(), key@) == -1,
{
    let ghost dv = groups.deep_view();
    let mut i: usize = 0;
    while i < groups.len()
        invariant
            i <= groups.len(),
            dv == groups.deep_view(),
            dv.len() == groups.len(),
            forall|j: int| 0 <= j < i ==> (#[trigger] dv[j]).0 != key@,
        decreases groups.len() - i,
    {
        if str_eq(groups[i].key.as_str(), key) {
            proof {
                assert(dv[i as int].0 == key@);
                lemma_find_key(dv, key@);
                let f = find_key(dv, key@);
                if f == -1 {
                    assert(dv[i as int].0 != key@);
                } else if f < i as int {
                    assert(dv[f].0 != key@);
                } else if f > i as int {
                    assert(dv[i as int].0 != key@);
                }
                assert(f == i as int);
            }
            return Some(i);
        }
        i += 1;
    }
    proof {
        lemma_find_key(dv, key@);
        let f = find_key(dv, key@);
        if f >= 0 {
            assert(dv[f].0 != key@);
        }
    }
    None
}

/// Append `item` to the group keyed `key`, creating the group at the end
/// when none exists yet.
pub fn push_item<T: DeepView>(groups: &mut Vec<Grouped<T>>, key: &str, item: T)
    ensures
        final(groups).deep_view() == upsert_push(old(groups).deep_view(), key@, item.deep_view()),
{
    let ghost dv0 = groups.deep_view();
    let ghost iv = item.deep_view();
    match find_group(groups, key) {
        Some(i) => {
            proof {
                lemma_find_key(dv0, key@);
            }
            let mut g = groups.remove(i);
            g.items.push(item);
            groups.insert(i, g);
            proof {
                assert(g.items.deep_view() =~= dv0[i as int].1.push(iv));
                assert(groups.deep_view() =~~= dv0.update(
                    i as int,
                    (key@, dv0[i as int].1.push(iv)),
                ));
            }
        },
        None => {
            let mut items: Vec<T> = Vec::new();
            items.push(item);
            groups.push(Grouped { key: String::from_str(key), items });
            proof {
                assert(items.deep_view() =~= seq![iv]);
                assert(groups.deep_view() =~~= dv0.push((key@, seq![iv])));
            }
        },
    }
}

/// Detach and return the items of the group keyed `key`, if one exists.
pub fn remove_group<T: DeepView>(groups: &mut Vec<Grouped<T>>, key: &str) -> (r: Option<Vec<T>>)
    ensures
        r.deep_view() == remove_key(old(groups).deep_view(), key@).0,
        final(groups).deep_view() == remove_key(old(groups).deep_view(), key@).1,
{
    let ghost dv0 = groups.deep_view();
    match find_group(groups, key) {
        Some(i) => {
            let g = groups.remove(i);
            proof {
                assert(groups.deep_view() =~~= dv0.remove(i as int));
            }
            Some(g.items)
        },
        None => None,
    }
}

} // verus!
