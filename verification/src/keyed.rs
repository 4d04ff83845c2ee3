//! Ordered lists of entries keyed by a source id. A key may occur more than
//! once; a lookup takes the first entry that carries it.

use vstd::prelude::*;

verus! {

/// The keys of the entries, in order.
pub open spec fn keys<T>(entries: Seq<(u32, T)>) -> Seq<u32> {
    entries.map_values(|e: (u32, T)| e.0)
}

/// What the entries carry, in order.
pub open spec fn payloads<T>(entries: Seq<(u32, T)>) -> Seq<T> {
    entries.map_values(|e: (u32, T)| e.1)
}

/// The entries that carry `key`, in order.
pub open spec fn with_key<T>(entries: Seq<(u32, T)>, key: u32) -> Seq<(u32, T)> {
    entries.filter(|e: (u32, T)| e.0 == key)
}

/// The entries that do not carry `key`, in order.
pub open spec fn without_key<T>(entries: Seq<(u32, T)>, key: u32) -> Seq<(u32, T)> {
    entries.filter(|e: (u32, T)| e.0 != key)
}

/// The keys of `list` but `key`, in order.
pub open spec fn leaving_out(list: Seq<u32>, key: u32) -> Seq<u32> {
    list.filter(|k: u32| k != key)
}

/// `i` is where `key` first occurs among `list`.
pub open spec fn first_at(list: Seq<u32>, key: u32, i: int) -> bool {
    &&& 0 <= i < list.len()
    &&& list[i] == key
    &&& forall|j: int| 0 <= j < i ==> list[j] != key
}

/// How `with_key` and `without_key` treat a list that ends in `last`.
pub proof fn lemma_split_push<T>(s: Seq<(u32, T)>, last: (u32, T), key: u32)
    ensures
        with_key(s.push(last), key) == if last.0 == key {
            with_key(s, key).push(last)
        } else {
            with_key(s, key)
        },
        without_key(s.push(last), key) == if last.0 != key {
            without_key(s, key).push(last)
        } else {
            without_key(s, key)
        },
{
    reveal(Seq::filter);
    assert(s.push(last).drop_last() =~= s);
}

/// Leaving out a key commutes with taking the keys.
pub proof fn lemma_keys_without<T>(entries: Seq<(u32, T)>, key: u32)
    ensures
        keys(without_key(entries, key)) == leaving_out(keys(entries), key),
    decreases entries.len(),
{
    reveal(Seq::filter);
    if entries.len() > 0 {
        let front = entries.drop_last();
        let last = entries.last();
        lemma_keys_without(front, key);
        assert(entries =~= front.push(last));
        lemma_split_push(front, last, key);
        assert(keys(entries) =~= keys(front).push(last.0));
        assert(keys(entries).drop_last() =~= keys(front));
        if last.0 != key {
            assert(keys(without_key(front, key).push(last)) =~= keys(without_key(front, key)).push(
                last.0,
            ));
        }
    } else {
        assert(keys(without_key(entries, key)) =~= leaving_out(keys(entries), key));
    }
}

/// Finds the first entry that carries `key`.
pub fn position<T>(entries: &Vec<(u32, T)>, key: u32) -> (found: Option<usize>)
    ensures
        match found {
            Some(i) => first_at(keys(entries@), key, i as int),
            None => !keys(entries@).contains(key),
        },
{
    let mut i: usize = 0;
    while i < entries.len()
        invariant
            i <= entries.len(),
            forall|j: int| 0 <= j < i ==> keys(entries@)[j] != key,
        decreases entries.len() - i,
    {
        if entries[i].0 == key {
            return Some(i);
        }
        i += 1;
    }
    None
}

/// Takes every entry that carries `key` out of `entries`: what they carried
/// is appended to `taken`, and the others are handed back in their order.
pub fn split_off_key<T>(entries: Vec<(u32, T)>, key: u32, taken: &mut Vec<T>) -> (kept: Vec<(u32, T)>)
    ensures
        kept@ == without_key(entries@, key),
        final(taken)@ == old(taken)@ + payloads(with_key(entries@, key)),
{
    let ghost all = entries@;
    let ghost before = taken@;
    let ghost mut done: Seq<(u32, T)> = Seq::empty();
    let mut rest = entries;
    let mut kept: Vec<(u32, T)> = Vec::new();
    proof {
        reveal(Seq::filter);
        assert(payloads(with_key(done, key)) =~= Seq::<T>::empty());
        assert(before + Seq::<T>::empty() =~= before);
    }
    while rest.len() > 0
        invariant
            all == done + rest@,
            kept@ == without_key(done, key),
            taken@ == before + payloads(with_key(done, key)),
        decreases rest.len(),
    {
        let ghost head = rest@[0];
        let entry = rest.remove(0);
        proof {
            lemma_split_push(done, head, key);
            assert(done.push(head) + rest@ =~= all);
        }
        let (k, payload) = entry;
        if k == key {
            proof {
                assert(payloads(with_key(done, key).push(head)) =~= payloads(with_key(done, key)).push(
                    head.1,
                ));
                assert((before + payloads(with_key(done, key))).push(head.1) =~= before + payloads(
                    with_key(done, key),
                ).push(head.1));
            }
            taken.push(payload);
        } else {
            kept.push((k, payload));
        }
        proof {
            done = done.push(head);
        }
    }
    proof {
        assert(all =~= done);
    }
    kept
}

/// Leaving out a key a second time changes nothing more, and nothing that
/// carries the key is left after the first time.
pub proof fn lemma_without_key_settles<T>(entries: Seq<(u32, T)>, key: u32)
    ensures
        without_key(without_key(entries, key), key) == without_key(entries, key),
        with_key(without_key(entries, key), key) == Seq::<(u32, T)>::empty(),
        !keys(without_key(entries, key)).contains(key),
    decreases entries.len(),
{
    reveal(Seq::filter);
    if entries.len() > 0 {
        let front = entries.drop_last();
        let last = entries.last();
        lemma_without_key_settles(front, key);
        assert(entries =~= front.push(last));
        lemma_split_push(front, last, key);
        if last.0 != key {
            lemma_split_push(without_key(front, key), last, key);
            let kept = without_key(front, key).push(last);
            assert forall|i: int| 0 <= i < keys(kept).len() implies keys(kept)[i] != key by {
                if i < without_key(front, key).len() {
                    assert(keys(without_key(front, key))[i] == keys(kept)[i]);
                    assert(keys(without_key(front, key)).contains(keys(kept)[i]));
                }
            }
        }
    }
}

/// Leaving a source out of a list a second time changes nothing more.
pub proof fn lemma_leaving_out_settles(list: Seq<u32>, key: u32)
    ensures
        leaving_out(leaving_out(list, key), key) == leaving_out(list, key),
        !leaving_out(list, key).contains(key),
    decreases list.len(),
{
    reveal(Seq::filter);
    if list.len() > 0 {
        let front = list.drop_last();
        let last = list.last();
        lemma_leaving_out_settles(front, key);
        if last != key {
            let kept = leaving_out(front, key).push(last);
            assert(kept.drop_last() =~= leaving_out(front, key));
            assert forall|i: int| 0 <= i < kept.len() implies kept[i] != key by {
                if i < leaving_out(front, key).len() {
                    assert(leaving_out(front, key)[i] == kept[i]);
                    assert(leaving_out(front, key).contains(kept[i]));
                }
            }
        }
    }
}

/// What is left after leaving out a key is what was there under another
/// key, and nothing comes to occur twice.
pub proof fn lemma_leaving_out_members(list: Seq<u32>, key: u32)
    ensures
        forall|x: u32| leaving_out(list, key).contains(x) <==> list.contains(x) && x != key,
        list.no_duplicates() ==> leaving_out(list, key).no_duplicates(),
    decreases list.len(),
{
    reveal(Seq::filter);
    if list.len() > 0 {
        let front = list.drop_last();
        let last = list.last();
        lemma_leaving_out_members(front, key);
        let out = leaving_out(list, key);
        let inner = leaving_out(front, key);
        assert forall|x: u32| out.contains(x) <==> list.contains(x) && x != key by {
            if list.contains(x) {
                let i = choose|i: int| 0 <= i < list.len() && list[i] == x;
                if i < front.len() {
                    assert(front[i] == x);
                    assert(front.contains(x));
                }
            }
            if front.contains(x) {
                let i = choose|i: int| 0 <= i < front.len() && front[i] == x;
                assert(list[i] == x);
            }
            assert(list[list.len() - 1] == last);
            if last != key {
                assert(out =~= inner.push(last));
                if out.contains(x) {
                    let i = choose|i: int| 0 <= i < out.len() && out[i] == x;
                    if i < inner.len() {
                        assert(inner[i] == x);
                        assert(inner.contains(x));
                    }
                }
                if inner.contains(x) {
                    let i = choose|i: int| 0 <= i < inner.len() && inner[i] == x;
                    assert(out[i] == x);
                }
                assert(out[inner.len() as int] == last);
            }
        }
        if list.no_duplicates() {
            assert forall|i: int, j: int| 0 <= i < front.len() && 0 <= j < front.len() && i != j implies front[i]
                != front[j] by {
                assert(list[i] != list[j]);
            }
            if last != key {
                assert(out =~= inner.push(last));
                if front.contains(last) {
                    let i = choose|i: int| 0 <= i < front.len() && front[i] == last;
                    assert(list[i] == list[list.len() - 1]);
                }
                assert(!inner.contains(last));
                assert forall|i: int, j: int| 0 <= i < out.len() && 0 <= j < out.len() && i != j implies out[i]
                    != out[j] by {
                    if i < inner.len() {
                        assert(inner.contains(inner[i]));
                    }
                    if j < inner.len() {
                        assert(inner.contains(inner[j]));
                    }
                }
            }
        }
    }
}

/// Every entry that is left after leaving out a key was there before, under
/// another key.
pub proof fn lemma_without_key_members<T>(entries: Seq<(u32, T)>, key: u32)
    ensures
        forall|i: int|
            0 <= i < without_key(entries, key).len() ==> (#[trigger] without_key(entries, key)[i]).0 != key
                && keys(entries).contains(without_key(entries, key)[i].0),
    decreases entries.len(),
{
    reveal(Seq::filter);
    if entries.len() > 0 {
        let front = entries.drop_last();
        let last = entries.last();
        lemma_without_key_members(front, key);
        assert(entries =~= front.push(last));
        lemma_split_push(front, last, key);
        let out = without_key(entries, key);
        let inner = without_key(front, key);
        assert forall|i: int| 0 <= i < out.len() implies (#[trigger] out[i]).0 != key && keys(
            entries,
        ).contains(out[i].0) by {
            if i < inner.len() {
                assert(out[i] == inner[i]);
                let k = choose|k: int| 0 <= k < keys(front).len() && keys(front)[k] == inner[i].0;
                assert(keys(entries)[k] == inner[i].0);
            } else {
                assert(out[i] == last);
                assert(keys(entries)[entries.len() - 1] == last.0);
            }
        }
    }
}

} // verus!
