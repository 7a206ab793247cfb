//! Helpers over the keyed collections: picking entries and listing keys.

use vstd::pervasive::cloned;
use vstd::prelude::*;

use crate::text::push_text;

verus! {

/// The parts with the separator between each two of them.
pub open spec fn joined(parts: Seq<Seq<char>>, separator: Seq<char>) -> Seq<char>
    decreases parts.len(),
{
    if parts.len() == 0 {
        Seq::empty()
    } else if parts.len() == 1 {
        parts[0]
    } else {
        joined(parts.drop_last(), separator) + separator + parts.last()
    }
}

/// The key under which a range is listed: its bounds with a dash between.
pub open spec fn range_key_text(start: Seq<char>, end: Seq<char>) -> Seq<char> {
    start + "-"@ + end
}

/// The key under which a range is listed.
pub fn range_key(start: &String, end: &String) -> (key: String)
    ensures
        key@ == range_key_text(start@, end@),
{
    let mut key = start.clone();
    push_text(&mut key, "-");
    push_text(&mut key, end.as_str());
    key
}

/// The entries that a filter keeps, in their order.
pub open spec fn kept_by<T, F: Fn(&T) -> bool>(map: Seq<T>, filter: F) -> Seq<T> {
    map.filter(|x: T| call_ensures(filter, (&x,), true))
}

pub struct HashMapUtils;

pub struct VecUtils;

/// The views of texts.
pub open spec fn texts(list: Seq<String>) -> Seq<Seq<char>> {
    Seq::new(list.len(), |i: int| list[i]@)
}

/// The views of the first parts of pairs.
pub open spec fn first_texts<V>(list: Seq<(String, V)>) -> Seq<Seq<char>> {
    Seq::new(list.len(), |i: int| list[i].0@)
}

impl HashMapUtils {
    /// The keys, one per line.
    pub fn format_keys_as_string(keys: &Vec<String>) -> (text: String)
        ensures
            text@ == joined(texts(keys@), "\n"@),
    {
        let mut text = String::new();
        let mut i: usize = 0;
        while i < keys.len()
            invariant
                i <= keys.len(),
                text@ == joined(texts(keys@.subrange(0, i as int)), "\n"@),
            decreases keys.len() - i,
        {
            let ghost front = texts(keys@.subrange(0, i as int));
            let ghost next = texts(keys@.subrange(0, i + 1));
            if i > 0 {
                push_text(&mut text, "\n");
            }
            push_text(&mut text, keys[i].as_str());
            proof {
                assert(next.drop_last() =~= front);
                assert(next.last() == keys@[i as int]@);
                if i == 0 {
                    assert(text@ =~= keys@[0]@);
                }
                if i == 1 {
                    assert(front.len() == 1);
                }
            }
            i = i + 1;
        }
        proof {
            assert(keys@.subrange(0, keys.len() as int) =~= keys@);
        }
        text
    }

    /// Copies of the entries that the filter keeps, in their order.
    pub fn filter<T: Clone, F: Fn(&T) -> bool>(map: &Vec<T>, filter: F) -> (kept: Vec<T>)
        requires
            forall|x: T| call_requires(filter, (&x,)),
            forall|x: T|
                !(call_ensures(filter, (&x,), true) && call_ensures(filter, (&x,), false)),
        ensures
            kept@.len() == kept_by(map@, filter).len(),
            forall|k: int|
                0 <= k < kept@.len() ==> cloned::<T>(kept_by(map@, filter)[k], #[trigger] kept@[k]),
    {
        let ghost keep = |x: T| call_ensures(filter, (&x,), true);
        let mut kept: Vec<T> = Vec::new();
        let mut i: usize = 0;
        assert(map@.subrange(0, 0).filter(keep) =~= Seq::<T>::empty()) by {
            reveal_with_fuel(Seq::filter, 1);
        }
        while i < map.len()
            invariant
                i <= map.len(),
                keep == (|x: T| call_ensures(filter, (&x,), true)),
                forall|x: T| call_requires(filter, (&x,)),
                forall|x: T|
                    !(call_ensures(filter, (&x,), true) && call_ensures(filter, (&x,), false)),
                kept@.len() == map@.subrange(0, i as int).filter(keep).len(),
                forall|k: int|
                    0 <= k < kept@.len() ==> cloned::<T>(
                        map@.subrange(0, i as int).filter(keep)[k],
                        #[trigger] kept@[k],
                    ),
            decreases map.len() - i,
        {
            let ghost front = map@.subrange(0, i as int);
            let ghost next = map@.subrange(0, i + 1);
            proof {
                assert(next.drop_last() =~= front);
                assert(next.last() == map@[i as int]);
                reveal_with_fuel(Seq::filter, 1);
            }
            if filter(&map[i]) {
                assert(keep(map@[i as int]));
                assert(next.filter(keep) =~= front.filter(keep).push(map@[i as int]));
                kept.push(map[i].clone());
            } else {
                assert(!keep(map@[i as int]));
                assert(next.filter(keep) =~= front.filter(keep));
            }
            i = i + 1;
        }
        proof {
            assert(map@.subrange(0, map.len() as int) =~= map@);
        }
        kept
    }
}

impl VecUtils {
    /// The first parts of the pairs, one per line.
    pub fn format_keys_as_string<V>(keys: &Vec<(String, V)>) -> (text: String)
        ensures
            text@ == joined(first_texts(keys@), "\n"@),
    {
        let mut text = String::new();
        let mut i: usize = 0;
        while i < keys.len()
            invariant
                i <= keys.len(),
                text@ == joined(first_texts(keys@.subrange(0, i as int)), "\n"@),
            decreases keys.len() - i,
        {
            let ghost front = first_texts(keys@.subrange(0, i as int));
            let ghost next = first_texts(keys@.subrange(0, i + 1));
            if i > 0 {
                push_text(&mut text, "\n");
            }
            push_text(&mut text, keys[i].0.as_str());
            proof {
                assert(next.drop_last() =~= front);
                assert(next.last() == keys@[i as int].0@);
                if i == 0 {
                    assert(text@ =~= keys@[0].0@);
                }
                if i == 1 {
                    assert(front.len() == 1);
                }
            }
            i = i + 1;
        }
        proof {
            assert(keys@.subrange(0, keys.len() as int) =~= keys@);
        }
        text
    }
}

} // verus!
