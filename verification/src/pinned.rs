//! The list of pinned applications: pinning, unpinning, drag reordering, and its
//! JSON form on disk.
use crate::text::text_eq;
use crate::texts::texts_view;
use vstd::prelude::*;

verus! {

/// The first position of `a` in `p` (meaningful when `p` contains `a`).
pub open spec fn first_index(p: Seq<Seq<char>>, a: Seq<char>) -> int {
    choose|i: int| 0 <= i < p.len() && p[i] == a && forall|j: int| 0 <= j < i ==> p[j] != a
}

/// Pinning appends an application that is not pinned yet.
pub open spec fn pin_spec(p: Seq<Seq<char>>, a: Seq<char>) -> Seq<Seq<char>> {
    if p.contains(a) {
        p
    } else {
        p.push(a)
    }
}

/// Unpinning removes the first occurrence of the application, if any.
pub open spec fn unpin_spec(p: Seq<Seq<char>>, a: Seq<char>) -> Seq<Seq<char>> {
    if p.contains(a) {
        p.remove(first_index(p, a))
    } else {
        p
    }
}

/// Dragging the entry at `from` onto position `to` takes it out and puts `a` at `to`.
pub open spec fn move_spec(p: Seq<Seq<char>>, from: int, to: int, a: Seq<char>) -> Seq<Seq<char>> {
    p.remove(from).insert(to, a)
}

/// The position of the first entry equal to `a`, if any.
pub fn find_pinned(pinned: &Vec<String>, a: &str) -> (res: Option<usize>)
    ensures
        match res {
            Some(i) => {
                &&& i < pinned@.len()
                &&& texts_view(pinned@).contains(a@)
                &&& first_index(texts_view(pinned@), a@) == i
            },
            None => !texts_view(pinned@).contains(a@),
        },
{
    let ghost p = texts_view(pinned@);
    let mut i: usize = 0;
    while i < pinned.len()
        invariant
            i <= pinned@.len(),
            p == texts_view(pinned@),
            forall|j: int| 0 <= j < i ==> p[j] != a@,
        decreases pinned@.len() - i,
    {
        if text_eq(pinned[i].as_str(), a) {
            proof {
                assert(p[i as int] == a@);
                let c = first_index(p, a@);
                assert(0 <= i < p.len() && p[i as int] == a@ && forall|j: int| 0 <= j < i ==> p[j] != a@);
                assert(0 <= c < p.len() && p[c] == a@ && forall|j: int| 0 <= j < c ==> p[j] != a@);
                if c < i {
                    assert(p[c] != a@);
                } else if c > i {
                    assert(p[i as int] != a@);
                }
            }
            return Some(i);
        }
        i += 1;
    }
    None
}

/// Pins `a` unless it is pinned already; returns whether it was added.
pub fn pin(pinned: &mut Vec<String>, a: String) -> (added: bool)
    ensures
        texts_view(final(pinned)@) == pin_spec(texts_view(old(pinned)@), a@),
        added == !texts_view(old(pinned)@).contains(a@),
{
    match find_pinned(pinned, a.as_str()) {
        Some(_) => false,
        None => {
            let ghost av = a@;
            pinned.push(a);
            proof {
                assert(texts_view(pinned@) =~= texts_view(old(pinned)@).push(av));
            }
            true
        },
    }
}

/// Unpins the first occurrence of `a`; returns whether one was removed.
pub fn unpin(pinned: &mut Vec<String>, a: &str) -> (removed: bool)
    ensures
        texts_view(final(pinned)@) == unpin_spec(texts_view(old(pinned)@), a@),
        removed == texts_view(old(pinned)@).contains(a@),
{
    match find_pinned(pinned, a) {
        Some(i) => {
            pinned.remove(i);
            proof {
                assert(texts_view(pinned@) =~= texts_view(old(pinned)@).remove(i as int));
            }
            true
        },
        None => false,
    }
}

/// Moves a dragged entry: takes out the entry at `from` and puts `a` at `to`.
pub fn move_pinned(pinned: &mut Vec<String>, from: usize, to: usize, a: String)
    requires
        from < old(pinned)@.len(),
        to < old(pinned)@.len(),
    ensures
        texts_view(final(pinned)@) == move_spec(texts_view(old(pinned)@), from as int, to as int, a@),
{
    let ghost av = a@;
    pinned.remove(from);
    pinned.insert(to, a);
    proof {
        assert(texts_view(pinned@) =~= texts_view(old(pinned)@).remove(from as int).insert(to as int, av));
    }
}

/// Pinning then unpinning an application that was not pinned gives back the list
/// it started from.
pub proof fn law_pin_then_unpin(p: Seq<Seq<char>>, a: Seq<char>)
    requires
        !p.contains(a),
    ensures
        unpin_spec(pin_spec(p, a), a) == p,
{
    let q = p.push(a);
    assert(q[p.len() as int] == a);
    assert(q.contains(a));
    let c = first_index(q, a);
    assert(0 <= p.len() < q.len() && q[p.len() as int] == a && forall|j: int| 0 <= j < p.len() ==> q[j] != a) by {
        assert forall|j: int| 0 <= j < p.len() implies q[j] != a by {
            assert(q[j] == p[j]);
        }
    }
    assert(c == p.len()) by {
        if c < p.len() {
            assert(q[c] == p[c]);
        }
    }
    assert(q.remove(p.len() as int) =~= p);
}

/// Pinning and unpinning keep a list free of duplicates.
pub proof fn law_pin_unpin_keep_distinct(p: Seq<Seq<char>>, a: Seq<char>)
    requires
        p.no_duplicates(),
    ensures
        pin_spec(p, a).no_duplicates(),
        unpin_spec(p, a).no_duplicates(),
{
    if !p.contains(a) {
        let q = p.push(a);
        assert forall|i: int, j: int| 0 <= i < q.len() && 0 <= j < q.len() && i != j implies q[i] != q[j] by {
            if i == p.len() {
                assert(q[j] == p[j]);
            } else if j == p.len() {
                assert(q[i] == p[i]);
            } else {
                assert(q[i] == p[i] && q[j] == p[j]);
            }
        }
    } else {
        let c = first_index(p, a);
        assert(exists|i: int| 0 <= i < p.len() && p[i] == a);
        let w = choose|i: int| 0 <= i < p.len() && p[i] == a;
        assert(0 <= w < p.len() && p[w] == a && forall|j: int| 0 <= j < w ==> p[j] != a) by {
            assert forall|j: int| 0 <= j < w implies p[j] != a by {
            }
        }
        let r = p.remove(c);
        p.remove_ensures(c);
        assert forall|i: int, j: int| 0 <= i < r.len() && 0 <= j < r.len() && i != j implies r[i] != r[j] by {
            let oi = if i < c { i } else { i + 1 };
            let oj = if j < c { j } else { j + 1 };
            assert(r[i] == p[oi] && r[j] == p[oj]);
        }
    }
}

/// Dragging a pinned application to another slot keeps the same applications: the
/// list is rearranged, nothing is added or lost.
pub proof fn law_move_is_permutation(p: Seq<Seq<char>>, from: int, to: int)
    requires
        0 <= from < p.len(),
        0 <= to < p.len(),
    ensures
        move_spec(p, from, to, p[from]).to_multiset() == p.to_multiset(),
        move_spec(p, from, to, p[from]).len() == p.len(),
{
    let a = p[from];
    let r = p.remove(from);
    p.remove_ensures(from);
    assert(p =~= r.insert(from, a));
    lemma_insert_multiset(r, from, a);
    lemma_insert_multiset(r, to, a);
}

proof fn lemma_insert_multiset<A>(s: Seq<A>, i: int, x: A)
    requires
        0 <= i <= s.len(),
    ensures
        s.insert(i, x).to_multiset() == s.to_multiset().insert(x),
{
    broadcast use vstd::seq_lib::group_to_multiset_ensures;
    let left = s.subrange(0, i);
    let right = s.subrange(i, s.len() as int);
    assert(s =~= left + right);
    assert(s.insert(i, x) =~= left.push(x) + right);
    vstd::seq_lib::lemma_multiset_commutative(left.push(x), right);
    vstd::seq_lib::lemma_multiset_commutative(left, right);
}

/// The list of texts that the JSON text `text` holds, if it is a JSON array of strings.
pub uninterp spec fn json_string_list(text: Seq<char>) -> Option<Seq<Seq<char>>>;

/// The JSON text that encodes a list of strings.
pub uninterp spec fn json_of_string_list(items: Seq<Seq<char>>) -> Seq<char>;

/// Trusted: `serde_json::from_str::<Vec<String>>`. Claims only that an `Ok` result is
/// named `json_string_list` of the input and an error is its `None`; what JSON text
/// decodes to what list is left to serde_json.
#[verifier::external_body]
fn json_decode_list(text: &str) -> (res: Option<Vec<String>>)
    ensures
        match res {
            Some(v) => json_string_list(text@) == Some(texts_view(v@)),
            None => json_string_list(text@) is None,
        },
{
    serde_json::from_str::<Vec<String>>(text).ok()
}

/// Trusted: `serde_json::to_string` on a `Vec<String>`. It succeeds, and its text is
/// named `json_of_string_list` of the items: a list of strings is written into a
/// byte vector, which serde_json does without a failing step (no map keys, no
/// custom serializer, a writer that cannot fail). The text is a JSON array of the
/// strings, each escaped so that `serde_json::from_str::<Vec<String>>` reads it back
/// unchanged: decoding it gives the items again.
#[verifier::external_body]
fn json_encode_list(items: &Vec<String>) -> (res: Option<String>)
    ensures
        res is Some,
        res matches Some(s) ==> s@ == json_of_string_list(texts_view(items@)),
        res matches Some(s) ==> json_string_list(s@) == Some(texts_view(items@)),
{
    serde_json::to_string(items).ok()
}

/// The pinned list stored in a configuration file's text; an unreadable text gives
/// an empty list.
pub fn parse_pinned(content: &str) -> (res: Vec<String>)
    ensures
        texts_view(res@) == match json_string_list(content@) {
            Some(v) => v,
            None => Seq::<Seq<char>>::empty(),
        },
{
    match json_decode_list(content) {
        Some(v) => v,
        None => {
            let v: Vec<String> = Vec::new();
            proof {
                assert(texts_view(v@) =~= Seq::<Seq<char>>::empty());
            }
            v
        },
    }
}

/// The configuration file text for a pinned list: the JSON array of its entries.
/// Encoding a list of strings always succeeds, and reading the text back with
/// `parse_pinned` gives the list again.
pub fn encode_pinned(pinned: &Vec<String>) -> (res: Option<String>)
    ensures
        res is Some,
        res->0@ == json_of_string_list(texts_view(pinned@)),
        json_string_list(res->0@) == Some(texts_view(pinned@)),
{
    json_encode_list(pinned)
}

} // verus!
