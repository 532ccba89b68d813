//! The order of texts by their UTF-8 bytes, and sequences kept in that
//! order without repeats.
use vstd::prelude::*;
use vstd::string::*;
use vstd::utf8::*;

verus! {

/// `a` comes before `b` when the bytes are compared one by one: at the first
/// place where they differ the smaller byte decides, and a proper prefix
/// comes before the longer sequence.
pub open spec fn bytes_lt(a: Seq<u8>, b: Seq<u8>) -> bool
    decreases a.len(),
{
    if b.len() == 0 {
        false
    } else if a.len() == 0 {
        true
    } else if a[0] != b[0] {
        a[0] < b[0]
    } else {
        bytes_lt(a.drop_first(), b.drop_first())
    }
}

/// No byte sequence comes before itself.
pub proof fn lemma_bytes_lt_irreflexive(a: Seq<u8>)
    ensures
        !bytes_lt(a, a),
    decreases a.len(),
{
    if a.len() > 0 {
        lemma_bytes_lt_irreflexive(a.drop_first());
    }
}

/// The byte order is transitive.
pub proof fn lemma_bytes_lt_transitive(a: Seq<u8>, b: Seq<u8>, c: Seq<u8>)
    requires
        bytes_lt(a, b),
        bytes_lt(b, c),
    ensures
        bytes_lt(a, c),
    decreases a.len(),
{
    if a.len() > 0 && a[0] == b[0] && b[0] == c[0] {
        lemma_bytes_lt_transitive(a.drop_first(), b.drop_first(), c.drop_first());
    }
}

/// Of two different byte sequences one comes before the other.
pub proof fn lemma_bytes_lt_total(a: Seq<u8>, b: Seq<u8>)
    ensures
        bytes_lt(a, b) || bytes_lt(b, a) || a == b,
    decreases a.len(),
{
    if a.len() > 0 && b.len() > 0 && a[0] == b[0] {
        lemma_bytes_lt_total(a.drop_first(), b.drop_first());
        if a.drop_first() == b.drop_first() {
            assert(a =~= seq![a[0]] + a.drop_first());
            assert(b =~= seq![b[0]] + b.drop_first());
        }
    } else if a.len() == 0 && b.len() == 0 {
        assert(a =~= b);
    }
}

/// The order of texts: that of their UTF-8 encodings, byte by byte.
pub open spec fn text_lt(a: Seq<char>, b: Seq<char>) -> bool {
    bytes_lt(encode_utf8(a), encode_utf8(b))
}

/// No text comes before itself.
pub proof fn lemma_text_lt_irreflexive(a: Seq<char>)
    ensures
        !text_lt(a, a),
{
    lemma_bytes_lt_irreflexive(encode_utf8(a));
}

/// The order of texts is transitive.
pub proof fn lemma_text_lt_transitive(a: Seq<char>, b: Seq<char>, c: Seq<char>)
    requires
        text_lt(a, b),
        text_lt(b, c),
    ensures
        text_lt(a, c),
{
    lemma_bytes_lt_transitive(encode_utf8(a), encode_utf8(b), encode_utf8(c));
}

/// Of two different texts one comes before the other.
pub proof fn lemma_text_lt_total(a: Seq<char>, b: Seq<char>)
    ensures
        text_lt(a, b) || text_lt(b, a) || a == b,
{
    lemma_bytes_lt_total(encode_utf8(a), encode_utf8(b));
    if encode_utf8(a) == encode_utf8(b) {
        encode_utf8_decode_utf8(a);
        encode_utf8_decode_utf8(b);
    }
}

/// Whether `a` comes before `b` in the order of texts.
pub fn str_lt(a: &str, b: &str) -> (r: bool)
    ensures
        r == text_lt(a@, b@),
{
    let x = a.as_bytes();
    let y = b.as_bytes();
    let mut i: usize = 0;
    assert(x@.skip(0) == x@ && y@.skip(0) == y@);
    while i < x.len() && i < y.len()
        invariant
            i <= x.len(),
            i <= y.len(),
            x@ == encode_utf8(a@),
            y@ == encode_utf8(b@),
            bytes_lt(x@, y@) == bytes_lt(x@.skip(i as int), y@.skip(i as int)),
        decreases x.len() - i,
    {
        assert(x@.skip(i as int).drop_first() == x@.skip(i + 1));
        assert(y@.skip(i as int).drop_first() == y@.skip(i + 1));
        assert(x@.skip(i as int)[0] == x@[i as int]);
        assert(y@.skip(i as int)[0] == y@[i as int]);
        if x[i] != y[i] {
            return x[i] < y[i];
        }
        i += 1;
    }
    i < y.len()
}

/// Each item comes before every later one: in order, and nothing twice.
pub open spec fn ascending(s: Seq<Seq<char>>) -> bool {
    forall|i: int, j: int| 0 <= i < j < s.len() ==> text_lt(#[trigger] s[i], #[trigger] s[j])
}

/// Puts `item` into the ascending `list` at its place, unless the list
/// already holds an equal text.
pub fn insert_ascending(list: &mut Vec<String>, item: String)
    requires
        ascending(crate::text::views(old(list)@)),
    ensures
        ascending(crate::text::views(final(list)@)),
        forall|p: Seq<char>|
            crate::text::views(final(list)@).contains(p) <==> (crate::text::views(
                old(list)@,
            ).contains(p) || p == item@),
{
    let ghost before = crate::text::views(list@);
    let mut i: usize = 0;
    while i < list.len() && str_lt(list[i].as_str(), item.as_str())
        invariant
            i <= list.len(),
            crate::text::views(list@) == before,
            forall|k: int| 0 <= k < i ==> text_lt(#[trigger] before[k], item@),
        decreases list.len() - i,
    {
        i += 1;
    }
    if i < list.len() && list[i] == item {
        assert(before[i as int] == item@);
        return ;
    }
    proof {
        if i < list.len() {
            lemma_text_lt_total(before[i as int], item@);
            assert forall|k: int| i <= k < before.len() implies text_lt(
                item@,
                #[trigger] before[k],
            ) by {
                if k > i {
                    lemma_text_lt_transitive(item@, before[i as int], before[k]);
                }
            }
        }
    }
    list.insert(i, item);
    proof {
        let after = crate::text::views(list@);
        assert(after == before.insert(i as int, item@));
        assert forall|p: Seq<char>| after.contains(p) <==> (before.contains(p) || p
            == item@) by {
            if after.contains(p) {
                let k = choose|k: int| 0 <= k < after.len() && after[k] == p;
                if k < i {
                    assert(before[k] == p);
                } else if k > i {
                    assert(before[k - 1] == p);
                }
            }
            if before.contains(p) {
                let k = choose|k: int| 0 <= k < before.len() && before[k] == p;
                if k < i {
                    assert(after[k] == p);
                } else {
                    assert(after[k + 1] == p);
                }
            }
            if p == item@ {
                assert(after[i as int] == p);
            }
        }
    }
}

/// Two ascending sequences that hold the same texts are the same sequence.
pub proof fn lemma_ascending_unique(a: Seq<Seq<char>>, b: Seq<Seq<char>>)
    requires
        ascending(a),
        ascending(b),
        forall|p: Seq<char>| a.contains(p) <==> b.contains(p),
    ensures
        a == b,
{
    lemma_ascending_agree(a, b, a.len() as int);
    lemma_ascending_agree(b, a, b.len() as int);
    if a.len() < b.len() {
        let p = b[a.len() as int];
        assert(b.contains(p));
        let k = choose|k: int| 0 <= k < a.len() && a[k] == p;
        lemma_ascending_agree(a, b, k + 1);
        lemma_text_lt_irreflexive(p);
    }
    if b.len() < a.len() {
        let p = a[b.len() as int];
        assert(a.contains(p));
        let k = choose|k: int| 0 <= k < b.len() && b[k] == p;
        lemma_ascending_agree(b, a, k + 1);
        lemma_text_lt_irreflexive(p);
    }
    assert(a =~= b);
}

/// Two ascending sequences that hold the same texts agree on their first
/// `n` places, as far as both reach.
proof fn lemma_ascending_agree(a: Seq<Seq<char>>, b: Seq<Seq<char>>, n: int)
    requires
        ascending(a),
        ascending(b),
        forall|p: Seq<char>| a.contains(p) <==> b.contains(p),
        0 <= n,
    ensures
        forall|i: int| 0 <= i < n && i < a.len() && i < b.len() ==> a[i] == b[i],
    decreases n,
{
    if n > 0 {
        lemma_ascending_agree(a, b, n - 1);
        let i = n - 1;
        if i < a.len() && i < b.len() {
            assert(a.contains(a[i]));
            assert(b.contains(b[i]));
            let k = choose|k: int| 0 <= k < b.len() && b[k] == a[i];
            let m = choose|m: int| 0 <= m < a.len() && a[m] == b[i];
            lemma_text_lt_irreflexive(a[i]);
            lemma_text_lt_irreflexive(b[i]);
            lemma_text_lt_total(a[i], b[i]);
            if k < i {
                assert(a[k] == b[k]);
                assert(text_lt(a[k], a[i]));
            }
            if m < i {
                assert(a[m] == b[m]);
                assert(text_lt(b[m], b[i]));
            }
            if k > i && m > i {
                assert(text_lt(b[i], b[k]));
                assert(text_lt(a[i], a[m]));
                lemma_text_lt_transitive(a[i], b[i], a[i]);
            }
        }
    }
}

} // verus!
