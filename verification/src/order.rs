//! The order of texts by code point (the order of `String` and of paths within one
//! directory), and a stable sort of values by a text key.
use vstd::prelude::*;
use vstd::multiset::Multiset;

verus! {

/// `a` comes before `b` or equals it, comparing character codes from the left and a
/// prefix before any longer text.
pub open spec fn text_le(a: Seq<char>, b: Seq<char>) -> bool
    decreases a.len(),
{
    if a.len() == 0 {
        true
    } else if b.len() == 0 {
        false
    } else if (a[0] as u32) < (b[0] as u32) {
        true
    } else if (a[0] as u32) > (b[0] as u32) {
        false
    } else {
        text_le(a.drop_first(), b.drop_first())
    }
}

/// Characters with the same code are the same character.
proof fn lemma_char_eq(a: char, b: char)
    requires
        (a as u32) == (b as u32),
    ensures
        a == b,
{
}

/// Either text comes first: the order is total.
pub proof fn lemma_total(a: Seq<char>, b: Seq<char>)
    ensures
        text_le(a, b) || text_le(b, a),
    decreases a.len(),
{
    if a.len() > 0 && b.len() > 0 && (a[0] as u32) == (b[0] as u32) {
        lemma_total(a.drop_first(), b.drop_first());
    }
}

/// Texts that come before each other are equal.
pub proof fn lemma_antisymmetric(a: Seq<char>, b: Seq<char>)
    requires
        text_le(a, b),
        text_le(b, a),
    ensures
        a == b,
    decreases a.len(),
{
    if a.len() == 0 {
        assert(b.len() == 0);
        assert(a =~= b);
    } else {
        assert(b.len() > 0);
        assert((a[0] as u32) == (b[0] as u32));
        lemma_char_eq(a[0], b[0]);
        lemma_antisymmetric(a.drop_first(), b.drop_first());
        assert(a =~= seq![a[0]] + a.drop_first());
        assert(b =~= seq![b[0]] + b.drop_first());
    }
}

/// The order is transitive.
pub proof fn lemma_transitive(a: Seq<char>, b: Seq<char>, c: Seq<char>)
    requires
        text_le(a, b),
        text_le(b, c),
    ensures
        text_le(a, c),
    decreases a.len(),
{
    if a.len() > 0 && b.len() > 0 && c.len() > 0 && (a[0] as u32) == (b[0] as u32) && (b[0] as u32)
        == (c[0] as u32) {
        lemma_transitive(a.drop_first(), b.drop_first(), c.drop_first());
    }
}

/// Every text comes before or equals itself.
pub proof fn lemma_reflexive(a: Seq<char>)
    ensures
        text_le(a, a),
    decreases a.len(),
{
    if a.len() > 0 {
        lemma_reflexive(a.drop_first());
    }
}

/// Whether `a` comes before `b` or equals it.
pub fn chars_le(a: &[char], b: &[char]) -> (r: bool)
    ensures
        r == text_le(a@, b@),
{
    let mut i: usize = 0;
    assert(a@.skip(0) =~= a@);
    assert(b@.skip(0) =~= b@);
    while i < a.len() && i < b.len()
        invariant
            i <= a@.len(),
            i <= b@.len(),
            text_le(a@, b@) == text_le(a@.skip(i as int), b@.skip(i as int)),
        decreases a@.len() - i,
    {
        let x = a[i] as u32;
        let y = b[i] as u32;
        if x < y {
            return true;
        }
        if x > y {
            return false;
        }
        assert(a@.skip(i as int).drop_first() =~= a@.skip(i + 1));
        assert(b@.skip(i as int).drop_first() =~= b@.skip(i + 1));
        i = i + 1;
    }
    i == a.len()
}

/// Values that carry a text by which they are sorted.
pub trait TextKey {
    spec fn key(&self) -> Seq<char>;

    fn key_chars(&self) -> (r: Vec<char>)
        ensures
            r@ == self.key(),
    ;
}

impl TextKey for String {
    open spec fn key(&self) -> Seq<char> {
        self@
    }

    fn key_chars(&self) -> (r: Vec<char>) {
        crate::text::to_chars(self.as_str())
    }
}

/// The keys of `s` never decrease.
pub open spec fn sorted_by_key<T: TextKey>(s: Seq<T>) -> bool {
    forall|i: int, j: int| 0 <= i < j < s.len() ==> text_le(#[trigger] s[i].key(), #[trigger] s[j].key())
}

/// Values with equal keys keep the order they had: whenever `r[i]` and `r[j]`
/// (`i < j`) have equal keys, they are the values at positions `p[i] < p[j]` of the input.
pub open spec fn stable_image<T>(r: Seq<T>, v: Seq<T>, p: Seq<int>) -> bool {
    &&& p.len() == r.len()
    &&& forall|i: int| 0 <= i < r.len() ==> 0 <= #[trigger] p[i] < v.len() && r[i] == v[p[i]]
    &&& forall|i: int, j: int| 0 <= i < j < r.len() ==> #[trigger] p[i] != #[trigger] p[j]
}

/// The values of `v` sorted by key; values with equal keys keep their order.
pub fn sort_by_key<T: TextKey>(v: Vec<T>) -> (r: Vec<T>)
    ensures
        sorted_by_key(r@),
        r@.to_multiset() == v@.to_multiset(),
        exists|p: Seq<int>|
            stable_image(r@, v@, p) && forall|i: int, j: int|
                0 <= i < j < r@.len() && r@[i].key() == r@[j].key() ==> #[trigger] p[i] < #[trigger] p[j],
{
    broadcast use vstd::seq_lib::group_to_multiset_ensures;

    let ghost orig = v@;
    let mut rest = v;
    let mut out: Vec<T> = Vec::new();
    let mut keys: Vec<Vec<char>> = Vec::new();
    let ghost mut pos: Seq<int> = seq![];
    while rest.len() > 0
        invariant
            rest@ == orig.take(rest@.len() as int),
            rest@.len() <= orig.len(),
            out@.to_multiset().add(rest@.to_multiset()) == orig.to_multiset(),
            sorted_by_key(out@),
            keys@.len() == out@.len(),
            forall|i: int| 0 <= i < out@.len() ==> #[trigger] keys@[i]@ == out@[i].key(),
            stable_image(out@, orig, pos),
            forall|i: int| 0 <= i < out@.len() ==> rest@.len() <= #[trigger] pos[i],
            forall|i: int, j: int|
                0 <= i < j < out@.len() && out@[i].key() == out@[j].key() ==> #[trigger] pos[i]
                    < #[trigger] pos[j],
        decreases rest@.len(),
    {
        let ghost before_rest = rest@;
        let x = rest.pop().unwrap();
        let ghost xi = rest@.len() as int;
        assert(before_rest == rest@.push(x));
        assert(orig[xi] == x);
        let xk = x.key_chars();
        // The first place whose key is not below the key of `x`.
        let mut j: usize = 0;
        while j < out.len() && !chars_le(xk.as_slice(), keys[j].as_slice())
            invariant
                j <= out@.len(),
                xk@ == x.key(),
                keys@.len() == out@.len(),
                forall|i: int| 0 <= i < out@.len() ==> #[trigger] keys@[i]@ == out@[i].key(),
                forall|i: int| 0 <= i < j ==> !text_le(x.key(), #[trigger] out@[i].key()),
            decreases out@.len() - j,
        {
            assert(keys@[j as int]@ == out@[j as int].key());
            j = j + 1;
        }
        let ghost old_out = out@;
        let ghost old_pos = pos;
        proof {
            assert forall|i: int| 0 <= i < j implies text_le(#[trigger] old_out[i].key(), x.key())
                && old_out[i].key() != x.key() by {
                lemma_total(x.key(), old_out[i].key());
                if old_out[i].key() == x.key() {
                    lemma_reflexive(x.key());
                }
            }
            if j < old_out.len() {
                assert(text_le(x.key(), old_out[j as int].key()));
            }
            assert forall|k: int| j <= k < old_out.len() implies text_le(
                x.key(),
                #[trigger] old_out[k].key(),
            ) by {
                if k > j {
                    lemma_transitive(x.key(), old_out[j as int].key(), old_out[k].key());
                }
            }
        }
        out.insert(j, x);
        keys.insert(j, xk);
        proof {
            pos = old_pos.insert(j as int, xi);
            assert(out@ =~= old_out.insert(j as int, x));
            vstd::seq_lib::to_multiset_insert(old_out, j as int, x);
            vstd::seq_lib::to_multiset_build(rest@, x);
            assert(before_rest.to_multiset() == rest@.to_multiset().insert(x));
            assert(out@.to_multiset().add(rest@.to_multiset()) =~= orig.to_multiset());
            assert(rest@ =~= orig.take(rest@.len() as int));
            assert forall|a: int, b: int| 0 <= a < b < out@.len() implies text_le(
                #[trigger] out@[a].key(),
                #[trigger] out@[b].key(),
            ) by {
                if a < j && b == j {
                } else if a == j && b > j {
                    assert(text_le(x.key(), old_out[b - 1].key()));
                } else if a < j && b > j {
                    assert(text_le(x.key(), old_out[b - 1].key()));
                    lemma_transitive(old_out[a].key(), x.key(), old_out[b - 1].key());
                } else if a > j {
                    assert(out@[a] == old_out[a - 1]);
                    assert(out@[b] == old_out[b - 1]);
                }
            }
            assert forall|a: int, b: int|
                0 <= a < b < out@.len() && out@[a].key() == out@[b].key() implies #[trigger] pos[a]
                < #[trigger] pos[b] by {
                if a < j && b == j {
                    lemma_reflexive(x.key());
                    assert(!text_le(x.key(), old_out[a].key()));
                } else if a == j && b > j {
                    assert(pos[b] == old_pos[b - 1]);
                    assert(old_pos[b - 1] >= before_rest.len());
                } else if a < j && b > j {
                    assert(pos[a] == old_pos[a]);
                    assert(pos[b] == old_pos[b - 1]);
                    assert(old_out[a].key() == old_out[b - 1].key());
                } else if a > j {
                    assert(pos[a] == old_pos[a - 1]);
                    assert(pos[b] == old_pos[b - 1]);
                    assert(old_out[a - 1].key() == old_out[b - 1].key());
                } else {
                    assert(pos[a] == old_pos[a]);
                    assert(pos[b] == old_pos[b]);
                    assert(old_out[a].key() == old_out[b].key());
                }
            }
            assert(stable_image(out@, orig, pos)) by {
                assert forall|a: int, b: int| 0 <= a < b < out@.len() implies #[trigger] pos[a]
                    != #[trigger] pos[b] by {
                    if a == j {
                        assert(pos[b] == old_pos[b - 1]);
                    } else if b == j {
                    } else {
                        let a2 = if a < j { a } else { a - 1 };
                        let b2 = if b < j { b } else { b - 1 };
                        assert(pos[a] == old_pos[a2]);
                        assert(pos[b] == old_pos[b2]);
                    }
                }
            }
        }
    }
    assert(rest@.to_multiset() =~= Multiset::empty());
    assert(out@.to_multiset().add(Multiset::empty()) =~= out@.to_multiset());
    assert(stable_image(out@, v@, pos));
    out
}

} // verus!
