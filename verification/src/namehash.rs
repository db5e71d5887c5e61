use vstd::prelude::*;

use tiny_keccak::Hasher;
use vstd::string::StrSliceExecFns;
use vstd::utf8::encode_utf8;

verus! {

/// The 32-byte Keccak-256 digest of the input, a function of the bytes alone.
pub uninterp spec fn keccak256_of(data: Seq<u8>) -> Seq<u8>;

/// Relies on tiny_keccak's Keccak::v256, Hasher::update and Hasher::finalize:
/// together they compute the 32-byte Keccak-256 digest of the input bytes,
/// which depends on the input alone.
#[verifier::external_body]
fn keccak256(data: &Vec<u8>) -> (r: Vec<u8>)
    ensures
        r@ == keccak256_of(data@),
        r@.len() == 32,
{
    let mut hasher = tiny_keccak::Keccak::v256();
    hasher.update(data.as_slice());
    let mut out = [0u8; 32];
    hasher.finalize(&mut out);
    out.to_vec()
}

/// The lower-case form of a string, as str::to_lowercase yields it: a
/// function of the characters alone.
pub uninterp spec fn lower_of(s: Seq<char>) -> Seq<char>;

/// Relies on str::to_lowercase: the Unicode lower-case equivalent of the
/// string, depending on its characters alone; an empty string stays empty.
#[verifier::external_body]
fn lowercase(s: &str) -> (r: String)
    ensures
        r@ == lower_of(s@),
        s@.len() == 0 ==> r@.len() == 0,
{
    s.to_lowercase()
}

/// The all-zero node that roots the name hierarchy.
pub open spec fn zero32() -> Seq<u8> {
    Seq::new(32, |i: int| 0u8)
}

/// The labels of a dotted name, in order, dots removed; empty labels stay.
pub open spec fn split_labels(s: Seq<u8>) -> Seq<Seq<u8>>
    decreases s.len(),
{
    if s.len() == 0 {
        seq![Seq::<u8>::empty()]
    } else if s[0] == 0x2E {
        seq![Seq::<u8>::empty()] + split_labels(s.skip(1))
    } else {
        let rest = split_labels(s.skip(1));
        seq![seq![s[0]] + rest[0]] + rest.skip(1)
    }
}

/// The node of a label sequence: fold the reversed labels over Keccak-256,
/// so the head label is hashed into the accumulator last.
pub open spec fn fold_node(labels: Seq<Seq<u8>>) -> Seq<u8>
    decreases labels.len(),
{
    if labels.len() == 0 {
        zero32()
    } else {
        keccak256_of(fold_node(labels.skip(1)) + keccak256_of(labels[0]))
    }
}

/// The node of a byte sequence taken exactly as it stands: zero for the
/// empty sequence, else the Keccak-256 fold of its labels. No case folding
/// happens at this level.
pub open spec fn node_of_bytes(name: Seq<u8>) -> Seq<u8> {
    if name.len() == 0 {
        zero32()
    } else {
        fold_node(split_labels(name))
    }
}

/// The 32-byte node of a name: the empty name maps to the zero node; any
/// other name is lower-cased as str::to_lowercase does, and its UTF-8 bytes
/// are folded label by label.
pub open spec fn namehash_of(name: Seq<char>) -> Seq<u8> {
    if name.len() == 0 {
        zero32()
    } else {
        node_of_bytes(encode_utf8(lower_of(name)))
    }
}

proof fn lemma_split_labels_nonempty(s: Seq<u8>)
    ensures
        split_labels(s).len() >= 1,
    decreases s.len(),
{
    if s.len() != 0 && s[0] != 0x2E {
        lemma_split_labels_nonempty(s.skip(1));
    }
}

/// Splitting after the first dot: the prefix before it is the head label.
proof fn lemma_split_at_dot(s: Seq<u8>, k: int)
    requires
        0 <= k < s.len(),
        s[k] == 0x2E,
        forall|j: int| 0 <= j < k ==> s[j] != 0x2E,
    ensures
        split_labels(s) == seq![s.subrange(0, k)] + split_labels(s.skip(k + 1)),
    decreases k,
{
    lemma_split_labels_nonempty(s.skip(1));
    if k == 0 {
        assert(s.subrange(0, 0) =~= Seq::<u8>::empty());
        assert(split_labels(s) =~~= seq![s.subrange(0, 0)] + split_labels(s.skip(1)));
    } else {
        let t = s.skip(1);
        assert(t[k - 1] == s[k as int]);
        assert forall|j: int| 0 <= j < k - 1 implies t[j] != 0x2E by {
            assert(t[j] == s[j + 1]);
        }
        lemma_split_at_dot(t, k - 1);
        let rest = split_labels(t);
        assert(rest[0] == t.subrange(0, k - 1));
        assert(seq![s[0]] + t.subrange(0, k - 1) =~= s.subrange(0, k));
        assert(t.skip(k) =~= s.skip(k + 1));
        assert(rest.skip(1) =~~= split_labels(s.skip(k + 1)));
        assert(split_labels(s) =~~= seq![s.subrange(0, k)] + split_labels(s.skip(k + 1)));
    }
}

/// A name without a dot is one single label.
proof fn lemma_split_no_dot(s: Seq<u8>)
    requires
        forall|j: int| 0 <= j < s.len() ==> s[j] != 0x2E,
    ensures
        split_labels(s) == seq![s],
    decreases s.len(),
{
    if s.len() == 0 {
        assert(split_labels(s) =~~= seq![s]);
    } else {
        let t = s.skip(1);
        assert forall|j: int| 0 <= j < t.len() implies t[j] != 0x2E by {
            assert(t[j] == s[j + 1]);
        }
        lemma_split_no_dot(t);
        assert(seq![s[0]] + t =~= s);
        assert(split_labels(s) =~~= seq![s]);
    }
}

/// The node of a name ignores character case: two names, both empty or both
/// not, that agree after lower-casing share one node.
pub proof fn lemma_namehash_case_insensitive(a: Seq<char>, b: Seq<char>)
    requires
        lower_of(a) == lower_of(b),
        (a.len() == 0) == (b.len() == 0),
    ensures
        namehash_of(a) == namehash_of(b),
{
}

/// A vector holding the 32 zero bytes of the root node.
fn zero_node() -> (r: Vec<u8>)
    ensures
        r@ == zero32(),
{
    let mut out: Vec<u8> = Vec::new();
    let mut i: usize = 0;
    while i < 32
        invariant
            i <= 32,
            out@.len() == i,
            forall|j: int| 0 <= j < i ==> out@[j] == 0u8,
        decreases 32 - i,
    {
        out.push(0u8);
        i = i + 1;
    }
    proof {
        assert(out@ =~= zero32());
    }
    out
}

/// The labels of `s`, split on dots.
fn split_vec(s: &Vec<u8>) -> (r: Vec<Vec<u8>>)
    ensures
        r.deep_view() == split_labels(s@),
{
    let mut labels: Vec<Vec<u8>> = Vec::new();
    let mut cur: Vec<u8> = Vec::new();
    let ghost mut start: int = 0;
    let mut i: usize = 0;
    proof {
        assert(s@.skip(0) =~= s@);
        assert(labels.deep_view() + split_labels(s@) =~~= split_labels(s@));
        assert(cur@ =~= s@.subrange(0, 0));
    }
    while i < s.len()
        invariant
            0 <= start <= i <= s@.len(),
            cur@ == s@.subrange(start, i as int),
            forall|j: int| start <= j < i ==> s@[j] != 0x2E,
            split_labels(s@) == labels.deep_view() + split_labels(s@.skip(start)),
        decreases s@.len() - i,
    {
        let b = s[i];
        if b == 0x2E {
            proof {
                let tail = s@.skip(start);
                assert(tail[i - start] == s@[i as int]);
                assert forall|j: int| 0 <= j < i - start implies tail[j] != 0x2E by {
                    assert(tail[j] == s@[start + j]);
                }
                lemma_split_at_dot(tail, i - start);
                assert(tail.subrange(0, i - start) =~= s@.subrange(start, i as int));
                assert(tail.skip(i - start + 1) =~= s@.skip(i + 1));
            }
            let ghost dv = labels.deep_view();
            labels.push(cur);
            cur = Vec::new();
            proof {
                assert(labels.deep_view() =~~= dv.push(s@.subrange(start, i as int)));
                assert(dv.push(s@.subrange(start, i as int)) + split_labels(s@.skip(i + 1))
                    =~~= dv + (seq![s@.subrange(start, i as int)] + split_labels(s@.skip(i + 1))));
                start = i + 1;
                assert(cur@ =~= s@.subrange(start, i + 1));
            }
        } else {
            cur.push(b);
            proof {
                assert(cur@ =~= s@.subrange(start, i + 1));
            }
        }
        i = i + 1;
    }
    proof {
        let tail = s@.skip(start);
        assert forall|j: int| 0 <= j < tail.len() implies tail[j] != 0x2E by {
            assert(tail[j] == s@[start + j]);
        }
        lemma_split_no_dot(tail);
        assert(tail =~= s@.subrange(start, s@.len() as int));
    }
    let ghost dv = labels.deep_view();
    labels.push(cur);
    proof {
        assert(labels.deep_view() =~~= dv.push(s@.subrange(start, s@.len() as int)));
        assert(dv.push(s@.subrange(start, s@.len() as int)) =~~= dv + seq![
            s@.subrange(start, s@.len() as int),
        ]);
        assert(labels.deep_view() =~~= split_labels(s@));
    }
    labels
}

/// The concatenation of two byte vectors.
pub(crate) fn concat_bytes(a: &Vec<u8>, b: &Vec<u8>) -> (r: Vec<u8>)
    ensures
        r@ == a@ + b@,
{
    let mut out: Vec<u8> = Vec::new();
    let mut i: usize = 0;
    while i < a.len()
        invariant
            i <= a@.len(),
            out@ == a@.subrange(0, i as int),
        decreases a@.len() - i,
    {
        out.push(a[i]);
        proof {
            assert(out@ =~= a@.subrange(0, i + 1));
        }
        i = i + 1;
    }
    let mut j: usize = 0;
    while j < b.len()
        invariant
            j <= b@.len(),
            out@ == a@.subrange(0, a@.len() as int) + b@.subrange(0, j as int),
        decreases b@.len() - j,
    {
        out.push(b[j]);
        proof {
            assert(out@ =~= a@.subrange(0, a@.len() as int) + b@.subrange(0, j + 1));
        }
        j = j + 1;
    }
    proof {
        assert(a@.subrange(0, a@.len() as int) =~= a@);
        assert(b@.subrange(0, b@.len() as int) =~= b@);
        assert(out@ =~= a@ + b@);
    }
    out
}

/// The 32-byte node of a name given as raw bytes, folded exactly as they
/// stand: zero for empty bytes, else the Keccak-256 fold of the labels,
/// last label first. Callers that want case folding lower-case first.
pub fn namehash_bytes(name: &Vec<u8>) -> (r: Vec<u8>)
    ensures
        r@ == node_of_bytes(name@),
        r@.len() == 32,
{
    if name.len() == 0 {
        return zero_node();
    }
    let labels = split_vec(name);
    let mut node = zero_node();
    let mut i: usize = labels.len();
    proof {
        assert(labels.deep_view().skip(i as int) =~= Seq::<Seq<u8>>::empty());
    }
    while i > 0
        invariant
            i <= labels@.len(),
            labels.deep_view() == split_labels(name@),
            node@ == fold_node(labels.deep_view().skip(i as int)),
            node@.len() == 32,
        decreases i,
    {
        i = i - 1;
        let labelhash = keccak256(&labels[i]);
        let joined = concat_bytes(&node, &labelhash);
        node = keccak256(&joined);
        proof {
            let dv = labels.deep_view();
            assert(dv[i as int] == labels@[i as int]@);
            assert(dv.skip(i as int)[0] == dv[i as int]);
            assert(dv.skip(i as int).skip(1) =~= dv.skip(i + 1));
            assert(node@ == fold_node(dv.skip(i as int)));
        }
    }
    proof {
        assert(labels.deep_view().skip(0) =~= labels.deep_view());
    }
    node
}

/// The node of a dotted domain name, per the reverse-registrar convention:
/// the empty name maps to the zero node, and the name is lower-cased before
/// its UTF-8 bytes are split and folded.
pub fn namehash(name: &str) -> (r: Vec<u8>)
    ensures
        r@ == namehash_of(name@),
        r@.len() == 32,
{
    if name.is_empty() {
        return zero_node();
    }
    let lowered = lowercase(name);
    let bytes = lowered.as_str().as_bytes_vec();
    proof {
        assert(bytes@ == encode_utf8(lower_of(name@)));
    }
    namehash_bytes(&bytes)
}

} // verus!
