//! The hash chain: answers are canonicalized and folded into a running digest.
use vstd::prelude::*;
use vstd::relations::{sorted_by, total_ordering};
use vstd::string::StringExecFns;
use sha2::{Digest, Sha256};

verus! {

/// The lower-case hex SHA-256 digest of the UTF-8 encoding of `s`.
pub uninterp spec fn sha256_hex(s: Seq<char>) -> Seq<char>;

/// The lower-case mapping of `s`, as Unicode defines it.
pub uninterp spec fn lower_of(s: Seq<char>) -> Seq<char>;

/// Relies on sha2's `Sha256::digest` and on generic-array's `LowerHex`:
/// the hex digest of the bytes of `text`, which depends on `text` alone.
#[verifier::external_body]
pub(crate) fn get_hash(text: &String) -> (r: String)
    ensures
        r@ == sha256_hex(text@),
{
    format!("{:x}", Sha256::digest(text.as_bytes()))
}

/// Relies on `str::to_lowercase`, whose result depends on the characters alone.
#[verifier::external_body]
pub(crate) fn lowercase(s: &String) -> (r: String)
    ensures
        r@ == lower_of(s@),
{
    s.to_lowercase()
}

/// One link of the chain: the digest of the previous digest followed by the answer.
pub open spec fn fold_spec(prev: Seq<char>, answer: Seq<char>) -> Seq<char> {
    sha256_hex(prev + answer)
}

/// The chain's first link, which only a holder of the secret can produce.
pub open spec fn chain_start(secret: Seq<char>) -> Seq<char> {
    fold_spec(Seq::empty(), secret)
}

pub fn fold(prev: &String, answer: &String) -> (r: String)
    ensures
        r@ == fold_spec(prev@, answer@),
{
    let mut text = prev.clone();
    text.append(answer.as_str());
    get_hash(&text)
}

pub fn start_hash(secret: &String) -> (r: String)
    ensures
        r@ == chain_start(secret@),
{
    assert(Seq::<char>::empty() + secret@ =~= secret@);
    get_hash(secret)
}

/// Folds a whole sequence of canonical answers, starting from `start`.
pub open spec fn fold_all(start: Seq<char>, answers: Seq<Seq<char>>) -> Seq<char>
    decreases answers.len(),
{
    if answers.len() == 0 {
        start
    } else {
        fold_spec(fold_all(start, answers.drop_last()), answers.last())
    }
}

/// The order in which selected option ids are canonicalized: ascending.
pub open spec fn id_leq(a: u16, b: u16) -> bool {
    a <= b
}

pub open spec fn id_order() -> spec_fn(u16, u16) -> bool {
    |a: u16, b: u16| id_leq(a, b)
}

pub open spec fn sorted_ids(ids: Seq<u16>) -> Seq<u16> {
    ids.sort_by(id_order())
}

/// The canonical text of a choice: the lower-cased contents, concatenated in order.
pub open spec fn joined_lower(contents: Seq<Seq<char>>) -> Seq<char>
    decreases contents.len(),
{
    if contents.len() == 0 {
        Seq::empty()
    } else {
        joined_lower(contents.drop_last()) + lower_of(contents.last())
    }
}

pub proof fn lemma_id_order()
    ensures
        total_ordering(id_order()),
{
}

/// Sorting gives the one ascending arrangement of the same ids.
pub proof fn lemma_sorted_ids(ids: Seq<u16>, r: Seq<u16>)
    requires
        sorted_by(r, id_order()),
        r.to_multiset() == ids.to_multiset(),
    ensures
        r == sorted_ids(ids),
{
    lemma_id_order();
    ids.lemma_sort_by_ensures(id_order());
    vstd::seq_lib::lemma_sorted_unique(r, sorted_ids(ids), id_order());
}

/// Two selections of the same option ids, in whatever order, have one canonical order.
pub proof fn lemma_selection_order_irrelevant(a: Seq<u16>, b: Seq<u16>)
    requires
        a.to_multiset() == b.to_multiset(),
    ensures
        sorted_ids(a) == sorted_ids(b),
{
    lemma_id_order();
    a.lemma_sort_by_ensures(id_order());
    b.lemma_sort_by_ensures(id_order());
    vstd::seq_lib::lemma_sorted_unique(sorted_ids(a), sorted_ids(b), id_order());
}

/// The selected option ids in ascending order.
pub fn sort_ids(ids: &Vec<u16>) -> (r: Vec<u16>)
    ensures
        r@ == sorted_ids(ids@),
{
    broadcast use vstd::seq_lib::group_to_multiset_ensures;
    let mut r: Vec<u16> = Vec::new();
    let mut i: usize = 0;
    while i < ids.len()
        invariant
            i <= ids@.len(),
            r@.len() == i,
            sorted_by(r@, id_order()),
            r@.to_multiset() == ids@.subrange(0, i as int).to_multiset(),
        decreases ids@.len() - i,
    {
        let x = ids[i];
        let mut p: usize = 0;
        while p < r.len() && r[p] <= x
            invariant
                p <= r@.len(),
                forall|j: int| 0 <= j < p ==> r@[j] <= x,
            decreases r@.len() - p,
        {
            p = p + 1;
        }
        let ghost old_r = r@;
        r.insert(p, x);
        proof {
            assert forall|j: int| p <= j < old_r.len() implies x < old_r[j] by {
                assert(x < old_r[p as int]);
                if p < j {
                    assert(id_order()(old_r[p as int], old_r[j]));
                }
            }
            assert forall|a: int, b: int| 0 <= a < b < r@.len() implies #[trigger] id_order()(r@[a], r@[b]) by {
                if a < p && b < p {
                    assert(id_order()(old_r[a], old_r[b]));
                } else if a < p && b > p {
                    assert(id_order()(old_r[a], old_r[b - 1]));
                } else if a > p {
                    assert(id_order()(old_r[a - 1], old_r[b - 1]));
                }
            }
            vstd::seq_lib::to_multiset_insert(old_r, p as int, x);
            vstd::seq_lib::to_multiset_build(ids@.subrange(0, i as int), x);
            assert(ids@.subrange(0, i + 1) =~= ids@.subrange(0, i as int).push(x));
        }
        i = i + 1;
    }
    proof {
        assert(ids@.subrange(0, ids@.len() as int) =~= ids@);
        lemma_sorted_ids(ids@, r@);
    }
    r
}

} // verus!
