use crate::corpus::clone_bytes;
use vstd::prelude::*;

verus! {

broadcast use vstd::seq::group_seq_axioms, vstd::std_specs::vec::group_vec_axioms;

/// A JSON document modelled as plain values: numbers and strings are kept
/// as their raw text bytes, objects as member lists in source order.
#[derive(Debug, PartialEq, Eq)]
pub enum JsonNode {
    Null,
    Bool(bool),
    Num(Vec<u8>),
    Str(Vec<u8>),
    Arr(Vec<JsonNode>),
    Obj(Vec<JsonMember>),
}

/// One `key: value` member of a JSON object.
#[derive(Debug, PartialEq, Eq)]
pub struct JsonMember {
    pub key: Vec<u8>,
    pub value: JsonNode,
}

/// The mathematical shape of a JSON document.
pub enum JsonView {
    Null,
    Bool(bool),
    Num(Seq<u8>),
    Str(Seq<u8>),
    Arr(Seq<JsonView>),
    Obj(Seq<(Seq<u8>, JsonView)>),
}

pub open spec fn node_view(n: JsonNode) -> JsonView
    decreases n,
{
    match n {
        JsonNode::Null => JsonView::Null,
        JsonNode::Bool(b) => JsonView::Bool(b),
        JsonNode::Num(t) => JsonView::Num(t@),
        JsonNode::Str(t) => JsonView::Str(t@),
        JsonNode::Arr(items) => JsonView::Arr(nodes_view(items@)),
        JsonNode::Obj(ms) => JsonView::Obj(members_view(ms@)),
    }
}

pub open spec fn nodes_view(s: Seq<JsonNode>) -> Seq<JsonView>
    decreases s,
{
    if s.len() == 0 {
        Seq::empty()
    } else {
        nodes_view(s.drop_last()).push(node_view(s.last()))
    }
}

pub open spec fn members_view(s: Seq<JsonMember>) -> Seq<(Seq<u8>, JsonView)>
    decreases s,
{
    if s.len() == 0 {
        Seq::empty()
    } else {
        members_view(s.drop_last()).push((s.last().key@, node_view(s.last().value)))
    }
}

pub proof fn lemma_members_view_len(s: Seq<JsonMember>)
    ensures
        members_view(s).len() == s.len(),
    decreases s,
{
    if s.len() > 0 {
        lemma_members_view_len(s.drop_last());
    }
}

pub proof fn lemma_nodes_view_len(s: Seq<JsonNode>)
    ensures
        nodes_view(s).len() == s.len(),
    decreases s,
{
    if s.len() > 0 {
        lemma_nodes_view_len(s.drop_last());
    }
}

/// Byte-wise lexicographic order on keys.
pub open spec fn lex_le(a: Seq<u8>, b: Seq<u8>) -> bool
    decreases a.len(),
{
    if a.len() == 0 {
        true
    } else if b.len() == 0 {
        false
    } else if a[0] < b[0] {
        true
    } else if a[0] > b[0] {
        false
    } else {
        lex_le(a.drop_first(), b.drop_first())
    }
}

proof fn lemma_lex_skip(a: Seq<u8>, b: Seq<u8>, i: int)
    requires
        0 <= i <= a.len(),
        i <= b.len(),
        forall|j: int| 0 <= j < i ==> a[j] == b[j],
    ensures
        lex_le(a, b) == lex_le(a.skip(i), b.skip(i)),
    decreases i,
{
    if i > 0 {
        assert(a.skip(0) =~= a);
        assert(a.len() > 0 && b.len() > 0 && a[0] == b[0]);
        lemma_lex_skip(a.drop_first(), b.drop_first(), i - 1);
        assert(a.drop_first().skip(i - 1) =~= a.skip(i));
        assert(b.drop_first().skip(i - 1) =~= b.skip(i));
    } else {
        assert(a.skip(0) =~= a);
        assert(b.skip(0) =~= b);
    }
}

/// Totality of the key order.
pub proof fn lemma_lex_total(a: Seq<u8>, b: Seq<u8>)
    ensures
        lex_le(a, b) || lex_le(b, a),
    decreases a.len(),
{
    if a.len() > 0 && b.len() > 0 && a[0] == b[0] {
        lemma_lex_total(a.drop_first(), b.drop_first());
    }
}

/// Antisymmetry of the key order.
pub proof fn lemma_lex_antisym(a: Seq<u8>, b: Seq<u8>)
    requires
        lex_le(a, b),
        lex_le(b, a),
    ensures
        a == b,
    decreases a.len(),
{
    if a.len() > 0 && b.len() > 0 && a[0] == b[0] {
        lemma_lex_antisym(a.drop_first(), b.drop_first());
        assert(a =~= seq![a[0]] + a.drop_first());
        assert(b =~= seq![b[0]] + b.drop_first());
    } else {
        assert(a.len() == 0 && b.len() == 0);
        assert(a =~= b);
    }
}

/// Transitivity of the key order.
pub proof fn lemma_lex_trans(a: Seq<u8>, b: Seq<u8>, c: Seq<u8>)
    requires
        lex_le(a, b),
        lex_le(b, c),
    ensures
        lex_le(a, c),
    decreases a.len(),
{
    if a.len() > 0 && b.len() > 0 && c.len() > 0 && a[0] == b[0] && b[0] == c[0] {
        lemma_lex_trans(a.drop_first(), b.drop_first(), c.drop_first());
    }
}

/// Whether two byte vectors hold the same bytes.
pub fn bytes_equal(a: &Vec<u8>, b: &Vec<u8>) -> (r: bool)
    ensures
        r == (a@ == b@),
{
    if a.len() != b.len() {
        return false;
    }
    let mut i: usize = 0;
    while i < a.len()
        invariant
            a@.len() == b@.len(),
            i <= a@.len(),
            forall|j: int| 0 <= j < i ==> a@[j] == b@[j],
        decreases a@.len() - i,
    {
        if a[i] != b[i] {
            return false;
        }
        i = i + 1;
    }
    proof {
        assert(a@ =~= b@);
    }
    true
}

/// Decide the key order.
pub fn key_le(a: &Vec<u8>, b: &Vec<u8>) -> (r: bool)
    ensures
        r == lex_le(a@, b@),
{
    let n = if a.len() < b.len() {
        a.len()
    } else {
        b.len()
    };
    let mut i: usize = 0;
    while i < n
        invariant
            n == (if a@.len() < b@.len() {
                a@.len()
            } else {
                b@.len()
            }),
            i <= n,
            forall|j: int| 0 <= j < i ==> a@[j] == b@[j],
        decreases n - i,
    {
        if a[i] < b[i] {
            proof {
                lemma_lex_skip(a@, b@, i as int);
            }
            return true;
        }
        if a[i] > b[i] {
            proof {
                lemma_lex_skip(a@, b@, i as int);
            }
            return false;
        }
        i = i + 1;
    }
    proof {
        lemma_lex_skip(a@, b@, n as int);
    }
    a.len() <= b.len()
}

/// The sorted member list after one `key: value` pair arrives: scanning
/// from the end, a pair with the same key is replaced (the arriving value
/// wins), otherwise the pair settles where the key order puts it.
pub open spec fn spec_insert_pair(
    ms: Seq<(Seq<u8>, JsonView)>,
    p: (Seq<u8>, JsonView),
) -> Seq<(Seq<u8>, JsonView)>
    decreases ms.len(),
{
    if ms.len() == 0 {
        seq![p]
    } else if p.0 == ms.last().0 {
        ms.drop_last().push(p)
    } else if lex_le(ms.last().0, p.0) {
        ms.push(p)
    } else {
        spec_insert_pair(ms.drop_last(), p).push(ms.last())
    }
}

/// A member list sorted by inserting its pairs in order.
pub open spec fn spec_sort_pairs(s: Seq<(Seq<u8>, JsonView)>) -> Seq<(Seq<u8>, JsonView)>
    decreases s.len(),
{
    if s.len() == 0 {
        Seq::empty()
    } else {
        spec_insert_pair(spec_sort_pairs(s.drop_last()), s.last())
    }
}

/// The canonical form of a document: object member lists sorted by key
/// (later duplicates winning), every nested value canonical too, arrays
/// kept in order.
pub open spec fn spec_sort_view(v: JsonView) -> JsonView
    decreases v,
{
    match v {
        JsonView::Null => JsonView::Null,
        JsonView::Bool(b) => JsonView::Bool(b),
        JsonView::Num(t) => JsonView::Num(t),
        JsonView::Str(t) => JsonView::Str(t),
        JsonView::Arr(items) => JsonView::Arr(spec_sort_views(items)),
        JsonView::Obj(ms) => JsonView::Obj(spec_sort_pairs(spec_sort_pair_values(ms))),
    }
}

pub open spec fn spec_sort_views(s: Seq<JsonView>) -> Seq<JsonView>
    decreases s,
{
    if s.len() == 0 {
        Seq::empty()
    } else {
        spec_sort_views(s.drop_last()).push(spec_sort_view(s.last()))
    }
}

pub open spec fn spec_sort_pair_values(s: Seq<(Seq<u8>, JsonView)>) -> Seq<(Seq<u8>, JsonView)>
    decreases s,
{
    if s.len() == 0 {
        Seq::empty()
    } else {
        spec_sort_pair_values(s.drop_last()).push(
            (s.last().0, spec_sort_view(s.last().1)),
        )
    }
}

/// Put one member into an already sorted member list.
pub fn insert_member(ms: Vec<JsonMember>, m: JsonMember) -> (r: Vec<JsonMember>)
    ensures
        members_view(r@) == spec_insert_pair(members_view(ms@), (m.key@, node_view(m.value))),
    decreases ms@.len(),
{
    let ghost s = ms@;
    let ghost msv = members_view(s);
    let ghost p = (m.key@, node_view(m.value));
    proof {
        lemma_members_view_len(s);
    }
    let mut rest = ms;
    match rest.pop() {
        None => {
            rest.push(m);
            proof {
                assert(s.len() == 0);
                assert(members_view(s) =~= Seq::<(Seq<u8>, JsonView)>::empty());
                assert(rest@.drop_last() =~= Seq::<JsonMember>::empty());
                assert(rest@.last() == m);
                assert(members_view(rest@) == members_view(rest@.drop_last()).push(p));
                assert(members_view(rest@.drop_last()) =~= Seq::<(Seq<u8>, JsonView)>::empty());
                assert(spec_insert_pair(msv, p) =~= seq![p]);
                assert(members_view(rest@) =~= seq![p]);
            }
            rest
        },
        Some(last) => {
            proof {
                assert(rest@ =~= s.drop_last());
                assert(msv.drop_last() =~= members_view(s.drop_last()));
                assert(msv.last() == (last.key@, node_view(last.value)));
            }
            if bytes_equal(&m.key, &last.key) {
                rest.push(m);
                proof {
                    assert(rest@.drop_last() =~= s.drop_last());
                    assert(rest@.last() == m);
                    assert(members_view(rest@) == members_view(rest@.drop_last()).push(p));
                    assert(spec_insert_pair(msv, p) == msv.drop_last().push(p));
                    assert(members_view(rest@) == spec_insert_pair(msv, p));
                }
                rest
            } else if key_le(&last.key, &m.key) {
                rest.push(last);
                rest.push(m);
                proof {
                    assert(rest@.drop_last() =~= s);
                    assert(rest@.last() == m);
                    assert(members_view(rest@) == members_view(rest@.drop_last()).push(p));
                    assert(spec_insert_pair(msv, p) == msv.push(p));
                    assert(members_view(rest@) == spec_insert_pair(msv, p));
                }
                rest
            } else {
                let mut r = insert_member(rest, m);
                let ghost rb = r@;
                r.push(last);
                proof {
                    assert(r@.drop_last() =~= rb);
                    assert(r@.last() == last);
                    assert(members_view(r@) == members_view(r@.drop_last()).push(
                        (last.key@, node_view(last.value)),
                    ));
                    assert(members_view(rb) == spec_insert_pair(members_view(s.drop_last()), p));
                    assert(spec_insert_pair(msv, p) == spec_insert_pair(msv.drop_last(), p).push(
                        msv.last(),
                    ));
                    assert(members_view(r@) == spec_insert_pair(msv, p));
                }
                r
            }
        },
    }
}

/// Canonicalize a document: sort every object's members by key, the last
/// of duplicate keys winning, recursing into every nested value; arrays
/// keep their element order. The result is an exact function of the input.
#[verifier::loop_isolation(false)]
pub fn sort_json(v: &JsonNode) -> (r: JsonNode)
    ensures
        node_view(r) == spec_sort_view(node_view(*v)),
    decreases *v,
{
    match v {
        JsonNode::Null => JsonNode::Null,
        JsonNode::Bool(b) => JsonNode::Bool(*b),
        JsonNode::Num(t) => JsonNode::Num(clone_bytes(t)),
        JsonNode::Str(t) => JsonNode::Str(clone_bytes(t)),
        JsonNode::Arr(items) => {
            let ghost s = items@;
            let mut out: Vec<JsonNode> = Vec::new();
            let mut i: usize = 0;
            while i < items.len()
                invariant
                    i <= s.len(),
                    items@ == s,
                    nodes_view(out@) == spec_sort_views(nodes_view(s.take(i as int))),
                decreases s.len() - i,
            {
                let ghost outb = out@;
                out.push(sort_json(&items[i]));
                proof {
                    assert(out@.drop_last() =~= outb);
                    assert(s.take(i + 1).drop_last() =~= s.take(i as int));
                    assert(nodes_view(s.take(i + 1)) == nodes_view(s.take(i as int)).push(
                        node_view(s[i as int]),
                    ));
                    lemma_nodes_view_len(s.take(i + 1));
                    assert(nodes_view(s.take(i + 1)).drop_last() =~= nodes_view(s.take(i as int)));
                    assert(spec_sort_views(nodes_view(s.take(i + 1))) == spec_sort_views(
                        nodes_view(s.take(i as int)),
                    ).push(spec_sort_view(node_view(s[i as int]))));
                }
                i = i + 1;
            }
            proof {
                assert(s.take(s.len() as int) =~= s);
            }
            JsonNode::Arr(out)
        },
        JsonNode::Obj(ms) => {
            let ghost s = ms@;
            let mut out: Vec<JsonMember> = Vec::new();
            let mut i: usize = 0;
            proof {
                assert(members_view(s.take(0)) =~= Seq::<(Seq<u8>, JsonView)>::empty());
            }
            while i < ms.len()
                invariant
                    i <= s.len(),
                    ms@ == s,
                    members_view(out@) == spec_sort_pairs(
                        spec_sort_pair_values(members_view(s.take(i as int))),
                    ),
                decreases s.len() - i,
            {
                let sorted_value = sort_json(&ms[i].value);
                let member = JsonMember { key: clone_bytes(&ms[i].key), value: sorted_value };
                let ghost mv = (member.key@, node_view(member.value));
                out = insert_member(out, member);
                proof {
                    assert(s.take(i + 1).drop_last() =~= s.take(i as int));
                    assert(members_view(s.take(i + 1)) == members_view(s.take(i as int)).push(
                        (s[i as int].key@, node_view(s[i as int].value)),
                    ));
                    lemma_members_view_len(s.take(i + 1));
                    assert(members_view(s.take(i + 1)).drop_last() =~= members_view(
                        s.take(i as int),
                    ));
                    assert(spec_sort_pair_values(members_view(s.take(i + 1)))
                        == spec_sort_pair_values(members_view(s.take(i as int))).push(mv));
                    assert(spec_sort_pair_values(members_view(s.take(i as int))).push(
                        mv,
                    ).drop_last() =~= spec_sort_pair_values(members_view(s.take(i as int))));
                    assert(spec_sort_pairs(spec_sort_pair_values(members_view(s.take(i + 1))))
                        == spec_insert_pair(
                        spec_sort_pairs(spec_sort_pair_values(members_view(s.take(i as int)))),
                        mv,
                    ));
                }
                i = i + 1;
            }
            proof {
                assert(s.take(s.len() as int) =~= s);
            }
            JsonNode::Obj(out)
        },
    }
}

/// Canonicalize a document taken by value.
pub fn sort_json_value(v: JsonNode) -> (r: JsonNode)
    ensures
        node_view(r) == spec_sort_view(node_view(v)),
{
    sort_json(&v)
}

/// A member list whose keys are strictly increasing in the key order.
pub open spec fn keys_sorted(s: Seq<(Seq<u8>, JsonView)>) -> bool {
    forall|i: int, j: int|
        0 <= i < j < s.len() ==> lex_le(s[i].0, s[j].0) && s[i].0 != s[j].0
}

/// Every key of an insertion's result was a key of the list or is the
/// inserted pair's key.
proof fn lemma_insert_pair_keys(ms: Seq<(Seq<u8>, JsonView)>, p: (Seq<u8>, JsonView))
    ensures
        forall|i: int|
            0 <= i < spec_insert_pair(ms, p).len() ==> (#[trigger] spec_insert_pair(ms, p)[i].0
                == p.0 || exists|j: int| 0 <= j < ms.len() && ms[j].0 == spec_insert_pair(ms, p)[i].0),
    decreases ms.len(),
{
    let r = spec_insert_pair(ms, p);
    if ms.len() == 0 {
    } else if p.0 == ms.last().0 {
        assert forall|i: int| 0 <= i < r.len() implies (r[i].0 == p.0 || exists|j: int|
            0 <= j < ms.len() && ms[j].0 == r[i].0) by {
            if i < r.len() - 1 {
                assert(ms[i].0 == r[i].0);
            }
        }
    } else if lex_le(ms.last().0, p.0) {
        assert forall|i: int| 0 <= i < r.len() implies (r[i].0 == p.0 || exists|j: int|
            0 <= j < ms.len() && ms[j].0 == r[i].0) by {
            if i < r.len() - 1 {
                assert(ms[i].0 == r[i].0);
            }
        }
    } else {
        lemma_insert_pair_keys(ms.drop_last(), p);
        let rec = spec_insert_pair(ms.drop_last(), p);
        assert forall|i: int| 0 <= i < r.len() implies (r[i].0 == p.0 || exists|j: int|
            0 <= j < ms.len() && ms[j].0 == r[i].0) by {
            if i < r.len() - 1 {
                assert(r[i] == rec[i]);
                if rec[i].0 != p.0 {
                    let j = choose|j: int| 0 <= j < ms.drop_last().len() && ms.drop_last()[j].0
                        == rec[i].0;
                    assert(ms[j].0 == r[i].0);
                }
            } else {
                assert(r[i] == ms.last());
                assert(ms[ms.len() - 1].0 == r[i].0);
            }
        }
    }
}

/// Inserting into a sorted member list keeps it sorted.
pub proof fn lemma_insert_pair_sorted(ms: Seq<(Seq<u8>, JsonView)>, p: (Seq<u8>, JsonView))
    requires
        keys_sorted(ms),
    ensures
        keys_sorted(spec_insert_pair(ms, p)),
    decreases ms.len(),
{
    let r = spec_insert_pair(ms, p);
    if ms.len() == 0 {
    } else if p.0 == ms.last().0 {
        assert forall|i: int, j: int| 0 <= i < j < r.len() implies lex_le(r[i].0, r[j].0)
            && r[i].0 != r[j].0 by {
            if j == r.len() - 1 {
                assert(r[i].0 == ms[i].0);
                assert(lex_le(ms[i].0, ms.last().0) && ms[i].0 != ms.last().0);
            } else {
                assert(r[i].0 == ms[i].0 && r[j].0 == ms[j].0);
            }
        }
    } else if lex_le(ms.last().0, p.0) {
        assert forall|i: int, j: int| 0 <= i < j < r.len() implies lex_le(r[i].0, r[j].0)
            && r[i].0 != r[j].0 by {
            if j == r.len() - 1 {
                assert(r[j].0 == p.0);
                assert(r[i].0 == ms[i].0);
                if i < ms.len() - 1 {
                    assert(lex_le(ms[i].0, ms.last().0));
                    lemma_lex_trans(ms[i].0, ms.last().0, p.0);
                    if ms[i].0 == p.0 {
                        lemma_lex_antisym(ms.last().0, ms[i].0);
                    }
                } else {
                    if ms[i].0 == p.0 {
                    }
                }
            } else {
                assert(r[i].0 == ms[i].0 && r[j].0 == ms[j].0);
            }
        }
    } else {
        lemma_insert_pair_sorted(ms.drop_last(), p);
        lemma_insert_pair_keys(ms.drop_last(), p);
        let rec = spec_insert_pair(ms.drop_last(), p);
        lemma_lex_total(ms.last().0, p.0);
        assert forall|i: int, j: int| 0 <= i < j < r.len() implies lex_le(r[i].0, r[j].0)
            && r[i].0 != r[j].0 by {
            if j == r.len() - 1 {
                assert(r[j].0 == ms.last().0);
                assert(r[i] == rec[i]);
                if rec[i].0 == p.0 {
                    assert(lex_le(p.0, ms.last().0));
                } else {
                    let k = choose|k: int| 0 <= k < ms.drop_last().len() && ms.drop_last()[k].0
                        == rec[i].0;
                    assert(lex_le(ms[k].0, ms.last().0) && ms[k].0 != ms.last().0);
                }
            } else {
                assert(r[i] == rec[i] && r[j] == rec[j]);
            }
        }
    }
}

/// Canonical key order: sorting a member list leaves its keys strictly
/// increasing, whatever order and duplication the source had.
pub proof fn lemma_sort_pairs_sorted(s: Seq<(Seq<u8>, JsonView)>)
    ensures
        keys_sorted(spec_sort_pairs(s)),
    decreases s.len(),
{
    if s.len() > 0 {
        lemma_sort_pairs_sorted(s.drop_last());
        lemma_insert_pair_sorted(spec_sort_pairs(s.drop_last()), s.last());
    }
}

proof fn lemma_nodes_view_index(s: Seq<JsonNode>, i: int)
    requires
        0 <= i < s.len(),
    ensures
        nodes_view(s).len() == s.len(),
        nodes_view(s)[i] == node_view(s[i]),
    decreases s,
{
    lemma_nodes_view_len(s);
    if i < s.len() - 1 {
        lemma_nodes_view_index(s.drop_last(), i);
    }
}

proof fn lemma_members_view_index(s: Seq<JsonMember>, i: int)
    requires
        0 <= i < s.len(),
    ensures
        members_view(s).len() == s.len(),
        members_view(s)[i] == (s[i].key@, node_view(s[i].value)),
    decreases s,
{
    lemma_members_view_len(s);
    if i < s.len() - 1 {
        lemma_members_view_index(s.drop_last(), i);
    }
}

/// Structural (deep) equality of two documents.
#[verifier::loop_isolation(false)]
pub fn json_equal(a: &JsonNode, b: &JsonNode) -> (r: bool)
    ensures
        r == (node_view(*a) == node_view(*b)),
    decreases *a,
{
    match (a, b) {
        (JsonNode::Null, JsonNode::Null) => true,
        (JsonNode::Bool(x), JsonNode::Bool(y)) => x == y,
        (JsonNode::Num(x), JsonNode::Num(y)) => bytes_equal(x, y),
        (JsonNode::Str(x), JsonNode::Str(y)) => bytes_equal(x, y),
        (JsonNode::Arr(xs), JsonNode::Arr(ys)) => {
            proof {
                lemma_nodes_view_len(xs@);
                lemma_nodes_view_len(ys@);
            }
            if xs.len() != ys.len() {
                return false;
            }
            let mut i: usize = 0;
            while i < xs.len()
                invariant
                    i <= xs@.len(),
                    forall|j: int| 0 <= j < i ==> nodes_view(xs@)[j] == nodes_view(ys@)[j],
                decreases xs@.len() - i,
            {
                proof {
                    lemma_nodes_view_index(xs@, i as int);
                    lemma_nodes_view_index(ys@, i as int);
                }
                if !json_equal(&xs[i], &ys[i]) {
                    return false;
                }
                i = i + 1;
            }
            proof {
                assert(nodes_view(xs@) =~= nodes_view(ys@));
            }
            true
        },
        (JsonNode::Obj(xs), JsonNode::Obj(ys)) => {
            proof {
                lemma_members_view_len(xs@);
                lemma_members_view_len(ys@);
            }
            if xs.len() != ys.len() {
                return false;
            }
            let mut i: usize = 0;
            while i < xs.len()
                invariant
                    i <= xs@.len(),
                    forall|j: int| 0 <= j < i ==> members_view(xs@)[j] == members_view(ys@)[j],
                decreases xs@.len() - i,
            {
                proof {
                    lemma_members_view_index(xs@, i as int);
                    lemma_members_view_index(ys@, i as int);
                }
                if !bytes_equal(&xs[i].key, &ys[i].key) {
                    return false;
                }
                if !json_equal(&xs[i].value, &ys[i].value) {
                    return false;
                }
                i = i + 1;
            }
            proof {
                assert(members_view(xs@) =~= members_view(ys@));
            }
            true
        },
        _ => false,
    }
}

/// The oracle's deep-equality extension: whether two documents agree once
/// both are put in canonical form (object keys order-normalized, later
/// duplicates winning).
pub fn canonical_equal(a: &JsonNode, b: &JsonNode) -> (r: bool)
    ensures
        r == (spec_sort_view(node_view(*a)) == spec_sort_view(node_view(*b))),
{
    let ca = sort_json(a);
    let cb = sort_json(b);
    json_equal(&ca, &cb)
}

/// A document is in canonical form: every object's member list, at every
/// depth, has strictly increasing keys.
pub open spec fn view_canonical(v: JsonView) -> bool
    decreases v,
{
    match v {
        JsonView::Null => true,
        JsonView::Bool(_) => true,
        JsonView::Num(_) => true,
        JsonView::Str(_) => true,
        JsonView::Arr(items) => all_canonical(items),
        JsonView::Obj(ms) => keys_sorted(ms) && pairs_canonical(ms),
    }
}

pub open spec fn all_canonical(s: Seq<JsonView>) -> bool
    decreases s,
{
    s.len() == 0 || (all_canonical(s.drop_last()) && view_canonical(s.last()))
}

pub open spec fn pairs_canonical(s: Seq<(Seq<u8>, JsonView)>) -> bool
    decreases s,
{
    s.len() == 0 || (pairs_canonical(s.drop_last()) && view_canonical(s.last().1))
}

proof fn lemma_insert_pair_canonical(ms: Seq<(Seq<u8>, JsonView)>, p: (Seq<u8>, JsonView))
    requires
        pairs_canonical(ms),
        view_canonical(p.1),
    ensures
        pairs_canonical(spec_insert_pair(ms, p)),
    decreases ms.len(),
{
    let r = spec_insert_pair(ms, p);
    if ms.len() == 0 {
        assert(r.drop_last() =~= Seq::<(Seq<u8>, JsonView)>::empty());
        assert(r.last() == p);
        assert(pairs_canonical(r.drop_last()));
        assert(pairs_canonical(r));
    } else if p.0 == ms.last().0 {
        assert(r.drop_last() =~= ms.drop_last());
        assert(r.last() == p);
        assert(pairs_canonical(r.drop_last()));
        assert(pairs_canonical(r));
    } else if lex_le(ms.last().0, p.0) {
        assert(r.drop_last() =~= ms);
        assert(r.last() == p);
        assert(pairs_canonical(r.drop_last()));
        assert(pairs_canonical(r));
    } else {
        lemma_insert_pair_canonical(ms.drop_last(), p);
        assert(r.drop_last() =~= spec_insert_pair(ms.drop_last(), p));
        assert(r.last() == ms.last());
        assert(pairs_canonical(r.drop_last()));
        assert(pairs_canonical(r));
    }
}

proof fn lemma_sort_pairs_canonical(s: Seq<(Seq<u8>, JsonView)>)
    requires
        pairs_canonical(s),
    ensures
        pairs_canonical(spec_sort_pairs(s)),
    decreases s.len(),
{
    if s.len() > 0 {
        lemma_sort_pairs_canonical(s.drop_last());
        lemma_insert_pair_canonical(spec_sort_pairs(s.drop_last()), s.last());
    }
}

proof fn lemma_sort_pair_values_canonical(ms: Seq<(Seq<u8>, JsonView)>)
    ensures
        pairs_canonical(spec_sort_pair_values(ms)),
    decreases ms,
{
    if ms.len() > 0 {
        lemma_sort_pair_values_canonical(ms.drop_last());
        lemma_sort_view_canonical(ms.last().1);
        let r = spec_sort_pair_values(ms);
        assert(r.drop_last() =~= spec_sort_pair_values(ms.drop_last()));
    }
}

proof fn lemma_sort_views_canonical(s: Seq<JsonView>)
    ensures
        all_canonical(spec_sort_views(s)),
    decreases s,
{
    if s.len() > 0 {
        lemma_sort_views_canonical(s.drop_last());
        lemma_sort_view_canonical(s.last());
        let r = spec_sort_views(s);
        assert(r.drop_last() =~= spec_sort_views(s.drop_last()));
    }
}

/// Canonicalization is complete: whatever document goes in, the sorted
/// result is in canonical form at every depth.
pub proof fn lemma_sort_view_canonical(v: JsonView)
    ensures
        view_canonical(spec_sort_view(v)),
    decreases v,
{
    match v {
        JsonView::Null => {},
        JsonView::Bool(_) => {},
        JsonView::Num(_) => {},
        JsonView::Str(_) => {},
        JsonView::Arr(items) => {
            lemma_sort_views_canonical(items);
        },
        JsonView::Obj(ms) => {
            lemma_sort_pair_values_canonical(ms);
            lemma_sort_pairs_sorted(spec_sort_pair_values(ms));
            lemma_sort_pairs_canonical(spec_sort_pair_values(ms));
        },
    }
}

} // verus!
