//! Laws of the parser, proved of the specification model: the node ids of a
//! parsed tree are unique and strictly increase in document (pre-)order; the
//! attributes of each node carry 0-based ids in encounter order; and every
//! text body is non-empty with no leading or trailing whitespace.

use vstd::prelude::*;

use crate::ast::SpecBody;
use crate::ast::SpecNode;
use crate::model::flush_text;
use crate::model::init_node;
use crate::model::resume_at;
use crate::model::spec_attr;
use crate::model::spec_document;
use crate::model::spec_parse;
use crate::model::with_attr;
use crate::model::with_body;
use crate::model::with_name;
use crate::model::AttrOutcome;
use crate::model::AttrState;
use crate::model::Outcome;
use crate::model::TagState;
use crate::model::ValueKind;

verus! {

/// The ids of a subtree, in document (pre-)order: the node itself first,
/// then the ids of each child subtree, left to right.
pub open spec fn subtree_ids(n: SpecNode) -> Seq<int>
    decreases n,
{
    seq![n.id] + body_ids_from(n.children, 0)
}

/// The ids contributed by one body item: none for text, the whole subtree
/// for a child node.
pub open spec fn body_ids(b: SpecBody) -> Seq<int>
    decreases b,
{
    match b {
        SpecBody::Text(_) => Seq::empty(),
        SpecBody::Child(c) => subtree_ids(c),
    }
}

/// The ids contributed by the body items from index `i` on.
pub open spec fn body_ids_from(bs: Seq<SpecBody>, i: int) -> Seq<int>
    decreases bs, bs.len() - i,
{
    if i < 0 || i >= bs.len() {
        Seq::empty()
    } else {
        body_ids(bs[i]) + body_ids_from(bs, i + 1)
    }
}

/// Every element is smaller than every later element; in particular all
/// elements are distinct.
pub open spec fn strictly_increasing(s: Seq<int>) -> bool {
    forall|i: int, j: int| 0 <= i < j < s.len() ==> s[i] < s[j]
}

/// All elements lie below `hi`.
pub open spec fn ids_below(s: Seq<int>, hi: int) -> bool {
    forall|k: int| 0 <= k < s.len() ==> #[trigger] s[k] < hi
}

proof fn lemma_body_ids_push(bs: Seq<SpecBody>, b: SpecBody, i: int)
    requires
        0 <= i <= bs.len(),
    ensures
        body_ids_from(bs.push(b), i) == body_ids_from(bs, i) + body_ids(b),
    decreases bs.len() - i,
{
    if i < bs.len() {
        lemma_body_ids_push(bs, b, i + 1);
        assert(bs.push(b)[i] == bs[i]);
        assert(body_ids(bs[i]) + (body_ids_from(bs, i + 1) + body_ids(b)) =~= (body_ids(bs[i])
            + body_ids_from(bs, i + 1)) + body_ids(b));
    } else {
        assert(bs.push(b)[i] == b);
        assert(body_ids_from(bs.push(b), i + 1) =~= Seq::<int>::empty());
        assert(body_ids_from(bs, i) =~= Seq::<int>::empty());
        assert(body_ids(b) + Seq::<int>::empty() =~= body_ids(b));
        assert(Seq::<int>::empty() + body_ids(b) =~= body_ids(b));
    }
}

/// Flushing pending text does not change the ids of a node.
proof fn lemma_flush_ids(n: SpecNode, buf: Seq<char>)
    ensures
        subtree_ids(flush_text(n, buf)) == subtree_ids(n),
{
    if crate::chars::trim(buf).len() > 0 {
        lemma_body_ids_push(n.children, SpecBody::Text(crate::chars::trim(buf)), 0);
        assert(subtree_ids(flush_text(n, buf)) =~= subtree_ids(n));
    }
}

/// The heart of the id law, by induction over the tag machine: starting
/// from a partial node whose ids are strictly increasing and all below the
/// next free id, a successful parse returns a node that keeps those ids as
/// a prefix, adds only ids in `[next_id, rnext)` in strictly increasing
/// order, and hands back a next free id no smaller than before.
proof fn lemma_parse_ids(
    s: Seq<char>,
    pos: int,
    state: TagState,
    node: SpecNode,
    buf: Seq<char>,
    closing: Seq<char>,
    next_id: int,
)
    requires
        strictly_increasing(subtree_ids(node)),
        ids_below(subtree_ids(node), next_id),
    ensures
        match spec_parse(s, pos, state, node, buf, closing, next_id) {
            Outcome::Parsed { node: rn, next_id: rnext, .. } => {
                &&& rnext >= next_id
                &&& strictly_increasing(subtree_ids(rn))
                &&& ids_below(subtree_ids(rn), rnext)
                &&& subtree_ids(rn).len() >= subtree_ids(node).len()
                &&& subtree_ids(rn).subrange(0, subtree_ids(node).len() as int) == subtree_ids(
                    node,
                )
                &&& forall|k: int|
                    subtree_ids(node).len() <= k < subtree_ids(rn).len() ==> next_id
                        <= #[trigger] subtree_ids(rn)[k]
            },
            Outcome::Failed { .. } => true,
        },
    decreases s.len() - pos, crate::model::tag_rank(state),
{
    if pos < 0 || pos >= s.len() {
        return ;
    }
    let c = s[pos];
    let ids0 = subtree_ids(node);
    if c == '<' {
        match state {
            TagState::Start => {
                lemma_parse_ids(s, pos + 1, TagState::Name, node, buf, closing, next_id);
            },
            TagState::Body => {
                let flushed = flush_text(node, buf);
                lemma_flush_ids(node, buf);
                if pos + 1 < s.len() && s[pos + 1] == '/' {
                    lemma_parse_ids(
                        s,
                        pos + 2,
                        TagState::Closing,
                        flushed,
                        Seq::empty(),
                        closing,
                        next_id,
                    );
                } else {
                    let child0 = init_node(next_id, Some(flushed.id));
                    assert(subtree_ids(child0) =~= seq![next_id]);
                    lemma_parse_ids(
                        s,
                        pos,
                        TagState::Start,
                        child0,
                        Seq::empty(),
                        Seq::empty(),
                        next_id + 1,
                    );
                    match spec_parse(
                        s,
                        pos,
                        TagState::Start,
                        child0,
                        Seq::empty(),
                        Seq::empty(),
                        next_id + 1,
                    ) {
                        Outcome::Parsed { node: cn, next_id: cnext, end } => {
                            let cids = subtree_ids(cn);
                            assert(cids.subrange(0, 1) == subtree_ids(child0));
                            assert(cids[0] == cids.subrange(0, 1)[0]);
                            assert(cids[0] == next_id);
                            assert(forall|k: int|
                                0 <= k < cids.len() ==> next_id <= #[trigger] cids[k]) by {
                                assert(forall|k: int|
                                    1 <= k < cids.len() ==> next_id + 1 <= #[trigger] cids[k]);
                            }
                            let parent2 = with_body(flushed, SpecBody::Child(cn));
                            lemma_body_ids_push(flushed.children, SpecBody::Child(cn), 0);
                            let pids = subtree_ids(parent2);
                            assert(pids =~= ids0 + cids);
                            assert(strictly_increasing(pids)) by {
                                assert(forall|i: int, j: int|
                                    0 <= i < j < pids.len() ==> pids[i] < pids[j]) by {
                                    assert forall|i: int, j: int|
                                        0 <= i < j < pids.len() implies pids[i] < pids[j] by {
                                        if j < ids0.len() {
                                        } else if i < ids0.len() {
                                            assert(pids[i] == ids0[i]);
                                            assert(pids[j] == cids[j - ids0.len()]);
                                            assert(ids0[i] < next_id);
                                        } else {
                                            assert(pids[i] == cids[i - ids0.len()]);
                                            assert(pids[j] == cids[j - ids0.len()]);
                                        }
                                    }
                                }
                            }
                            assert(ids_below(pids, cnext)) by {
                                assert forall|k: int|
                                    0 <= k < pids.len() implies #[trigger] pids[k] < cnext by {
                                    if k < ids0.len() {
                                        assert(pids[k] == ids0[k]);
                                        assert(ids0[k] < next_id);
                                    } else {
                                        assert(pids[k] == cids[k - ids0.len()]);
                                    }
                                }
                            }
                            let cont = resume_at(pos, end, s.len() as int);
                            lemma_parse_ids(
                                s,
                                cont,
                                TagState::Body,
                                parent2,
                                Seq::empty(),
                                closing,
                                cnext,
                            );
                            match spec_parse(
                                s,
                                cont,
                                TagState::Body,
                                parent2,
                                Seq::empty(),
                                closing,
                                cnext,
                            ) {
                                Outcome::Parsed { node: rn, next_id: rnext, .. } => {
                                    let rids = subtree_ids(rn);
                                    assert(rids.subrange(0, pids.len() as int) == pids);
                                    assert(rids.subrange(0, ids0.len() as int) =~= ids0) by {
                                        assert(forall|k: int|
                                            0 <= k < ids0.len() ==> rids.subrange(
                                                0,
                                                pids.len() as int,
                                            )[k] == #[trigger] pids[k]);
                                    }
                                    assert forall|k: int|
                                        ids0.len() <= k < rids.len() implies next_id
                                        <= #[trigger] rids[k] by {
                                        if k < pids.len() {
                                            assert(rids.subrange(0, pids.len() as int)[k]
                                                == rids[k]);
                                            assert(pids[k] == cids[k - ids0.len()]);
                                        } else {
                                            assert(cnext >= next_id);
                                        }
                                    }
                                },
                                Outcome::Failed { .. } => {},
                            }
                        },
                        Outcome::Failed { .. } => {},
                    }
                }
            },
            _ => {},
        }
    } else if c == '>' {
        match state {
            TagState::Name | TagState::Attrs => {
                lemma_parse_ids(s, pos + 1, TagState::Body, node, buf, closing, next_id);
            },
            TagState::Closing => {
                assert(ids0.subrange(0, ids0.len() as int) =~= ids0);
            },
            _ => {},
        }
    } else if c == '/' {
        if pos + 1 < s.len() && s[pos + 1] == '>' {
            assert(ids0.subrange(0, ids0.len() as int) =~= ids0);
        } else {
            lemma_parse_ids(s, pos + 1, state, node, buf, closing, next_id);
        }
    } else if crate::chars::is_ws(c) {
        match state {
            TagState::Name => {
                lemma_parse_ids(s, pos + 1, TagState::Attrs, node, buf, closing, next_id);
            },
            TagState::Body => {
                lemma_parse_ids(s, pos + 1, state, node, buf.push(c), closing, next_id);
            },
            _ => {
                lemma_parse_ids(s, pos + 1, state, node, buf, closing, next_id);
            },
        }
    } else {
        match state {
            TagState::Name => {
                assert(subtree_ids(with_name(node, c)) =~= ids0);
                lemma_parse_ids(s, pos + 1, state, with_name(node, c), buf, closing, next_id);
            },
            TagState::Attrs => {
                match spec_attr(
                    s,
                    pos,
                    node.attributes.len() as int,
                    AttrState::Name,
                    Seq::empty(),
                    Seq::empty(),
                    ValueKind::Absent,
                ) {
                    AttrOutcome::Done { attr, end } => {
                        assert(subtree_ids(with_attr(node, attr)) =~= ids0);
                        lemma_parse_ids(
                            s,
                            resume_at(pos, end, s.len() as int),
                            state,
                            with_attr(node, attr),
                            buf,
                            closing,
                            next_id,
                        );
                    },
                    AttrOutcome::Failed { .. } => {},
                }
            },
            TagState::Body => {
                lemma_parse_ids(s, pos + 1, state, node, buf.push(c), closing, next_id);
            },
            TagState::Closing => {
                lemma_parse_ids(s, pos + 1, state, node, buf, closing.push(c), next_id);
            },
            TagState::Start => {},
        }
    }
}

/// Whether every text body in `n`'s subtree is a non-empty run with no
/// leading and no trailing whitespace.
pub open spec fn texts_trimmed(n: SpecNode) -> bool
    decreases n,
{
    texts_ok_from(n.children, 0)
}

/// Whether every body item from index `i` on keeps the text law.
pub open spec fn texts_ok_from(bs: Seq<SpecBody>, i: int) -> bool
    decreases bs, bs.len() - i,
{
    if i < 0 || i >= bs.len() {
        true
    } else {
        body_text_ok(bs[i]) && texts_ok_from(bs, i + 1)
    }
}

/// Whether one body item keeps the text law.
pub open spec fn body_text_ok(b: SpecBody) -> bool
    decreases b,
{
    match b {
        SpecBody::Text(t) => t.len() > 0 && !crate::chars::is_ws(t[0]) && !crate::chars::is_ws(
            t.last(),
        ),
        SpecBody::Child(c) => texts_trimmed(c),
    }
}

proof fn lemma_texts_ok_push(bs: Seq<SpecBody>, b: SpecBody, i: int)
    requires
        0 <= i <= bs.len(),
    ensures
        texts_ok_from(bs.push(b), i) == (texts_ok_from(bs, i) && body_text_ok(b)),
    decreases bs.len() - i,
{
    if i < bs.len() {
        lemma_texts_ok_push(bs, b, i + 1);
        assert(bs.push(b)[i] == bs[i]);
    } else {
        assert(bs.push(b)[i] == b);
        assert(texts_ok_from(bs.push(b), i + 1));
        assert(texts_ok_from(bs, i));
    }
}

proof fn lemma_texts_push(n: SpecNode, b: SpecBody)
    requires
        texts_trimmed(n),
        body_text_ok(b),
    ensures
        texts_trimmed(with_body(n, b)),
{
    lemma_texts_ok_push(n.children, b, 0);
}

proof fn lemma_flush_texts(n: SpecNode, buf: Seq<char>)
    requires
        texts_trimmed(n),
    ensures
        texts_trimmed(flush_text(n, buf)),
{
    let t = crate::chars::trim(buf);
    if t.len() > 0 {
        crate::chars::lemma_trim_no_edge_ws(buf);
        lemma_texts_push(n, SpecBody::Text(t));
    }
}

/// The text law, by induction over the tag machine: text bodies are added
/// only by flushing a trimmed, non-empty buffer, and child nodes keep the
/// law by the inner induction.
proof fn lemma_parse_texts(
    s: Seq<char>,
    pos: int,
    state: TagState,
    node: SpecNode,
    buf: Seq<char>,
    closing: Seq<char>,
    next_id: int,
)
    requires
        texts_trimmed(node),
    ensures
        match spec_parse(s, pos, state, node, buf, closing, next_id) {
            Outcome::Parsed { node: rn, .. } => texts_trimmed(rn),
            Outcome::Failed { .. } => true,
        },
    decreases s.len() - pos, crate::model::tag_rank(state),
{
    if pos < 0 || pos >= s.len() {
        return ;
    }
    let c = s[pos];
    if c == '<' {
        match state {
            TagState::Start => {
                lemma_parse_texts(s, pos + 1, TagState::Name, node, buf, closing, next_id);
            },
            TagState::Body => {
                let flushed = flush_text(node, buf);
                lemma_flush_texts(node, buf);
                if pos + 1 < s.len() && s[pos + 1] == '/' {
                    lemma_parse_texts(
                        s,
                        pos + 2,
                        TagState::Closing,
                        flushed,
                        Seq::empty(),
                        closing,
                        next_id,
                    );
                } else {
                    let child0 = init_node(next_id, Some(flushed.id));
                    assert(texts_trimmed(child0));
                    lemma_parse_texts(
                        s,
                        pos,
                        TagState::Start,
                        child0,
                        Seq::empty(),
                        Seq::empty(),
                        next_id + 1,
                    );
                    match spec_parse(
                        s,
                        pos,
                        TagState::Start,
                        child0,
                        Seq::empty(),
                        Seq::empty(),
                        next_id + 1,
                    ) {
                        Outcome::Parsed { node: cn, next_id: child_next, end } => {
                            lemma_texts_push(flushed, SpecBody::Child(cn));
                            lemma_parse_texts(
                                s,
                                resume_at(pos, end, s.len() as int),
                                TagState::Body,
                                with_body(flushed, SpecBody::Child(cn)),
                                Seq::empty(),
                                closing,
                                child_next,
                            );
                        },
                        Outcome::Failed { .. } => {},
                    }
                }
            },
            _ => {},
        }
    } else if c == '>' {
        match state {
            TagState::Name | TagState::Attrs => {
                lemma_parse_texts(s, pos + 1, TagState::Body, node, buf, closing, next_id);
            },
            _ => {},
        }
    } else if c == '/' {
        if !(pos + 1 < s.len() && s[pos + 1] == '>') {
            lemma_parse_texts(s, pos + 1, state, node, buf, closing, next_id);
        }
    } else if crate::chars::is_ws(c) {
        match state {
            TagState::Name => {
                lemma_parse_texts(s, pos + 1, TagState::Attrs, node, buf, closing, next_id);
            },
            TagState::Body => {
                lemma_parse_texts(s, pos + 1, state, node, buf.push(c), closing, next_id);
            },
            _ => {
                lemma_parse_texts(s, pos + 1, state, node, buf, closing, next_id);
            },
        }
    } else {
        match state {
            TagState::Name => {
                assert(with_name(node, c).children == node.children);
                lemma_parse_texts(s, pos + 1, state, with_name(node, c), buf, closing, next_id);
            },
            TagState::Attrs => {
                match spec_attr(
                    s,
                    pos,
                    node.attributes.len() as int,
                    AttrState::Name,
                    Seq::empty(),
                    Seq::empty(),
                    ValueKind::Absent,
                ) {
                    AttrOutcome::Done { attr, end } => {
                        assert(with_attr(node, attr).children == node.children);
                        lemma_parse_texts(
                            s,
                            resume_at(pos, end, s.len() as int),
                            state,
                            with_attr(node, attr),
                            buf,
                            closing,
                            next_id,
                        );
                    },
                    AttrOutcome::Failed { .. } => {},
                }
            },
            TagState::Body => {
                lemma_parse_texts(s, pos + 1, state, node, buf.push(c), closing, next_id);
            },
            TagState::Closing => {
                lemma_parse_texts(s, pos + 1, state, node, buf, closing.push(c), next_id);
            },
            TagState::Start => {},
        }
    }
}

/// Whether the attributes of `n` carry ids 0, 1, 2, ... in encounter order,
/// and the same holds in every nested child node.
pub open spec fn attr_ids_ok(n: SpecNode) -> bool
    decreases n,
{
    attrs_sequential_from(n.attributes, 0) && children_attrs_from(n.children, 0)
}

/// Whether each attribute from index `i` on carries its own index as id.
pub open spec fn attrs_sequential_from(attrs: Seq<crate::ast::SpecAttribute>, i: int) -> bool
    decreases attrs.len() - i,
{
    if i < 0 || i >= attrs.len() {
        true
    } else {
        attrs[i].id == i && attrs_sequential_from(attrs, i + 1)
    }
}

/// Whether every body item from index `i` on keeps the attribute-id law.
pub open spec fn children_attrs_from(bs: Seq<SpecBody>, i: int) -> bool
    decreases bs, bs.len() - i,
{
    if i < 0 || i >= bs.len() {
        true
    } else {
        body_attrs_ok(bs[i]) && children_attrs_from(bs, i + 1)
    }
}

/// Whether one body item keeps the attribute-id law.
pub open spec fn body_attrs_ok(b: SpecBody) -> bool
    decreases b,
{
    match b {
        SpecBody::Text(_) => true,
        SpecBody::Child(c) => attr_ids_ok(c),
    }
}

proof fn lemma_attrs_seq_push(attrs: Seq<crate::ast::SpecAttribute>, a: crate::ast::SpecAttribute, i: int)
    requires
        0 <= i <= attrs.len(),
        a.id == attrs.len(),
    ensures
        attrs_sequential_from(attrs.push(a), i) == attrs_sequential_from(attrs, i),
    decreases attrs.len() - i,
{
    if i < attrs.len() {
        lemma_attrs_seq_push(attrs, a, i + 1);
        assert(attrs.push(a)[i] == attrs[i]);
    } else {
        assert(attrs.push(a)[i] == a);
        assert(attrs_sequential_from(attrs.push(a), i + 1));
        assert(attrs_sequential_from(attrs, i));
    }
}

proof fn lemma_children_attrs_push(bs: Seq<SpecBody>, b: SpecBody, i: int)
    requires
        0 <= i <= bs.len(),
    ensures
        children_attrs_from(bs.push(b), i) == (children_attrs_from(bs, i) && body_attrs_ok(b)),
    decreases bs.len() - i,
{
    if i < bs.len() {
        lemma_children_attrs_push(bs, b, i + 1);
        assert(bs.push(b)[i] == bs[i]);
    } else {
        assert(bs.push(b)[i] == b);
        assert(children_attrs_from(bs.push(b), i + 1));
        assert(children_attrs_from(bs, i));
    }
}

/// The attribute-id law, by induction over the tag machine: each attribute
/// is finished with the id the owning node asked for, which is the number of
/// attributes the node already holds.
proof fn lemma_parse_attr_ids(
    s: Seq<char>,
    pos: int,
    state: TagState,
    node: SpecNode,
    buf: Seq<char>,
    closing: Seq<char>,
    next_id: int,
)
    requires
        attr_ids_ok(node),
    ensures
        match spec_parse(s, pos, state, node, buf, closing, next_id) {
            Outcome::Parsed { node: rn, .. } => attr_ids_ok(rn),
            Outcome::Failed { .. } => true,
        },
    decreases s.len() - pos, crate::model::tag_rank(state),
{
    if pos < 0 || pos >= s.len() {
        return ;
    }
    let c = s[pos];
    if c == '<' {
        match state {
            TagState::Start => {
                lemma_parse_attr_ids(s, pos + 1, TagState::Name, node, buf, closing, next_id);
            },
            TagState::Body => {
                let flushed = flush_text(node, buf);
                if crate::chars::trim(buf).len() > 0 {
                    lemma_children_attrs_push(
                        node.children,
                        SpecBody::Text(crate::chars::trim(buf)),
                        0,
                    );
                }
                assert(attr_ids_ok(flushed));
                if pos + 1 < s.len() && s[pos + 1] == '/' {
                    lemma_parse_attr_ids(
                        s,
                        pos + 2,
                        TagState::Closing,
                        flushed,
                        Seq::empty(),
                        closing,
                        next_id,
                    );
                } else {
                    let child0 = init_node(next_id, Some(flushed.id));
                    assert(attr_ids_ok(child0));
                    lemma_parse_attr_ids(
                        s,
                        pos,
                        TagState::Start,
                        child0,
                        Seq::empty(),
                        Seq::empty(),
                        next_id + 1,
                    );
                    match spec_parse(
                        s,
                        pos,
                        TagState::Start,
                        child0,
                        Seq::empty(),
                        Seq::empty(),
                        next_id + 1,
                    ) {
                        Outcome::Parsed { node: cn, next_id: child_next, end } => {
                            lemma_children_attrs_push(flushed.children, SpecBody::Child(cn), 0);
                            lemma_parse_attr_ids(
                                s,
                                resume_at(pos, end, s.len() as int),
                                TagState::Body,
                                with_body(flushed, SpecBody::Child(cn)),
                                Seq::empty(),
                                closing,
                                child_next,
                            );
                        },
                        Outcome::Failed { .. } => {},
                    }
                }
            },
            _ => {},
        }
    } else if c == '>' {
        match state {
            TagState::Name | TagState::Attrs => {
                lemma_parse_attr_ids(s, pos + 1, TagState::Body, node, buf, closing, next_id);
            },
            _ => {},
        }
    } else if c == '/' {
        if !(pos + 1 < s.len() && s[pos + 1] == '>') {
            lemma_parse_attr_ids(s, pos + 1, state, node, buf, closing, next_id);
        }
    } else if crate::chars::is_ws(c) {
        match state {
            TagState::Name => {
                lemma_parse_attr_ids(s, pos + 1, TagState::Attrs, node, buf, closing, next_id);
            },
            TagState::Body => {
                lemma_parse_attr_ids(s, pos + 1, state, node, buf.push(c), closing, next_id);
            },
            _ => {
                lemma_parse_attr_ids(s, pos + 1, state, node, buf, closing, next_id);
            },
        }
    } else {
        match state {
            TagState::Name => {
                assert(with_name(node, c).children == node.children);
                assert(with_name(node, c).attributes == node.attributes);
                lemma_parse_attr_ids(s, pos + 1, state, with_name(node, c), buf, closing, next_id);
            },
            TagState::Attrs => {
                let aid = node.attributes.len() as int;
                crate::model::lemma_spec_attr_end(
                    s,
                    pos,
                    aid,
                    AttrState::Name,
                    Seq::empty(),
                    Seq::empty(),
                    ValueKind::Absent,
                );
                match spec_attr(
                    s,
                    pos,
                    aid,
                    AttrState::Name,
                    Seq::empty(),
                    Seq::empty(),
                    ValueKind::Absent,
                ) {
                    AttrOutcome::Done { attr, end } => {
                        lemma_attrs_seq_push(node.attributes, attr, 0);
                        assert(attr_ids_ok(with_attr(node, attr)));
                        lemma_parse_attr_ids(
                            s,
                            resume_at(pos, end, s.len() as int),
                            state,
                            with_attr(node, attr),
                            buf,
                            closing,
                            next_id,
                        );
                    },
                    AttrOutcome::Failed { .. } => {},
                }
            },
            TagState::Body => {
                lemma_parse_attr_ids(s, pos + 1, state, node, buf.push(c), closing, next_id);
            },
            TagState::Closing => {
                lemma_parse_attr_ids(s, pos + 1, state, node, buf, closing.push(c), next_id);
            },
            TagState::Start => {},
        }
    }
}

/// The attribute-id law: on any input on which the document parses, every
/// node's attributes carry the ids 0, 1, 2, ... in encounter order.
pub proof fn lemma_document_attr_ids(s: Seq<char>)
    ensures
        match spec_document(s) {
            Ok(n) => attr_ids_ok(n),
            Err(_) => true,
        },
{
    let root = init_node(0, None);
    assert(attr_ids_ok(root));
    lemma_parse_attr_ids(s, 0, TagState::Start, root, Seq::empty(), Seq::empty(), 1);
}

/// The text law: on any input on which the document parses, every text body
/// of the tree is non-empty and carries no leading or trailing whitespace;
/// in particular an all-whitespace run between tags leaves no text body.
pub proof fn lemma_document_texts(s: Seq<char>)
    ensures
        match spec_document(s) {
            Ok(n) => texts_trimmed(n),
            Err(_) => true,
        },
{
    let root = init_node(0, None);
    assert(texts_trimmed(root));
    lemma_parse_texts(s, 0, TagState::Start, root, Seq::empty(), Seq::empty(), 1);
}

/// The id law: on any input on which the document parses, the tree's node
/// ids are unique and strictly increase in document (pre-)order, starting
/// from 0 at the root.
pub proof fn lemma_document_ids(s: Seq<char>)
    ensures
        match spec_document(s) {
            Ok(n) => {
                &&& strictly_increasing(subtree_ids(n))
                &&& forall|i: int, j: int|
                    0 <= i < j < subtree_ids(n).len() ==> subtree_ids(n)[i] != subtree_ids(n)[j]
                &&& subtree_ids(n)[0] == 0
            },
            Err(_) => true,
        },
{
    let root = init_node(0, None);
    assert(subtree_ids(root) =~= seq![0int]);
    lemma_parse_ids(s, 0, TagState::Start, root, Seq::empty(), Seq::empty(), 1);
    match spec_parse(s, 0, TagState::Start, root, Seq::empty(), Seq::empty(), 1) {
        Outcome::Parsed { node: rn, .. } => {
            assert(subtree_ids(rn)[0] == subtree_ids(rn).subrange(0, 1)[0]);
        },
        Outcome::Failed { .. } => {},
    }
}

} // verus!
