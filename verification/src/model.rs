//! The specification-level parser: two cooperating state machines, one for
//! tag structure and one for individual attributes, written as total spec
//! functions over a sequence of characters. The executable parser is proved
//! to return exactly what these functions return.

use vstd::prelude::*;

use crate::ast::SpecAttribute;
use crate::ast::SpecBody;
use crate::ast::SpecError;
use crate::ast::SpecNode;
use crate::ast::SpecValue;
use crate::chars::is_ws;
use crate::chars::trim;

verus! {

/// The states of the tag machine: name, attribute region, body, closing tag.
#[derive(Clone, Copy)]
pub enum TagState {
    Start,
    Name,
    Attrs,
    Body,
    Closing,
}

/// The states of the attribute machine.
#[derive(Clone, Copy)]
pub enum AttrState {
    Name,
    Eq,
    Value,
}

/// The kind of an attribute value seen so far.
#[derive(Clone, Copy)]
pub enum ValueKind {
    Absent,
    Literal,
    Variable,
}

/// What a run of the tag machine produces: a finished node together with the
/// next free id and the position just after the node, or a fatal error.
pub enum Outcome {
    Parsed { node: SpecNode, next_id: int, end: int },
    Failed { err: SpecError },
}

/// What a run of the attribute machine produces: one attribute and the
/// position of the first character it did not consume, or a fatal error.
pub enum AttrOutcome {
    Done { attr: SpecAttribute, end: int },
    Failed { err: SpecError },
}

/// A node with no name, children or attributes yet.
pub open spec fn init_node(id: int, parent_id: Option<int>) -> SpecNode {
    SpecNode {
        id,
        parent_id,
        name: Seq::empty(),
        children: Seq::empty(),
        attributes: Seq::empty(),
    }
}

/// `n` with `c` appended to its name.
pub open spec fn with_name(n: SpecNode, c: char) -> SpecNode {
    SpecNode {
        id: n.id,
        parent_id: n.parent_id,
        name: n.name.push(c),
        children: n.children,
        attributes: n.attributes,
    }
}

/// `n` with one more body item.
pub open spec fn with_body(n: SpecNode, b: SpecBody) -> SpecNode {
    SpecNode {
        id: n.id,
        parent_id: n.parent_id,
        name: n.name,
        children: n.children.push(b),
        attributes: n.attributes,
    }
}

/// `n` with one more attribute.
pub open spec fn with_attr(n: SpecNode, a: SpecAttribute) -> SpecNode {
    SpecNode {
        id: n.id,
        parent_id: n.parent_id,
        name: n.name,
        children: n.children,
        attributes: n.attributes.push(a),
    }
}

/// `n` with the pending text flushed: trimmed of leading and trailing
/// whitespace and appended as a text body, or dropped when nothing remains.
pub open spec fn flush_text(n: SpecNode, buf: Seq<char>) -> SpecNode {
    if trim(buf).len() > 0 {
        with_body(n, SpecBody::Text(trim(buf)))
    } else {
        n
    }
}

/// The attribute that the attribute machine finishes with.
pub open spec fn mk_attr(id: int, name: Seq<char>, buf: Seq<char>, kind: ValueKind) -> SpecAttribute {
    SpecAttribute {
        id,
        name,
        value: match kind {
            ValueKind::Absent => None,
            ValueKind::Literal => Some(SpecValue::Literal(buf)),
            ValueKind::Variable => Some(SpecValue::VariableReference(buf)),
        },
    }
}

/// The position a sub-parse hands back, guarded so that the caller's
/// recursion visibly advances; a sub-parse in fact always returns a position
/// in `(pos, len]`, so the guard never changes the value.
pub open spec fn resume_at(pos: int, end: int, len: int) -> int {
    if pos < end && end <= len {
        end
    } else {
        pos + 1
    }
}

/// Ordering of tag states used for termination: a recursive descent enters a
/// child at the same position but in the `Start` state.
pub open spec fn tag_rank(state: TagState) -> int {
    match state {
        TagState::Start => 0,
        _ => 1,
    }
}

/// One run of the attribute machine, from the character at `pos`.
///
/// In state `Name`, whitespace or an unconsumed `>` or `/` finishes the
/// attribute; `=` demands a following `"` (literal) or `{` (variable
/// reference), whose value runs to the matching closing delimiter. End of
/// input finishes the attribute as it stands; the caller then reports the
/// end of input when it looks for the tag's own delimiter.
pub open spec fn spec_attr(
    s: Seq<char>,
    pos: int,
    attr_id: int,
    state: AttrState,
    name: Seq<char>,
    buf: Seq<char>,
    kind: ValueKind,
) -> AttrOutcome
    decreases s.len() - pos,
{
    if pos < 0 || pos >= s.len() {
        AttrOutcome::Done { attr: mk_attr(attr_id, name, buf, kind), end: pos }
    } else {
        let c = s[pos];
        if c == '=' {
            match state {
                AttrState::Name => spec_attr(s, pos + 1, attr_id, AttrState::Eq, name, buf, kind),
                _ => AttrOutcome::Failed { err: SpecError::AttributeSyntaxError },
            }
        } else if c == '"' {
            match state {
                AttrState::Eq => spec_attr(
                    s,
                    pos + 1,
                    attr_id,
                    AttrState::Value,
                    name,
                    buf,
                    ValueKind::Literal,
                ),
                AttrState::Value => match kind {
                    ValueKind::Literal => spec_attr(
                        s,
                        pos + 1,
                        attr_id,
                        AttrState::Name,
                        name,
                        buf,
                        kind,
                    ),
                    _ => AttrOutcome::Failed { err: SpecError::AttributeSyntaxError },
                },
                AttrState::Name => AttrOutcome::Failed { err: SpecError::AttributeSyntaxError },
            }
        } else if c == '{' {
            match state {
                AttrState::Eq => spec_attr(
                    s,
                    pos + 1,
                    attr_id,
                    AttrState::Value,
                    name,
                    buf,
                    ValueKind::Variable,
                ),
                _ => AttrOutcome::Failed { err: SpecError::AttributeSyntaxError },
            }
        } else if c == '}' {
            match state {
                AttrState::Value => match kind {
                    ValueKind::Variable => spec_attr(
                        s,
                        pos + 1,
                        attr_id,
                        AttrState::Name,
                        name,
                        buf,
                        kind,
                    ),
                    _ => AttrOutcome::Failed { err: SpecError::AttributeSyntaxError },
                },
                _ => AttrOutcome::Failed { err: SpecError::AttributeSyntaxError },
            }
        } else if c == '>' || c == '/' {
            match state {
                AttrState::Name => AttrOutcome::Done {
                    attr: mk_attr(attr_id, name, buf, kind),
                    end: pos,
                },
                AttrState::Eq => AttrOutcome::Failed { err: SpecError::AttributeSyntaxError },
                AttrState::Value => AttrOutcome::Failed { err: SpecError::UnexpectedCharacter },
            }
        } else if is_ws(c) {
            match state {
                AttrState::Name => AttrOutcome::Done {
                    attr: mk_attr(attr_id, name, buf, kind),
                    end: pos,
                },
                AttrState::Value => spec_attr(s, pos + 1, attr_id, state, name, buf.push(c), kind),
                AttrState::Eq => AttrOutcome::Failed { err: SpecError::AttributeSyntaxError },
            }
        } else {
            match state {
                AttrState::Name => spec_attr(s, pos + 1, attr_id, state, name.push(c), buf, kind),
                AttrState::Value => spec_attr(s, pos + 1, attr_id, state, name, buf.push(c), kind),
                AttrState::Eq => AttrOutcome::Failed { err: SpecError::AttributeSyntaxError },
            }
        }
    }
}

/// One run of the tag machine, from the character at `pos`.
///
/// `node` is the node built so far, `buf` the pending body text, `closing`
/// the closing-tag name read so far, and `next_id` the next free node id.
/// A `<` while in `Start` opens the name; whitespace after the name opens
/// the attribute region; `>` opens the body; in the body, `</` opens the
/// closing tag while any other `<` starts a recursive descent at the same
/// position, which resumes in the body afterwards; `/>` finishes the node
/// immediately as self-closing, with no closing-tag check; `>` after a
/// closing tag name equal to the node's name finishes the node.
pub open spec fn spec_parse(
    s: Seq<char>,
    pos: int,
    state: TagState,
    node: SpecNode,
    buf: Seq<char>,
    closing: Seq<char>,
    next_id: int,
) -> Outcome
    decreases s.len() - pos, tag_rank(state),
{
    if pos < 0 || pos >= s.len() {
        Outcome::Failed { err: SpecError::UnexpectedEndOfInput }
    } else {
        let c = s[pos];
        if c == '<' {
            match state {
                TagState::Start => spec_parse(
                    s,
                    pos + 1,
                    TagState::Name,
                    node,
                    buf,
                    closing,
                    next_id,
                ),
                TagState::Body => {
                    let flushed = flush_text(node, buf);
                    if pos + 1 < s.len() && s[pos + 1] == '/' {
                        spec_parse(
                            s,
                            pos + 2,
                            TagState::Closing,
                            flushed,
                            Seq::empty(),
                            closing,
                            next_id,
                        )
                    } else {
                        match spec_parse(
                            s,
                            pos,
                            TagState::Start,
                            init_node(next_id, Some(flushed.id)),
                            Seq::empty(),
                            Seq::empty(),
                            next_id + 1,
                        ) {
                            Outcome::Parsed { node: child, next_id: child_next, end } => spec_parse(
                                s,
                                resume_at(pos, end, s.len() as int),
                                TagState::Body,
                                with_body(flushed, SpecBody::Child(child)),
                                Seq::empty(),
                                closing,
                                child_next,
                            ),
                            Outcome::Failed { err } => Outcome::Failed { err },
                        }
                    }
                },
                _ => Outcome::Failed { err: SpecError::UnexpectedCharacter },
            }
        } else if c == '>' {
            match state {
                TagState::Name | TagState::Attrs => spec_parse(
                    s,
                    pos + 1,
                    TagState::Body,
                    node,
                    buf,
                    closing,
                    next_id,
                ),
                TagState::Closing => {
                    if node.name == closing {
                        Outcome::Parsed { node, next_id, end: pos + 1 }
                    } else {
                        Outcome::Failed {
                            err: SpecError::ClosingTagMismatch {
                                expected: node.name,
                                found: closing,
                            },
                        }
                    }
                },
                _ => Outcome::Failed { err: SpecError::UnexpectedCharacter },
            }
        } else if c == '/' {
            if pos + 1 < s.len() && s[pos + 1] == '>' {
                // self-closing: finish at once, no closing-tag check
                Outcome::Parsed { node, next_id, end: pos + 2 }
            } else {
                // a lone `/` is consumed without effect
                spec_parse(s, pos + 1, state, node, buf, closing, next_id)
            }
        } else if is_ws(c) {
            match state {
                TagState::Name => spec_parse(
                    s,
                    pos + 1,
                    TagState::Attrs,
                    node,
                    buf,
                    closing,
                    next_id,
                ),
                TagState::Body => spec_parse(s, pos + 1, state, node, buf.push(c), closing, next_id),
                _ => spec_parse(s, pos + 1, state, node, buf, closing, next_id),
            }
        } else {
            match state {
                TagState::Name => spec_parse(
                    s,
                    pos + 1,
                    state,
                    with_name(node, c),
                    buf,
                    closing,
                    next_id,
                ),
                TagState::Attrs => {
                    match spec_attr(
                        s,
                        pos,
                        node.attributes.len() as int,
                        AttrState::Name,
                        Seq::empty(),
                        Seq::empty(),
                        ValueKind::Absent,
                    ) {
                        AttrOutcome::Done { attr, end } => spec_parse(
                            s,
                            resume_at(pos, end, s.len() as int),
                            state,
                            with_attr(node, attr),
                            buf,
                            closing,
                            next_id,
                        ),
                        AttrOutcome::Failed { err } => Outcome::Failed { err },
                    }
                },
                TagState::Body => spec_parse(s, pos + 1, state, node, buf.push(c), closing, next_id),
                TagState::Closing => spec_parse(
                    s,
                    pos + 1,
                    state,
                    node,
                    buf,
                    closing.push(c),
                    next_id,
                ),
                TagState::Start => Outcome::Failed { err: SpecError::UnexpectedCharacter },
            }
        }
    }
}

/// The whole document: the root node parsed from position 0 with id 0 and no
/// parent. Characters after the root node's end are ignored.
pub open spec fn spec_document(s: Seq<char>) -> Result<SpecNode, SpecError> {
    match spec_parse(s, 0, TagState::Start, init_node(0, None), Seq::empty(), Seq::empty(), 1) {
        Outcome::Parsed { node, .. } => Ok(node),
        Outcome::Failed { err } => Err(err),
    }
}

/// The attribute machine never moves backwards, never passes the end of the
/// input, and gives the finished attribute the id it was asked to.
pub proof fn lemma_spec_attr_end(
    s: Seq<char>,
    pos: int,
    attr_id: int,
    state: AttrState,
    name: Seq<char>,
    buf: Seq<char>,
    kind: ValueKind,
)
    requires
        0 <= pos <= s.len(),
    ensures
        match spec_attr(s, pos, attr_id, state, name, buf, kind) {
            AttrOutcome::Done { attr, end } => pos <= end <= s.len() && attr.id == attr_id,
            AttrOutcome::Failed { .. } => true,
        },
    decreases s.len() - pos,
{
    if pos < s.len() {
        let c = s[pos];
        if c == '=' {
            if let AttrState::Name = state {
                lemma_spec_attr_end(s, pos + 1, attr_id, AttrState::Eq, name, buf, kind);
            }
        } else if c == '"' {
            match state {
                AttrState::Eq => lemma_spec_attr_end(
                    s,
                    pos + 1,
                    attr_id,
                    AttrState::Value,
                    name,
                    buf,
                    ValueKind::Literal,
                ),
                AttrState::Value => {
                    if let ValueKind::Literal = kind {
                        lemma_spec_attr_end(s, pos + 1, attr_id, AttrState::Name, name, buf, kind);
                    }
                },
                AttrState::Name => {},
            }
        } else if c == '{' {
            if let AttrState::Eq = state {
                lemma_spec_attr_end(
                    s,
                    pos + 1,
                    attr_id,
                    AttrState::Value,
                    name,
                    buf,
                    ValueKind::Variable,
                );
            }
        } else if c == '}' {
            if let AttrState::Value = state {
                if let ValueKind::Variable = kind {
                    lemma_spec_attr_end(s, pos + 1, attr_id, AttrState::Name, name, buf, kind);
                }
            }
        } else if c == '>' || c == '/' {
        } else if is_ws(c) {
            if let AttrState::Value = state {
                lemma_spec_attr_end(s, pos + 1, attr_id, state, name, buf.push(c), kind);
            }
        } else {
            match state {
                AttrState::Name => lemma_spec_attr_end(
                    s,
                    pos + 1,
                    attr_id,
                    state,
                    name.push(c),
                    buf,
                    kind,
                ),
                AttrState::Value => lemma_spec_attr_end(
                    s,
                    pos + 1,
                    attr_id,
                    state,
                    name,
                    buf.push(c),
                    kind,
                ),
                AttrState::Eq => {},
            }
        }
    }
}

} // verus!
