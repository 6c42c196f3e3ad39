//! The executable recursive-descent parser, proved to return exactly what
//! the specification-level parser in `model` returns.

use vstd::prelude::*;

use crate::ast::lemma_view_attrs_push;
use crate::ast::lemma_view_bodies_push;
use crate::ast::opt_id;
use crate::ast::view_attrs;
use crate::ast::view_bodies;
use crate::ast::view_body;
use crate::ast::view_node;
use crate::ast::Attribute;
use crate::ast::Body;
use crate::ast::Node;
use crate::ast::ParseError;
use crate::ast::SpecAttribute;
use crate::ast::SpecBody;
use crate::ast::SpecNode;
use crate::ast::Value;
use crate::chars::is_ws_char;
use crate::chars::trim_chars;
use crate::cursor::Cursor;
use crate::model::init_node;
use crate::model::lemma_spec_attr_end;
use crate::model::mk_attr;
use crate::model::spec_attr;
use crate::model::spec_document;
use crate::model::spec_parse;
use crate::model::with_attr;
use crate::model::with_body;
use crate::model::AttrOutcome;
use crate::model::AttrState;
use crate::model::Outcome;
use crate::model::TagState;
use crate::model::ValueKind;

verus! {

/// Relies on String::push: it appends exactly the given character at the end.
#[verifier::external_body]
fn push_char(s: &mut String, c: char)
    ensures
        final(s)@ == old(s)@.push(c),
{
    s.push(c);
}

/// The characters of `v`, as a string.
fn chars_to_string(v: &Vec<char>) -> (r: String)
    ensures
        r@ == v@,
{
    let mut r = String::new();
    let mut i: usize = 0;
    while i < v.len()
        invariant
            0 <= i <= v@.len(),
            r@ =~= v@.subrange(0, i as int),
        decreases v@.len() - i,
    {
        push_char(&mut r, v[i]);
        assert(r@ =~= v@.subrange(0, i as int + 1));
        i = i + 1;
    }
    proof {
        assert(v@.subrange(0, v@.len() as int) =~= v@);
    }
    r
}

/// Whether two character buffers hold the same characters.
fn eq_chars(a: &Vec<char>, b: &Vec<char>) -> (r: bool)
    ensures
        r <==> a@ == b@,
{
    if a.len() != b.len() {
        return false;
    }
    let mut i: usize = 0;
    while i < a.len()
        invariant
            a@.len() == b@.len(),
            0 <= i <= a@.len(),
            forall|j: int| 0 <= j < i ==> a@[j] == b@[j],
        decreases a@.len() - i,
    {
        if a[i] != b[i] {
            return false;
        }
        i = i + 1;
    }
    proof {
        assert(a@ =~= b@);
    }
    true
}

/// How many characters the tag machine has consumed, at least, by the time
/// it is in a given state; used to bound the node ids by the input length.
spec fn tag_slack(state: TagState) -> int {
    match state {
        TagState::Start => 0,
        TagState::Name => 1,
        _ => 2,
    }
}

/// Parses one attribute: a name, an optional `=`, and an optional quoted
/// literal or braced variable-reference value. On entry the cursor stands
/// just after the attribute's first character, which the caller consumed to
/// see that an attribute begins; the parser first rewinds over it.
#[verifier::loop_isolation(false)]
fn parse_attribute(iter: &mut Cursor, attr_id: usize) -> (r: Result<Attribute, ParseError>)
    requires
        old(iter).wf(),
        old(iter).at() >= 1,
    ensures
        final(iter).wf(),
        final(iter).text() == old(iter).text(),
        match r {
            Ok(attr) => spec_attr(
                old(iter).text(),
                old(iter).at() - 1,
                attr_id as int,
                AttrState::Name,
                Seq::empty(),
                Seq::empty(),
                ValueKind::Absent,
            ) == (AttrOutcome::Done { attr: attr@, end: final(iter).at() }),
            Err(e) => spec_attr(
                old(iter).text(),
                old(iter).at() - 1,
                attr_id as int,
                AttrState::Name,
                Seq::empty(),
                Seq::empty(),
                ValueKind::Absent,
            ) == (AttrOutcome::Failed { err: e@ }),
        },
{
    proof {
        iter.bounds();
    }
    iter.step_back();
    let ghost s = iter.text();
    let ghost p0 = iter.at();
    let mut state = AttrState::Name;
    let mut name: Vec<char> = Vec::new();
    let mut buf: Vec<char> = Vec::new();
    let mut kind = ValueKind::Absent;
    proof {
        assert(name@ =~= Seq::<char>::empty());
        assert(buf@ =~= Seq::<char>::empty());
    }
    loop
        invariant
            iter.wf(),
            iter.text() == s,
            s == old(iter).text(),
            p0 == old(iter).at() - 1,
            p0 <= iter.at() <= s.len(),
            spec_attr(
                s,
                p0,
                attr_id as int,
                AttrState::Name,
                Seq::empty(),
                Seq::empty(),
                ValueKind::Absent,
            ) == spec_attr(s, iter.at(), attr_id as int, state, name@, buf@, kind),
        decreases s.len() - iter.at(),
    {
        let copt = iter.peek();
        let c = match copt {
            Some(c) => c,
            None => {
                return Ok(finish_attr(attr_id, &name, &buf, kind));
            },
        };
        if c == '=' {
            match state {
                AttrState::Name => {
                    let _ = iter.next();
                    state = AttrState::Eq;
                },
                _ => {
                    return Err(ParseError::AttributeSyntaxError);
                },
            }
        } else if c == '"' {
            match state {
                AttrState::Eq => {
                    let _ = iter.next();
                    kind = ValueKind::Literal;
                    state = AttrState::Value;
                },
                AttrState::Value => match kind {
                    ValueKind::Literal => {
                        let _ = iter.next();
                        state = AttrState::Name;
                    },
                    _ => {
                        return Err(ParseError::AttributeSyntaxError);
                    },
                },
                AttrState::Name => {
                    return Err(ParseError::AttributeSyntaxError);
                },
            }
        } else if c == '{' {
            match state {
                AttrState::Eq => {
                    let _ = iter.next();
                    kind = ValueKind::Variable;
                    state = AttrState::Value;
                },
                _ => {
                    return Err(ParseError::AttributeSyntaxError);
                },
            }
        } else if c == '}' {
            match state {
                AttrState::Value => match kind {
                    ValueKind::Variable => {
                        let _ = iter.next();
                        state = AttrState::Name;
                    },
                    _ => {
                        return Err(ParseError::AttributeSyntaxError);
                    },
                },
                _ => {
                    return Err(ParseError::AttributeSyntaxError);
                },
            }
        } else if c == '>' || c == '/' {
            match state {
                AttrState::Name => {
                    return Ok(finish_attr(attr_id, &name, &buf, kind));
                },
                AttrState::Eq => {
                    return Err(ParseError::AttributeSyntaxError);
                },
                AttrState::Value => {
                    return Err(ParseError::UnexpectedCharacter);
                },
            }
        } else if is_ws_char(c) {
            match state {
                AttrState::Name => {
                    return Ok(finish_attr(attr_id, &name, &buf, kind));
                },
                AttrState::Value => {
                    let _ = iter.next();
                    buf.push(c);
                },
                AttrState::Eq => {
                    return Err(ParseError::AttributeSyntaxError);
                },
            }
        } else {
            match state {
                AttrState::Name => {
                    let _ = iter.next();
                    name.push(c);
                },
                AttrState::Value => {
                    let _ = iter.next();
                    buf.push(c);
                },
                AttrState::Eq => {
                    return Err(ParseError::AttributeSyntaxError);
                },
            }
        }
    }
}

/// The attribute the attribute machine finishes with, as an owned value.
fn finish_attr(attr_id: usize, name: &Vec<char>, buf: &Vec<char>, kind: ValueKind) -> (r: Attribute)
    ensures
        r@ == mk_attr(attr_id as int, name@, buf@, kind),
{
    Attribute {
        id: attr_id,
        name: chars_to_string(name),
        value: match kind {
            ValueKind::Absent => None,
            ValueKind::Literal => Some(Value::Literal(chars_to_string(buf))),
            ValueKind::Variable => Some(Value::VariableReference(chars_to_string(buf))),
        },
    }
}

/// Parses one node, given a cursor positioned where the node's `<` stands
/// (or, equivalently, where the tag machine's start state expects it), the
/// id of the enclosing node, and the node's own id. Returns the finished
/// node together with the next free id, or the first fatal error.
///
/// The result is exactly what the specification-level tag machine returns
/// from the same position; on success the cursor stands just after the
/// node's last character.
#[verifier::loop_isolation(false)]
pub fn parse(iter: &mut Cursor, parent_id: Option<usize>, current_id: usize) -> (r: Result<
    (Node, usize),
    ParseError,
>)
    requires
        old(iter).wf(),
        current_id + 1 + old(iter).text().len() - old(iter).at() <= usize::MAX,
    ensures
        final(iter).wf(),
        final(iter).text() == old(iter).text(),
        match r {
            Ok(p) => {
                &&& spec_parse(
                    old(iter).text(),
                    old(iter).at(),
                    TagState::Start,
                    init_node(current_id as int, opt_id(parent_id)),
                    Seq::empty(),
                    Seq::empty(),
                    current_id as int + 1,
                ) == (Outcome::Parsed {
                    node: view_node(p.0),
                    next_id: p.1 as int,
                    end: final(iter).at(),
                })
                &&& old(iter).at() < final(iter).at()
                &&& current_id < p.1
                &&& p.1 as int + 2 <= current_id as int + 1 + final(iter).at() - old(iter).at()
            },
            Err(e) => spec_parse(
                old(iter).text(),
                old(iter).at(),
                TagState::Start,
                init_node(current_id as int, opt_id(parent_id)),
                Seq::empty(),
                Seq::empty(),
                current_id as int + 1,
            ) == (Outcome::Failed { err: e@ }),
        },
    decreases old(iter).text().len() - old(iter).at(),
{
    proof {
        iter.bounds();
    }
    let ghost s = iter.text();
    let ghost p0 = iter.at();
    let mut state = TagState::Start;
    let mut name: Vec<char> = Vec::new();
    let mut children: Vec<Body> = Vec::new();
    let mut attributes: Vec<Attribute> = Vec::new();
    let mut buf: Vec<char> = Vec::new();
    let mut closing: Vec<char> = Vec::new();
    let mut next_id: usize = current_id + 1;
    proof {
        assert(name@ =~= Seq::<char>::empty());
        assert(buf@ =~= Seq::<char>::empty());
        assert(closing@ =~= Seq::<char>::empty());
        assert(view_bodies(children@) =~= Seq::<SpecBody>::empty());
        assert(view_attrs(attributes@) =~= Seq::<SpecAttribute>::empty());
    }
    loop
        invariant
            iter.wf(),
            iter.text() == s,
            s == old(iter).text(),
            p0 == old(iter).at(),
            p0 <= iter.at() <= s.len(),
            current_id + 1 <= next_id,
            next_id as int + tag_slack(state) <= current_id as int + 1 + iter.at() - p0,
            current_id as int + 1 + s.len() - p0 <= usize::MAX,
            spec_parse(
                s,
                p0,
                TagState::Start,
                init_node(current_id as int, opt_id(parent_id)),
                Seq::empty(),
                Seq::empty(),
                current_id as int + 1,
            ) == spec_parse(
                s,
                iter.at(),
                state,
                (SpecNode {
                    id: current_id as int,
                    parent_id: opt_id(parent_id),
                    name: name@,
                    children: view_bodies(children@),
                    attributes: view_attrs(attributes@),
                }),
                buf@,
                closing@,
                next_id as int,
            ),
        decreases s.len() - iter.at(),
    {
        let ghost pos = iter.at();
        let copt = iter.next();
        let c = match copt {
            Some(c) => c,
            None => {
                return Err(ParseError::UnexpectedEndOfInput);
            },
        };
        if c == '<' {
            match state {
                TagState::Start => {
                    state = TagState::Name;
                },
                TagState::Body => {
                    let trimmed = trim_chars(&buf);
                    if trimmed.len() > 0 {
                        let t = chars_to_string(&trimmed);
                        proof {
                            lemma_view_bodies_push(children@, Body::Text(t));
                        }
                        children.push(Body::Text(t));
                    }
                    buf = Vec::new();
                    let peeked = iter.peek();
                    let descend = match peeked {
                        Some(p) => p != '/',
                        None => true,
                    };
                    if descend {
                        iter.step_back();
                        let ghost node_before = SpecNode {
                            id: current_id as int,
                            parent_id: opt_id(parent_id),
                            name: name@,
                            children: view_bodies(children@),
                            attributes: view_attrs(attributes@),
                        };
                        match parse(iter, Some(current_id), next_id) {
                            Ok((child, nid)) => {
                                proof {
                                    lemma_view_bodies_push(
                                        children@,
                                        Body::Child(Box::new(child)),
                                    );
                                    assert(view_body(Body::Child(Box::new(child)))
                                        == SpecBody::Child(view_node(child)));
                                }
                                children.push(Body::Child(Box::new(child)));
                                next_id = nid;
                                proof {
                                    iter.bounds();
                                }
                            },
                            Err(e) => {
                                return Err(e);
                            },
                        }
                    } else {
                        let _ = iter.next();
                        state = TagState::Closing;
                    }
                },
                _ => {
                    return Err(ParseError::UnexpectedCharacter);
                },
            }
        } else if c == '>' {
            match state {
                TagState::Name | TagState::Attrs => {
                    state = TagState::Body;
                },
                TagState::Closing => {
                    if eq_chars(&name, &closing) {
                        let node = Node {
                            id: current_id,
                            parent_id,
                            name: chars_to_string(&name),
                            children,
                            attributes,
                        };
                        return Ok((node, next_id));
                    } else {
                        return Err(ParseError::ClosingTagMismatch {
                            expected: chars_to_string(&name),
                            found: chars_to_string(&closing),
                        });
                    }
                },
                _ => {
                    return Err(ParseError::UnexpectedCharacter);
                },
            }
        } else if c == '/' {
            let peeked = iter.peek();
            let selfclose = match peeked {
                Some(p) => p == '>',
                None => false,
            };
            if selfclose {
                let _ = iter.next();
                let node = Node {
                    id: current_id,
                    parent_id,
                    name: chars_to_string(&name),
                    children,
                    attributes,
                };
                return Ok((node, next_id));
            }
            // a lone `/` is consumed without effect
        } else if is_ws_char(c) {
            match state {
                TagState::Name => {
                    state = TagState::Attrs;
                },
                TagState::Body => {
                    buf.push(c);
                },
                _ => {},
            }
        } else {
            match state {
                TagState::Name => {
                    name.push(c);
                },
                TagState::Attrs => {
                    let ghost attrs_before = view_attrs(attributes@);
                    match parse_attribute(iter, attributes.len()) {
                        Ok(attr) => {
                            proof {
                                let aid = attrs_before.len() as int;
                                if c == '"' || c == '{' || c == '}' {
                                    // the specification machine fails here, which
                                    // contradicts the Done outcome
                                } else if c == '=' {
                                    lemma_spec_attr_end(
                                        s,
                                        pos + 1,
                                        aid,
                                        AttrState::Eq,
                                        Seq::empty(),
                                        Seq::empty(),
                                        ValueKind::Absent,
                                    );
                                } else {
                                    lemma_spec_attr_end(
                                        s,
                                        pos + 1,
                                        aid,
                                        AttrState::Name,
                                        Seq::empty().push(c),
                                        Seq::empty(),
                                        ValueKind::Absent,
                                    );
                                }
                                lemma_view_attrs_push(attributes@, attr);
                                iter.bounds();
                            }
                            attributes.push(attr);
                        },
                        Err(e) => {
                            return Err(e);
                        },
                    }
                },
                TagState::Body => {
                    buf.push(c);
                },
                TagState::Closing => {
                    closing.push(c);
                },
                TagState::Start => {
                    return Err(ParseError::UnexpectedCharacter);
                },
            }
        }
    }
}

/// Parses a whole document: wraps the input in a cursor and parses the root
/// node, with no parent and id 0. Returns exactly what the specification
/// document parser returns on the same characters, so the result is a
/// function of the input text alone.
pub fn start_parse(contents: String) -> (r: Result<Node, ParseError>)
    requires
        contents@.len() < usize::MAX,
    ensures
        match r {
            Ok(node) => spec_document(contents@) == Ok::<SpecNode, crate::ast::SpecError>(
                view_node(node),
            ),
            Err(e) => spec_document(contents@) == Err::<SpecNode, crate::ast::SpecError>(e@),
        },
{
    let text = contents.as_str();
    let n = text.unicode_len();
    let mut chars: Vec<char> = Vec::new();
    let mut i: usize = 0;
    while i < n
        invariant
            n == contents@.len(),
            text@ == contents@,
            0 <= i <= n,
            chars@ =~= contents@.subrange(0, i as int),
        decreases n - i,
    {
        chars.push(text.get_char(i));
        assert(chars@ =~= contents@.subrange(0, i as int + 1));
        i = i + 1;
    }
    proof {
        assert(chars@ =~= contents@);
    }
    let mut cursor = Cursor::new(chars);
    match parse(&mut cursor, None, 0) {
        Ok((node, _)) => Ok(node),
        Err(e) => Err(e),
    }
}

} // verus!
