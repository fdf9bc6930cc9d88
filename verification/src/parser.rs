use vstd::prelude::*;

use crate::ast::Ast;
use crate::ast::Node;
use crate::ast::nodes_of;
use crate::ast::lemma_nodes_of_push;
use crate::ast::lemma_nodes_of_len;
use crate::ast::lemma_nodes_of_index;

verus! {

broadcast use lemma_nodes_of_len, lemma_nodes_of_index;

/// The byte `+`.
pub const PLUS: u8 = 43;

/// The byte `,`.
pub const COMMA: u8 = 44;

/// The byte `-`.
pub const MINUS: u8 = 45;

/// The byte `.`.
pub const DOT: u8 = 46;

/// The byte `<`.
pub const LEFT: u8 = 60;

/// The byte `>`.
pub const RIGHT: u8 = 62;

/// The byte `[`.
pub const OPEN: u8 = 91;

/// The byte `]`.
pub const CLOSE: u8 = 93;

/// Does this byte name one of the six leaf operations?
pub open spec fn is_leaf_byte(c: u8) -> bool {
    c == PLUS || c == RIGHT || c == MINUS || c == LEFT || c == DOT || c == COMMA
}

/// The leaf node named by a byte.
pub open spec fn leaf_node(c: u8) -> Node {
    if c == PLUS {
        Node::IncData
    } else if c == RIGHT {
        Node::IncPtr
    } else if c == MINUS {
        Node::DecData
    } else if c == LEFT {
        Node::DecPtr
    } else if c == DOT {
        Node::Output
    } else {
        Node::Input
    }
}

/// One parsing pass over `s`: the trees recognized, and the bytes left when
/// the pass stops.  With `nested` the pass is collecting a loop body and a
/// `]` ends it; at the top level a `]` is dropped.  A `[` collects a nested
/// body, which is truncated at end-of-input if its `]` never comes.  Every
/// byte that names no operation is skipped.
pub open spec fn parse_seq(s: Seq<u8>, nested: bool) -> (Seq<Node>, Seq<u8>)
    decreases s.len(),
{
    if s.len() == 0 {
        (Seq::empty(), s)
    } else {
        let c = s[0];
        let t = s.drop_first();
        if c == CLOSE {
            if nested {
                (Seq::empty(), t)
            } else {
                parse_seq(t, false)
            }
        } else if c == OPEN {
            let (body, r0) = parse_seq(t, true);
            // the nested pass only consumes bytes; the bound is proved below
            let r = if r0.len() <= t.len() {
                r0
            } else {
                t
            };
            let (rest, fin) = parse_seq(r, nested);
            (seq![Node::Loop(body)] + rest, fin)
        } else if is_leaf_byte(c) {
            let (rest, fin) = parse_seq(t, nested);
            (seq![leaf_node(c)] + rest, fin)
        } else {
            parse_seq(t, nested)
        }
    }
}

/// The instruction trees of a source text.
pub open spec fn parse_text(s: Seq<u8>) -> Seq<Node> {
    parse_seq(s, false).0
}

/// What a parsing pass leaves behind is a suffix of its input.
pub proof fn lemma_parse_seq_suffix(s: Seq<u8>, nested: bool)
    ensures
        parse_seq(s, nested).1.len() <= s.len(),
        parse_seq(s, nested).1 == s.skip(s.len() - parse_seq(s, nested).1.len()),
    decreases s.len(),
{
    if s.len() == 0 {
        assert(s.skip(0) =~= s);
    } else {
        let c = s[0];
        let t = s.drop_first();
        assert(t =~= s.skip(1));
        if c == CLOSE {
            if nested {
                assert(parse_seq(s, nested).1 =~= s.skip(s.len() - t.len()));
            } else {
                lemma_parse_seq_suffix(t, false);
                let r = parse_seq(t, false).1;
                assert(t.skip(t.len() - r.len()) =~= s.skip(s.len() - r.len()));
            }
        } else if c == OPEN {
            lemma_parse_seq_suffix(t, true);
            let r0 = parse_seq(t, true).1;
            lemma_parse_seq_suffix(r0, nested);
            let fin = parse_seq(r0, nested).1;
            assert(r0 =~= t.skip(t.len() - r0.len()));
            assert(r0.skip(r0.len() - fin.len()) =~= s.skip(s.len() - fin.len()));
        } else {
            lemma_parse_seq_suffix(t, nested);
            let r = parse_seq(t, nested).1;
            assert(t.skip(t.len() - r.len()) =~= s.skip(s.len() - r.len()));
        }
    }
}


/// One step into a suffix: dropping the head of `s.skip(i)` gives `s.skip(i + 1)`.
proof fn lemma_skip_step(s: Seq<u8>, i: int)
    requires
        0 <= i < s.len(),
    ensures
        s.skip(i).len() == s.len() - i,
        s.skip(i)[0] == s[i],
        s.skip(i).drop_first() == s.skip(i + 1),
{
    assert(s.skip(i).drop_first() =~= s.skip(i + 1));
}

/// Collect instructions for a loop body, starting at `*i`, until a `]` is
/// consumed or the input ends; `*i` is left on the first byte not consumed.
#[verifier::loop_isolation(false)]
pub fn parse_loop(src: &[u8], i: &mut usize) -> (ast: Vec<Ast>)
    requires
        *old(i) <= src@.len(),
    ensures
        *old(i) <= *final(i) <= src@.len(),
        nodes_of(ast@) == parse_seq(src@.skip(*old(i) as int), true).0,
        src@.skip(*final(i) as int) == parse_seq(src@.skip(*old(i) as int), true).1,
    decreases src@.len() - *old(i),
{
    let ghost i0 = *i as int;
    let mut ast: Vec<Ast> = Vec::new();
    proof {
        assert(Seq::<Node>::empty() + parse_seq(src@.skip(i0), true).0 =~= parse_seq(
            src@.skip(i0),
            true,
        ).0);
    }
    while *i < src.len()
        invariant
            i0 <= *i as int <= src@.len(),
            parse_seq(src@.skip(i0), true).0 == nodes_of(ast@) + parse_seq(
                src@.skip(*i as int),
                true,
            ).0,
            parse_seq(src@.skip(i0), true).1 == parse_seq(src@.skip(*i as int), true).1,
        decreases src@.len() - *i as int,
    {
        let ghost iprev = *i as int;
        let c = src[*i];
        *i += 1;
        proof {
            lemma_skip_step(src@, iprev);
        }
        if c == CLOSE {
            proof {
                assert(nodes_of(ast@) + Seq::<Node>::empty() =~= nodes_of(ast@));
            }
            return ast;
        } else if c == OPEN {
            let insts = parse_loop(src, i);
            let ghost imid = *i as int;
            let ghost body = parse_seq(src@.skip(iprev + 1), true).0;
            ast.push(Ast::Loop { insts });
            proof {
                lemma_parse_seq_suffix(src@.skip(iprev + 1), true);
                lemma_nodes_of_push(ast@.drop_last(), Ast::Loop { insts });
                assert(ast@.drop_last() =~= ast@.subrange(0, ast@.len() - 1));
                assert((nodes_of(ast@.drop_last()) + seq![Node::Loop(body)]) + parse_seq(
                    src@.skip(imid),
                    true,
                ).0 =~= nodes_of(ast@.drop_last()) + (seq![Node::Loop(body)] + parse_seq(
                    src@.skip(imid),
                    true,
                ).0));
            }
        } else {
            let leaf: Option<Ast> = if c == PLUS {
                Some(Ast::IncData)
            } else if c == RIGHT {
                Some(Ast::IncPtr)
            } else if c == MINUS {
                Some(Ast::DecData)
            } else if c == LEFT {
                Some(Ast::DecPtr)
            } else if c == DOT {
                Some(Ast::Output)
            } else if c == COMMA {
                Some(Ast::Input)
            } else {
                None
            };
            if let Some(a) = leaf {
                let ghost prev = ast@;
                ast.push(a);
                proof {
                    lemma_nodes_of_push(prev, a);
                    assert((nodes_of(prev) + seq![a.deep()]) + parse_seq(src@.skip(*i as int), true).0
                        =~= nodes_of(prev) + (seq![a.deep()] + parse_seq(src@.skip(*i as int), true).0));
                }
            }
        }
    }
    proof {
        assert(src@.skip(src@.len() as int) =~= Seq::<u8>::empty());
        assert(nodes_of(ast@) + Seq::<Node>::empty() =~= nodes_of(ast@));
    }
    ast
}

/// Parse a whole source text into its instruction tree.  A stray `]` at the
/// top level is dropped; everything that names no operation is skipped.
#[verifier::loop_isolation(false)]
pub fn parse(src: &[u8]) -> (ast: Vec<Ast>)
    ensures
        nodes_of(ast@) == parse_text(src@),
{
    let mut i: usize = 0;
    let mut ast: Vec<Ast> = Vec::new();
    proof {
        assert(src@.skip(0) =~= src@);
        assert(Seq::<Node>::empty() + parse_seq(src@, false).0 =~= parse_seq(src@, false).0);
    }
    while i < src.len()
        invariant
            i <= src@.len(),
            parse_text(src@) == nodes_of(ast@) + parse_seq(src@.skip(i as int), false).0,
        decreases src@.len() - i as int,
    {
        let ghost iprev = i as int;
        let c = src[i];
        i += 1;
        proof {
            lemma_skip_step(src@, iprev);
        }
        if c == OPEN {
            let insts = parse_loop(src, &mut i);
            let ghost imid = i as int;
            let ghost body = parse_seq(src@.skip(iprev + 1), true).0;
            ast.push(Ast::Loop { insts });
            proof {
                lemma_parse_seq_suffix(src@.skip(iprev + 1), true);
                lemma_nodes_of_push(ast@.drop_last(), Ast::Loop { insts });
                assert(ast@.drop_last() =~= ast@.subrange(0, ast@.len() - 1));
                assert((nodes_of(ast@.drop_last()) + seq![Node::Loop(body)]) + parse_seq(
                    src@.skip(imid),
                    false,
                ).0 =~= nodes_of(ast@.drop_last()) + (seq![Node::Loop(body)] + parse_seq(
                    src@.skip(imid),
                    false,
                ).0));
            }
        } else {
            let leaf: Option<Ast> = if c == PLUS {
                Some(Ast::IncData)
            } else if c == RIGHT {
                Some(Ast::IncPtr)
            } else if c == MINUS {
                Some(Ast::DecData)
            } else if c == LEFT {
                Some(Ast::DecPtr)
            } else if c == DOT {
                Some(Ast::Output)
            } else if c == COMMA {
                Some(Ast::Input)
            } else {
                None
            };
            if let Some(a) = leaf {
                let ghost prev = ast@;
                ast.push(a);
                proof {
                    lemma_nodes_of_push(prev, a);
                    assert((nodes_of(prev) + seq![a.deep()]) + parse_seq(src@.skip(i as int), false).0
                        =~= nodes_of(prev) + (seq![a.deep()] + parse_seq(src@.skip(i as int), false).0));
                }
            }
        }
    }
    proof {
        assert(src@.skip(src@.len() as int) =~= Seq::<u8>::empty());
        assert(nodes_of(ast@) + Seq::<Node>::empty() =~= nodes_of(ast@));
    }
    ast
}


/// A stray `]` with no enclosing loop is simply dropped: parsing it followed
/// by any text yields exactly the instructions of that text, and nothing else.
pub proof fn lemma_stray_close_dropped(s: Seq<u8>)
    ensures
        parse_text(seq![CLOSE] + s) == parse_text(s),
{
    assert((seq![CLOSE] + s).drop_first() =~= s);
}

/// Without a `]` anywhere, a nested pass and a top-level pass agree, and
/// either consumes the whole input.
proof fn lemma_parse_seq_no_close(s: Seq<u8>)
    requires
        forall|j: int| 0 <= j < s.len() ==> s[j] != CLOSE,
    ensures
        parse_seq(s, true) == parse_seq(s, false),
        parse_seq(s, true).1.len() == 0,
    decreases s.len(),
{
    if s.len() != 0 {
        let c = s[0];
        let t = s.drop_first();
        assert(c != CLOSE);
        assert forall|j: int| 0 <= j < t.len() implies t[j] != CLOSE by {
            assert(t[j] == s[j + 1]);
        }
        lemma_parse_seq_no_close(t);
        if c == OPEN {
            lemma_parse_seq_suffix(t, true);
            let body = parse_seq(t, true).0;
            let r0 = parse_seq(t, true).1;
            assert(r0.len() == 0);
            assert(parse_seq(r0, true) == (Seq::<Node>::empty(), r0));
            assert(parse_seq(r0, false) == (Seq::<Node>::empty(), r0));
            assert(parse_seq(s, true) == (seq![Node::Loop(body)] + Seq::<Node>::empty(), r0));
            assert(parse_seq(s, false) == (seq![Node::Loop(body)] + Seq::<Node>::empty(), r0));
        } else if is_leaf_byte(c) {
            assert(parse_seq(s, true) == (seq![leaf_node(c)] + parse_seq(t, true).0, parse_seq(t, true).1));
            assert(parse_seq(s, false) == (seq![leaf_node(c)] + parse_seq(t, false).0, parse_seq(t, false).1));
        } else {
            assert(parse_seq(s, true) == parse_seq(t, true));
            assert(parse_seq(s, false) == parse_seq(t, false));
        }
    }
}

/// Parsing a text that begins with `[` yields one loop whose body is what
/// the nested pass makes of the rest, followed by the instructions of
/// whatever that pass left unconsumed.
pub proof fn lemma_open_bracket(s: Seq<u8>)
    ensures
        parse_text(seq![OPEN] + s) == seq![Node::Loop(parse_seq(s, true).0)] + parse_text(
            parse_seq(s, true).1,
        ),
{
    let u = seq![OPEN] + s;
    assert(u.drop_first() =~= s);
    lemma_parse_seq_suffix(s, true);
}

/// A `[` whose matching `]` never appears before end-of-input — its body
/// may well hold whole matched loops of its own — swallows the rest of the
/// input: the result is a single loop whose body is exactly the
/// instructions parsed up to end-of-input.
pub proof fn lemma_unmatched_open(s: Seq<u8>)
    requires
        parse_seq(s, true).1.len() == 0,
    ensures
        parse_text(seq![OPEN] + s) == seq![Node::Loop(parse_seq(s, true).0)],
{
    lemma_open_bracket(s);
    assert(parse_seq(s, true).1 =~= Seq::<u8>::empty());
    assert(parse_text(parse_seq(s, true).1) =~= Seq::<Node>::empty());
    assert(seq![Node::Loop(parse_seq(s, true).0)] + Seq::<Node>::empty() =~= seq![
        Node::Loop(parse_seq(s, true).0),
    ]);
}

/// In particular, a tail without any `]` is so swallowed, and its body
/// reads as a top-level text.
pub proof fn lemma_unmatched_open_no_close(s: Seq<u8>)
    requires
        forall|j: int| 0 <= j < s.len() ==> s[j] != CLOSE,
    ensures
        parse_text(seq![OPEN] + s) == seq![Node::Loop(parse_text(s))],
{
    lemma_parse_seq_no_close(s);
    lemma_unmatched_open(s);
}


/// Reading `s` with `d` loops already open, every `]` closes something:
/// the running balance never goes below zero.  With `d == 0` this says
/// every `]` of `s` closes an earlier `[` of `s` itself.
pub open spec fn covered(s: Seq<u8>, d: nat) -> bool
    decreases s.len(),
{
    if s.len() == 0 {
        true
    } else if s[0] == CLOSE {
        d >= 1 && covered(s.drop_first(), (d - 1) as nat)
    } else if s[0] == OPEN {
        covered(s.drop_first(), d + 1)
    } else {
        covered(s.drop_first(), d)
    }
}

/// What a nested pass leaves of a text whose balance, with one more loop
/// pending, never underflows: a text whose balance, with one loop fewer
/// pending, never underflows either.
proof fn lemma_nested_leaves_covered(s: Seq<u8>, d: nat)
    requires
        covered(s, d),
        d >= 1,
    ensures
        covered(parse_seq(s, true).1, (d - 1) as nat),
    decreases s.len(),
{
    if s.len() == 0 {
    } else {
        let t = s.drop_first();
        if s[0] == CLOSE {
        } else if s[0] == OPEN {
            lemma_nested_leaves_covered(t, d + 1);
            lemma_parse_seq_suffix(t, true);
            let r1 = parse_seq(t, true).1;
            lemma_nested_leaves_covered(r1, d);
        } else {
            lemma_nested_leaves_covered(t, d);
        }
    }
}

/// When every `]` of the text closes an earlier `[` of the text itself, a
/// loop-body pass consumes the whole stream — reaching end-of-input before
/// its closing `]` truncates silently rather than erring — and reads it
/// exactly as a top-level pass would.
pub proof fn lemma_covered_consumes_all(s: Seq<u8>)
    requires
        covered(s, 0),
    ensures
        parse_seq(s, true) == parse_seq(s, false),
        parse_seq(s, true).1.len() == 0,
    decreases s.len(),
{
    if s.len() == 0 {
    } else {
        let t = s.drop_first();
        if s[0] == CLOSE {
            assert(false);
        } else if s[0] == OPEN {
            lemma_nested_leaves_covered(t, 1);
            lemma_parse_seq_suffix(t, true);
            let r1 = parse_seq(t, true).1;
            lemma_covered_consumes_all(r1);
        } else {
            lemma_covered_consumes_all(t);
        }
    }
}

/// The unmatched `[` in full: when every `]` of the rest closes a later
/// `[` of the rest itself — whole matched loops inside are fine — the
/// loop's body is exactly the rest, parsed to end-of-input as a top-level
/// text.
pub proof fn lemma_unmatched_open_covered(s: Seq<u8>)
    requires
        covered(s, 0),
    ensures
        parse_text(seq![OPEN] + s) == seq![Node::Loop(parse_text(s))],
{
    lemma_covered_consumes_all(s);
    lemma_unmatched_open(s);
}

} // verus!



