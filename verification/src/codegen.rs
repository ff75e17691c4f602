use vstd::prelude::*;

use crate::error::CompileError;
use crate::error::ErrV;
use crate::literal::literal_value;
use crate::literal::parse_constant;
use crate::sink::builder_append;
use crate::sink::builder_new;
use crate::sink::builder_string;
use crate::sink::builder_view;
use crate::sink::builder_wf;
use crate::state::State;
use crate::state::StView;

verus! {

/// One typed statement node, as the tree producer hands it over: a kind tag
/// and the raw operand text following the keyword. Loop blocks and resolved
/// includes own an ordered child sequence.
pub enum Stmt {
    /// declare-variable: allocate a fresh slot under this name.
    Declare { name: String },
    /// delete-variable: drop the name; its address is retired, not reused.
    Delete { name: String },
    /// point-to-variable: move the head to the named slot.
    Point { name: String },
    /// point-to-address: move the head to a literal address.
    PointAddr { operand: String },
    /// point-to-marker: return to a pre-seeded marker slot by the fixed
    /// sentinel-walking sequence rather than by a computed distance.
    PointMarker { name: String },
    /// add-constant: repeated increment of the current cell.
    Add { operand: String },
    /// subtract-constant: repeated decrement of the current cell.
    Sub { operand: String },
    /// add-from-pointer-to-variable: destructively drain the current cell
    /// into the named slot, adding.
    AddV { name: String },
    /// subtract-from-pointer-to-variable: destructively drain the current
    /// cell out of the named slot, subtracting.
    SubV { name: String },
    /// copy-to-variable: non-destructive copy of the current cell into the
    /// named slot, through a reserved temporary.
    CopyTo { name: String },
    /// zero-current-cell: the decrement-until-zero loop.
    Zero,
    /// read-input into the current cell.
    ReadInput,
    /// print-output of the current cell.
    PrintOutput,
    /// loop-open.
    LoopOpen,
    /// loop-close.
    LoopClose,
    /// loop-block: children are the body, already delimited by
    /// loop-open/loop-close children.
    LoopBlock { body: Vec<Stmt> },
    /// include-file: children are the included file's statements, already
    /// resolved by the tree producer; they share this compilation's state.
    Include { body: Vec<Stmt> },
    /// end-of-input: the trailing newline.
    EndOfInput,
}

/// `n` repetitions of one instruction character.
pub open spec fn repeat_char(c: char, n: nat) -> Seq<char> {
    Seq::new(n, |i: int| c)
}

/// The instructions that move the head from one address to another: the
/// difference, as a run of move-left or move-right instructions.
pub open spec fn move_chars(from: nat, to: nat) -> Seq<char> {
    if to < from {
        repeat_char('<', (from - to) as nat)
    } else {
        repeat_char('>', (to - from) as nat)
    }
}

/// The reserved name of the compiler-synthesized temporary that the
/// non-destructive copy declares and deletes.
pub open spec fn temp_name() -> Seq<char> {
    "__temp"@
}

/// The fixed marker-return sequence: it walks the head left, consuming the
/// sentinel trail, until it lands on the marker slot.
pub open spec fn marker_chars() -> Seq<char> {
    seq!['<', '+', '[', '-', '<', '+', ']', '-']
}

/// The destructive transfer expansion: a loop that, one step at a time,
/// decrements the cell under the head, applies `op` to the target slot, and
/// returns; it ends with the head back at the source.
pub open spec fn transfer_chars(src: nat, target: nat, op: char) -> Seq<char> {
    seq!['['] + seq!['-'] + move_chars(src, target) + seq![op] + move_chars(target, src)
        + seq![']']
}

/// The first phase of the non-destructive copy: a loop that drains the
/// source cell into the target and the temporary at once, so the source is
/// only drained once; the head ends back at the source.
pub open spec fn drain_both_chars(src: nat, target: nat, tmp: nat) -> Seq<char> {
    seq!['['] + seq!['-'] + move_chars(src, target) + seq!['+'] + move_chars(target, tmp)
        + seq!['+'] + move_chars(tmp, src) + seq![']']
}

/// The non-destructive copy expansion: drain the source into the target and
/// the temporary at once, then drain the temporary back into the source; the
/// head ends on the temporary's slot.
pub open spec fn copy_chars(src: nat, target: nat, tmp: nat) -> Seq<char> {
    drain_both_chars(src, target, tmp) + move_chars(src, tmp) + transfer_chars(tmp, src, '+')
}

/// A successful generation step: the state after it and the text it emits.
#[verifier::ext_equal]
pub ghost struct GenOut {
    pub st: StView,
    pub text: Seq<char>,
}

/// Pointing at an address: emit the move run and record the new position.
pub open spec fn point_to(st: StView, target: nat) -> GenOut {
    GenOut { st: StView { ptr: target, ..st }, text: move_chars(st.ptr, target) }
}

/// The non-destructive copy's translation rule: reserve the temporary slot
/// (a collision with a live `__temp` is fatal), resolve the target among the
/// live variables including the temporary, emit the two-phase drain, and
/// delete the temporary; its address stays retired and the head ends on it.
pub open spec fn gen_copy(name: Seq<char>, st: StView) -> Result<GenOut, ErrV> {
    if st.vars.contains_key(temp_name()) {
        Err(ErrV::DuplicateVariable(temp_name()))
    } else {
        let vars1 = st.vars.insert(temp_name(), st.alloc);
        if vars1.contains_key(name) {
            Ok(
                GenOut {
                    st: StView {
                        alloc: st.alloc + 1,
                        ptr: st.alloc,
                        vars: vars1.remove(temp_name()),
                    },
                    text: copy_chars(st.ptr, vars1[name], st.alloc),
                },
            )
        } else {
            Err(ErrV::UnknownVariable(name))
        }
    }
}

/// What compiling one statement means: the translation rule of each kind,
/// from a state to the next state and the emitted instruction text, or the
/// fatal condition it reports.
pub open spec fn gen_stmt(s: Stmt, st: StView) -> Result<GenOut, ErrV>
    decreases s,
{
    match s {
        Stmt::Declare { name } => if st.vars.contains_key(name@) {
            Err(ErrV::DuplicateVariable(name@))
        } else {
            Ok(
                GenOut {
                    st: StView {
                        alloc: st.alloc + 1,
                        ptr: st.ptr,
                        vars: st.vars.insert(name@, st.alloc),
                    },
                    text: Seq::empty(),
                },
            )
        },
        Stmt::Delete { name } => if st.vars.contains_key(name@) {
            Ok(GenOut { st: StView { vars: st.vars.remove(name@), ..st }, text: Seq::empty() })
        } else {
            Err(ErrV::UnknownVariable(name@))
        },
        Stmt::Point { name } => if st.vars.contains_key(name@) {
            Ok(point_to(st, st.vars[name@]))
        } else {
            Err(ErrV::UnknownVariable(name@))
        },
        Stmt::PointAddr { operand } => match literal_value(operand@) {
            Some(a) => Ok(point_to(st, a as nat)),
            None => Err(ErrV::MalformedLiteral(operand@)),
        },
        Stmt::PointMarker { name } => if st.vars.contains_key(name@) {
            Ok(GenOut { st: StView { ptr: st.vars[name@], ..st }, text: marker_chars() })
        } else {
            Err(ErrV::UnknownVariable(name@))
        },
        Stmt::Add { operand } => match literal_value(operand@) {
            Some(n) => Ok(GenOut { st, text: repeat_char('+', n as nat) }),
            None => Err(ErrV::MalformedLiteral(operand@)),
        },
        Stmt::Sub { operand } => match literal_value(operand@) {
            Some(n) => Ok(GenOut { st, text: repeat_char('-', n as nat) }),
            None => Err(ErrV::MalformedLiteral(operand@)),
        },
        Stmt::AddV { name } => if st.vars.contains_key(name@) {
            Ok(GenOut { st, text: transfer_chars(st.ptr, st.vars[name@], '+') })
        } else {
            Err(ErrV::UnknownVariable(name@))
        },
        Stmt::SubV { name } => if st.vars.contains_key(name@) {
            Ok(GenOut { st, text: transfer_chars(st.ptr, st.vars[name@], '-') })
        } else {
            Err(ErrV::UnknownVariable(name@))
        },
        Stmt::CopyTo { name } => gen_copy(name@, st),
        Stmt::Zero => Ok(GenOut { st, text: seq!['[', '-', ']'] }),
        Stmt::ReadInput => Ok(GenOut { st, text: seq![','] }),
        Stmt::PrintOutput => Ok(GenOut { st, text: seq!['.'] }),
        Stmt::LoopOpen => Ok(GenOut { st, text: seq!['['] }),
        Stmt::LoopClose => Ok(GenOut { st, text: seq![']'] }),
        Stmt::LoopBlock { body } => gen_seq(body@, st),
        Stmt::Include { body } => gen_seq(body@, st),
        Stmt::EndOfInput => Ok(GenOut { st, text: seq!['\n'] }),
    }
}

/// What compiling a statement sequence means: each statement in order, every
/// one from the state the one before it left, the texts concatenated; the
/// first fatal condition aborts the whole walk.
pub open spec fn gen_seq(ss: Seq<Stmt>, st: StView) -> Result<GenOut, ErrV>
    decreases ss,
{
    if ss.len() == 0 {
        Ok(GenOut { st, text: Seq::empty() })
    } else {
        match gen_stmt(ss[0], st) {
            Ok(o1) => match gen_seq(ss.drop_first(), o1.st) {
                Ok(o2) => Ok(GenOut { st: o2.st, text: o1.text + o2.text }),
                Err(e) => Err(e),
            },
            Err(e) => Err(e),
        }
    }
}

/// The state a fresh compilation unit starts from.
pub open spec fn init_view() -> StView {
    StView { alloc: 0, ptr: 0, vars: Map::empty() }
}

/// How many declarations a statement performs, the reserved temporary of a
/// copy included.
pub open spec fn decl_count(s: Stmt) -> nat
    decreases s,
{
    match s {
        Stmt::Declare { .. } => 1,
        Stmt::CopyTo { .. } => 1,
        Stmt::LoopBlock { body } => decl_count_seq(body@),
        Stmt::Include { body } => decl_count_seq(body@),
        _ => 0,
    }
}

pub open spec fn decl_count_seq(ss: Seq<Stmt>) -> nat
    decreases ss,
{
    if ss.len() == 0 {
        0
    } else {
        decl_count(ss[0]) + decl_count_seq(ss.drop_first())
    }
}

/// Generation never decreases the allocation counter, and advances it by at
/// most the number of declarations the statement holds.
pub proof fn lemma_alloc_bounds(s: Stmt, st: StView)
    ensures
        gen_stmt(s, st) matches Ok(o) ==> st.alloc <= o.st.alloc <= st.alloc + decl_count(s),
    decreases s,
{
    match s {
        Stmt::LoopBlock { body } => lemma_alloc_bounds_seq(body@, st),
        Stmt::Include { body } => lemma_alloc_bounds_seq(body@, st),
        _ => {},
    }
}

pub proof fn lemma_alloc_bounds_seq(ss: Seq<Stmt>, st: StView)
    ensures
        gen_seq(ss, st) matches Ok(o) ==> st.alloc <= o.st.alloc <= st.alloc + decl_count_seq(
            ss,
        ),
    decreases ss,
{
    if ss.len() > 0 {
        lemma_alloc_bounds(ss[0], st);
        match gen_stmt(ss[0], st) {
            Ok(o1) => lemma_alloc_bounds_seq(ss.drop_first(), o1.st),
            Err(_) => {},
        }
    }
}

/// Generation of a concatenation: the first part, then the second from the
/// state the first part leaves.
pub proof fn lemma_gen_seq_concat(a: Seq<Stmt>, b: Seq<Stmt>, st: StView)
    ensures
        gen_seq(a + b, st) == (match gen_seq(a, st) {
            Ok(o1) => match gen_seq(b, o1.st) {
                Ok(o2) => Ok::<GenOut, ErrV>(GenOut { st: o2.st, text: o1.text + o2.text }),
                Err(e) => Err(e),
            },
            Err(e) => Err(e),
        }),
    decreases a,
{
    if a.len() == 0 {
        assert(a + b =~= b);
        match gen_seq(b, st) {
            Ok(o2) => {
                assert(Seq::<char>::empty() + o2.text =~= o2.text);
            },
            Err(_) => {},
        }
    } else {
        assert((a + b)[0] == a[0]);
        assert((a + b).drop_first() =~= a.drop_first() + b);
        match gen_stmt(a[0], st) {
            Ok(o1) => {
                lemma_gen_seq_concat(a.drop_first(), b, o1.st);
                match gen_seq(a.drop_first(), o1.st) {
                    Ok(o2) => {
                        match gen_seq(b, o2.st) {
                            Ok(o3) => {
                                assert(o1.text + (o2.text + o3.text) =~= (o1.text + o2.text)
                                    + o3.text);
                            },
                            Err(_) => {},
                        }
                    },
                    Err(_) => {},
                }
            },
            Err(_) => {},
        }
    }
}

/// One step of a sequence's suffix sum of declarations.
proof fn lemma_decl_count_seq_split(ss: Seq<Stmt>, i: int)
    requires
        0 <= i < ss.len(),
    ensures
        decl_count_seq(ss.subrange(i, ss.len() as int)) == decl_count(ss[i]) + decl_count_seq(
            ss.subrange(i + 1, ss.len() as int),
        ),
{
    let suf = ss.subrange(i, ss.len() as int);
    assert(suf[0] == ss[i]);
    assert(suf.drop_first() =~= ss.subrange(i + 1, ss.len() as int));
}

/// Appends `n` repetitions of the one-character slice `s`.
fn emit_repeat(out: &mut string_builder::Builder, s: &str, n: usize)
    requires
        builder_wf(*old(out)),
        s@.len() == 1,
    ensures
        builder_wf(*final(out)),
        builder_view(*final(out)) == builder_view(*old(out)) + repeat_char(s@[0], n as nat),
{
    let ghost view0 = builder_view(*out);
    let mut i: usize = 0;
    proof {
        assert(view0 + repeat_char(s@[0], 0nat) =~= view0);
    }
    while i < n
        invariant
            i <= n,
            s@.len() == 1,
            builder_wf(*out),
            builder_view(*out) == view0 + repeat_char(s@[0], i as nat),
        decreases n - i,
    {
        builder_append(out, s);
        proof {
            assert((view0 + repeat_char(s@[0], i as nat)) + s@ =~= view0 + repeat_char(
                s@[0],
                (i + 1) as nat,
            ));
        }
        i = i + 1;
    }
}

/// Emits the move instructions from the tracked head position to `target`
/// and records the new position: the single primitive that all pointing
/// funnels through.
fn point_to_address(st: &mut State, out: &mut string_builder::Builder, target: u32)
    requires
        old(st).wf(),
        builder_wf(*old(out)),
    ensures
        final(st).wf(),
        builder_wf(*final(out)),
        final(st)@ == (StView { ptr: target as nat, ..old(st)@ }),
        builder_view(*final(out)) == builder_view(*old(out)) + move_chars(
            old(st)@.ptr,
            target as nat,
        ),
{
    proof {
        reveal_strlit("<");
        reveal_strlit(">");
    }
    let p = st.pointer();
    if target < p {
        emit_repeat(out, "<", (p - target) as usize);
    } else if target > p {
        emit_repeat(out, ">", (target - p) as usize);
    } else {
        proof {
            assert(builder_view(*out) + move_chars(old(st)@.ptr, target as nat) =~= builder_view(
                *out,
            ));
        }
    }
    st.set_pointer(target);
}

/// Emits the destructive transfer loop into the slot at `target`, combining
/// by the one-character operation `op`; the head ends where it began.
fn emit_transfer(st: &mut State, out: &mut string_builder::Builder, target: u32, op: &str)
    requires
        old(st).wf(),
        builder_wf(*old(out)),
        op@.len() == 1,
    ensures
        final(st).wf(),
        builder_wf(*final(out)),
        final(st)@ == old(st)@,
        builder_view(*final(out)) == builder_view(*old(out)) + transfer_chars(
            old(st)@.ptr,
            target as nat,
            op@[0],
        ),
{
    proof {
        reveal_strlit("[");
        reveal_strlit("-");
        reveal_strlit("]");
    }
    let ghost view0 = builder_view(*out);
    let src = st.pointer();
    builder_append(out, "[");
    builder_append(out, "-");
    point_to_address(st, out, target);
    builder_append(out, op);
    point_to_address(st, out, src);
    builder_append(out, "]");
    proof {
        assert(builder_view(*out) =~= view0 + transfer_chars(
            old(st)@.ptr,
            target as nat,
            op@[0],
        ));
    }
}

/// Compiles the non-destructive copy: declares the reserved temporary, emits
/// the two-phase drain through it, and deletes it again. The result and
/// every effect are exactly what `gen_copy` says.
fn compile_copy(name: &str, st: &mut State, out: &mut string_builder::Builder) -> (r: Result<
    (),
    CompileError,
>)
    requires
        old(st).wf(),
        builder_wf(*old(out)),
        old(st)@.alloc + 1 <= u32::MAX,
    ensures
        final(st).wf(),
        builder_wf(*final(out)),
        final(st)@.alloc >= old(st)@.alloc,
        match r {
            Ok(()) => gen_copy(name@, old(st)@) matches Ok(o) && final(st)@ == o.st
                && builder_view(*final(out)) == builder_view(*old(out)) + o.text,
            Err(e) => gen_copy(name@, old(st)@) == Err::<GenOut, ErrV>(e@),
        },
{
    let src = st.pointer();
    let tmp = st.alloc_counter();
    match st.declare("__temp") {
        Err(e) => Err(e),
        Ok(()) => match st.resolve(name) {
            Err(e) => Err(e),
            Ok(a) => {
                proof {
                    reveal_strlit("[");
                    reveal_strlit("-");
                    reveal_strlit("+");
                    reveal_strlit("]");
                }
                let ghost view0 = builder_view(*out);
                builder_append(out, "[");
                builder_append(out, "-");
                point_to_address(st, out, a);
                builder_append(out, "+");
                point_to_address(st, out, tmp);
                builder_append(out, "+");
                point_to_address(st, out, src);
                builder_append(out, "]");
                point_to_address(st, out, tmp);
                builder_append(out, "[");
                builder_append(out, "-");
                point_to_address(st, out, src);
                builder_append(out, "+");
                point_to_address(st, out, tmp);
                builder_append(out, "]");
                match st.delete("__temp") {
                    Ok(()) => {
                        proof {
                            assert(builder_view(*out) =~= view0 + copy_chars(
                                old(st)@.ptr,
                                a as nat,
                                tmp as nat,
                            ));
                        }
                        Ok(())
                    },
                    Err(e) => {
                        proof {
                            assert(false);
                        }
                        Err(e)
                    },
                }
            },
        },
    }
}

/// Compiles one statement: dispatches its kind to the translation rule,
/// mutating the state and appending the emitted instructions to the sink.
/// The result and every effect are exactly what `gen_stmt` says.
pub fn compile_statement(s: &Stmt, st: &mut State, out: &mut string_builder::Builder) -> (r:
    Result<(), CompileError>)
    requires
        old(st).wf(),
        builder_wf(*old(out)),
        old(st)@.alloc + decl_count(*s) <= u32::MAX,
    ensures
        final(st).wf(),
        builder_wf(*final(out)),
        final(st)@.alloc >= old(st)@.alloc,
        match r {
            Ok(()) => gen_stmt(*s, old(st)@) matches Ok(o) && final(st)@ == o.st && builder_view(
                *final(out),
            ) == builder_view(*old(out)) + o.text,
            Err(e) => gen_stmt(*s, old(st)@) == Err::<GenOut, ErrV>(e@),
        },
    decreases *s,
{
    match s {
        Stmt::Declare { name } => match st.declare(name.as_str()) {
            Ok(()) => {
                proof {
                    assert(builder_view(*out) + Seq::<char>::empty() =~= builder_view(*out));
                }
                Ok(())
            },
            Err(e) => Err(e),
        },
        Stmt::Delete { name } => match st.delete(name.as_str()) {
            Ok(()) => {
                proof {
                    assert(builder_view(*out) + Seq::<char>::empty() =~= builder_view(*out));
                }
                Ok(())
            },
            Err(e) => Err(e),
        },
        Stmt::Point { name } => match st.resolve(name.as_str()) {
            Ok(a) => {
                point_to_address(st, out, a);
                Ok(())
            },
            Err(e) => Err(e),
        },
        Stmt::PointAddr { operand } => match parse_constant(operand.as_str()) {
            Ok(a) => {
                point_to_address(st, out, a);
                Ok(())
            },
            Err(e) => Err(e),
        },
        Stmt::PointMarker { name } => match st.resolve(name.as_str()) {
            Ok(a) => {
                builder_append(out, "<+[-<+]-");
                st.set_pointer(a);
                proof {
                    reveal_strlit("<+[-<+]-");
                    assert("<+[-<+]-"@ =~= marker_chars());
                }
                Ok(())
            },
            Err(e) => Err(e),
        },
        Stmt::Add { operand } => match parse_constant(operand.as_str()) {
            Ok(n) => {
                proof {
                    reveal_strlit("+");
                }
                emit_repeat(out, "+", n as usize);
                Ok(())
            },
            Err(e) => Err(e),
        },
        Stmt::Sub { operand } => match parse_constant(operand.as_str()) {
            Ok(n) => {
                proof {
                    reveal_strlit("-");
                }
                emit_repeat(out, "-", n as usize);
                Ok(())
            },
            Err(e) => Err(e),
        },
        Stmt::AddV { name } => match st.resolve(name.as_str()) {
            Ok(a) => {
                proof {
                    reveal_strlit("+");
                }
                emit_transfer(st, out, a, "+");
                Ok(())
            },
            Err(e) => Err(e),
        },
        Stmt::SubV { name } => match st.resolve(name.as_str()) {
            Ok(a) => {
                proof {
                    reveal_strlit("-");
                }
                emit_transfer(st, out, a, "-");
                Ok(())
            },
            Err(e) => Err(e),
        },
        Stmt::CopyTo { name } => compile_copy(name.as_str(), st, out),
        Stmt::Zero => {
            builder_append(out, "[-]");
            proof {
                reveal_strlit("[-]");
                assert("[-]"@ =~= seq!['[', '-', ']']);
            }
            Ok(())
        },
        Stmt::ReadInput => {
            builder_append(out, ",");
            proof {
                reveal_strlit(",");
                assert(","@ =~= seq![',']);
            }
            Ok(())
        },
        Stmt::PrintOutput => {
            builder_append(out, ".");
            proof {
                reveal_strlit(".");
                assert("."@ =~= seq!['.']);
            }
            Ok(())
        },
        Stmt::LoopOpen => {
            builder_append(out, "[");
            proof {
                reveal_strlit("[");
                assert("["@ =~= seq!['[']);
            }
            Ok(())
        },
        Stmt::LoopClose => {
            builder_append(out, "]");
            proof {
                reveal_strlit("]");
                assert("]"@ =~= seq![']']);
            }
            Ok(())
        },
        Stmt::LoopBlock { body } => compile_statements(body, st, out),
        Stmt::Include { body } => compile_statements(body, st, out),
        Stmt::EndOfInput => {
            builder_append(out, "\n");
            proof {
                reveal_strlit("\n");
                assert("\n"@ =~= seq!['\n']);
            }
            Ok(())
        },
    }
}

/// Compiles a statement sequence in order, each statement from the state the
/// one before it left. The result and every effect are exactly what
/// `gen_seq` says.
#[verifier::loop_isolation(false)]
pub fn compile_statements(ss: &Vec<Stmt>, st: &mut State, out: &mut string_builder::Builder) -> (r:
    Result<(), CompileError>)
    requires
        old(st).wf(),
        builder_wf(*old(out)),
        old(st)@.alloc + decl_count_seq(ss@) <= u32::MAX,
    ensures
        final(st).wf(),
        builder_wf(*final(out)),
        final(st)@.alloc >= old(st)@.alloc,
        match r {
            Ok(()) => gen_seq(ss@, old(st)@) matches Ok(o) && final(st)@ == o.st && builder_view(
                *final(out),
            ) == builder_view(*old(out)) + o.text,
            Err(e) => gen_seq(ss@, old(st)@) == Err::<GenOut, ErrV>(e@),
        },
    decreases ss@,
{
    let ghost st0 = old(st)@;
    let ghost view0 = builder_view(*old(out));
    let n = ss.len();
    let mut i: usize = 0;
    proof {
        assert(ss@.subrange(0, 0) =~= Seq::<Stmt>::empty());
        assert(ss@.subrange(0, n as int) =~= ss@);
        assert(view0 + Seq::<char>::empty() =~= view0);
    }
    while i < n
        invariant
            i <= n,
            n == ss@.len(),
            st.wf(),
            builder_wf(*out),
            st@.alloc >= st0.alloc,
            st@.alloc + decl_count_seq(ss@.subrange(i as int, n as int)) <= u32::MAX,
            gen_seq(ss@.subrange(0, i as int), st0) matches Ok(o) && o.st == st@ && builder_view(
                *out,
            ) == view0 + o.text,
        decreases n - i,
    {
        let ghost pre = st@;
        let ghost prefix = ss@.subrange(0, i as int);
        let ghost opre = gen_seq(prefix, st0)->Ok_0;
        proof {
            lemma_decl_count_seq_split(ss@, i as int);
        }
        match compile_statement(&ss[i], st, out) {
            Err(e) => {
                proof {
                    assert(st@.alloc >= st0.alloc);
                    let suffix = ss@.subrange(i as int, n as int);
                    assert(ss@ =~= prefix + suffix);
                    lemma_gen_seq_concat(prefix, suffix, st0);
                    assert(suffix[0] == ss@[i as int]);
                    assert(gen_stmt(suffix[0], pre) == Err::<GenOut, ErrV>(e@));
                    assert(gen_seq(suffix, pre) == Err::<GenOut, ErrV>(e@));
                    assert(gen_seq(ss@, st0) == Err::<GenOut, ErrV>(e@));
                }
                return Err(e);
            },
            Ok(()) => {
                proof {
                    let ostep = gen_stmt(ss@[i as int], pre)->Ok_0;
                    lemma_alloc_bounds(ss@[i as int], pre);
                    let prefix1 = ss@.subrange(0, i + 1);
                    assert(prefix1 =~= prefix + seq![ss@[i as int]]);
                    lemma_gen_seq_concat(prefix, seq![ss@[i as int]], st0);
                    assert(seq![ss@[i as int]].drop_first() =~= Seq::<Stmt>::empty());
                    assert(seq![ss@[i as int]][0] == ss@[i as int]);
                    assert(ostep.text + Seq::<char>::empty() =~= ostep.text);
                    assert((view0 + opre.text) + ostep.text =~= view0 + (opre.text
                        + ostep.text));
                    assert(gen_seq(Seq::<Stmt>::empty(), ostep.st) == Ok::<GenOut, ErrV>(
                        GenOut { st: ostep.st, text: Seq::empty() },
                    ));
                    assert(gen_seq(seq![ss@[i as int]], pre) == Ok::<GenOut, ErrV>(
                        GenOut { st: ostep.st, text: ostep.text },
                    ));
                }
            },
        }
        i = i + 1;
    }
    Ok(())
}

/// Counts the declarations a statement performs, the reserved temporary of a
/// copy included.
fn count_declaration(s: &Stmt) -> (r: Option<u64>)
    ensures
        match r {
            Some(c) => c as nat == decl_count(*s),
            None => decl_count(*s) > u64::MAX,
        },
    decreases *s,
{
    match s {
        Stmt::Declare { .. } => Some(1),
        Stmt::CopyTo { .. } => Some(1),
        Stmt::LoopBlock { body } => count_declarations(body),
        Stmt::Include { body } => count_declarations(body),
        _ => Some(0),
    }
}

/// Counts the declarations a whole statement tree performs, so that a caller
/// can check a program against the 32-bit allocation counter before
/// compiling it.
pub fn count_declarations(ss: &Vec<Stmt>) -> (r: Option<u64>)
    ensures
        match r {
            Some(c) => c as nat == decl_count_seq(ss@),
            None => decl_count_seq(ss@) > u64::MAX,
        },
    decreases ss@,
{
    let n = ss.len();
    let mut total: u64 = 0;
    let mut i: usize = 0;
    proof {
        assert(ss@.subrange(0, n as int) =~= ss@);
    }
    while i < n
        invariant
            i <= n,
            n == ss@.len(),
            decl_count_seq(ss@) == total + decl_count_seq(ss@.subrange(i as int, n as int)),
        decreases n - i,
    {
        proof {
            lemma_decl_count_seq_split(ss@, i as int);
        }
        match count_declaration(&ss[i]) {
            None => {
                return None;
            },
            Some(c) => {
                match total.checked_add(c) {
                    None => {
                        return None;
                    },
                    Some(t) => {
                        total = t;
                    },
                }
            },
        }
        i = i + 1;
    }
    proof {
        assert(ss@.subrange(n as int, n as int) =~= Seq::<Stmt>::empty());
    }
    Some(total)
}

/// Compiles a whole program: walks the statement tree in order from the
/// initial state and returns the complete emitted instruction text, or the
/// first fatal condition met. The text is exactly what `gen_seq` says.
pub fn compile(program: &Vec<Stmt>) -> (r: Result<String, CompileError>)
    requires
        decl_count_seq(program@) <= u32::MAX,
    ensures
        match r {
            Ok(text) => gen_seq(program@, init_view()) matches Ok(o) && text@ == o.text,
            Err(e) => gen_seq(program@, init_view()) == Err::<GenOut, ErrV>(e@),
        },
{
    let mut st = State::new();
    let mut out = builder_new();
    match compile_statements(program, &mut st, &mut out) {
        Ok(()) => {
            proof {
                match gen_seq(program@, init_view()) {
                    Ok(o) => {
                        assert(Seq::<char>::empty() + o.text =~= o.text);
                    },
                    Err(_) => {},
                }
            }
            Ok(builder_string(out))
        },
        Err(e) => Err(e),
    }
}

} // verus!
