use vstd::prelude::*;

use crate::codegen::drain_both_chars;
use crate::codegen::gen_copy;
use crate::codegen::gen_seq;
use crate::codegen::gen_stmt;
use crate::codegen::init_view;
use crate::codegen::lemma_alloc_bounds;
use crate::codegen::move_chars;
use crate::codegen::repeat_char;
use crate::codegen::temp_name;
use crate::codegen::transfer_chars;
use crate::codegen::Stmt;
use crate::state::view_wf;
use crate::state::StView;

verus! {

// ---------------------------------------------------------------------------
// Allocation soundness: over any statement, generation never decreases the
// allocation counter (`lemma_alloc_bounds`), and it keeps the state sound:
// live addresses stay below the counter and no two simultaneously-live
// variables ever share an address.
// ---------------------------------------------------------------------------
/// Compiling one statement from a sound state leaves a sound state: the
/// counter never decreases, and no two live variables share an address.
pub proof fn lemma_gen_preserves_view_wf(s: Stmt, st: StView)
    requires
        view_wf(st),
    ensures
        gen_stmt(s, st) matches Ok(o) ==> view_wf(o.st) && o.st.alloc >= st.alloc,
    decreases s,
{
    lemma_alloc_bounds(s, st);
    match s {
        Stmt::LoopBlock { body } => lemma_gen_seq_preserves_view_wf(body@, st),
        Stmt::Include { body } => lemma_gen_seq_preserves_view_wf(body@, st),
        Stmt::CopyTo { name } => {
            if !st.vars.contains_key(temp_name()) {
                let vars1 = st.vars.insert(temp_name(), st.alloc);
                if vars1.contains_key(name@) {
                    assert(vars1.remove(temp_name()) =~= st.vars);
                }
            }
        },
        _ => {},
    }
}

/// Compiling any statement sequence from a sound state leaves a sound state.
pub proof fn lemma_gen_seq_preserves_view_wf(ss: Seq<Stmt>, st: StView)
    requires
        view_wf(st),
    ensures
        gen_seq(ss, st) matches Ok(o) ==> view_wf(o.st) && o.st.alloc >= st.alloc,
    decreases ss,
{
    if ss.len() > 0 {
        lemma_gen_preserves_view_wf(ss[0], st);
        match gen_stmt(ss[0], st) {
            Ok(o1) => lemma_gen_seq_preserves_view_wf(ss.drop_first(), o1.st),
            Err(_) => {},
        }
    }
}

// ---------------------------------------------------------------------------
// Pointer bookkeeping: replaying the emitted move instructions lands the
// head exactly at the tracked pointer position, for every statement free of
// point-to-marker nodes (the marker walk is not a distance-based move: where
// it appears, the generator trusts the sentinel protocol instead).
// ---------------------------------------------------------------------------
/// The head position that replaying a text's move instructions one after the
/// other produces from `p`: move-left steps left, move-right steps right,
/// and every other character leaves the head in place.
pub open spec fn replay_moves(s: Seq<char>, p: int) -> int
    decreases s,
{
    if s.len() == 0 {
        p
    } else {
        replay_moves(
            s.drop_first(),
            if s[0] == '<' {
                p - 1
            } else if s[0] == '>' {
                p + 1
            } else {
                p
            },
        )
    }
}

/// Whether a statement tree is free of point-to-marker nodes.
pub open spec fn no_marker(s: Stmt) -> bool
    decreases s,
{
    match s {
        Stmt::PointMarker { .. } => false,
        Stmt::LoopBlock { body } => no_marker_seq(body@),
        Stmt::Include { body } => no_marker_seq(body@),
        _ => true,
    }
}

pub open spec fn no_marker_seq(ss: Seq<Stmt>) -> bool
    decreases ss,
{
    ss.len() == 0 || (no_marker(ss[0]) && no_marker_seq(ss.drop_first()))
}

/// Replaying a concatenation is replaying the parts one after the other.
proof fn lemma_replay_concat(a: Seq<char>, b: Seq<char>, p: int)
    ensures
        replay_moves(a + b, p) == replay_moves(b, replay_moves(a, p)),
    decreases a,
{
    if a.len() == 0 {
        assert(a + b =~= b);
    } else {
        assert((a + b).drop_first() =~= a.drop_first() + b);
        let p1 = if a[0] == '<' {
            p - 1
        } else if a[0] == '>' {
            p + 1
        } else {
            p
        };
        lemma_replay_concat(a.drop_first(), b, p1);
    }
}

/// Replaying a run of one repeated character.
proof fn lemma_replay_repeat(c: char, n: nat, p: int)
    ensures
        replay_moves(repeat_char(c, n), p) == (if c == '<' {
            p - n
        } else if c == '>' {
            p + n
        } else {
            p
        }),
    decreases n,
{
    if n > 0 {
        assert(repeat_char(c, n).drop_first() =~= repeat_char(c, (n - 1) as nat));
        let p1 = if c == '<' {
            p - 1
        } else if c == '>' {
            p + 1
        } else {
            p
        };
        lemma_replay_repeat(c, (n - 1) as nat, p1);
    }
}

/// Replaying a move run shifts the head by the run's signed distance.
proof fn lemma_replay_move_chars(from: nat, to: nat, p: int)
    ensures
        replay_moves(move_chars(from, to), p) == p + to - from,
{
    if to < from {
        lemma_replay_repeat('<', (from - to) as nat, p);
    } else {
        lemma_replay_repeat('>', (to - from) as nat, p);
    }
}

/// Replaying one character.
proof fn lemma_replay_single(c: char, p: int)
    ensures
        replay_moves(seq![c], p) == (if c == '<' {
            p - 1
        } else if c == '>' {
            p + 1
        } else {
            p
        }),
{
    let p1 = if c == '<' {
        p - 1
    } else if c == '>' {
        p + 1
    } else {
        p
    };
    assert(seq![c][0] == c);
    assert(seq![c].drop_first() =~= Seq::<char>::empty());
    assert(replay_moves(Seq::<char>::empty(), p1) == p1);
}

/// Replaying a destructive transfer loop whose operation character is no
/// move returns the head to where it began.
proof fn lemma_replay_transfer(src: nat, target: nat, op: char, p: int)
    requires
        op != '<',
        op != '>',
    ensures
        replay_moves(transfer_chars(src, target, op), p) == p,
{
    let s1 = seq!['['];
    let s2 = seq!['-'];
    let m1 = move_chars(src, target);
    let s3 = seq![op];
    let m2 = move_chars(target, src);
    let s4 = seq![']'];
    lemma_replay_concat(s1 + s2 + m1 + s3 + m2, s4, p);
    lemma_replay_concat(s1 + s2 + m1 + s3, m2, p);
    lemma_replay_concat(s1 + s2 + m1, s3, p);
    lemma_replay_concat(s1 + s2, m1, p);
    lemma_replay_concat(s1, s2, p);
    lemma_replay_single('[', p);
    lemma_replay_single('-', p);
    lemma_replay_move_chars(src, target, p);
    lemma_replay_single(op, p + target - src);
    lemma_replay_move_chars(target, src, p + target - src);
    lemma_replay_single(']', p);
}

/// Replaying the copy's first phase returns the head to where it began.
proof fn lemma_replay_drain_both(src: nat, target: nat, tmp: nat, p: int)
    ensures
        replay_moves(drain_both_chars(src, target, tmp), p) == p,
{
    let s1 = seq!['['];
    let s2 = seq!['-'];
    let m1 = move_chars(src, target);
    let s3 = seq!['+'];
    let m2 = move_chars(target, tmp);
    let s4 = seq!['+'];
    let m3 = move_chars(tmp, src);
    let s5 = seq![']'];
    lemma_replay_concat(s1 + s2 + m1 + s3 + m2 + s4 + m3, s5, p);
    lemma_replay_concat(s1 + s2 + m1 + s3 + m2 + s4, m3, p);
    lemma_replay_concat(s1 + s2 + m1 + s3 + m2, s4, p);
    lemma_replay_concat(s1 + s2 + m1 + s3, m2, p);
    lemma_replay_concat(s1 + s2 + m1, s3, p);
    lemma_replay_concat(s1 + s2, m1, p);
    lemma_replay_concat(s1, s2, p);
    lemma_replay_single('[', p);
    lemma_replay_single('-', p);
    lemma_replay_move_chars(src, target, p);
    lemma_replay_single('+', p + target - src);
    lemma_replay_move_chars(target, tmp, p + target - src);
    lemma_replay_single('+', p + tmp - src);
    lemma_replay_move_chars(tmp, src, p + tmp - src);
    lemma_replay_single(']', p);
}

/// Law: after compiling any marker-free statement, replaying the emitted
/// move instructions from the tracked head position lands exactly at the new
/// tracked position.
pub proof fn lemma_replay_tracks_pointer(s: Stmt, st: StView)
    requires
        no_marker(s),
    ensures
        gen_stmt(s, st) matches Ok(o) ==> replay_moves(o.text, st.ptr as int) == o.st.ptr as int,
    decreases s,
{
    let p = st.ptr as int;
    match s {
        Stmt::Declare { .. } => {},
        Stmt::Delete { .. } => {},
        Stmt::Point { name } => {
            if st.vars.contains_key(name@) {
                lemma_replay_move_chars(st.ptr, st.vars[name@], p);
            }
        },
        Stmt::PointAddr { operand } => {
            match crate::literal::literal_value(operand@) {
                Some(a) => lemma_replay_move_chars(st.ptr, a as nat, p),
                None => {},
            }
        },
        Stmt::Add { operand } => {
            match crate::literal::literal_value(operand@) {
                Some(n) => lemma_replay_repeat('+', n as nat, p),
                None => {},
            }
        },
        Stmt::Sub { operand } => {
            match crate::literal::literal_value(operand@) {
                Some(n) => lemma_replay_repeat('-', n as nat, p),
                None => {},
            }
        },
        Stmt::AddV { name } => {
            if st.vars.contains_key(name@) {
                lemma_replay_transfer(st.ptr, st.vars[name@], '+', p);
            }
        },
        Stmt::SubV { name } => {
            if st.vars.contains_key(name@) {
                lemma_replay_transfer(st.ptr, st.vars[name@], '-', p);
            }
        },
        Stmt::CopyTo { name } => {
            match gen_copy(name@, st) {
                Ok(_) => {
                    let vars1 = st.vars.insert(temp_name(), st.alloc);
                    let a = vars1[name@];
                    let tmp = st.alloc;
                    lemma_replay_concat(
                        drain_both_chars(st.ptr, a, tmp) + move_chars(st.ptr, tmp),
                        transfer_chars(tmp, st.ptr, '+'),
                        p,
                    );
                    lemma_replay_concat(
                        drain_both_chars(st.ptr, a, tmp),
                        move_chars(st.ptr, tmp),
                        p,
                    );
                    lemma_replay_drain_both(st.ptr, a, tmp, p);
                    lemma_replay_move_chars(st.ptr, tmp, p);
                    lemma_replay_transfer(tmp, st.ptr, '+', p + tmp - st.ptr);
                },
                Err(_) => {},
            }
        },
        Stmt::Zero => {
            lemma_replay_single('[', p);
            lemma_replay_concat(seq!['[', '-'], seq![']'], p);
            assert(seq!['[', '-', ']'] =~= seq!['[', '-'] + seq![']']);
            assert(seq!['[', '-'].drop_first() =~= seq!['-']);
            lemma_replay_single('-', p);
            lemma_replay_single(']', p);
        },
        Stmt::ReadInput => lemma_replay_single(',', p),
        Stmt::PrintOutput => lemma_replay_single('.', p),
        Stmt::LoopOpen => lemma_replay_single('[', p),
        Stmt::LoopClose => lemma_replay_single(']', p),
        Stmt::LoopBlock { body } => lemma_replay_tracks_pointer_seq(body@, st),
        Stmt::Include { body } => lemma_replay_tracks_pointer_seq(body@, st),
        Stmt::EndOfInput => lemma_replay_single('\n', p),
        Stmt::PointMarker { .. } => {},
    }
}

/// Law: the same, over a marker-free statement sequence.
pub proof fn lemma_replay_tracks_pointer_seq(ss: Seq<Stmt>, st: StView)
    requires
        no_marker_seq(ss),
    ensures
        gen_seq(ss, st) matches Ok(o) ==> replay_moves(o.text, st.ptr as int) == o.st.ptr as int,
    decreases ss,
{
    if ss.len() > 0 {
        lemma_replay_tracks_pointer(ss[0], st);
        match gen_stmt(ss[0], st) {
            Ok(o1) => {
                lemma_replay_tracks_pointer_seq(ss.drop_first(), o1.st);
                match gen_seq(ss.drop_first(), o1.st) {
                    Ok(o2) => {
                        lemma_replay_concat(o1.text, o2.text, st.ptr as int);
                    },
                    Err(_) => {},
                }
            },
            Err(_) => {},
        }
    }
}

/// Law: replaying all move instructions of a successfully compiled
/// marker-free program from address 0 lands the head exactly at the final
/// tracked pointer position.
pub proof fn lemma_replay_program(ss: Seq<Stmt>)
    requires
        no_marker_seq(ss),
    ensures
        gen_seq(ss, init_view()) matches Ok(o) ==> replay_moves(o.text, 0) == o.st.ptr as int,
{
    lemma_replay_tracks_pointer_seq(ss, init_view());
}

} // verus!
